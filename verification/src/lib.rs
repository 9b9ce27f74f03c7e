//! A pool of isolated Linux VMs for running workloads.
//!
//! This crate holds what a pool service decides and keeps books of: which VMs there are and which one has
//! to go, the event log and the log buffers, the metadata of images and snapshots, the command interface of
//! the service and the supervisor inside a VM. Sockets, processes and files are left to the program around
//! it, which asks for a decision, carries it out and hands back what came of it.

pub mod catalog;
pub mod channel;
pub mod client;
pub mod clock;
pub mod events;
pub mod feed;
pub mod images;
pub mod path;
pub mod pool;
pub mod protocol;
pub mod runtime;
pub mod service;
pub mod snapshot;
pub mod supervisor;
pub mod table;
pub mod text;
pub mod transport;
