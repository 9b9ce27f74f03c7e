//! The channels between the pool and a VM.

use tokio::sync::mpsc;
use vstd::prelude::*;

use crate::protocol::{AppProtocol, NullProtocol, VmCommand, VmEvent};

verus! {

/// The sending half of a bounded channel.
#[verifier::external_type_specification]
#[verifier::external_body]
#[verifier::reject_recursive_types(T)]
pub struct ExMpscSender<T>(mpsc::Sender<T>);

/// The receiving half of a bounded channel.
#[verifier::external_type_specification]
#[verifier::external_body]
#[verifier::reject_recursive_types(T)]
pub struct ExMpscReceiver<T>(mpsc::Receiver<T>);

/// Handle to a running VM, providing command/event channels.
#[verifier::reject_recursive_types(P)]
pub struct VmHandle<P: AppProtocol = NullProtocol> {
    pub command_tx: mpsc::Sender<VmCommand<P>>,
    pub event_rx: mpsc::Receiver<VmEvent<P>>,
}

/// `mpsc::channel` makes a bounded channel, and panics on a capacity of zero or above an eighth of what a
/// `usize` holds. Nothing is claimed of the two halves: what a send or a receive on them gives is found out
/// by doing it.
#[verifier::external_body]
pub(crate) fn open_channel<T>(capacity: usize) -> (halves: (mpsc::Sender<T>, mpsc::Receiver<T>))
    requires
        0 < capacity <= usize::MAX / 8,
{
    mpsc::channel(capacity)
}

} // verus!
