//! The live feed of event numbers, carried by a broadcast channel.

use tokio::sync::broadcast;
use vstd::prelude::*;

verus! {

/// The sending half of a broadcast channel.
#[verifier::external_type_specification]
#[verifier::external_body]
#[verifier::reject_recursive_types(T)]
pub struct ExSender<T>(broadcast::Sender<T>);

/// The receiving half of a broadcast channel.
#[verifier::external_type_specification]
#[verifier::external_body]
#[verifier::reject_recursive_types(T)]
pub struct ExReceiver<T>(broadcast::Receiver<T>);

/// The numbers that have been handed to the channel of a sender, oldest first.
pub uninterp spec fn announced(sender: broadcast::Sender<u64>) -> Seq<u64>;

/// The numbers that were handed to the channel of a receiver before it subscribed, and that it does not
/// get.
pub uninterp spec fn missed(receiver: broadcast::Receiver<u64>) -> Seq<u64>;

/// The number of values that the channel of a sender keeps for receivers that are behind.
pub uninterp spec fn depth(sender: broadcast::Sender<u64>) -> nat;

/// The number of values by which a receiver can be behind without losing any.
pub uninterp spec fn slack(receiver: broadcast::Receiver<u64>) -> nat;

/// Whether a sender and a receiver are the two ends of one channel, so that the receiver gets what is sent
/// after it subscribed.
pub uninterp spec fn same_feed(
    sender: broadcast::Sender<u64>,
    receiver: broadcast::Receiver<u64>,
) -> bool;

/// `broadcast::channel` makes a channel that keeps the last `capacity` values, or some more, for receivers
/// that are behind, and panics on a capacity of zero or above half of what a `usize` holds. The receiver
/// that comes with it is dropped. Claimed of it: nothing has been handed to the channel yet, and it keeps
/// `capacity` values at least.
#[verifier::external_body]
pub(crate) fn open_feed(capacity: usize) -> (sender: broadcast::Sender<u64>)
    requires
        0 < capacity <= usize::MAX / 2,
    ensures
        announced(sender) == Seq::<u64>::empty(),
        depth(sender) >= capacity,
{
    let (sender, _) = broadcast::channel(capacity);
    sender
}

/// `broadcast::Sender::send` hands a value to every receiver that has subscribed; its answer, the number
/// of those or the error that there is none, is dropped. Claimed of it: the value comes after all that
/// were handed to the channel before, and the sender stays on its channel, which keeps as many values as
/// before.
#[verifier::external_body]
pub(crate) fn announce(sender: &mut broadcast::Sender<u64>, number: u64)
    ensures
        announced(*final(sender)) == announced(*old(sender)).push(number),
        depth(*final(sender)) == depth(*old(sender)),
        forall|receiver: broadcast::Receiver<u64>| #[trigger]
            same_feed(*final(sender), receiver) == same_feed(*old(sender), receiver),
{
    let _ = sender.send(number);
}

/// `broadcast::Sender::subscribe` makes a receiver of the values that are sent after the call. Claimed of
/// it: the receiver is on the channel of the sender, what was handed to the channel before the call is what the receiver misses, and it can be behind by
/// as many values as the channel keeps. It panics where a quarter of what a `usize` counts are subscribed
/// already, for which no machine has the memory.
#[verifier::external_body]
pub(crate) fn listen(sender: &broadcast::Sender<u64>) -> (receiver: broadcast::Receiver<u64>)
    ensures
        same_feed(*sender, receiver),
        missed(receiver) == announced(*sender),
        slack(receiver) == depth(*sender),
{
    sender.subscribe()
}

} // verus!
