//! Broadcast channels of `tokio`, and the handles of its tasks and queues that are only
//! carried through.

use tokio::sync::broadcast;
use vstd::prelude::*;

verus! {

/// The sending half of a broadcast channel.
#[verifier::external_type_specification]
#[verifier::external_body]
#[verifier::reject_recursive_types(T)]
pub struct ExBroadcastSender<T>(tokio::sync::broadcast::Sender<T>);

/// The receiving half of a broadcast channel.
#[verifier::external_type_specification]
#[verifier::external_body]
#[verifier::reject_recursive_types(T)]
pub struct ExBroadcastReceiver<T>(tokio::sync::broadcast::Receiver<T>);

/// The sending half of a bounded queue.
#[verifier::external_type_specification]
#[verifier::external_body]
#[verifier::reject_recursive_types(T)]
pub struct ExQueueSender<T>(tokio::sync::mpsc::Sender<T>);

/// The receiving half of an unbounded queue.
#[verifier::external_type_specification]
#[verifier::external_body]
#[verifier::reject_recursive_types(T)]
pub struct ExUnboundedReceiver<T>(tokio::sync::mpsc::UnboundedReceiver<T>);

/// The handle of a spawned task.
#[verifier::external_type_specification]
#[verifier::external_body]
#[verifier::reject_recursive_types(T)]
pub struct ExJoinHandle<T>(tokio::task::JoinHandle<T>);

/// What a spawned task can end with instead of its result.
#[verifier::external_type_specification]
#[verifier::external_body]
pub struct ExJoinError(tokio::task::JoinError);

/// The messages handed to `send` of a broadcast channel so far, oldest first, whether or not a
/// receiver was there to get them.
pub uninterp spec fn sent(channel: broadcast::Sender<String>) -> Seq<Seq<char>>;

/// The number of messages that a broadcast channel was asked to retain for a slow receiver.
pub uninterp spec fn retained(channel: broadcast::Sender<String>) -> nat;

/// The messages that had been handed to `send` when a receiver joined. The receiver gets none
/// of these and every later one, as long as it does not fall behind by more than the channel
/// retains.
pub uninterp spec fn missed(receiver: broadcast::Receiver<String>) -> Seq<Seq<char>>;

/// Whether a receiver is one of this channel, that is whether it joined the channel and hears
/// what is sent on it. Which channel a receiver hears never changes.
pub uninterp spec fn feeds(
    channel: broadcast::Sender<String>,
    receiver: broadcast::Receiver<String>,
) -> bool;

/// Calls `tokio::sync::broadcast::channel` and drops the receiver that comes with it. Trusted:
/// nothing has been sent on a new channel, and it retains as many messages as asked for (it
/// rounds that number up to a power of two).
#[verifier::external_body]
pub(crate) fn open_channel(capacity: usize) -> (channel: broadcast::Sender<String>)
    requires
        0 < capacity <= usize::MAX / 2,
    ensures
        sent(channel) == Seq::<Seq<char>>::empty(),
        retained(channel) == capacity,
{
    let (channel, _) = broadcast::channel(capacity);
    channel
}

/// Calls `tokio::sync::broadcast::Sender::send` and ignores whether a receiver was there.
/// Trusted: the message comes after all that were handed over before, and the channel stays the
/// same one, with the same receivers.
#[verifier::external_body]
pub(crate) fn send(channel: &mut broadcast::Sender<String>, message: String)
    ensures
        sent(*final(channel)) == sent(*old(channel)).push(message@),
        retained(*final(channel)) == retained(*old(channel)),
        forall|receiver: broadcast::Receiver<String>| #[trigger]
            feeds(*final(channel), receiver) == feeds(*old(channel), receiver),
{
    let _ = channel.send(message);
}

/// Calls `tokio::sync::broadcast::Sender::subscribe`, which panics only beyond more receivers
/// than memory can hold. Trusted: the receiver is one of this channel. It gets what is sent after
/// this call, and nothing of what was sent before.
#[verifier::external_body]
pub(crate) fn join(channel: &broadcast::Sender<String>) -> (receiver: broadcast::Receiver<String>)
    ensures
        feeds(*channel, receiver),
        missed(receiver) == sent(*channel),
{
    channel.subscribe()
}

} // verus!
