//! The bounded queues between threads. What is in a queue at a moment is
//! up to the threads at its two ends, so nothing here says what a queue
//! holds: a call gives what it gives, and what follows is stated for every
//! outcome.

use vstd::prelude::*;

verus! {

#[verifier::external_type_specification]
#[verifier::external_body]
#[verifier::reject_recursive_types(T)]
pub struct ExSender<T>(crossbeam_channel::Sender<T>);

#[verifier::external_type_specification]
#[verifier::external_body]
#[verifier::reject_recursive_types(T)]
pub struct ExReceiver<T>(crossbeam_channel::Receiver<T>);

/// Calls `bounded` of the crate `crossbeam_channel`: a queue that holds at
/// most `cap` messages, as its two ends. The crate panics on a capacity
/// whose next power of two, doubled, does not fit the machine's word; such
/// capacities are left out.
#[verifier::external_body]
pub(crate) fn bounded<T>(cap: usize) -> (ends: (
    crossbeam_channel::Sender<T>,
    crossbeam_channel::Receiver<T>,
))
    requires
        cap <= 0xffff,
{
    crossbeam_channel::bounded(cap)
}

/// Calls `Sender::send` of the crate `crossbeam_channel`, which waits while
/// the queue is full, until the queue takes the message or its receivers
/// are gone. Whether the message is taken depends on the receivers; the
/// contract says only that a message that is not taken comes back as it
/// was.
#[verifier::external_body]
pub(crate) fn send<T>(sender: &crossbeam_channel::Sender<T>, message: T) -> (r: Result<(), T>)
    ensures
        r is Err ==> r->Err_0 == message,
{
    sender.send(message).map_err(|e| e.into_inner())
}

/// Calls `Receiver::recv` of the crate `crossbeam_channel`, which waits for
/// a message until one is there or the senders are gone, and then gives
/// nothing. What comes depends on the senders: nothing is promised.
#[verifier::external_body]
pub(crate) fn recv<T>(receiver: &crossbeam_channel::Receiver<T>) -> (message: Option<T>) {
    receiver.recv().ok()
}

/// Calls `Receiver::try_recv` of the crate `crossbeam_channel`: the oldest
/// message if one is there at this moment. What is there depends on the
/// senders: nothing is promised.
#[verifier::external_body]
pub(crate) fn try_recv<T>(receiver: &crossbeam_channel::Receiver<T>) -> (message: Option<T>) {
    receiver.try_recv().ok()
}

/// Calls `Receiver::is_empty` of the crate `crossbeam_channel`: whether no
/// message is there at this moment. Nothing is promised of the answer.
#[verifier::external_body]
pub(crate) fn is_empty<T>(receiver: &crossbeam_channel::Receiver<T>) -> (empty: bool) {
    receiver.is_empty()
}

} // verus!
