//! The channels between a client and the loop that drives its connection.
//!
//! The channel types come from `tokio`, and are opaque here. What is in a channel depends on the
//! task at its other end, so nothing is said of it.

use vstd::prelude::*;

verus! {

/// The sending end of a queue.
#[verifier::external_type_specification]
#[verifier::external_body]
#[verifier::reject_recursive_types(T)]
pub struct ExUnboundedSender<T>(tokio::sync::mpsc::UnboundedSender<T>);

/// The receiving end of a queue.
#[verifier::external_type_specification]
#[verifier::external_body]
#[verifier::reject_recursive_types(T)]
pub struct ExUnboundedReceiver<T>(tokio::sync::mpsc::UnboundedReceiver<T>);

/// The sending end of a channel for a single value.
#[verifier::external_type_specification]
#[verifier::external_body]
#[verifier::reject_recursive_types(T)]
pub struct ExOneshotSender<T>(tokio::sync::oneshot::Sender<T>);

/// Puts a message into a queue with `UnboundedSender::send`. The message is refused once the other
/// end of the queue is closed.
#[verifier::external_body]
pub(crate) fn send<T>(sender: &tokio::sync::mpsc::UnboundedSender<T>, message: T) -> (accepted:
    bool) {
    sender.send(message).is_ok()
}

/// Makes another handle to the same queue with `UnboundedSender`'s `Clone`. A sender is nothing but
/// such a handle, so the two are the same.
#[verifier::external_body]
pub(crate) fn clone_sender<T>(sender: &tokio::sync::mpsc::UnboundedSender<T>) -> (clone:
    tokio::sync::mpsc::UnboundedSender<T>)
    ensures
        clone == *sender,
{
    sender.clone()
}

/// Tells with `UnboundedSender::is_closed` whether the other end of a queue is closed.
#[verifier::external_body]
pub(crate) fn is_sender_closed<T>(sender: &tokio::sync::mpsc::UnboundedSender<T>) -> (closed: bool) {
    sender.is_closed()
}

/// Tells with `UnboundedReceiver::is_closed` whether the other end of a queue is closed.
#[verifier::external_body]
pub(crate) fn is_receiver_closed<T>(receiver: &tokio::sync::mpsc::UnboundedReceiver<T>) -> (closed:
    bool) {
    receiver.is_closed()
}

} // verus!
