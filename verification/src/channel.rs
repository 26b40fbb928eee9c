//! Trusted declarations of the standard multi-producer single-consumer
//! channel, and the handful of calls into it that the document makes.
//!
//! The channel is the one shared resource between edit producers and the
//! processing loop. What a receive returns depends on what other threads
//! have sent, so none of these contracts pins a value down: verified code
//! takes whatever came back as an argument and is proved for every value.

use crate::doc::DocumentEdit;
use crate::doc::DocumentEvent;
use std::sync::mpsc::Receiver;
use std::sync::mpsc::Sender;
use vstd::prelude::*;

verus! {

#[verifier::external_type_specification]
#[verifier::external_body]
#[verifier::reject_recursive_types(T)]
pub struct ExSender<T>(Sender<T>);

#[verifier::external_type_specification]
#[verifier::external_body]
#[verifier::reject_recursive_types(T)]
pub struct ExReceiver<T>(Receiver<T>);

/// Relies on std::sync::mpsc::channel: creates a new asynchronous queue,
/// returning the producer and consumer halves. Nothing is assumed of the
/// pair beyond its types.
#[verifier::external_body]
pub(crate) fn new_edit_channel() -> (Sender<DocumentEdit>, Receiver<DocumentEdit>) {
    std::sync::mpsc::channel()
}

/// Relies on Sender::clone: a second producer handle for the same queue.
/// Nothing is assumed of the returned handle beyond its type.
pub assume_specification<T>[ <Sender<T> as Clone>::clone ](s: &Sender<T>) -> Sender<T>;

/// Relies on Sender::send: queues the event if a consumer is still alive.
/// Returns whether the send was accepted; a failed delivery is the caller's
/// to drop silently.
#[verifier::external_body]
pub(crate) fn send_event(s: &Sender<DocumentEvent>, ev: DocumentEvent) -> bool {
    match s.send(ev) {
        Ok(()) => true,
        Err(_) => false,
    }
}

/// Relies on Receiver::recv: blocks until a command is available and returns
/// it, or returns nothing once every producer handle is dropped and the
/// queue has drained. Which command arrives depends on the producers, so
/// nothing is stated of the value.
#[verifier::external_body]
pub(crate) fn recv_edit(r: &Receiver<DocumentEdit>) -> Option<DocumentEdit> {
    match r.recv() {
        Ok(ev) => Some(ev),
        Err(_) => None,
    }
}

/// Relies on Receiver::try_recv: returns a queued command without blocking,
/// or nothing when the queue is currently empty or disconnected.
#[verifier::external_body]
pub(crate) fn try_recv_edit(r: &Receiver<DocumentEdit>) -> Option<DocumentEdit> {
    match r.try_recv() {
        Ok(ev) => Some(ev),
        Err(_) => None,
    }
}

} // verus!
