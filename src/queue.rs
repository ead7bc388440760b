//! The per-connection outbound queue: a channel of the `may` runtime whose
//! sending half the registry holds and whose receiving half the connection's
//! writer drains.
use vstd::prelude::*;

verus! {

#[verifier::external_type_specification]
#[verifier::external_body]
#[verifier::reject_recursive_types(T)]
pub struct ExSender<T>(may::sync::mpsc::Sender<T>);

#[verifier::external_type_specification]
#[verifier::external_body]
#[verifier::reject_recursive_types(T)]
pub struct ExReceiver<T>(may::sync::mpsc::Receiver<T>);

/// The producing half of an outbound queue.
pub type QueueSender = may::sync::mpsc::Sender<Vec<u8>>;

/// The consuming half of an outbound queue.
pub type QueueReceiver = may::sync::mpsc::Receiver<Vec<u8>>;

/// Relies on may::sync::mpsc::channel: a fresh unbounded queue, both halves
/// of it.
#[verifier::external_body]
pub(crate) fn new_queue() -> (r: (QueueSender, QueueReceiver)) {
    may::sync::mpsc::channel()
}

/// Relies on may::sync::mpsc::Sender::send: the payload is pushed onto the
/// queue unless its receiving half is gone. Whether it was depends on the
/// other side, so nothing is promised of the result.
#[verifier::external_body]
pub(crate) fn enqueue(tx: &QueueSender, payload: Vec<u8>) -> (accepted: bool) {
    tx.send(payload).is_ok()
}

} // verus!
