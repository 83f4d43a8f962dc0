//! The one-shot channels that carry a stop notification, and the receipt of
//! a send on one of them. A `Delivery` can only be had by sending: its field
//! is private to this module, and the send below is the one place that makes
//! one.
use vstd::prelude::*;
use tokio::sync::oneshot::{Receiver, Sender};

verus! {

#[verifier::external_type_specification]
#[verifier::external_body]
#[verifier::reject_recursive_types(T)]
pub struct ExSender<T>(tokio::sync::oneshot::Sender<T>);

#[verifier::external_type_specification]
#[verifier::external_body]
#[verifier::reject_recursive_types(T)]
pub struct ExReceiver<T>(tokio::sync::oneshot::Receiver<T>);

#[verifier::external_type_specification]
#[verifier::external_body]
pub struct ExRecvError(tokio::sync::oneshot::error::RecvError);

/// Relies on `tokio::sync::oneshot::channel`: a fresh producer/consumer pair.
pub assume_specification<T>[ tokio::sync::oneshot::channel::<T> ]() -> (Sender<T>, Receiver<T>);

/// The receipt of one stop notification sent on a producer, which the send
/// consumed: whether the consumer was still there to take it.
#[derive(Debug)]
pub struct Delivery {
    accepted: bool,
}

impl Delivery {
    pub closed spec fn is_accepted(self) -> bool {
        self.accepted
    }

    /// Whether the consumer was still there when the notification was sent.
    pub fn accepted(&self) -> (r: bool)
        ensures
            r == self.is_accepted(),
    {
        self.accepted
    }
}

/// Relies on `tokio::sync::oneshot::Sender::send`: it consumes the producer,
/// stores the notification for the consumer, and answers `Ok` unless the
/// consumer was already gone.
#[verifier::external_body]
pub(crate) fn send_stop(tx: Sender<()>) -> (r: Delivery) {
    Delivery { accepted: tx.send(()).is_ok() }
}

/// How many of the receipts found their consumer still there.
pub open spec fn accepted_count(receipts: Seq<Delivery>) -> nat
    decreases receipts.len(),
{
    if receipts.len() == 0 {
        0
    } else {
        accepted_count(receipts.drop_last()) + if receipts.last().is_accepted() { 1nat } else { 0nat }
    }
}

} // verus!
