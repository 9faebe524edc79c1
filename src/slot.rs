//! The single-use completion slot of an outbound message.

use vstd::prelude::*;
use tokio::sync::oneshot::Sender;

verus! {

#[verifier::external_type_specification]
#[verifier::external_body]
#[verifier::reject_recursive_types(T)]
pub struct ExSender<T>(Sender<T>);

/// Relies on tokio's `oneshot::Sender::send`: it consumes the sender and,
/// when the receiver has already gone away, hands the very value back.
pub assume_specification<T>[ Sender::<T>::send ](s: Sender<T>, t: T) -> (r: Result<(), T>)
    ensures
        r is Err ==> r->Err_0 == t,
;

/// Where the submitter of a message learns how its write went.
///
/// The slot can be fulfilled once. Later fulfillments are ignored, so the
/// first outcome handed to it is the one the submitter observes.
#[verifier::reject_recursive_types(T)]
pub struct CompletionSlot<T> {
    sender: Option<Sender<T>>,
    delivered: Ghost<Option<T>>,
}

impl<T> CompletionSlot<T> {
    /// The outcome the slot was fulfilled with, if it was.
    pub closed spec fn outcome(&self) -> Option<T> {
        self.delivered@
    }

    /// The sender is held exactly while no outcome has been delivered.
    pub closed spec fn wf(&self) -> bool {
        self.sender is Some <==> self.delivered@ is None
    }

    /// A slot that reports its outcome through `sender`.
    pub fn new(sender: Sender<T>) -> (r: Self)
        ensures
            r.wf(),
            r.outcome() is None,
    {
        CompletionSlot { sender: Some(sender), delivered: Ghost(None) }
    }

    pub fn is_fulfilled(&self) -> (r: bool)
        requires
            self.wf(),
        ensures
            r == self.outcome() is Some,
    {
        self.sender.is_none()
    }

    /// Fulfills the slot with `v` unless it was fulfilled before; returns
    /// whether this call was the one that fulfilled it.
    pub fn fulfill(&mut self, v: T) -> (r: bool)
        requires
            old(self).wf(),
        ensures
            final(self).wf(),
            final(self).outcome() is Some,
            r == old(self).outcome() is None,
            r ==> final(self).outcome() == Some(v),
            !r ==> final(self).outcome() == old(self).outcome(),
    {
        match self.sender.take() {
            Some(tx) => {
                self.delivered = Ghost(Some(v));
                // A receiver that went away no longer cares for the outcome.
                let _ = tx.send(v);
                true
            },
            None => false,
        }
    }
}

/// An outbound message together with the slot that reports its write.
#[verifier::reject_recursive_types(E)]
pub struct SendingMessage<F, E> {
    pub msg: F,
    pub slot: CompletionSlot<Result<(), E>>,
}

impl<F, E> SendingMessage<F, E> {
    /// The message `msg`, whose write is reported through `sender`.
    pub fn new(msg: F, sender: Sender<Result<(), E>>) -> (r: Self)
        ensures
            r.msg == msg,
            r.slot.wf(),
            r.slot.outcome() is None,
    {
        SendingMessage { msg, slot: CompletionSlot::new(sender) }
    }

    /// Reports `result` to the submitter unless it was told before.
    pub fn send_result(&mut self, result: Result<(), E>) -> (r: bool)
        requires
            old(self).slot.wf(),
        ensures
            final(self).slot.wf(),
            final(self).slot.outcome() is Some,
            final(self).msg == old(self).msg,
            r == old(self).slot.outcome() is None,
            r ==> final(self).slot.outcome() == Some(result),
            !r ==> final(self).slot.outcome() == old(self).slot.outcome(),
    {
        self.slot.fulfill(result)
    }
}

} // verus!
