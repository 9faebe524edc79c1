//! The writer unit: drains outbound messages onto the write half.
//!
//! The unit alternates between asking its delegate for the next message and
//! writing that message out. Each written message has its slot fulfilled
//! with the write's outcome; a failed write is also reported to the
//! delegate, and the unit goes on with the next message. When the source of
//! messages closes, the unit exits.

use vstd::prelude::*;
use crate::slot::SendingMessage;

verus! {

/// What the writer unit does, as recorded in the model of a run. Messages
/// are numbered from zero in the order the source yields them.
pub enum WriterEffect {
    /// Message `i` is written out.
    Write(nat),
    /// The slot of message `i` is fulfilled, with success or with failure.
    Fulfill(nat, bool),
    /// The delegate is told that writing message `i` failed.
    Disconnect(nat),
    /// The delegate's exit hook runs.
    Exit,
}

/// The effects of message `i`, whose write succeeded when `ok`.
pub open spec fn message_effects(i: nat, ok: bool) -> Seq<WriterEffect> {
    if ok {
        seq![WriterEffect::Write(i), WriterEffect::Fulfill(i, true)]
    } else {
        seq![WriterEffect::Write(i), WriterEffect::Fulfill(i, false), WriterEffect::Disconnect(i)]
    }
}

/// The effects of handling messages whose writes went as `oks` says.
pub open spec fn writer_trace(oks: Seq<bool>) -> Seq<WriterEffect>
    decreases oks.len(),
{
    if oks.len() == 0 {
        seq![]
    } else {
        writer_trace(oks.drop_last()) + message_effects((oks.len() - 1) as nat, oks.last())
    }
}

/// The effects of a whole run: the source yields `oks.len()` messages,
/// whose writes go as `oks` says, and then closes.
pub open spec fn writer_run(oks: Seq<bool>) -> Seq<WriterEffect> {
    writer_trace(oks).push(WriterEffect::Exit)
}

/// The slot fulfillments among `t`, in order.
pub open spec fn fulfillments(t: Seq<WriterEffect>) -> Seq<WriterEffect> {
    t.filter(|e: WriterEffect| e is Fulfill)
}

#[derive(PartialEq, Eq, Structural, Clone, Copy, Debug)]
pub enum WriterPhase {
    /// Waiting for the next message from the source.
    Receiving,
    /// Waiting for the write of the current message to finish.
    Writing,
    /// The source closed and the unit is done.
    Exited,
}

/// What the loop around the unit is to do next.
#[derive(PartialEq, Eq, Structural, Clone, Copy, Debug)]
pub enum WriterAction {
    /// Write the message just received.
    Write,
    /// Run the delegate's exit hook; the unit is done.
    Exit,
}

/// The writer unit's state.
pub struct WriterUnit {
    phase: WriterPhase,
    oks: Ghost<Seq<bool>>,
    trace: Ghost<Seq<WriterEffect>>,
}

impl WriterUnit {
    pub closed spec fn phase(&self) -> WriterPhase {
        self.phase
    }

    /// How the writes of the messages handled so far went, in order.
    pub closed spec fn outcomes(&self) -> Seq<bool> {
        self.oks@
    }

    /// Everything the unit has done so far.
    pub closed spec fn trace(&self) -> Seq<WriterEffect> {
        self.trace@
    }

    /// The trace is always the model's, for the outcomes seen so far.
    pub open spec fn wf(&self) -> bool {
        match self.phase() {
            WriterPhase::Receiving => self.trace() == writer_trace(self.outcomes()),
            WriterPhase::Writing => self.trace() == writer_trace(self.outcomes()).push(
                WriterEffect::Write(self.outcomes().len()),
            ),
            WriterPhase::Exited => self.trace() == writer_run(self.outcomes()),
        }
    }

    pub fn new() -> (r: Self)
        ensures
            r.wf(),
            r.phase() == WriterPhase::Receiving,
            r.outcomes() == Seq::<bool>::empty(),
            r.trace() == Seq::<WriterEffect>::empty(),
    {
        WriterUnit { phase: WriterPhase::Receiving, oks: Ghost(Seq::empty()), trace: Ghost(Seq::empty()) }
    }

    pub fn phase_now(&self) -> (r: WriterPhase)
        ensures
            r == self.phase(),
    {
        self.phase
    }

    /// The source answered a request for the next message: `got` tells
    /// whether it yielded one or is closed for good.
    pub fn on_recv(&mut self, got: bool) -> (r: WriterAction)
        requires
            old(self).wf(),
            old(self).phase() == WriterPhase::Receiving,
        ensures
            final(self).wf(),
            final(self).outcomes() == old(self).outcomes(),
            got ==> r == WriterAction::Write && final(self).phase() == WriterPhase::Writing
                && final(self).trace() == old(self).trace().push(
                WriterEffect::Write(old(self).outcomes().len()),
            ),
            !got ==> r == WriterAction::Exit && final(self).phase() == WriterPhase::Exited
                && final(self).trace() == old(self).trace().push(WriterEffect::Exit),
    {
        if got {
            self.phase = WriterPhase::Writing;
            self.trace = Ghost(self.trace@.push(WriterEffect::Write(self.oks@.len())));
            WriterAction::Write
        } else {
            self.phase = WriterPhase::Exited;
            self.trace = Ghost(self.trace@.push(WriterEffect::Exit));
            WriterAction::Exit
        }
    }

    /// The write of `m` finished with `res`. Fulfills `m`'s slot with the
    /// outcome and returns the error that the delegate's `disconnect` hook
    /// is to receive together with `m`, if the write failed.
    pub fn on_written<F, E: Clone>(&mut self, m: &mut SendingMessage<F, E>, res: Result<(), E>) -> (r:
        Option<E>)
        requires
            old(self).wf(),
            old(self).phase() == WriterPhase::Writing,
            old(m).slot.wf(),
        ensures
            final(self).wf(),
            final(self).phase() == WriterPhase::Receiving,
            final(self).outcomes() == old(self).outcomes().push(res is Ok),
            final(m).msg == old(m).msg,
            final(m).slot.wf(),
            final(m).slot.outcome() is Some,
            old(m).slot.outcome() is Some ==> final(m).slot.outcome() == old(m).slot.outcome(),
            res is Ok ==> r is None && final(self).trace() == old(self).trace().push(
                WriterEffect::Fulfill(old(self).outcomes().len(), true),
            ),
            res is Ok && old(m).slot.outcome() is None ==> final(m).slot.outcome() == Some(
                Ok::<(), E>(()),
            ),
            res is Err ==> r == Some(res->Err_0) && final(self).trace() == old(self).trace().push(
                WriterEffect::Fulfill(old(self).outcomes().len(), false),
            ).push(WriterEffect::Disconnect(old(self).outcomes().len())),
            res is Err && old(m).slot.outcome() is None ==> final(m).slot.outcome() matches Some(
                Err(_),
            ),
    {
        let ghost n = self.oks@.len();
        let ghost before = self.trace@;
        proof {
            assert(self.oks@.push(res is Ok).drop_last() =~= self.oks@);
        }
        self.phase = WriterPhase::Receiving;
        self.oks = Ghost(self.oks@.push(res is Ok));
        match res {
            Ok(()) => {
                m.send_result(Ok(()));
                self.trace = Ghost(self.trace@.push(WriterEffect::Fulfill(n, true)));
                assert(self.trace@ =~= writer_trace(self.oks@));
                None
            },
            Err(e) => {
                m.send_result(Err(e.clone()));
                self.trace = Ghost(
                    self.trace@.push(WriterEffect::Fulfill(n, false)).push(
                        WriterEffect::Disconnect(n),
                    ),
                );
                assert(self.trace@ =~= writer_trace(self.oks@));
                Some(e)
            },
        }
    }
}

proof fn lemma_trace_step(oks: Seq<bool>, n: nat)
    requires
        n < oks.len(),
    ensures
        writer_trace(oks.take(n + 1 as int)) == writer_trace(oks.take(n as int)) + message_effects(
            n,
            oks[n as int],
        ),
{
    assert(oks.take(n + 1 as int).drop_last() =~= oks.take(n as int));
}

proof fn lemma_trace_prefix(oks: Seq<bool>, n: nat)
    requires
        n <= oks.len(),
    ensures
        writer_trace(oks.take(n as int)).len() <= writer_trace(oks).len(),
        writer_trace(oks).take(writer_trace(oks.take(n as int)).len() as int) == writer_trace(
            oks.take(n as int),
        ),
    decreases oks.len(),
{
    let p = writer_trace(oks.take(n as int));
    if n == oks.len() {
        assert(oks.take(n as int) =~= oks);
        assert(writer_trace(oks).take(p.len() as int) =~= p);
    } else {
        let d = oks.drop_last();
        lemma_trace_prefix(d, n);
        assert(d.take(n as int) =~= oks.take(n as int));
        let t = writer_trace(d);
        let last = message_effects((oks.len() - 1) as nat, oks.last());
        assert((t + last).take(p.len() as int) =~= t.take(p.len() as int));
    }
}

proof fn lemma_message_fulfillments(i: nat, ok: bool)
    ensures
        fulfillments(message_effects(i, ok)) == seq![WriterEffect::Fulfill(i, ok)],
{
    reveal_with_fuel(Seq::filter, 4);
    let m = message_effects(i, ok);
    if ok {
        assert(m.drop_last().drop_last() =~= Seq::<WriterEffect>::empty());
    } else {
        assert(m.drop_last().drop_last() =~= seq![WriterEffect::Write(i)]);
        assert(m.drop_last().drop_last().drop_last() =~= Seq::<WriterEffect>::empty());
    }
    assert(fulfillments(m) =~= seq![WriterEffect::Fulfill(i, ok)]);
}

proof fn lemma_trace_fulfillments(oks: Seq<bool>)
    ensures
        fulfillments(writer_trace(oks)) == Seq::new(
            oks.len(),
            |i: int| WriterEffect::Fulfill(i as nat, oks[i]),
        ),
    decreases oks.len(),
{
    if oks.len() == 0 {
        reveal_with_fuel(Seq::filter, 1);
        assert(fulfillments(writer_trace(oks)) =~= Seq::new(
            oks.len(),
            |i: int| WriterEffect::Fulfill(i as nat, oks[i]),
        ));
    } else {
        let d = oks.drop_last();
        let n = (oks.len() - 1) as nat;
        lemma_trace_fulfillments(d);
        lemma_message_fulfillments(n, oks.last());
        Seq::filter_distributes_over_add(
            writer_trace(d),
            message_effects(n, oks.last()),
            |e: WriterEffect| e is Fulfill,
        );
        assert(fulfillments(writer_trace(oks)) =~= Seq::new(
            oks.len(),
            |i: int| WriterEffect::Fulfill(i as nat, oks[i]),
        ));
    }
}

proof fn lemma_trace_has_no_exit(oks: Seq<bool>)
    ensures
        forall|j: int| 0 <= j < writer_trace(oks).len() ==> !(writer_trace(oks)[j] is Exit),
    decreases oks.len(),
{
    if oks.len() > 0 {
        lemma_trace_has_no_exit(oks.drop_last());
    }
}

/// Every message the source yields has its slot fulfilled exactly once, with
/// the outcome of its write, and the fulfillments come in the order the
/// messages did: no message goes without one, none gets two.
pub proof fn lemma_each_slot_fulfilled_once(oks: Seq<bool>)
    ensures
        fulfillments(writer_run(oks)) == Seq::new(
            oks.len(),
            |i: int| WriterEffect::Fulfill(i as nat, oks[i]),
        ),
{
    reveal_with_fuel(Seq::filter, 2);
    lemma_trace_fulfillments(oks);
    let t = writer_trace(oks);
    assert(t.push(WriterEffect::Exit) =~= t + seq![WriterEffect::Exit]);
    assert(seq![WriterEffect::Exit].drop_last() =~= Seq::<WriterEffect>::empty());
    assert(fulfillments(seq![WriterEffect::Exit]) =~= Seq::<WriterEffect>::empty());
    Seq::filter_distributes_over_add(t, seq![WriterEffect::Exit], |e: WriterEffect| e is Fulfill);
    assert(fulfillments(writer_run(oks)) =~= fulfillments(t));
}

/// A failed write fulfills its message's slot with failure and tells the
/// delegate, and then the unit goes on: with the next message if the source
/// yields one, else with its exit.
pub proof fn lemma_failed_write_goes_on(oks: Seq<bool>, i: nat)
    requires
        i < oks.len(),
        !oks[i as int],
    ensures
        exists|j: int|
            0 <= j && j + 2 < writer_run(oks).len()
                && #[trigger] writer_run(oks)[j] == WriterEffect::Fulfill(i, false)
                && writer_run(oks)[j + 1] == WriterEffect::Disconnect(i)
                && writer_run(oks)[j + 2] == (if i + 1 < oks.len() {
                    WriterEffect::Write(i + 1)
                } else {
                    WriterEffect::Exit
                }),
{
    let t = writer_run(oks);
    let p = writer_trace(oks.take(i as int));
    lemma_trace_step(oks, i);
    let q = writer_trace(oks.take(i + 1 as int));
    assert(q == p + seq![
        WriterEffect::Write(i),
        WriterEffect::Fulfill(i, false),
        WriterEffect::Disconnect(i),
    ]);
    let j: int = p.len() as int + 1;
    if i + 1 < oks.len() {
        lemma_trace_step(oks, i + 1);
        lemma_trace_prefix(oks, i + 2);
        let r = writer_trace(oks.take(i + 2 as int));
        assert(r[j + 2] == WriterEffect::Write(i + 1));
        assert(writer_trace(oks).take(r.len() as int) == r);
        assert(t[j] == r[j] && t[j + 1] == r[j + 1] && t[j + 2] == r[j + 2]);
        assert(t[j] == WriterEffect::Fulfill(i, false));
    } else {
        assert(oks.take(i + 1 as int) =~= oks);
        assert(t[j] == WriterEffect::Fulfill(i, false));
        assert(t[j + 2] == WriterEffect::Exit);
    }
}

/// When the source closes after its messages, the exit hook runs exactly
/// once, as the last thing the unit does, after every slot is fulfilled.
pub proof fn lemma_exit_last_and_once(oks: Seq<bool>)
    ensures
        writer_run(oks).last() == WriterEffect::Exit,
        forall|j: int| 0 <= j < writer_run(oks).len() - 1 ==> !(#[trigger] writer_run(oks)[j] is Exit),
        fulfillments(writer_run(oks).drop_last()) == Seq::new(
            oks.len(),
            |i: int| WriterEffect::Fulfill(i as nat, oks[i]),
        ),
{
    lemma_trace_has_no_exit(oks);
    lemma_trace_fulfillments(oks);
    assert(writer_run(oks).drop_last() =~= writer_trace(oks));
}

} // verus!
