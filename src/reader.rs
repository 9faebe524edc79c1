//! The reader unit: frames inbound messages and dispatches them.
//!
//! Every round, a parse of the next message from the read half races the
//! delegate's shutdown signal, and the first to finish becomes the unit's
//! next event. A parsed message goes to the delegate's `handle_msg`; an error
//! tied to a known header goes to `handle_err` and reading goes on; an error
//! that leaves the connection unusable goes to `disconnect` and ends the
//! loop, as does shutdown. However the loop ends, the exit hook then runs
//! once.

use vstd::prelude::*;

verus! {

/// What ended a round of the reader's race.
pub enum ReadEvent<F, H, E> {
    /// A whole message was parsed.
    Frame(F),
    /// Parsing failed in a way tied to the request with this header.
    HeaderError(H, E),
    /// Parsing failed and the connection is unusable.
    Fatal(E),
    /// Shutdown was requested; a parse in flight is dropped.
    Shutdown,
}

/// The kind of a round's event, as recorded in the model of a run.
#[derive(PartialEq, Eq, Structural, Clone, Copy, Debug)]
pub enum ReadKind {
    Frame,
    HeaderError,
    Fatal,
    Shutdown,
}

/// What the loop around the unit is to do with a round's event.
pub enum ReaderAction<F, H, E> {
    /// Hand the message to the delegate's `handle_msg`.
    HandleMsg(F),
    /// Hand the header and error to the delegate's `handle_err`.
    HandleErr(H, E),
    /// Hand the error and the writer's task to the delegate's `disconnect`;
    /// the loop is over.
    Disconnect(E),
    /// Nothing to hand over; the loop is over.
    Stop,
}

/// What the reader unit does, as recorded in the model of a run. Rounds
/// are numbered from zero.
pub enum ReaderEffect {
    HandleMsg(nat),
    HandleErr(nat),
    Disconnect(nat),
    Exit,
}

impl<F, H, E> ReadEvent<F, H, E> {
    pub open spec fn kind(&self) -> ReadKind {
        match self {
            ReadEvent::Frame(_) => ReadKind::Frame,
            ReadEvent::HeaderError(_, _) => ReadKind::HeaderError,
            ReadEvent::Fatal(_) => ReadKind::Fatal,
            ReadEvent::Shutdown => ReadKind::Shutdown,
        }
    }
}

/// An event after which the loop is over.
pub open spec fn ends_loop(k: ReadKind) -> bool {
    k == ReadKind::Fatal || k == ReadKind::Shutdown
}

/// Events none of which ends the loop.
pub open spec fn all_continue(ks: Seq<ReadKind>) -> bool {
    forall|j: int| 0 <= j < ks.len() ==> !ends_loop(#[trigger] ks[j])
}

/// The events of a whole run of the loop: the last one ends it, and no
/// earlier one does.
pub open spec fn complete_run(ks: Seq<ReadKind>) -> bool {
    ks.len() > 0 && ends_loop(ks.last()) && all_continue(ks.drop_last())
}

/// The effects of the event of round `i`.
pub open spec fn event_effects(i: nat, k: ReadKind) -> Seq<ReaderEffect> {
    match k {
        ReadKind::Frame => seq![ReaderEffect::HandleMsg(i)],
        ReadKind::HeaderError => seq![ReaderEffect::HandleErr(i)],
        ReadKind::Fatal => seq![ReaderEffect::Disconnect(i)],
        ReadKind::Shutdown => seq![],
    }
}

/// The effects of handling the events `ks`, round by round.
pub open spec fn reader_trace(ks: Seq<ReadKind>) -> Seq<ReaderEffect>
    decreases ks.len(),
{
    if ks.len() == 0 {
        seq![]
    } else {
        reader_trace(ks.drop_last()) + event_effects((ks.len() - 1) as nat, ks.last())
    }
}

/// The effects of a whole run whose events are `ks`.
pub open spec fn reader_run(ks: Seq<ReadKind>) -> Seq<ReaderEffect> {
    reader_trace(ks).push(ReaderEffect::Exit)
}

#[derive(PartialEq, Eq, Structural, Clone, Copy, Debug)]
pub enum ReaderPhase {
    /// The loop is racing parse against shutdown.
    Running,
    /// The loop is over and the exit hook is still to run.
    Stopping,
    /// The exit hook has run.
    Exited,
}

/// The reader unit's state.
pub struct ReaderUnit {
    phase: ReaderPhase,
    kinds: Ghost<Seq<ReadKind>>,
    trace: Ghost<Seq<ReaderEffect>>,
}

impl ReaderUnit {
    pub closed spec fn phase(&self) -> ReaderPhase {
        self.phase
    }

    /// The kinds of the events handled so far, in order.
    pub closed spec fn events(&self) -> Seq<ReadKind> {
        self.kinds@
    }

    /// Everything the unit has done so far.
    pub closed spec fn trace(&self) -> Seq<ReaderEffect> {
        self.trace@
    }

    /// The trace is always the model's, for the events seen so far.
    pub open spec fn wf(&self) -> bool {
        match self.phase() {
            ReaderPhase::Running => all_continue(self.events()) && self.trace() == reader_trace(
                self.events(),
            ),
            ReaderPhase::Stopping => complete_run(self.events()) && self.trace() == reader_trace(
                self.events(),
            ),
            ReaderPhase::Exited => complete_run(self.events()) && self.trace() == reader_run(
                self.events(),
            ),
        }
    }

    pub fn new() -> (r: Self)
        ensures
            r.wf(),
            r.phase() == ReaderPhase::Running,
            r.events() == Seq::<ReadKind>::empty(),
            r.trace() == Seq::<ReaderEffect>::empty(),
    {
        ReaderUnit {
            phase: ReaderPhase::Running,
            kinds: Ghost(Seq::empty()),
            trace: Ghost(Seq::empty()),
        }
    }

    pub fn is_running(&self) -> (r: bool)
        ensures
            r == (self.phase() == ReaderPhase::Running),
    {
        self.phase == ReaderPhase::Running
    }

    /// Decides what to do with the event that ended the current round.
    pub fn on_event<F, H, E>(&mut self, ev: ReadEvent<F, H, E>) -> (r: ReaderAction<F, H, E>)
        requires
            old(self).wf(),
            old(self).phase() == ReaderPhase::Running,
        ensures
            final(self).wf(),
            final(self).events() == old(self).events().push(ev.kind()),
            final(self).trace() == old(self).trace() + event_effects(
                old(self).events().len(),
                ev.kind(),
            ),
            final(self).phase() == (if ends_loop(ev.kind()) {
                ReaderPhase::Stopping
            } else {
                ReaderPhase::Running
            }),
            match ev {
                ReadEvent::Frame(m) => r == ReaderAction::<F, H, E>::HandleMsg(m),
                ReadEvent::HeaderError(h, e) => r == ReaderAction::<F, H, E>::HandleErr(h, e),
                ReadEvent::Fatal(e) => r == ReaderAction::<F, H, E>::Disconnect(e),
                ReadEvent::Shutdown => r == ReaderAction::<F, H, E>::Stop,
            },
    {
        let ghost n = self.kinds@.len();
        let ghost k = ev.kind();
        proof {
            assert(self.kinds@.push(k).drop_last() =~= self.kinds@);
        }
        self.kinds = Ghost(self.kinds@.push(k));
        self.trace = Ghost(self.trace@ + event_effects(n, k));
        match ev {
            ReadEvent::Frame(m) => ReaderAction::HandleMsg(m),
            ReadEvent::HeaderError(h, e) => ReaderAction::HandleErr(h, e),
            ReadEvent::Fatal(e) => {
                self.phase = ReaderPhase::Stopping;
                ReaderAction::Disconnect(e)
            },
            ReadEvent::Shutdown => {
                self.phase = ReaderPhase::Stopping;
                ReaderAction::Stop
            },
        }
    }

    /// Whether the exit hook is to run now. It is, once, after the loop is
    /// over.
    pub fn finish(&mut self) -> (r: bool)
        requires
            old(self).wf(),
        ensures
            final(self).wf(),
            final(self).events() == old(self).events(),
            r == (old(self).phase() == ReaderPhase::Stopping),
            r ==> final(self).phase() == ReaderPhase::Exited && final(self).trace() == old(
                self,
            ).trace().push(ReaderEffect::Exit),
            !r ==> *final(self) == *old(self),
    {
        if self.phase == ReaderPhase::Stopping {
            self.phase = ReaderPhase::Exited;
            self.trace = Ghost(self.trace@.push(ReaderEffect::Exit));
            true
        } else {
            false
        }
    }
}

/// The effect of round `j` whose event does not end the loop.
pub open spec fn dispatch_effect(j: nat, k: ReadKind) -> ReaderEffect {
    if k == ReadKind::Frame {
        ReaderEffect::HandleMsg(j)
    } else {
        ReaderEffect::HandleErr(j)
    }
}

/// While no event ends the loop, round `j` dispatches its event and nothing
/// else, so the trace holds exactly one dispatch per round, in order.
pub proof fn lemma_rounds_dispatch_in_order(ks: Seq<ReadKind>)
    requires
        all_continue(ks),
    ensures
        reader_trace(ks) == Seq::new(ks.len(), |j: int| dispatch_effect(j as nat, ks[j])),
    decreases ks.len(),
{
    if ks.len() > 0 {
        let d = ks.drop_last();
        assert(all_continue(d)) by {
            assert forall|j: int| 0 <= j < d.len() implies !ends_loop(#[trigger] d[j]) by {
                assert(d[j] == ks[j]);
            }
        }
        lemma_rounds_dispatch_in_order(d);
        assert(!ends_loop(ks[ks.len() - 1]));
    }
    assert(reader_trace(ks) =~= Seq::new(ks.len(), |j: int| dispatch_effect(j as nat, ks[j])));
}

/// An error tied to a header is handed to `handle_err` and reading goes on:
/// a valid message in the next round still reaches `handle_msg`.
pub proof fn lemma_header_error_keeps_reading(ks: Seq<ReadKind>, i: nat)
    requires
        all_continue(ks),
        i + 1 < ks.len(),
        ks[i as int] == ReadKind::HeaderError,
        ks[i + 1 as int] == ReadKind::Frame,
    ensures
        reader_trace(ks)[i as int] == ReaderEffect::HandleErr(i),
        reader_trace(ks)[i + 1 as int] == ReaderEffect::HandleMsg(i + 1),
{
    lemma_rounds_dispatch_in_order(ks);
}

/// A fatal read error is handed to `disconnect` once, the exit hook then
/// runs once, and nothing follows: no message or error is dispatched after.
pub proof fn lemma_fatal_error_ends_run(ks: Seq<ReadKind>)
    requires
        complete_run(ks),
        ks.last() == ReadKind::Fatal,
    ensures
        reader_run(ks) == Seq::new(
            (ks.len() - 1) as nat,
            |j: int| dispatch_effect(j as nat, ks[j]),
        ) + seq![ReaderEffect::Disconnect((ks.len() - 1) as nat), ReaderEffect::Exit],
{
    lemma_rounds_dispatch_in_order(ks.drop_last());
    assert(reader_run(ks) =~= Seq::new(
        (ks.len() - 1) as nat,
        |j: int| dispatch_effect(j as nat, ks[j]),
    ) + seq![ReaderEffect::Disconnect((ks.len() - 1) as nat), ReaderEffect::Exit]);
}

/// Shutdown ends the loop with nothing dispatched for its round: the parse
/// that was in flight is dropped, and the exit hook runs once, last.
pub proof fn lemma_shutdown_ends_run(ks: Seq<ReadKind>)
    requires
        complete_run(ks),
        ks.last() == ReadKind::Shutdown,
    ensures
        reader_run(ks) == Seq::new(
            (ks.len() - 1) as nat,
            |j: int| dispatch_effect(j as nat, ks[j]),
        ).push(ReaderEffect::Exit),
{
    lemma_rounds_dispatch_in_order(ks.drop_last());
    assert(reader_run(ks) =~= Seq::new(
        (ks.len() - 1) as nat,
        |j: int| dispatch_effect(j as nat, ks[j]),
    ).push(ReaderEffect::Exit));
}

} // verus!
