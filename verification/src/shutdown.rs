//! Phased shutdown: a monotonic phase and, per phase, a count of the
//! tasks currently awaiting it.
//!
//! The async shell around this state holds it behind a lock and a
//! watch channel; every decision about phases and waiter counts is
//! made here.
use vstd::prelude::*;

verus! {

/// The phases of a shutdown, in the order they are passed through.
/// `Idle` is the running state; `Phase1` stops business logic,
/// `Phase2` stops serving, `Done` releases the main task.
#[derive(Debug, Clone, Copy, PartialEq, Eq, PartialOrd, Ord, Hash, Structural)]
pub enum ShutdownPhase {
    Idle,
    Phase1,
    Phase2,
    Done,
}

impl ShutdownPhase {
    /// Position in the total order.
    pub open spec fn spec_index(self) -> int {
        match self {
            ShutdownPhase::Idle => 0,
            ShutdownPhase::Phase1 => 1,
            ShutdownPhase::Phase2 => 2,
            ShutdownPhase::Done => 3,
        }
    }

    pub fn index(&self) -> (r: usize)
        ensures
            r == self.spec_index(),
    {
        match self {
            ShutdownPhase::Idle => 0,
            ShutdownPhase::Phase1 => 1,
            ShutdownPhase::Phase2 => 2,
            ShutdownPhase::Done => 3,
        }
    }

    /// The next phase, clamped at `Done`.
    pub open spec fn spec_next(self) -> Self {
        match self {
            ShutdownPhase::Idle => ShutdownPhase::Phase1,
            ShutdownPhase::Phase1 => ShutdownPhase::Phase2,
            _ => ShutdownPhase::Done,
        }
    }

    /// Is this phase at or before `other`?
    pub fn le(&self, other: &ShutdownPhase) -> (r: bool)
        ensures
            r == (self.spec_index() <= other.spec_index()),
    {
        self.index() <= other.index()
    }
}

/// The shutdown coordinator's state: the current phase and one
/// active-waiter count per phase.
#[derive(Debug)]
pub struct ShutdownHandler {
    phase: ShutdownPhase,
    waiters: Vec<u16>,
}

impl ShutdownHandler {
    pub closed spec fn spec_phase(self) -> ShutdownPhase {
        self.phase
    }

    pub closed spec fn spec_waiters(self) -> Seq<u16> {
        self.waiters@
    }

    /// One waiter count per phase.
    pub open spec fn wf(self) -> bool {
        self.spec_waiters().len() == 4
    }

    /// May the phase advance right now? Only when nothing is awaiting
    /// the current phase.
    pub open spec fn spec_can_advance(self) -> bool {
        self.spec_waiters()[self.spec_phase().spec_index()] == 0
    }

    /// Not shutting down, no waiters.
    pub fn create() -> (r: Self)
        ensures
            r.wf(),
            r.spec_phase() == ShutdownPhase::Idle,
            forall|i: int| 0 <= i < 4 ==> r.spec_waiters()[i] == 0,
    {
        let mut waiters: Vec<u16> = Vec::new();
        waiters.push(0);
        waiters.push(0);
        waiters.push(0);
        waiters.push(0);
        ShutdownHandler { phase: ShutdownPhase::Idle, waiters }
    }

    /// Request shutdown: schedules the advance to `Phase1` when not
    /// already shutting down, and otherwise changes nothing.
    pub fn shutdown(&mut self)
        requires
            old(self).wf(),
        ensures
            final(self).wf(),
            old(self).spec_phase() == ShutdownPhase::Idle ==> final(self).spec_phase()
                == ShutdownPhase::Phase1,
            old(self).spec_phase() != ShutdownPhase::Idle ==> final(self).spec_phase() == old(
                self,
            ).spec_phase(),
            final(self).spec_waiters() == old(self).spec_waiters(),
    {
        if self.current() == ShutdownPhase::Idle {
            self.advance();
        }
    }

    /// Set the phase to the next higher value, clamped at `Done`.
    pub fn advance(&mut self)
        requires
            old(self).wf(),
        ensures
            final(self).wf(),
            final(self).spec_phase() == old(self).spec_phase().spec_next(),
            final(self).spec_waiters() == old(self).spec_waiters(),
    {
        self.phase = match self.phase {
            ShutdownPhase::Idle => ShutdownPhase::Phase1,
            ShutdownPhase::Phase1 => ShutdownPhase::Phase2,
            ShutdownPhase::Phase2 => ShutdownPhase::Done,
            ShutdownPhase::Done => ShutdownPhase::Done,
        };
    }

    /// Advance only when no task is awaiting the current phase, and
    /// say whether that happened: `false` exactly when at least one
    /// waiter is still registered for the current phase.
    pub fn try_advance(&mut self) -> (r: bool)
        requires
            old(self).wf(),
        ensures
            final(self).wf(),
            r == old(self).spec_can_advance(),
            r ==> final(self).spec_phase() == old(self).spec_phase().spec_next(),
            !r ==> final(self).spec_phase() == old(self).spec_phase(),
            final(self).spec_waiters() == old(self).spec_waiters(),
    {
        let idx = self.phase.index();
        let can = self.waiters[idx] == 0;
        if can {
            self.advance();
        }
        can
    }

    pub fn current(&self) -> (r: ShutdownPhase)
        ensures
            r == self.spec_phase(),
    {
        self.phase
    }

    /// Does a wait for `phase` resolve under the current phase?
    pub fn wait_ready(&self, phase: ShutdownPhase) -> (r: bool)
        ensures
            r == (phase.spec_index() <= self.spec_phase().spec_index()),
    {
        phase.le(&self.current())
    }
}

/// The waiter registration tied to one pending `wait` future: made
/// when the future is created, released when the future drops, so
/// that cancelled waits never keep `try_advance` blocked.
#[derive(Debug)]
pub struct ShutdownWaiterTracker {
    phase: ShutdownPhase,
}

impl ShutdownWaiterTracker {
    pub closed spec fn spec_phase(self) -> ShutdownPhase {
        self.phase
    }

    /// Register one waiter for `phase`.
    pub fn new(phase: ShutdownPhase, handler: &mut ShutdownHandler) -> (r: Self)
        requires
            old(handler).wf(),
            old(handler).spec_waiters()[phase.spec_index()] < u16::MAX,
        ensures
            final(handler).wf(),
            r.spec_phase() == phase,
            final(handler).spec_phase() == old(handler).spec_phase(),
            final(handler).spec_waiters() == old(handler).spec_waiters().update(
                phase.spec_index(),
                (old(handler).spec_waiters()[phase.spec_index()] + 1) as u16,
            ),
    {
        let idx = phase.index();
        let count = handler.waiters[idx];
        handler.waiters[idx] = count + 1;
        ShutdownWaiterTracker { phase }
    }

    /// Release the registration; the waiter's future is gone.
    pub fn release(self, handler: &mut ShutdownHandler)
        requires
            old(handler).wf(),
            old(handler).spec_waiters()[self.spec_phase().spec_index()] > 0,
        ensures
            final(handler).wf(),
            final(handler).spec_phase() == old(handler).spec_phase(),
            final(handler).spec_waiters() == old(handler).spec_waiters().update(
                self.spec_phase().spec_index(),
                (old(handler).spec_waiters()[self.spec_phase().spec_index()] - 1) as u16,
            ),
    {
        let idx = self.phase.index();
        let count = handler.waiters[idx];
        handler.waiters[idx] = count - 1;
    }
}

/// The phase only ever moves forward: the successor of any phase
/// sits at or above it in the order, so every advance — forced or
/// counted — keeps the phase monotonic.
pub proof fn lemma_phase_monotonic(p: ShutdownPhase)
    ensures
        p.spec_index() <= p.spec_next().spec_index(),
{
}

/// Releasing every waiter of the current phase unblocks the advance:
/// a handler whose current-phase count has returned to zero satisfies
/// the very condition under which `try_advance` reports success and
/// moves to the next phase.
pub proof fn lemma_waiters_gone_allows_advance(h: ShutdownHandler)
    requires
        h.wf(),
        h.spec_waiters()[h.spec_phase().spec_index()] == 0,
    ensures
        h.spec_can_advance(),
{
}

} // verus!
