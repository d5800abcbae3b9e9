use vstd::prelude::*;
use crate::snapshot::SystemSnapshot;

verus! {

/// Where the sampling loop stands.
#[derive(PartialEq, Eq, Structural, Clone, Copy, Debug)]
pub enum Phase {
    /// Between cycles.
    Idle,
    /// A cycle is in progress.
    Sampling,
}

/// How a sampling cycle ended.
pub enum CycleEvent {
    /// The sampler produced this snapshot.
    Sampled(SystemSnapshot),
    /// The sampler failed or its worker stopped.
    Failed,
}

/// What the loop does once a cycle has ended.
#[derive(PartialEq, Eq, Structural, Clone, Copy, Debug)]
pub struct CycleAction {
    /// Persist and record the snapshot of the cycle.
    pub store: bool,
    /// How long to wait, in milliseconds, before the next cycle.
    pub wait_ms: u64,
}

/// Decisions of the sampling loop: it keeps the snapshot of the last
/// successful cycle as the base of the next cycle's rates, and waits the full
/// interval after every cycle, whether it succeeded or not.
pub struct Scheduler {
    phase: Phase,
    previous: Option<SystemSnapshot>,
    interval_ms: u64,
}

impl Scheduler {
    pub closed spec fn spec_phase(&self) -> Phase {
        self.phase
    }

    pub closed spec fn spec_previous(&self) -> Option<SystemSnapshot> {
        self.previous
    }

    pub closed spec fn spec_interval_ms(&self) -> u64 {
        self.interval_ms
    }

    /// A loop that has not sampled yet, with cycles `interval_ms` apart.
    pub fn new(interval_ms: u64) -> (r: Scheduler)
        ensures
            r.spec_phase() == Phase::Idle,
            r.spec_previous() is None,
            r.spec_interval_ms() == interval_ms,
    {
        Scheduler { phase: Phase::Idle, previous: None, interval_ms }
    }

    pub fn phase(&self) -> (r: Phase)
        ensures
            r == self.spec_phase(),
    {
        self.phase
    }

    /// The snapshot of the last successful cycle, if any.
    pub fn previous(&self) -> (r: &Option<SystemSnapshot>)
        ensures
            *r == self.spec_previous(),
    {
        &self.previous
    }

    /// Starts a cycle.
    pub fn begin_cycle(&mut self)
        requires
            old(self).spec_phase() == Phase::Idle,
        ensures
            final(self).spec_phase() == Phase::Sampling,
            final(self).spec_previous() == old(self).spec_previous(),
            final(self).spec_interval_ms() == old(self).spec_interval_ms(),
    {
        self.phase = Phase::Sampling;
    }

    /// Ends the cycle in progress. A snapshot becomes the base of the next
    /// cycle and is to be stored; a failure leaves the base as it was and
    /// stores nothing. Either way the loop waits the full interval.
    pub fn end_cycle(&mut self, event: CycleEvent) -> (r: CycleAction)
        requires
            old(self).spec_phase() == Phase::Sampling,
        ensures
            final(self).spec_phase() == Phase::Idle,
            final(self).spec_interval_ms() == old(self).spec_interval_ms(),
            r.wait_ms == old(self).spec_interval_ms(),
            match event {
                CycleEvent::Sampled(s) => r.store && final(self).spec_previous() == Some(s),
                CycleEvent::Failed => !r.store && final(self).spec_previous() == old(self).spec_previous(),
            },
    {
        self.phase = Phase::Idle;
        match event {
            CycleEvent::Sampled(s) => {
                self.previous = Some(s);
                CycleAction { store: true, wait_ms: self.interval_ms }
            },
            CycleEvent::Failed => CycleAction { store: false, wait_ms: self.interval_ms },
        }
    }
}

} // verus!
