//! A countdown for time-boxed game sessions.
use vstd::prelude::*;

use crate::time_span::{max_total, TimeSpan};

verus! {

pub ghost struct TimerView {
    pub elapsed: int,
    pub limit: int,
}

/// A tick of `dt` nanoseconds: added (saturating) while running and not yet up.
pub open spec fn spec_tick(t: TimerView, dt: int, running: bool) -> TimerView {
    if !running || t.elapsed >= t.limit {
        t
    } else {
        TimerView {
            elapsed: if t.elapsed + dt > max_total() { max_total() } else { t.elapsed + dt },
            limit: t.limit,
        }
    }
}

/// Once the time is up it stays up, however the timer is ticked; the limit never changes.
pub proof fn lemma_up_stays_up(t: TimerView, dt: int, running: bool)
    requires
        t.elapsed >= t.limit,
    ensures
        spec_tick(t, dt, running) == t,
{
}

/// Ticking never shortens the elapsed time (for a non-negative tick within the largest span)
/// and never changes the limit.
pub proof fn lemma_tick_monotone(t: TimerView, dt: int, running: bool)
    requires
        0 <= dt,
        0 <= t.elapsed <= max_total(),
    ensures
        spec_tick(t, dt, running).elapsed >= t.elapsed,
        spec_tick(t, dt, running).limit == t.limit,
{
}

/// Elapsed time against a limit; time only accrues while the game runs and stops once the
/// limit is reached.
#[derive(Debug, Clone, Copy, PartialEq, Eq, Structural)]
pub struct RoundTimer {
    elapsed: TimeSpan,
    limit: TimeSpan,
}

impl View for RoundTimer {
    type V = TimerView;

    closed spec fn view(&self) -> TimerView {
        TimerView { elapsed: self.elapsed@, limit: self.limit@ }
    }
}

impl RoundTimer {
    /// A timer with nothing elapsed.
    pub fn new(limit: TimeSpan) -> (r: Self)
        ensures
            r@ == (TimerView { elapsed: 0, limit: limit@ }),
    {
        RoundTimer { elapsed: TimeSpan::zero(), limit }
    }

    /// Clears the elapsed time.
    pub fn reset(&mut self)
        ensures
            final(self)@ == (TimerView { elapsed: 0, limit: old(self)@.limit }),
    {
        self.elapsed = TimeSpan::zero();
    }

    pub fn elapsed(&self) -> (r: TimeSpan)
        ensures
            r@ == self@.elapsed,
    {
        self.elapsed
    }

    pub fn limit(&self) -> (r: TimeSpan)
        ensures
            r@ == self@.limit,
    {
        self.limit
    }

    /// Time left before the limit, zero once it is reached.
    pub fn remaining(&self) -> (r: TimeSpan)
        ensures
            r@ == if self@.elapsed > self@.limit { 0 } else { self@.limit - self@.elapsed },
    {
        self.limit.saturating_sub(self.elapsed)
    }

    /// Whether the elapsed time has reached the limit.
    pub fn is_up(&self) -> (r: bool)
        ensures
            r == (self@.elapsed >= self@.limit),
    {
        self.elapsed.at_least(&self.limit)
    }

    /// Adds `dt` (saturating) while `running` and the time is not up; otherwise nothing
    /// changes.
    pub fn tick_if_running(&mut self, dt: TimeSpan, running: bool)
        ensures
            final(self)@ == spec_tick(old(self)@, dt@, running),
    {
        if !running || self.is_up() {
            return;
        }
        self.elapsed = self.elapsed.saturating_add(dt);
    }
}

} // verus!
