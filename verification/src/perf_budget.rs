//! Frame-time budget bookkeeping: how a frame's metrics compare with their budgets, and how
//! often frames run over.
use vstd::prelude::*;

verus! {

/// How a metric compares with its budget.
#[derive(Debug, Clone, Copy, PartialEq, Eq, Structural)]
pub enum PerfBudgetStatus {
    Normal,
    Warn,
    Critical,
}

/// Severity rank: Normal < Warn < Critical.
pub open spec fn status_rank(s: PerfBudgetStatus) -> int {
    match s {
        PerfBudgetStatus::Normal => 0,
        PerfBudgetStatus::Warn => 1,
        PerfBudgetStatus::Critical => 2,
    }
}

impl Default for PerfBudgetStatus {
    fn default() -> (r: Self)
        ensures
            r == PerfBudgetStatus::Normal,
    {
        PerfBudgetStatus::Normal
    }
}

impl PerfBudgetStatus {
    /// The short label shown in the overlay.
    pub fn label(self) -> (r: &'static str)
        ensures
            r@ == match self {
                PerfBudgetStatus::Normal => "OK"@,
                PerfBudgetStatus::Warn => "WARN"@,
                PerfBudgetStatus::Critical => "CRIT"@,
            },
    {
        match self {
            PerfBudgetStatus::Normal => "OK",
            PerfBudgetStatus::Warn => "WARN",
            PerfBudgetStatus::Critical => "CRIT",
        }
    }

    fn rank(self) -> (r: u8)
        ensures
            r == status_rank(self),
    {
        match self {
            PerfBudgetStatus::Normal => 0,
            PerfBudgetStatus::Warn => 1,
            PerfBudgetStatus::Critical => 2,
        }
    }
}

/// The statuses of one frame's metrics, summed up.
#[derive(Debug, Clone, Copy, PartialEq, Eq, Structural)]
pub struct PerfBudgetFrameSummary {
    pub warn_metrics: usize,
    pub critical_metrics: usize,
    pub overall_status: PerfBudgetStatus,
}

impl Default for PerfBudgetFrameSummary {
    fn default() -> (r: Self)
        ensures
            r == (PerfBudgetFrameSummary { warn_metrics: 0, critical_metrics: 0, overall_status: PerfBudgetStatus::Normal }),
    {
        PerfBudgetFrameSummary { warn_metrics: 0, critical_metrics: 0, overall_status: PerfBudgetStatus::Normal }
    }
}

pub open spec fn count_at_least(s: Seq<PerfBudgetStatus>, rank: int) -> nat
    decreases s.len(),
{
    if s.len() == 0 {
        0
    } else {
        count_at_least(s.drop_last(), rank) + if status_rank(s.last()) >= rank { 1nat } else { 0nat }
    }
}

pub open spec fn worst(s: Seq<PerfBudgetStatus>) -> PerfBudgetStatus
    decreases s.len(),
{
    if s.len() == 0 {
        PerfBudgetStatus::Normal
    } else {
        let w = worst(s.drop_last());
        if status_rank(s.last()) > status_rank(w) { s.last() } else { w }
    }
}

/// The summary of a frame: metrics at warn level or worse, metrics at critical level, and
/// the worst status (Normal when there are none).
pub fn summarize_statuses(statuses: Vec<PerfBudgetStatus>) -> (r: PerfBudgetFrameSummary)
    ensures
        r.warn_metrics == count_at_least(statuses@, 1),
        r.critical_metrics == count_at_least(statuses@, 2),
        r.overall_status == worst(statuses@),
{
    let mut summary = PerfBudgetFrameSummary::default();
    let mut i: usize = 0;
    while i < statuses.len()
        invariant
            i <= statuses@.len(),
            summary.warn_metrics == count_at_least(statuses@.take(i as int), 1),
            summary.critical_metrics == count_at_least(statuses@.take(i as int), 2),
            summary.overall_status == worst(statuses@.take(i as int)),
            count_at_least(statuses@.take(i as int), 1) <= i,
            count_at_least(statuses@.take(i as int), 2) <= i,
        decreases statuses@.len() - i,
    {
        let status = statuses[i];
        assert(statuses@.take(i + 1).drop_last() =~= statuses@.take(i as int));
        if status.rank() > summary.overall_status.rank() {
            summary.overall_status = status;
        }
        match status {
            PerfBudgetStatus::Normal => {},
            PerfBudgetStatus::Warn => {
                summary.warn_metrics = summary.warn_metrics + 1;
            },
            PerfBudgetStatus::Critical => {
                summary.warn_metrics = summary.warn_metrics + 1;
                summary.critical_metrics = summary.critical_metrics + 1;
            },
        }
        i += 1;
    }
    assert(statuses@.take(statuses@.len() as int) =~= statuses@);
    summary
}

/// Running frame-health counters.
#[derive(Debug, Clone, Copy, PartialEq, Eq, Structural)]
pub struct PerfBudgetHealth {
    pub total_frames: usize,
    pub over_warn_frames: usize,
    pub over_critical_frames: usize,
    pub consecutive_critical_frames: usize,
    pub max_consecutive_critical_frames: usize,
}

impl Default for PerfBudgetHealth {
    fn default() -> (r: Self)
        ensures
            r == (PerfBudgetHealth {
                total_frames: 0,
                over_warn_frames: 0,
                over_critical_frames: 0,
                consecutive_critical_frames: 0,
                max_consecutive_critical_frames: 0,
            }),
    {
        PerfBudgetHealth {
            total_frames: 0,
            over_warn_frames: 0,
            over_critical_frames: 0,
            consecutive_critical_frames: 0,
            max_consecutive_critical_frames: 0,
        }
    }
}

pub open spec fn sat_inc(x: usize) -> usize {
    if x == usize::MAX { x } else { (x + 1) as usize }
}

impl PerfBudgetHealth {
    /// The counters agree with each other: no more critical frames than frames at warn level or
    /// worse, no more of those than frames, and the current critical run is no longer than the
    /// longest.
    pub open spec fn consistent(&self) -> bool {
        &&& self.over_critical_frames <= self.over_warn_frames <= self.total_frames
        &&& self.consecutive_critical_frames <= self.max_consecutive_critical_frames
    }

    /// Counts a frame: every frame, frames at warn level or worse, critical frames and the
    /// current and longest run of consecutive critical frames (all saturating); a frame that
    /// is not critical ends the run.
    pub fn observe_summary(&mut self, summary: PerfBudgetFrameSummary)
        ensures
            final(self).total_frames == sat_inc(old(self).total_frames),
            final(self).over_warn_frames == if status_rank(summary.overall_status) >= 1 {
                sat_inc(old(self).over_warn_frames)
            } else {
                old(self).over_warn_frames
            },
            summary.overall_status == PerfBudgetStatus::Critical ==> {
                &&& final(self).over_critical_frames == sat_inc(old(self).over_critical_frames)
                &&& final(self).consecutive_critical_frames == sat_inc(old(self).consecutive_critical_frames)
                &&& final(self).max_consecutive_critical_frames == if sat_inc(old(self).consecutive_critical_frames)
                    > old(self).max_consecutive_critical_frames {
                    sat_inc(old(self).consecutive_critical_frames)
                } else {
                    old(self).max_consecutive_critical_frames
                }
            },
            summary.overall_status != PerfBudgetStatus::Critical ==> {
                &&& final(self).over_critical_frames == old(self).over_critical_frames
                &&& final(self).consecutive_critical_frames == 0
                &&& final(self).max_consecutive_critical_frames == old(self).max_consecutive_critical_frames
            },
            old(self).consistent() ==> final(self).consistent(),
    {
        self.total_frames = self.total_frames.saturating_add(1);
        if summary.overall_status.rank() >= 1 {
            self.over_warn_frames = self.over_warn_frames.saturating_add(1);
        }
        if summary.overall_status == PerfBudgetStatus::Critical {
            self.over_critical_frames = self.over_critical_frames.saturating_add(1);
            self.consecutive_critical_frames = self.consecutive_critical_frames.saturating_add(1);
            if self.consecutive_critical_frames > self.max_consecutive_critical_frames {
                self.max_consecutive_critical_frames = self.consecutive_critical_frames;
            }
        } else {
            self.consecutive_critical_frames = 0;
        }
    }
}

} // verus!
