//! Spans of time with nanosecond precision, saturating at the largest representable span
//! (`u64::MAX` seconds and 999 999 999 nanoseconds), as game clocks count them.
use vstd::prelude::*;

verus! {

pub const NANOS_PER_SEC: u32 = 1_000_000_000;

pub const NANOS_PER_MILLI: u32 = 1_000_000;

/// The largest span, in nanoseconds.
pub open spec fn max_total() -> int {
    u64::MAX as int * NANOS_PER_SEC as int + (NANOS_PER_SEC - 1)
}

/// A span of time: whole seconds and the nanoseconds past them.
#[derive(Debug, Clone, Copy, PartialEq, Eq, Structural)]
pub struct TimeSpan {
    secs: u64,
    nanos: u32,
}

impl View for TimeSpan {
    type V = int;

    /// The span in nanoseconds.
    closed spec fn view(&self) -> int {
        self.secs as int * NANOS_PER_SEC as int + self.nanos as int
    }
}

/// A span is never negative.
pub proof fn lemma_span_nonneg(t: TimeSpan)
    ensures
        0 <= t@,
{
}

impl TimeSpan {
    #[verifier::type_invariant]
    spec fn inv(self) -> bool {
        self.nanos < NANOS_PER_SEC
    }

    proof fn lemma_range(secs: u64, nanos: u32)
        requires
            nanos < NANOS_PER_SEC,
        ensures
            0 <= secs as int * NANOS_PER_SEC as int + nanos <= max_total(),
    {
        assert(secs as int * NANOS_PER_SEC as int <= u64::MAX as int * NANOS_PER_SEC as int) by (nonlinear_arith)
            requires
                secs <= u64::MAX,
        ;
    }

    /// The span of `t` nanoseconds.
    fn from_total(t: u128) -> (r: TimeSpan)
        requires
            t <= max_total(),
        ensures
            r@ == t,
    {
        let secs = t / (NANOS_PER_SEC as u128);
        let nanos = t % (NANOS_PER_SEC as u128);
        assert(secs <= u64::MAX) by (nonlinear_arith)
            requires
                t <= u64::MAX as int * 1_000_000_000 + 999_999_999,
                secs == t / 1_000_000_000,
        ;
        assert(secs * 1_000_000_000 + nanos == t) by (nonlinear_arith)
            requires
                secs == t / 1_000_000_000,
                nanos == t % 1_000_000_000,
        ;
        TimeSpan { secs: secs as u64, nanos: nanos as u32 }
    }

    fn total(&self) -> (r: u128)
        ensures
            r == self@,
    {
        proof {
            use_type_invariant(self);
            Self::lemma_range(self.secs, self.nanos);
        }
        self.secs as u128 * NANOS_PER_SEC as u128 + self.nanos as u128
    }

    /// The empty span.
    pub fn zero() -> (r: TimeSpan)
        ensures
            r@ == 0,
    {
        TimeSpan { secs: 0, nanos: 0 }
    }

    /// `secs` whole seconds.
    pub fn from_secs(secs: u64) -> (r: TimeSpan)
        ensures
            r@ == secs * NANOS_PER_SEC,
    {
        TimeSpan { secs, nanos: 0 }
    }

    /// `millis` milliseconds.
    pub fn from_millis(millis: u64) -> (r: TimeSpan)
        ensures
            r@ == millis * NANOS_PER_MILLI,
    {
        let secs = millis / 1000;
        let rem = (millis % 1000) as u32;
        assert(secs * 1000 + rem == millis) by (nonlinear_arith)
            requires
                secs == millis / 1000,
                rem == millis % 1000,
        ;
        TimeSpan { secs, nanos: rem * NANOS_PER_MILLI }
    }

    /// `secs` seconds and `nanos` nanoseconds, the nanoseconds beyond a second carried into
    /// the seconds.
    pub fn new(secs: u64, nanos: u32) -> (r: TimeSpan)
        requires
            secs + nanos / NANOS_PER_SEC <= u64::MAX,
        ensures
            r@ == secs * NANOS_PER_SEC + nanos,
    {
        let extra = (nanos / NANOS_PER_SEC) as u64;
        let rest = nanos % NANOS_PER_SEC;
        assert(extra * 1_000_000_000 + rest == nanos) by (nonlinear_arith)
            requires
                extra == nanos / 1_000_000_000,
                rest == nanos % 1_000_000_000,
        ;
        TimeSpan { secs: secs + extra, nanos: rest }
    }

    /// Whole seconds in the span.
    pub fn as_secs(&self) -> (r: u64)
        ensures
            r == self@ / NANOS_PER_SEC as int,
    {
        proof {
            use_type_invariant(self);
            assert((self.secs * 1_000_000_000 + self.nanos) / 1_000_000_000 == self.secs) by (nonlinear_arith)
                requires
                    self.nanos < 1_000_000_000,
            ;
        }
        self.secs
    }

    /// Nanoseconds past the whole seconds.
    pub fn subsec_nanos(&self) -> (r: u32)
        ensures
            r == self@ % NANOS_PER_SEC as int,
    {
        proof {
            use_type_invariant(self);
            assert((self.secs * 1_000_000_000 + self.nanos) % 1_000_000_000 == self.nanos) by (nonlinear_arith)
                requires
                    self.nanos < 1_000_000_000,
            ;
        }
        self.nanos
    }

    /// Whole milliseconds in the span.
    pub fn as_millis(&self) -> (r: u128)
        ensures
            r == self@ / NANOS_PER_MILLI as int,
    {
        let t = self.total();
        t / (NANOS_PER_MILLI as u128)
    }

    /// The sum, or the largest span when the sum would exceed it.
    pub fn saturating_add(self, other: TimeSpan) -> (r: TimeSpan)
        ensures
            r@ == if self@ + other@ > max_total() { max_total() } else { self@ + other@ },
    {
        proof {
            use_type_invariant(&self);
            use_type_invariant(&other);
            Self::lemma_range(self.secs, self.nanos);
            Self::lemma_range(other.secs, other.nanos);
        }
        let a = self.total();
        let b = other.total();
        let max = TimeSpan { secs: u64::MAX, nanos: NANOS_PER_SEC - 1 };
        let m = max.total();
        if a > m - b {
            max
        } else {
            TimeSpan::from_total(a + b)
        }
    }

    /// The difference, or zero when `other` is longer.
    pub fn saturating_sub(self, other: TimeSpan) -> (r: TimeSpan)
        ensures
            r@ == if self@ < other@ { 0 } else { self@ - other@ },
    {
        proof {
            use_type_invariant(&self);
            use_type_invariant(&other);
            Self::lemma_range(self.secs, self.nanos);
            Self::lemma_range(other.secs, other.nanos);
        }
        let a = self.total();
        let b = other.total();
        if a < b {
            TimeSpan::zero()
        } else {
            TimeSpan::from_total(a - b)
        }
    }

    /// Whether this span is at least as long as `other`.
    pub fn at_least(&self, other: &TimeSpan) -> (r: bool)
        ensures
            r == (self@ >= other@),
    {
        self.total() >= other.total()
    }
}

} // verus!
