//! Spans and instants of playback time with nanosecond resolution.

use vstd::prelude::*;

verus! {

/// Nanoseconds in one millisecond.
pub const NANOS_PER_MILLI: u128 = 1_000_000;

/// Nanoseconds in one second.
pub const NANOS_PER_SEC: u128 = 1_000_000_000;

/// The longest span: `u64::MAX` seconds and 999 999 999 nanoseconds.
pub const MAX_NANOS: u128 = 18_446_744_073_709_551_615_999_999_999;

/// A non-negative span of time, counted in nanoseconds.
#[derive(Clone, Copy, Debug, PartialEq, Eq, PartialOrd, Ord, Hash, Structural)]
pub struct Duration {
    nanos: u128,
}

impl Duration {
    /// A span never exceeds the longest span.
    #[verifier::type_invariant]
    pub open spec fn within_range(self) -> bool {
        self@ <= MAX_NANOS
    }
}

impl View for Duration {
    type V = nat;

    /// The span in nanoseconds.
    closed spec fn view(&self) -> nat {
        self.nanos as nat
    }
}

/// The span in whole milliseconds, rounded down.
pub open spec fn millis_of(d: Duration) -> nat {
    d@ / (NANOS_PER_MILLI as nat)
}

/// `a + b`, capped at the longest span.
pub open spec fn sat_add(a: nat, b: nat) -> nat {
    if a + b > MAX_NANOS { MAX_NANOS as nat } else { a + b }
}

/// `a - b`, or zero when `b` exceeds `a`.
pub open spec fn sat_sub(a: nat, b: nat) -> nat {
    if a >= b { (a - b) as nat } else { 0 }
}

impl Duration {
    /// The empty span.
    pub fn zero() -> (d: Duration)
        ensures
            d@ == 0,
    {
        Duration { nanos: 0 }
    }

    /// A span of `nanos` nanoseconds.
    pub fn from_nanos(nanos: u128) -> (d: Duration)
        requires
            nanos <= MAX_NANOS,
        ensures
            d@ == nanos,
    {
        Duration { nanos }
    }

    /// The span of `millis` milliseconds.
    pub closed spec fn span_of_millis(millis: u64) -> Duration {
        Duration { nanos: (millis * NANOS_PER_MILLI) as u128 }
    }

    /// The span of `millis` milliseconds is `millis` million nanoseconds.
    pub broadcast proof fn lemma_span_of_millis(millis: u64)
        ensures
            #[trigger] Duration::span_of_millis(millis)@ == millis * NANOS_PER_MILLI,
    {
        assert(millis * NANOS_PER_MILLI <= MAX_NANOS) by (nonlinear_arith)
            requires
                millis <= u64::MAX,
        ;
    }

    /// A span of `millis` milliseconds.
    pub fn from_millis(millis: u64) -> (d: Duration)
        ensures
            d == Duration::span_of_millis(millis),
            d@ == millis * NANOS_PER_MILLI,
            d@ <= MAX_NANOS,
    {
        assert(millis * NANOS_PER_MILLI <= MAX_NANOS) by (nonlinear_arith)
            requires
                millis <= u64::MAX,
        ;
        Duration { nanos: millis as u128 * NANOS_PER_MILLI }
    }

    /// A span of `secs` seconds.
    pub fn from_secs(secs: u64) -> (d: Duration)
        ensures
            d@ == secs * NANOS_PER_SEC,
            d@ <= MAX_NANOS,
    {
        assert(secs * NANOS_PER_SEC <= MAX_NANOS) by (nonlinear_arith)
            requires
                secs <= u64::MAX,
        ;
        Duration { nanos: secs as u128 * NANOS_PER_SEC }
    }

    /// The span in nanoseconds.
    pub fn as_nanos(&self) -> (n: u128)
        ensures
            n == self@,
    {
        self.nanos
    }

    /// The span in whole milliseconds, rounded down.
    pub fn as_millis(&self) -> (n: u128)
        ensures
            n == millis_of(*self),
    {
        self.nanos / NANOS_PER_MILLI
    }

    /// `self + other`, capped at the longest span.
    pub fn saturating_add(&self, other: Duration) -> (d: Duration)
        ensures
            d@ == sat_add(self@, other@),
    {
        let sum = self.nanos.checked_add(other.nanos);
        match sum {
            Some(s) if s <= MAX_NANOS => Duration { nanos: s },
            _ => Duration { nanos: MAX_NANOS },
        }
    }

    /// `self - other`, or zero when `other` is longer.
    pub fn saturating_sub(&self, other: Duration) -> (d: Duration)
        ensures
            d@ == sat_sub(self@, other@),
    {
        proof {
            use_type_invariant(self);
        }
        if self.nanos >= other.nanos {
            Duration { nanos: self.nanos - other.nanos }
        } else {
            Duration { nanos: 0 }
        }
    }

    /// Whether `self` is strictly shorter than `other`.
    pub fn lt(&self, other: &Duration) -> (b: bool)
        ensures
            b == (self@ < other@),
    {
        self.nanos < other.nanos
    }

    /// Whether `self` is no longer than `other`.
    pub fn le(&self, other: &Duration) -> (b: bool)
        ensures
            b == (self@ <= other@),
    {
        self.nanos <= other.nanos
    }

    /// The shorter of the two spans.
    pub fn min(self, other: Duration) -> (d: Duration)
        ensures
            d@ == if self@ <= other@ { self@ } else { other@ },
    {
        if self.nanos <= other.nanos {
            self
        } else {
            other
        }
    }

    /// Two spans are equal exactly when their lengths are.
    pub proof fn lemma_view_injective(a: Duration, b: Duration)
        ensures
            (a@ == b@) == (a == b),
    {
    }
}

/// A point on a monotonic clock, held as the span since an origin that the
/// caller fixes once (for example the start of the process).
#[derive(Clone, Copy, Debug, PartialEq, Eq, PartialOrd, Ord, Hash, Structural)]
pub struct Instant {
    since_origin: Duration,
}

impl View for Instant {
    type V = nat;

    /// Nanoseconds since the origin.
    closed spec fn view(&self) -> nat {
        self.since_origin@
    }
}

impl Instant {
    /// An instant lies at most the longest span after the origin.
    #[verifier::type_invariant]
    pub open spec fn within_range(self) -> bool {
        self@ <= MAX_NANOS
    }

    /// The instant `since_origin` after the origin.
    pub fn from_origin(since_origin: Duration) -> (t: Instant)
        ensures
            t@ == since_origin@,
    {
        proof {
            use_type_invariant(&since_origin);
        }
        Instant { since_origin }
    }

    /// The span from the origin to this instant.
    pub fn since_origin(&self) -> (d: Duration)
        ensures
            d@ == self@,
    {
        self.since_origin
    }

    /// The instant `d` after this one; the sum must not pass the longest span.
    pub fn plus(&self, d: Duration) -> (t: Instant)
        requires
            self@ + d@ <= MAX_NANOS,
        ensures
            t@ == self@ + d@,
    {
        let since_origin = self.since_origin.saturating_add(d);
        Instant { since_origin }
    }

    /// The span from `earlier` to this instant, or zero when `earlier` is later.
    pub fn saturating_duration_since(&self, earlier: Instant) -> (d: Duration)
        ensures
            d@ == sat_sub(self@, earlier@),
    {
        self.since_origin.saturating_sub(earlier.since_origin)
    }
}

} // verus!
