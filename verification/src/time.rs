//! Time as the protocol core sees it.
//!
//! The core never reads a clock: callers hand it the current time. A
//! [`Duration`] is a count of nanoseconds, an [`Instant`] is a count of
//! nanoseconds since an origin that the caller chooses once and keeps.
use vstd::prelude::*;

verus! {

/// Nanoseconds in one millisecond.
pub const NANOS_PER_MILLI: u128 = 1_000_000;

/// Nanoseconds in one microsecond.
pub const NANOS_PER_MICRO: u128 = 1_000;

/// The latest instant a caller may pass in: 2^100 nanoseconds after the origin,
/// far beyond what any system clock counts to. It leaves room for the timer
/// arithmetic of loss recovery.
pub const CLOCK_LIMIT: u128 = 0x10_0000_0000_0000_0000_0000_0000;

/// A span of time.
#[derive(Clone, Copy, Debug, PartialEq, Eq, Structural)]
pub struct Duration {
    /// The length of the span in nanoseconds.
    pub nanos: u128,
}

/// A point in time.
#[derive(Clone, Copy, Debug, PartialEq, Eq, Structural)]
pub struct Instant {
    /// Nanoseconds since the origin of the caller's clock.
    pub nanos: u128,
}

impl Duration {
    /// The empty span.
    pub fn zero() -> (d: Duration)
        ensures
            d.nanos == 0,
    {
        Duration { nanos: 0 }
    }

    /// The span of `millis` milliseconds.
    pub fn from_millis(millis: u64) -> (d: Duration)
        ensures
            d.nanos == millis * 1_000_000,
    {
        Duration { nanos: millis as u128 * NANOS_PER_MILLI }
    }

    /// The span of `micros` microseconds.
    pub fn from_micros(micros: u64) -> (d: Duration)
        ensures
            d.nanos == micros * 1_000,
    {
        Duration { nanos: micros as u128 * NANOS_PER_MICRO }
    }

    /// Whole microseconds in the span.
    pub fn as_micros(&self) -> (micros: u128)
        ensures
            micros == self.nanos / 1_000,
    {
        self.nanos / NANOS_PER_MICRO
    }

    /// The shorter of two spans.
    pub open spec fn spec_min(self, other: Duration) -> Duration {
        if other.nanos < self.nanos {
            other
        } else {
            self
        }
    }

    /// The longer of two spans.
    pub open spec fn spec_max(self, other: Duration) -> Duration {
        if other.nanos > self.nanos {
            other
        } else {
            self
        }
    }

    /// The shorter of two spans.
    pub fn min(self, other: Duration) -> (d: Duration)
        ensures
            d == self.spec_min(other),
    {
        if other.nanos < self.nanos {
            other
        } else {
            self
        }
    }

    /// The longer of two spans.
    pub fn max(self, other: Duration) -> (d: Duration)
        ensures
            d == self.spec_max(other),
    {
        if other.nanos > self.nanos {
            other
        } else {
            self
        }
    }
}

impl Instant {
    /// Whether a caller may pass this instant in as the current time.
    pub open spec fn in_range(self) -> bool {
        self.nanos <= CLOCK_LIMIT
    }

    /// The instant `span` after this one.
    pub open spec fn after(self, span: Duration) -> Instant {
        Instant { nanos: (self.nanos + span.nanos) as u128 }
    }

    /// The instant `span` after this one.
    pub fn plus(self, span: Duration) -> (t: Instant)
        requires
            self.nanos + span.nanos <= u128::MAX,
        ensures
            t == self.after(span),
            t.nanos == self.nanos + span.nanos,
    {
        Instant { nanos: self.nanos + span.nanos }
    }

    /// The span from `earlier` to this instant, zero if `earlier` is later.
    pub open spec fn since(self, earlier: Instant) -> Duration {
        if earlier.nanos <= self.nanos {
            Duration { nanos: (self.nanos - earlier.nanos) as u128 }
        } else {
            Duration { nanos: 0 }
        }
    }

    /// The span from `earlier` to this instant, zero if `earlier` is later.
    pub fn saturating_duration_since(self, earlier: Instant) -> (d: Duration)
        ensures
            d == self.since(earlier),
    {
        if earlier.nanos <= self.nanos {
            Duration { nanos: self.nanos - earlier.nanos }
        } else {
            Duration { nanos: 0 }
        }
    }

    /// The earlier of two instants.
    pub open spec fn spec_min(self, other: Instant) -> Instant {
        if other.nanos < self.nanos {
            other
        } else {
            self
        }
    }

    /// The later of two instants.
    pub open spec fn spec_max(self, other: Instant) -> Instant {
        if other.nanos > self.nanos {
            other
        } else {
            self
        }
    }

    /// The earlier of two instants.
    pub fn min(self, other: Instant) -> (t: Instant)
        ensures
            t == self.spec_min(other),
    {
        if other.nanos < self.nanos {
            other
        } else {
            self
        }
    }

    /// The later of two instants.
    pub fn max(self, other: Instant) -> (t: Instant)
        ensures
            t == self.spec_max(other),
    {
        if other.nanos > self.nanos {
            other
        } else {
            self
        }
    }
}

/// Times add up: the span since an earlier instant leads from it to the later one, none leads
/// back, and the earlier and the later of two are those two.
pub proof fn law_times(a: Instant, b: Instant, d: Duration)
    requires
        a.nanos + d.nanos <= u128::MAX,
    ensures
        a.after(d).nanos - a.nanos == d.nanos,
        a.nanos <= b.nanos ==> a.nanos + b.since(a).nanos == b.nanos,
        a.nanos > b.nanos ==> b.since(a).nanos == 0,
        a.nanos <= b.nanos ==> a.spec_min(b).nanos == a.nanos && a.spec_max(b).nanos == b.nanos,
        a.nanos >= b.nanos ==> a.spec_min(b).nanos == b.nanos && a.spec_max(b).nanos == a.nanos,
{
}

/// The shorter and the longer of two spans are those two.
pub proof fn law_spans(a: Duration, b: Duration)
    ensures
        a.nanos <= b.nanos ==> a.spec_min(b).nanos == a.nanos && a.spec_max(b).nanos == b.nanos,
        a.nanos >= b.nanos ==> a.spec_min(b).nanos == b.nanos && a.spec_max(b).nanos == a.nanos,
{
}

} // verus!
