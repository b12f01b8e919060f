//! Moments and spans of time, counted in nanoseconds.
use vstd::prelude::*;

verus! {

/// A span of time.
#[derive(Clone, Copy, Debug, PartialEq, Eq, Structural)]
pub struct Duration {
    pub nanos: u128,
}

/// A moment, as the time that has passed since some fixed origin.
#[derive(Clone, Copy, Debug, PartialEq, Eq, Structural)]
pub struct Instant {
    pub nanos: u128,
}

/// A span of `n` milliseconds.
pub open spec fn millis(n: int) -> int {
    n * 1_000_000
}

/// A span of `n` seconds.
pub open spec fn seconds(n: int) -> int {
    n * 1_000_000_000
}

/// The time from `earlier` to `later`, or none where `later` comes first.
pub open spec fn elapsed(earlier: Instant, later: Instant) -> int {
    if later.nanos >= earlier.nanos {
        later.nanos - earlier.nanos
    } else {
        0
    }
}

/// `value` moved into the range from `low` to `high`.
pub open spec fn clamped(value: int, low: int, high: int) -> int {
    if value < low {
        low
    } else if value > high {
        high
    } else {
        value
    }
}

impl Duration {
    pub fn from_millis(n: u64) -> (r: Self)
        ensures
            r.nanos == millis(n as int),
    {
        Duration { nanos: n as u128 * 1_000_000 }
    }

    pub fn from_secs(n: u64) -> (r: Self)
        ensures
            r.nanos == seconds(n as int),
    {
        Duration { nanos: n as u128 * 1_000_000_000 }
    }

    /// The whole milliseconds in the span.
    pub fn as_millis(&self) -> (r: u128)
        ensures
            r == self.nanos / 1_000_000,
    {
        self.nanos / 1_000_000
    }

    /// What is left of the span after `other` has passed.
    pub fn saturating_sub(&self, other: Duration) -> (r: Self)
        ensures
            r.nanos == (if self.nanos >= other.nanos {
                self.nanos - other.nanos
            } else {
                0
            }),
    {
        if self.nanos >= other.nanos {
            Duration { nanos: self.nanos - other.nanos }
        } else {
            Duration { nanos: 0 }
        }
    }

    /// The shorter of the two spans.
    pub fn shorter(self, other: Duration) -> (r: Self)
        ensures
            r == (if self.nanos <= other.nanos {
                self
            } else {
                other
            }),
    {
        if self.nanos <= other.nanos {
            self
        } else {
            other
        }
    }

    /// The span moved into the range from `low` to `high`.
    pub fn clamped(self, low: Duration, high: Duration) -> (r: Self)
        requires
            low.nanos <= high.nanos,
        ensures
            r.nanos == clamped(self.nanos as int, low.nanos as int, high.nanos as int),
    {
        if self.nanos < low.nanos {
            low
        } else if self.nanos > high.nanos {
            high
        } else {
            self
        }
    }
}

impl Instant {
    /// The time since `earlier`, or none where `earlier` has not come yet.
    pub fn saturating_duration_since(&self, earlier: Instant) -> (r: Duration)
        ensures
            r.nanos == elapsed(earlier, *self),
    {
        if self.nanos >= earlier.nanos {
            Duration { nanos: self.nanos - earlier.nanos }
        } else {
            Duration { nanos: 0 }
        }
    }

    /// The moment `span` later.
    pub fn after(&self, span: Duration) -> (r: Instant)
        requires
            self.nanos + span.nanos <= u128::MAX,
        ensures
            r.nanos == self.nanos + span.nanos,
    {
        Instant { nanos: self.nanos + span.nanos }
    }
}

/// The whole milliseconds in `duration`, as far as they fit.
pub fn duration_millis(duration: Duration) -> (r: u64)
    ensures
        r == (if duration.nanos / 1_000_000 <= u64::MAX {
            (duration.nanos / 1_000_000) as int
        } else {
            u64::MAX as int
        }),
{
    let whole: u128 = duration.as_millis();
    if whole > u64::MAX as u128 {
        u64::MAX
    } else {
        whole as u64
    }
}

} // verus!
