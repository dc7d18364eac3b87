//! Spans of time.

use vstd::prelude::*;

verus! {

/// A span of time in whole nanoseconds. A timestamp is the span since the start of its timeline.
#[derive(Clone, Copy, Debug, PartialEq, Eq, Structural)]
pub struct Duration {
    pub nanos: u128,
}

/// The span from `earlier` to `later` in nanoseconds, zero where `later` is not the later one.
pub open spec fn nanos_since(later: Duration, earlier: Duration) -> int {
    if later.nanos >= earlier.nanos {
        later.nanos - earlier.nanos
    } else {
        0
    }
}

impl Duration {
    /// A span of `nanos` nanoseconds.
    pub fn from_nanos(nanos: u64) -> (r: Duration)
        ensures
            r.nanos == nanos,
    {
        Duration { nanos: nanos as u128 }
    }

    /// A span of `micros` microseconds.
    pub fn from_micros(micros: u64) -> (r: Duration)
        ensures
            r.nanos == micros * 1_000,
    {
        Duration { nanos: micros as u128 * 1_000 }
    }

    /// A span of `millis` milliseconds.
    pub fn from_millis(millis: u64) -> (r: Duration)
        ensures
            r.nanos == millis * 1_000_000,
    {
        Duration { nanos: millis as u128 * 1_000_000 }
    }

    /// The difference `self - other`, or zero where `other` is longer.
    pub fn saturating_sub(self, other: Duration) -> (r: Duration)
        ensures
            r.nanos == nanos_since(self, other),
    {
        if self.nanos >= other.nanos {
            Duration { nanos: self.nanos - other.nanos }
        } else {
            Duration { nanos: 0 }
        }
    }

    /// The sum `self + other`, or the longest span where the sum is longer than that.
    pub fn saturating_add(self, other: Duration) -> (r: Duration)
        ensures
            r.nanos == (if self.nanos + other.nanos <= u128::MAX {
                self.nanos + other.nanos
            } else {
                u128::MAX as int
            }),
    {
        if self.nanos <= u128::MAX - other.nanos {
            Duration { nanos: self.nanos + other.nanos }
        } else {
            Duration { nanos: u128::MAX }
        }
    }
}

/// The span between two timestamps, put after the earlier one, reaches the later one. It is zero
/// in the other direction.
pub proof fn law_span_reaches_the_later_time(a: Duration, b: Duration)
    ensures
        a.nanos <= b.nanos ==> a.nanos + nanos_since(b, a) == b.nanos,
        a.nanos <= b.nanos ==> nanos_since(a, b) == 0,
{
}

} // verus!
