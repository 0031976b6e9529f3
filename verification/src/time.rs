//! Points in time and the spans between them, counted in nanoseconds.

use vstd::math::max;
use vstd::prelude::*;

verus! {

/// A span of time.
#[derive(Clone, Copy, Debug, PartialEq, Eq, Structural)]
pub struct Duration {
    pub nanos: u128,
}

/// A point in time: the nanoseconds that have passed since a fixed origin.
#[derive(Clone, Copy, Debug, PartialEq, Eq, Structural)]
pub struct Instant {
    pub nanos: u128,
}

/// The span from `earlier` to `later`, which is zero where `later` does not come later.
pub open spec fn span_between(earlier: Instant, later: Instant) -> Duration {
    Duration {
        nanos: if later.nanos <= earlier.nanos {
            0
        } else {
            (later.nanos - earlier.nanos) as u128
        },
    }
}

/// The nanoseconds of so many milliseconds.
pub open spec fn millis_in_nanos(millis: int) -> int {
    millis * 1_000_000
}

/// The nanoseconds of so many seconds.
pub open spec fn secs_in_nanos(secs: int) -> int {
    secs * 1_000_000_000
}

/// The whole milliseconds in so many nanoseconds.
pub open spec fn whole_millis(nanos: int) -> int {
    nanos / 1_000_000
}

impl Duration {
    pub fn from_nanos(nanos: u128) -> (span: Duration)
        ensures
            span.nanos == nanos,
    {
        Duration { nanos }
    }

    pub fn from_millis(millis: u64) -> (span: Duration)
        ensures
            span.nanos == millis * 1_000_000,
            span.nanos == millis_in_nanos(millis as int),
    {
        Duration { nanos: millis as u128 * 1_000_000 }
    }

    pub fn from_secs(secs: u64) -> (span: Duration)
        ensures
            span.nanos == secs * 1_000_000_000,
            span.nanos == secs_in_nanos(secs as int),
    {
        Duration { nanos: secs as u128 * 1_000_000_000 }
    }

    /// The whole milliseconds of the span.
    pub fn as_millis(self) -> (millis: u128)
        ensures
            millis == self.nanos / 1_000_000,
            millis == whole_millis(self.nanos as int),
    {
        self.nanos / 1_000_000
    }
}

impl Instant {
    pub fn from_nanos(nanos: u128) -> (at: Instant)
        ensures
            at.nanos == nanos,
    {
        Instant { nanos }
    }

    /// The point in time that lies `span` after this one.
    pub fn after(self, span: Duration) -> (later: Instant)
        requires
            self.nanos + span.nanos <= u128::MAX,
        ensures
            later.nanos == self.nanos + span.nanos,
    {
        Instant { nanos: self.nanos + span.nanos }
    }

    /// The span since `earlier`, which is zero where `earlier` comes later.
    pub fn duration_since(self, earlier: Instant) -> (span: Duration)
        ensures
            span == span_between(earlier, self),
    {
        if self.nanos <= earlier.nanos {
            Duration { nanos: 0 }
        } else {
            Duration { nanos: self.nanos - earlier.nanos }
        }
    }
}

/// The span from one time to another is the difference of the two, and zero where time would go
/// back.
pub proof fn law_span_is_the_difference(earlier: Instant, later: Instant)
    ensures
        span_between(earlier, later).nanos == max(0, later.nanos - earlier.nanos),
{
}

/// A second is a thousand milliseconds, and a millisecond a million nanoseconds, however many there
/// are. Of a span that is no whole number of milliseconds, the rest does not count.
pub proof fn law_units_make_each_other_up(count: int, rest: int)
    requires
        0 <= rest < 1000 * 1000,
    ensures
        secs_in_nanos(count) == millis_in_nanos(1000 * count),
        millis_in_nanos(count + 1) == millis_in_nanos(count) + 1000 * 1000,
        millis_in_nanos(0) == 0,
        whole_millis(millis_in_nanos(count) + rest) == count,
{
}

} // verus!
