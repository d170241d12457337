//! Time as the engine sees it: instants and durations in whole
//! milliseconds, handed in by whoever owns a clock.

use vstd::prelude::*;

verus! {

/// A span of time in milliseconds.
#[derive(Debug, Clone, Copy, PartialEq, Eq, Structural)]
pub struct Duration {
    /// Length of the span in milliseconds.
    pub millis: u64,
}

/// A point on a monotonic clock, in milliseconds since an origin that the
/// owner of the clock chooses.
#[derive(Debug, Clone, Copy, PartialEq, Eq, Structural)]
pub struct Instant {
    /// Milliseconds since the origin.
    pub millis: u64,
}

/// The sum of two counts of milliseconds, held at the largest count where it
/// would pass it.
pub open spec fn saturating_sum(a: u64, b: u64) -> u64 {
    if a + b > u64::MAX {
        u64::MAX
    } else {
        (a + b) as u64
    }
}

impl Duration {
    /// A span of `millis` milliseconds.
    pub fn from_millis(millis: u64) -> (d: Duration)
        ensures
            d.millis == millis,
    {
        Duration { millis }
    }

    /// A span of `secs` seconds, held at the longest span where it would
    /// pass it.
    pub fn from_secs(secs: u64) -> (d: Duration)
        ensures
            d.millis == if secs * 1000 > u64::MAX {
                u64::MAX
            } else {
                (secs * 1000) as u64
            },
    {
        if secs > u64::MAX / 1000 {
            Duration { millis: u64::MAX }
        } else {
            Duration { millis: secs * 1000 }
        }
    }

    /// The length of the span in milliseconds.
    pub fn as_millis(&self) -> (millis: u64)
        ensures
            millis == self.millis,
    {
        self.millis
    }
}

impl Instant {
    /// The instant `millis` milliseconds after the origin.
    pub fn from_millis(millis: u64) -> (t: Instant)
        ensures
            t.millis == millis,
    {
        Instant { millis }
    }

    /// The instant `d` after this one, held at the last instant where it
    /// would pass it.
    pub open spec fn spec_plus(self, d: Duration) -> Instant {
        Instant { millis: saturating_sum(self.millis, d.millis) }
    }

    /// The instant `d` after this one, held at the last instant where it
    /// would pass it.
    #[verifier::when_used_as_spec(spec_plus)]
    pub fn plus(self, d: Duration) -> (t: Instant)
        ensures
            t == self.spec_plus(d),
    {
        if d.millis > u64::MAX - self.millis {
            Instant { millis: u64::MAX }
        } else {
            Instant { millis: self.millis + d.millis }
        }
    }

    /// Whether this instant is `other` or later.
    pub open spec fn spec_reached(self, other: Instant) -> bool {
        self.millis >= other.millis
    }

    /// Whether this instant is `other` or later.
    #[verifier::when_used_as_spec(spec_reached)]
    pub fn reached(self, other: Instant) -> (r: bool)
        ensures
            r == self.spec_reached(other),
    {
        self.millis >= other.millis
    }

    /// Whether more than `d` has passed between `earlier` and this instant.
    pub open spec fn spec_later_than(self, earlier: Instant, d: Duration) -> bool {
        earlier.millis + d.millis < self.millis
    }

    /// Whether more than `d` has passed between `earlier` and this instant.
    #[verifier::when_used_as_spec(spec_later_than)]
    pub fn later_than(self, earlier: Instant, d: Duration) -> (r: bool)
        ensures
            r == self.spec_later_than(earlier, d),
    {
        self.millis > earlier.millis && self.millis - earlier.millis > d.millis
    }
}

} // verus!
