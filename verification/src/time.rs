//! Spans and moments of time, in nanoseconds.
use vstd::prelude::*;

use crate::model::Model;

verus! {

/// A span of time.
#[derive(Clone, Copy, Debug, PartialEq, Eq, Structural)]
pub struct Duration {
    pub nanos: u128,
}

/// A moment on a clock that never goes backwards.
#[derive(Clone, Copy, Debug, PartialEq, Eq, Structural)]
pub struct Instant {
    pub nanos: u128,
}

/// How many nanoseconds a second has.
pub const NANOS_PER_SEC: u128 = 1_000_000_000;

impl Model for Duration {
    type M = Duration;

    open spec fn model(&self) -> Duration {
        *self
    }
}

impl Model for Instant {
    type M = Instant;

    open spec fn model(&self) -> Instant {
        *self
    }
}

/// What the clocks of a machine show at a time.
#[derive(Clone, Copy, Debug, PartialEq, Eq, Structural)]
pub struct Clock {
    /// The clock that never goes backwards.
    pub at: Instant,
    /// The seconds since the beginning of 1970.
    pub unix_secs: u64,
}

impl Model for Clock {
    type M = Clock;

    open spec fn model(&self) -> Clock {
        *self
    }
}

impl Duration {
    /// A span of whole seconds.
    pub fn from_secs(secs: u64) -> (r: Duration)
        ensures
            r.nanos == secs * NANOS_PER_SEC,
    {
        Duration { nanos: secs as u128 * NANOS_PER_SEC }
    }

    /// A span of whole milliseconds.
    pub fn from_millis(millis: u64) -> (r: Duration)
        ensures
            r.nanos == millis * 1_000_000,
    {
        Duration { nanos: millis as u128 * 1_000_000 }
    }

    /// The empty span.
    pub fn zero() -> (r: Duration)
        ensures
            r.nanos == 0,
    {
        Duration { nanos: 0 }
    }

    /// The whole seconds of a span that a 64-bit count of seconds can hold.
    pub fn as_secs(&self) -> (r: u64)
        ensures
            r == (if self.nanos / NANOS_PER_SEC <= u64::MAX {
                self.nanos / NANOS_PER_SEC
            } else {
                u64::MAX as u128
            }),
    {
        let secs: u128 = self.nanos / NANOS_PER_SEC;
        if secs <= u64::MAX as u128 {
            secs as u64
        } else {
            u64::MAX
        }
    }

    /// Whether this span is shorter than another.
    pub fn shorter_than(&self, other: Duration) -> (r: bool)
        ensures
            r == (self.nanos < other.nanos),
    {
        self.nanos < other.nanos
    }
}

impl Instant {
    /// The time since `earlier`, nothing when it is later.
    pub open spec fn since(self, earlier: Instant) -> Duration {
        Duration {
            nanos: if earlier.nanos <= self.nanos {
                (self.nanos - earlier.nanos) as u128
            } else {
                0
            },
        }
    }

    /// The time since `earlier`, nothing when it is later.
    pub fn saturating_duration_since(&self, earlier: Instant) -> (r: Duration)
        ensures
            r == self.since(earlier),
    {
        if earlier.nanos <= self.nanos {
            Duration { nanos: self.nanos - earlier.nanos }
        } else {
            Duration { nanos: 0 }
        }
    }

    /// The moment `d` later; the last one the clock can show if that is past it.
    pub open spec fn later(self, d: Duration) -> Instant {
        Instant {
            nanos: if self.nanos + d.nanos <= u128::MAX {
                (self.nanos + d.nanos) as u128
            } else {
                u128::MAX
            },
        }
    }

    /// The moment `d` later; the last one the clock can show if that is past it.
    pub fn after(&self, d: Duration) -> (r: Instant)
        ensures
            r == self.later(d),
    {
        if d.nanos <= u128::MAX - self.nanos {
            Instant { nanos: self.nanos + d.nanos }
        } else {
            Instant { nanos: u128::MAX }
        }
    }
}

} // verus!
