//! Spans of time, counted in nanoseconds.

use vstd::prelude::*;

verus! {

/// A span of time.
#[derive(Clone, Copy, Debug, PartialEq, Eq, Structural)]
pub struct Duration {
    /// The length in nanoseconds.
    pub nanos: u128,
}

impl Duration {
    pub fn from_secs(secs: u64) -> (r: Duration)
        ensures
            r.nanos == secs * 1_000_000_000,
    {
        Duration { nanos: secs as u128 * 1_000_000_000 }
    }

    pub fn from_millis(millis: u64) -> (r: Duration)
        ensures
            r.nanos == millis * 1_000_000,
    {
        Duration { nanos: millis as u128 * 1_000_000 }
    }

    pub fn from_nanos(nanos: u64) -> (r: Duration)
        ensures
            r.nanos == nanos,
    {
        Duration { nanos: nanos as u128 }
    }

    /// The whole milliseconds in the span.
    pub fn as_millis(&self) -> (r: u128)
        ensures
            r == self.nanos / 1_000_000,
    {
        self.nanos / 1_000_000
    }

    pub fn is_zero(&self) -> (r: bool)
        ensures
            r == (self.nanos == 0),
    {
        self.nanos == 0
    }

    /// The span that is left of `self` once `other` is taken off, where `other` is no longer.
    pub fn checked_sub(&self, other: Duration) -> (r: Option<Duration>)
        ensures
            match r {
                Some(d) => other.nanos <= self.nanos && d.nanos == self.nanos - other.nanos,
                None => other.nanos > self.nanos,
            },
    {
        if other.nanos <= self.nanos {
            Some(Duration { nanos: self.nanos - other.nanos })
        } else {
            None
        }
    }

    /// Twice the span, but no more than `cap`.
    pub open spec fn doubled_up_to(self, cap: Duration) -> Duration {
        if 2 * self.nanos <= cap.nanos {
            Duration { nanos: (2 * self.nanos) as u128 }
        } else {
            cap
        }
    }

    /// Twice the span, but no more than `cap`.
    pub fn doubled(&self, cap: Duration) -> (r: Duration)
        ensures
            r == self.doubled_up_to(cap),
    {
        if self.nanos <= cap.nanos / 2 {
            Duration { nanos: 2 * self.nanos }
        } else {
            cap
        }
    }
}

/// Twice a span up to a cap is the shorter of the two.
pub proof fn doubling_is_capped(d: Duration, cap: Duration)
    ensures
        d.doubled_up_to(cap).nanos == if 2 * d.nanos < cap.nanos {
            2 * d.nanos
        } else {
            cap.nanos as int
        },
{
}

} // verus!
