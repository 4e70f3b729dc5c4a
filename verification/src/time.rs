//! Spans and moments of time, counted in nanoseconds.
//!
//! The library cannot read a clock: the app reads one and hands the moment over. A
//! [`Duration`] holds exactly the range of `std::time::Duration`, and an [`Instant`] is
//! a moment counted from an origin the app chooses, in the same range, so that the
//! difference of two moments is always a duration.

use vstd::prelude::*;

verus! {

/// The longest span `std::time::Duration` holds: `u64::MAX` seconds and 999 999 999
/// nanoseconds.
pub open spec fn max_nanos() -> nat {
    18_446_744_073_709_551_615 * 1_000_000_000 + 999_999_999
}

/// A span of time.
#[derive(Clone, Copy, Debug, PartialEq, Eq, Hash, Structural)]
pub struct Duration {
    nanos: u128,
}

/// A moment, counted from an origin of the app's choosing.
#[derive(Clone, Copy, Debug, PartialEq, Eq, Hash, Structural)]
pub struct Instant {
    nanos: u128,
}

impl View for Duration {
    type V = nat;

    /// The span in nanoseconds.
    closed spec fn view(&self) -> nat {
        self.nanos as nat
    }
}

impl View for Instant {
    type V = nat;

    /// The moment in nanoseconds after the origin.
    closed spec fn view(&self) -> nat {
        self.nanos as nat
    }
}

impl Duration {
    #[verifier::type_invariant]
    closed spec fn in_range(self) -> bool {
        self.nanos <= max_nanos()
    }

    /// No time at all.
    pub fn zero() -> (d: Duration)
        ensures
            d@ == 0,
    {
        Duration { nanos: 0 }
    }

    pub fn from_secs(secs: u64) -> (d: Duration)
        ensures
            d@ == secs * 1_000_000_000,
    {
        Duration { nanos: secs as u128 * 1_000_000_000 }
    }

    pub fn from_millis(millis: u64) -> (d: Duration)
        ensures
            d@ == millis * 1_000_000,
    {
        Duration { nanos: millis as u128 * 1_000_000 }
    }

    pub fn from_nanos(nanos: u64) -> (d: Duration)
        ensures
            d@ == nanos,
    {
        Duration { nanos: nanos as u128 }
    }

    /// Whole seconds and nanoseconds. Unlike `Duration::new`, the nanoseconds may be a
    /// second or more; the total must still be in range.
    pub fn new(secs: u64, nanos: u32) -> (d: Duration)
        requires
            secs * 1_000_000_000 + nanos <= max_nanos(),
        ensures
            d@ == secs * 1_000_000_000 + nanos,
    {
        Duration { nanos: secs as u128 * 1_000_000_000 + nanos as u128 }
    }

    /// The whole seconds in the span.
    pub fn as_secs(&self) -> (s: u64)
        ensures
            s == self@ / 1_000_000_000,
    {
        proof { use_type_invariant(self); }
        (self.nanos / 1_000_000_000) as u64
    }

    /// The nanoseconds past the whole seconds.
    pub fn subsec_nanos(&self) -> (n: u32)
        ensures
            n == self@ % 1_000_000_000,
    {
        (self.nanos % 1_000_000_000) as u32
    }

    /// The span in nanoseconds, which is never more than the longest span there is.
    pub fn as_nanos(&self) -> (n: u128)
        ensures
            n == self@,
            n <= max_nanos(),
    {
        proof { use_type_invariant(self); }
        self.nanos
    }

    /// The two spans together, or `None` where that is past the longest span there is.
    pub fn checked_add(self, other: Duration) -> (d: Option<Duration>)
        ensures
            match d {
                Some(d) => d@ == self@ + other@ && d@ <= max_nanos(),
                None => self@ + other@ > max_nanos(),
            },
    {
        proof {
            use_type_invariant(&self);
            use_type_invariant(&other);
        }
        let total = self.nanos + other.nanos;
        if total > 18_446_744_073_709_551_615u128 * 1_000_000_000 + 999_999_999 {
            None
        } else {
            Some(Duration { nanos: total })
        }
    }

    /// The two spans together. The sum must be in range, as `Duration`'s `+` panics where
    /// it is not.
    pub fn plus(self, other: Duration) -> (d: Duration)
        requires
            self@ + other@ <= max_nanos(),
        ensures
            d@ == self@ + other@,
    {
        Duration { nanos: self.nanos + other.nanos }
    }

    pub fn is_zero(&self) -> (r: bool)
        ensures
            r == (self@ == 0),
    {
        self.nanos == 0
    }

    /// Whether this span is longer than `other`.
    pub fn longer_than(&self, other: &Duration) -> (r: bool)
        ensures
            r == (self@ > other@),
    {
        self.nanos > other.nanos
    }
}

impl Instant {
    #[verifier::type_invariant]
    closed spec fn in_range(self) -> bool {
        self.nanos <= max_nanos()
    }

    /// The moment `nanos` nanoseconds after the origin.
    pub fn from_nanos(nanos: u64) -> (t: Instant)
        ensures
            t@ == nanos,
    {
        Instant { nanos: nanos as u128 }
    }

    /// The moment `d` after the origin.
    pub fn at(d: Duration) -> (t: Instant)
        ensures
            t@ == d@,
    {
        proof { use_type_invariant(&d); }
        Instant { nanos: d.as_nanos() }
    }

    /// How long after the origin this moment is.
    pub fn since_origin(&self) -> (d: Duration)
        ensures
            d@ == self@,
            d@ <= max_nanos(),
    {
        proof { use_type_invariant(self); }
        Duration { nanos: self.nanos }
    }

    /// The moment `d` after this one. It must be in range, as `Instant`'s `+` panics
    /// where it is not.
    pub fn after(self, d: Duration) -> (t: Instant)
        requires
            self@ + d@ <= max_nanos(),
        ensures
            t@ == self@ + d@,
    {
        Instant { nanos: self.nanos + d.as_nanos() }
    }

    /// How long after `earlier` this moment is, or no time if it is not after it.
    pub fn saturating_duration_since(&self, earlier: Instant) -> (d: Duration)
        ensures
            d@ == (if self@ >= earlier@ { self@ - earlier@ } else { 0 }),
    {
        proof {
            use_type_invariant(self);
            use_type_invariant(&earlier);
        }
        if self.nanos >= earlier.nanos {
            Duration { nanos: self.nanos - earlier.nanos }
        } else {
            Duration { nanos: 0 }
        }
    }
}

} // verus!
