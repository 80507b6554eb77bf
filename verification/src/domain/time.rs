//! A span of time with nanosecond resolution.

use vstd::prelude::*;

verus! {

/// The largest number of nanoseconds a [`Duration`] can hold: `u64::MAX`
/// whole seconds plus 999 999 999 nanoseconds.
pub const MAX_NANOS: u128 = 18_446_744_073_709_551_615_999_999_999u128;

/// Nanoseconds in one second.
pub const NANOS_PER_SEC: u128 = 1_000_000_000u128;

/// A non-negative span of time, counted in nanoseconds.
///
/// Its view is the number of nanoseconds it spans.
#[derive(Debug, Clone, Copy, PartialEq, Eq, PartialOrd, Ord, Hash)]
pub struct Duration {
    nanos: u128,
}

impl View for Duration {
    type V = nat;

    closed spec fn view(&self) -> nat {
        self.nanos as nat
    }
}

impl Duration {
    #[verifier::type_invariant]
    closed spec fn fits(self) -> bool {
        self.nanos <= MAX_NANOS
    }

    /// The empty span.
    pub fn zero() -> (d: Duration)
        ensures
            d@ == 0,
    {
        Duration { nanos: 0 }
    }

    /// `secs` whole seconds and `nanos` nanoseconds; nanoseconds beyond a
    /// second carry into the seconds.
    pub fn new(secs: u64, nanos: u32) -> (d: Duration)
        requires
            secs + nanos / 1_000_000_000 <= u64::MAX,
        ensures
            d@ == secs * 1_000_000_000 + nanos,
    {
        let total = (secs as u128) * NANOS_PER_SEC + (nanos as u128);
        Duration { nanos: total }
    }

    pub fn from_secs(secs: u64) -> (d: Duration)
        ensures
            d@ == secs * 1_000_000_000,
    {
        Duration { nanos: (secs as u128) * NANOS_PER_SEC }
    }

    pub fn from_millis(millis: u64) -> (d: Duration)
        ensures
            d@ == millis * 1_000_000,
    {
        Duration { nanos: (millis as u128) * 1_000_000u128 }
    }

    pub fn from_micros(micros: u64) -> (d: Duration)
        ensures
            d@ == micros * 1_000,
    {
        Duration { nanos: (micros as u128) * 1_000u128 }
    }

    pub fn from_nanos(nanos: u64) -> (d: Duration)
        ensures
            d@ == nanos,
    {
        Duration { nanos: nanos as u128 }
    }

    /// The whole span in nanoseconds.
    pub fn as_nanos(&self) -> (n: u128)
        ensures
            n == self@,
    {
        self.nanos
    }

    /// The number of whole seconds.
    pub fn as_secs(&self) -> (s: u64)
        ensures
            s == self@ / 1_000_000_000,
    {
        proof {
            use_type_invariant(self);
        }
        (self.nanos / NANOS_PER_SEC) as u64
    }

    /// The fractional part, in nanoseconds.
    pub fn subsec_nanos(&self) -> (n: u32)
        ensures
            n == self@ % 1_000_000_000,
    {
        (self.nanos % NANOS_PER_SEC) as u32
    }

    pub fn is_zero(&self) -> (b: bool)
        ensures
            b == (self@ == 0),
    {
        self.nanos == 0
    }

    /// `self - rhs`, or zero when `rhs` is the longer span.
    pub fn saturating_sub(self, rhs: Duration) -> (d: Duration)
        ensures
            d@ == if self@ >= rhs@ { self@ - rhs@ } else { 0 },
    {
        proof {
            use_type_invariant(self);
        }
        if self.nanos >= rhs.nanos {
            Duration { nanos: self.nanos - rhs.nanos }
        } else {
            Duration { nanos: 0 }
        }
    }
}

} // verus!
