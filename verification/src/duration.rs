//! A span of time, in whole seconds plus nanoseconds.

use vstd::prelude::*;

verus! {

/// Nanoseconds in one second.
pub const NANOS_PER_SEC: u32 = 1_000_000_000;

/// A span of time: `secs` seconds and `nanos` (< one second) nanoseconds.
#[derive(Debug, Clone, Copy, PartialEq, Eq, Structural)]
pub struct Duration {
    secs: u64,
    nanos: u32,
}

impl Duration {
    #[verifier::type_invariant]
    spec fn well_formed(self) -> bool {
        self.nanos < NANOS_PER_SEC
    }

    /// The whole seconds of the span.
    pub closed spec fn secs_of(self) -> u64 {
        self.secs
    }

    /// The sub-second nanoseconds of the span.
    pub closed spec fn subsec_of(self) -> u32 {
        self.nanos
    }

    /// The length of the span in nanoseconds.
    pub open spec fn total_nanos(self) -> int {
        self.secs_of() * (NANOS_PER_SEC as int) + self.subsec_of()
    }

    /// `secs` seconds plus `nanos` nanoseconds; whole seconds in `nanos` are
    /// carried into the seconds (the total must fit in `u64` seconds).
    pub fn new(secs: u64, nanos: u32) -> (d: Duration)
        requires
            secs + nanos / NANOS_PER_SEC <= u64::MAX,
        ensures
            d.secs_of() == secs + nanos / NANOS_PER_SEC,
            d.subsec_of() == nanos % NANOS_PER_SEC,
    {
        Duration { secs: secs + (nanos / NANOS_PER_SEC) as u64, nanos: nanos % NANOS_PER_SEC }
    }

    /// The longest span: `u64::MAX` seconds and 999 999 999 nanoseconds, in nanoseconds.
    pub open spec fn max_nanos() -> int {
        u64::MAX as int * (NANOS_PER_SEC as int) + (NANOS_PER_SEC as int - 1)
    }

    /// The span of `n` nanoseconds.
    pub fn from_nanos(n: u128) -> (d: Duration)
        requires
            n <= Self::max_nanos(),
        ensures
            d.total_nanos() == n,
    {
        let secs = n / 1_000_000_000;
        let nanos = n % 1_000_000_000;
        proof {
            assert(secs * 1_000_000_000 + nanos == n) by (nonlinear_arith)
                requires secs == n / 1_000_000_000, nanos == n % 1_000_000_000;
            assert(secs <= u64::MAX) by (nonlinear_arith)
                requires secs == n / 1_000_000_000, n <= u64::MAX as int * 1_000_000_000 + 999_999_999;
        }
        Duration { secs: secs as u64, nanos: nanos as u32 }
    }

    /// The length of the span in nanoseconds.
    pub fn as_nanos(&self) -> (n: u128)
        ensures
            n == self.total_nanos(),
            n <= Self::max_nanos(),
    {
        proof {
            use_type_invariant(self);
            let (a, b) = (self.secs as int, self.nanos as int);
            assert(a * 1_000_000_000 + b <= u64::MAX as int * 1_000_000_000 + 999_999_999) by (nonlinear_arith)
                requires 0 <= a <= u64::MAX, 0 <= b < 1_000_000_000;
        }
        (self.secs as u128) * 1_000_000_000 + (self.nanos as u128)
    }

    /// Exactly `secs` seconds.
    pub fn from_secs(secs: u64) -> (d: Duration)
        ensures
            d.secs_of() == secs,
            d.subsec_of() == 0,
    {
        Duration { secs, nanos: 0 }
    }

    /// The empty span.
    pub fn zero() -> (d: Duration)
        ensures
            d.secs_of() == 0,
            d.subsec_of() == 0,
    {
        Duration { secs: 0, nanos: 0 }
    }

    /// Whole seconds, dropping the fraction.
    pub fn as_secs(&self) -> (s: u64)
        ensures
            s == self.secs_of(),
    {
        self.secs
    }

    /// The nanoseconds beyond the whole seconds.
    pub fn subsec_nanos(&self) -> (n: u32)
        ensures
            n == self.subsec_of(),
            n < NANOS_PER_SEC,
    {
        proof {
            use_type_invariant(self);
        }
        self.nanos
    }

    /// True for the empty span.
    pub fn is_zero(&self) -> (b: bool)
        ensures
            b == (self.total_nanos() == 0),
    {
        self.secs == 0 && self.nanos == 0
    }

    /// True when `self` is strictly longer than `other`.
    pub fn longer_than(&self, other: &Duration) -> (b: bool)
        ensures
            b == (self.total_nanos() > other.total_nanos()),
    {
        proof {
            use_type_invariant(self);
            use_type_invariant(other);
            let (a, b, c, d) = (self.secs as int, self.nanos as int, other.secs as int, other.nanos as int);
            assert((a > c) ==> a * 1_000_000_000 + b > c * 1_000_000_000 + d) by (nonlinear_arith)
                requires 0 <= b < 1_000_000_000, 0 <= d < 1_000_000_000;
            assert((a < c) ==> a * 1_000_000_000 + b < c * 1_000_000_000 + d) by (nonlinear_arith)
                requires 0 <= b < 1_000_000_000, 0 <= d < 1_000_000_000;
        }
        self.secs > other.secs || (self.secs == other.secs && self.nanos > other.nanos)
    }

    /// The shorter of the two spans.
    pub fn min(self, other: Duration) -> (d: Duration)
        ensures
            d == (if other.total_nanos() < self.total_nanos() { other } else { self }),
    {
        if other.longer_than(&self) || other == self {
            self
        } else {
            proof {
                use_type_invariant(self);
                use_type_invariant(other);
                let (a, b, c, d) = (self.secs as int, self.nanos as int, other.secs as int, other.nanos as int);
                assert(a * 1_000_000_000 + b == c * 1_000_000_000 + d ==> a == c && b == d) by (nonlinear_arith)
                    requires 0 <= b < 1_000_000_000, 0 <= d < 1_000_000_000;
            }
            other
        }
    }
}

} // verus!
