//! Exponential backoff and crash-loop detection. Pure and deterministic.

use crate::duration::Duration;
use vstd::arithmetic::power2::{lemma2_to64, lemma_pow2_pos, lemma_pow2_strictly_increases, lemma_pow2_unfold, pow2};
use vstd::prelude::*;

verus! {

/// `x`, or the longest span when `x` nanoseconds do not fit in a `Duration`.
pub open spec fn saturate_span(x: int) -> int {
    if x > Duration::max_nanos() { Duration::max_nanos() } else { x }
}

/// The retry delay schedule and the crash-loop limit of one worker.
#[derive(Debug, Clone, Copy)]
pub struct Backoff {
    pub base: Duration,
    pub max: Duration,
    pub max_retries: u32,
    pub reset_window: Duration,
}

/// `base * 2^(attempt-1)` in nanoseconds, saturating at the longest span.
pub open spec fn raw_delay(b: Backoff, attempt: u32) -> int {
    saturate_span(b.base.total_nanos() * pow2((attempt - 1) as nat))
}

/// The delay before retry `attempt` (1-based), in nanoseconds: `base *
/// 2^(attempt-1)` (saturating), capped at `max`; none for attempt 0.
pub open spec fn delay_spec(b: Backoff, attempt: u32) -> int {
    if attempt == 0 {
        0
    } else {
        let raw = raw_delay(b, attempt);
        if b.max.total_nanos() < raw { b.max.total_nanos() } else { raw }
    }
}

/// The saturated product grows with the exponent.
pub proof fn lemma_raw_monotone(base: int, e1: nat, e2: nat)
    requires
        0 <= base,
        e1 <= e2,
    ensures
        saturate_span(base * pow2(e1)) <= saturate_span(base * pow2(e2)),
{
    if e1 < e2 {
        lemma_pow2_strictly_increases(e1, e2);
    }
    let (p1, p2) = (pow2(e1) as int, pow2(e2) as int);
    assert(base * p1 <= base * p2) by (nonlinear_arith)
        requires 0 <= base, p1 <= p2;
}

impl Backoff {
    pub fn new(base: Duration, max: Duration, max_retries: u32, reset_window: Duration) -> (b: Self)
        ensures
            b.base == base,
            b.max == max,
            b.max_retries == max_retries,
            b.reset_window == reset_window,
    {
        Backoff { base, max, max_retries, reset_window }
    }

    /// Delay before retry `attempt` (1-based): base * 2^(attempt-1), capped at `max`.
    pub fn delay_for_attempt(&self, attempt: u32) -> (d: Duration)
        ensures
            d.total_nanos() == delay_spec(*self, attempt),
            attempt == 0 ==> d.secs_of() == 0 && d.subsec_of() == 0,
    {
        if attempt == 0 {
            return Duration::zero();
        }
        let cap = self.max.as_nanos();
        let limit: u128 = 18_446_744_073_709_551_615u128 * 1_000_000_000 + 999_999_999;
        let e = attempt - 1;
        let ghost base = self.base.total_nanos();
        let mut cur = self.base.as_nanos();
        let mut i: u32 = 0;
        proof {
            assert(limit == Duration::max_nanos());
            assert(pow2(0) == 1) by {
                lemma2_to64();
            }
            assert(base * 1 == base);
        }
        while i < e && cur < cap && cur > 0
            invariant
                i <= e,
                e == attempt - 1,
                limit == Duration::max_nanos(),
                base == self.base.total_nanos(),
                base >= 0,
                cap == self.max.total_nanos(),
                cur == saturate_span(base * pow2(i as nat)),
                cur <= limit,
            decreases e - i,
        {
            proof {
                lemma_pow2_unfold((i + 1) as nat);
                let p = pow2(i as nat) as int;
                assert(base * (2 * p) == 2 * (base * p)) by (nonlinear_arith);
            }
            let twice = cur * 2;
            cur = if twice > limit { limit } else { twice };
            i = i + 1;
        }
        proof {
            lemma_raw_monotone(base, i as nat, e as nat);
            if cur == 0 {
                lemma_pow2_pos(i as nat);
                lemma_pow2_pos(e as nat);
                let (p, q) = (pow2(i as nat) as int, pow2(e as nat) as int);
                assert(base == 0) by (nonlinear_arith)
                    requires base * p == 0, p > 0, base >= 0;
                assert(base * q == 0) by (nonlinear_arith)
                    requires base == 0;
            }
        }
        let capped = if cur < cap { cur } else { cap };
        Duration::from_nanos(capped)
    }

    /// True when the retry count has exceeded `max_retries`.
    pub fn is_crash_loop(&self, retries: u32) -> (b: bool)
        ensures
            b == (retries > self.max_retries),
    {
        retries > self.max_retries
    }

    /// True when an instance stayed up long enough to reset its retry counter.
    pub fn should_reset(&self, uptime: Duration) -> (b: bool)
        ensures
            b == (uptime.total_nanos() > self.reset_window.total_nanos()),
    {
        uptime.longer_than(&self.reset_window)
    }
}

} // verus!
