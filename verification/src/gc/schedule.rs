//! Pacing of background GC workers.

use vstd::prelude::*;

use crate::num;
use crate::num::{min_u128, saturating_mul_u128, DURATION_MAX_NANOS};

verus! {

/// The largest backoff is two to this power times the configured interval.
pub const GC_FAILURE_BACKOFF_MAX_EXPONENT: u32 = 4;

/// Most plans that one worker drains from a single wakeup.
pub const GC_MAX_PLANS_PER_WAKE: usize = 64;

/// How often the interval doubles: not after one failure, then once more for each, up to a cap.
pub open spec fn backoff_exponent(consecutive_failures: u32) -> nat {
    if consecutive_failures <= 1 {
        0
    } else {
        num::at_most(
            consecutive_failures - 1,
            GC_FAILURE_BACKOFF_MAX_EXPONENT as int,
        ) as nat
    }
}

/// The wait after consecutive failures, in nanoseconds.
pub open spec fn backoff_nanos(interval_nanos: u128, consecutive_failures: u32) -> int {
    num::at_most(
        interval_nanos * vstd::arithmetic::power2::pow2(backoff_exponent(consecutive_failures)),
        DURATION_MAX_NANOS as int,
    )
}

/// Stretches a worker's timer tick after consecutive failures.
///
/// An attempt that fails deterministically would otherwise burn a full cycle every interval
/// forever. The first failure keeps the normal cadence; each further one doubles the wait.
pub fn gc_failure_backoff(interval_nanos: u128, consecutive_failures: u32) -> (wait: u128)
    requires
        interval_nanos <= DURATION_MAX_NANOS,
    ensures
        wait == backoff_nanos(interval_nanos, consecutive_failures),
{
    proof {
        vstd::arithmetic::power2::lemma2_to64();
        assert(interval_nanos * 1 == interval_nanos);
    }
    if consecutive_failures <= 1 {
        return interval_nanos;
    }
    let factor: u128 = match consecutive_failures {
        2 => 2,
        3 => 4,
        4 => 8,
        _ => 16,
    };
    min_u128(saturating_mul_u128(interval_nanos, factor), DURATION_MAX_NANOS)
}

/// A worker's count of consecutive failures after an attempt.
pub open spec fn failures_after_attempt(failures: u32, succeeded: bool) -> int {
    if succeeded {
        0
    } else {
        num::at_most(failures + 1, u32::MAX as int)
    }
}

/// Counts a worker's consecutive failures.
pub fn failures_after(failures: u32, succeeded: bool) -> (after: u32)
    ensures
        after == failures_after_attempt(failures, succeeded),
{
    if succeeded {
        0
    } else {
        failures.saturating_add(1)
    }
}

/// Whether a wakeup goes on to another plan: the last attempt found one, and the cap is not
/// reached.
pub fn continue_wakeup(plans_run: usize, found_plan: bool) -> (again: bool)
    ensures
        again == (found_plan && plans_run < GC_MAX_PLANS_PER_WAKE),
{
    found_plan && plans_run < GC_MAX_PLANS_PER_WAKE
}

/// More failures never shorten the wait, and the wait is never longer than sixteen intervals nor
/// shorter than one.
pub proof fn law_backoff_is_monotone_and_bounded(interval_nanos: u128, fewer: u32, more: u32)
    requires
        fewer <= more,
        interval_nanos <= DURATION_MAX_NANOS,
    ensures
        backoff_nanos(interval_nanos, fewer) <= backoff_nanos(interval_nanos, more),
        interval_nanos <= backoff_nanos(interval_nanos, fewer) <= 16 * interval_nanos,
        backoff_nanos(interval_nanos, 0) == interval_nanos,
        backoff_nanos(interval_nanos, 1) == interval_nanos,
{
    vstd::arithmetic::power2::lemma2_to64();
    let low = backoff_exponent(fewer);
    let high = backoff_exponent(more);
    let interval = interval_nanos as int;
    let p = vstd::arithmetic::power2::pow2(low) as int;
    let q = vstd::arithmetic::power2::pow2(high) as int;
    assert(1 <= p <= q <= 16);
    assert(interval * p <= interval * q) by (nonlinear_arith)
        requires
            0 <= interval,
            p <= q,
    ;
    assert(interval <= interval * p <= interval * 16) by (nonlinear_arith)
        requires
            0 <= interval,
            1 <= p <= 16,
    ;
    assert(interval * 1 == interval);
}

} // verus!
