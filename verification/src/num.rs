//! Arithmetic that saturates instead of overflowing.

use vstd::prelude::*;

verus! {

/// Nanoseconds in a second.
pub const NANOS_PER_SEC: u128 = 1_000_000_000;

/// The longest span of time that a duration can hold, in nanoseconds.
pub const DURATION_MAX_NANOS: u128 = 18_446_744_073_709_551_615_999_999_999;

/// `value`, or `most` where it is larger.
pub open spec fn at_most(value: int, most: int) -> int {
    if value > most {
        most
    } else {
        value
    }
}

/// `value`, or `least` where it is smaller.
pub open spec fn at_least(value: int, least: int) -> int {
    if value < least {
        least
    } else {
        value
    }
}

/// The least integer that is not below `value / by`.
pub open spec fn ceil_div(value: int, by: int) -> int {
    (value + by - 1) / by
}

pub fn min_u64(a: u64, b: u64) -> (result: u64)
    ensures
        result == at_most(a as int, b as int),
{
    if a > b {
        b
    } else {
        a
    }
}

pub fn max_u64(a: u64, b: u64) -> (result: u64)
    ensures
        result == at_least(a as int, b as int),
{
    if a < b {
        b
    } else {
        a
    }
}

pub fn min_usize(a: usize, b: usize) -> (result: usize)
    ensures
        result == at_most(a as int, b as int),
{
    if a > b {
        b
    } else {
        a
    }
}

pub fn max_usize(a: usize, b: usize) -> (result: usize)
    ensures
        result == at_least(a as int, b as int),
{
    if a < b {
        b
    } else {
        a
    }
}

pub fn min_u128(a: u128, b: u128) -> (result: u128)
    ensures
        result == at_most(a as int, b as int),
{
    if a > b {
        b
    } else {
        a
    }
}

pub fn max_u128(a: u128, b: u128) -> (result: u128)
    ensures
        result == at_least(a as int, b as int),
{
    if a < b {
        b
    } else {
        a
    }
}

/// `a * b`, or the largest value where that does not fit.
pub fn saturating_mul_u64(a: u64, b: u64) -> (result: u64)
    ensures
        result == at_most(a * b, u64::MAX as int),
{
    match a.checked_mul(b) {
        Some(product) => product,
        None => u64::MAX,
    }
}

/// `a * b`, or the largest value where that does not fit.
pub fn saturating_mul_u128(a: u128, b: u128) -> (result: u128)
    ensures
        result == at_most(a * b, u128::MAX as int),
{
    match a.checked_mul(b) {
        Some(product) => product,
        None => u128::MAX,
    }
}

/// `value / by`, rounded up.
pub fn div_ceil_u128(value: u128, by: u128) -> (result: u128)
    requires
        by > 0,
    ensures
        result == ceil_div(value as int, by as int),
{
    let quotient: u128 = value / by;
    proof {
        lemma_ceil_div(value as int, by as int);
        vstd::arithmetic::div_mod::lemma_fundamental_div_mod(value as int, by as int);
        vstd::arithmetic::div_mod::lemma_div_is_ordered_by_denominator(value as int, 1, by as int);
        assert(value as int / 1 == value);
        if value % by != 0 && by == 1 {
            assert(value % 1 == 0) by (nonlinear_arith);
        }
        if by >= 2 {
            assert(quotient <= value / 2) by {
                vstd::arithmetic::div_mod::lemma_div_is_ordered_by_denominator(
                    value as int,
                    2,
                    by as int,
                );
            }
        }
    }
    if value % by == 0 {
        quotient
    } else {
        quotient + 1
    }
}

/// Rounding a quotient up adds one exactly where the division leaves a remainder.
pub proof fn lemma_ceil_div(value: int, by: int)
    requires
        value >= 0,
        by > 0,
    ensures
        ceil_div(value, by) == (if value % by == 0 {
            value / by
        } else {
            value / by + 1
        }),
        ceil_div(value, by) * by >= value,
        ceil_div(value, by) * by < value + by,
        ceil_div(value, by) >= 0,
{
    vstd::arithmetic::div_mod::lemma_fundamental_div_mod(value, by);
    vstd::arithmetic::div_mod::lemma_mod_bound(value, by);
    vstd::arithmetic::div_mod::lemma_div_pos_is_pos(value, by);
    let q = value / by;
    let r = value % by;
    assert(value == by * q + r);
    if r == 0 {
        assert(q * by == by * q) by (nonlinear_arith);
        vstd::arithmetic::div_mod::lemma_fundamental_div_mod_converse(
            value + by - 1,
            by,
            q,
            by - 1,
        );
    } else {
        assert(value + by - 1 == (q + 1) * by + (r - 1)) by (nonlinear_arith)
            requires
                value == by * q + r,
        ;
        vstd::arithmetic::div_mod::lemma_fundamental_div_mod_converse(
            value + by - 1,
            by,
            q + 1,
            r - 1,
        );
        assert((q + 1) * by == by * q + by) by (nonlinear_arith);
    }
}

} // verus!
