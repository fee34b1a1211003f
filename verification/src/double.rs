//! Binary numbers of 53 significant bits: the precision in which shares and spans are told.

use vstd::arithmetic::power2::{
    lemma2_to64, lemma_pow2_adds, lemma_pow2_pos, lemma_pow2_strictly_increases,
    lemma_pow2_unfold, pow2,
};
use vstd::prelude::*;

use crate::num;

verus! {

/// Two to the power 52: the least significand.
pub const LEAST: u64 = 4_503_599_627_370_496;

/// Two to the power 53: the first number that is no significand.
pub const BEYOND: u64 = 9_007_199_254_740_992;

/// `significand` times two to the power `exponent`.
#[verifier::ext_equal]
pub struct Number {
    pub significand: nat,
    pub exponent: int,
}

/// The integer nearest to `n / d`; of two that are as near, the even one.
pub open spec fn half_even(n: nat, d: nat) -> nat {
    if 2 * (n % d) > d || (2 * (n % d) == d && (n / d) % 2 == 1) {
        n / d + 1
    } else {
        n / d
    }
}

/// How far a ratio lies from those that a significand stands for.
pub open spec fn distance(n: nat, d: nat) -> nat {
    if n < LEAST * d {
        (LEAST * d - n) as nat
    } else if n >= BEYOND * d {
        (n - BEYOND * d + 1) as nat
    } else {
        0
    }
}

/// The number nearest to `n / d`; of two that are as near, the one with the even significand.
pub open spec fn nearest(n: nat, d: nat) -> Number
    decreases distance(n, d),
{
    if n == 0 || d == 0 {
        Number { significand: 0, exponent: 0 }
    } else if n < LEAST * d {
        let doubled = nearest(2 * n, d);
        Number { exponent: doubled.exponent - 1, ..doubled }
    } else if n >= BEYOND * d {
        let halved = nearest(n, 2 * d);
        Number { exponent: halved.exponent + 1, ..halved }
    } else if half_even(n, d) == BEYOND {
        Number { significand: LEAST as nat, exponent: 1 }
    } else {
        Number { significand: half_even(n, d), exponent: 0 }
    }
}

impl Number {
    /// Zero, or a significand of exactly 53 bits.
    pub open spec fn wf(self) -> bool {
        (self.significand == 0 && self.exponent == 0) || LEAST <= self.significand < BEYOND
    }

    /// This number times a power of two.
    pub open spec fn scaled(self, by: int) -> Number {
        if self.significand == 0 {
            self
        } else {
            Number { exponent: self.exponent + by, ..self }
        }
    }

    /// How often the power of two goes into this number.
    pub open spec fn counted_in(self, power: int) -> nat {
        self.significand * pow2((self.exponent - power) as nat)
    }

    /// The lesser exponent.
    pub open spec fn finer(self, other: Number) -> int {
        if self.exponent < other.exponent {
            self.exponent
        } else {
            other.exponent
        }
    }

    pub open spec fn times(self, other: Number) -> Number {
        nearest(self.significand * other.significand, 1).scaled(self.exponent + other.exponent)
    }

    pub open spec fn over(self, other: Number) -> Number {
        nearest(self.significand, other.significand).scaled(self.exponent - other.exponent)
    }

    pub open spec fn plus(self, other: Number) -> Number {
        let power = self.finer(other);
        nearest(self.counted_in(power) + other.counted_in(power), 1).scaled(power)
    }

    /// This number less one that is not greater.
    pub open spec fn minus(self, other: Number) -> Number {
        let power = self.finer(other);
        nearest((self.counted_in(power) - other.counted_in(power)) as nat, 1).scaled(power)
    }

    pub open spec fn le(self, other: Number) -> bool {
        self.significand == 0 || (other.significand > 0 && (self.exponent < other.exponent || (
        self.exponent == other.exponent && self.significand <= other.significand)))
    }
}

// Rounding.

proof fn lemma_half_even(n: nat, d: nat)
    requires
        d > 0,
    ensures
        (2 * half_even(n, d) - 1) * d <= 2 * n <= (2 * half_even(n, d) + 1) * d,
        2 * n == (2 * half_even(n, d) - 1) * d ==> half_even(n, d) % 2 == 0,
        2 * n == (2 * half_even(n, d) + 1) * d ==> half_even(n, d) % 2 == 0,
{
    let q = n / d;
    let r = n % d;
    vstd::arithmetic::div_mod::lemma_fundamental_div_mod(n as int, d as int);
    assert(n == q * d + r) by (nonlinear_arith)
        requires
            n == d * q + r,
    ;
    assert(0 <= r < d);
    let h = half_even(n, d);
    assert((2 * h - 1) * d == 2 * (h * d) - d && (2 * h + 1) * d == 2 * (h * d) + d)
        by (nonlinear_arith);
    assert((q + 1) * d == q * d + d) by (nonlinear_arith);
}

pub proof fn lemma_half_even_within(n: nat, d: nat, least: nat, most: nat)
    requires
        d > 0,
        least * d <= n < most * d,
    ensures
        least <= half_even(n, d) <= most,
{
    lemma_half_even(n, d);
    let h = half_even(n, d);
    if h < least {
        assert((2 * h + 1) * d < 2 * (least * d)) by (nonlinear_arith)
            requires
                h < least,
                d > 0,
        ;
    }
    if h > most {
        assert((2 * h - 1) * d > 2 * (most * d)) by (nonlinear_arith)
            requires
                h > most,
                d > 0,
        ;
    }
}

proof fn lemma_half_even_ordered(n1: nat, d1: nat, n2: nat, d2: nat)
    requires
        d1 > 0,
        d2 > 0,
        n1 * d2 <= n2 * d1,
    ensures
        half_even(n1, d1) <= half_even(n2, d2),
{
    lemma_half_even(n1, d1);
    lemma_half_even(n2, d2);
    let h1 = half_even(n1, d1);
    let h2 = half_even(n2, d2);
    if h1 > h2 {
        let both = d1 * d2;
        assert((2 * h1 - 1) * both <= 2 * (n1 * d2)) by (nonlinear_arith)
            requires
                (2 * h1 - 1) * d1 <= 2 * n1,
                both == d1 * d2,
                d2 > 0,
        ;
        assert(2 * (n2 * d1) <= (2 * h2 + 1) * both) by (nonlinear_arith)
            requires
                2 * n2 <= (2 * h2 + 1) * d2,
                both == d1 * d2,
                d1 > 0,
        ;
        assert(both > 0) by (nonlinear_arith)
            requires
                both == d1 * d2,
                d1 > 0,
                d2 > 0,
        ;
        assert(2 * h1 - 1 <= 2 * h2 + 1) by (nonlinear_arith)
            requires
                (2 * h1 - 1) * both <= (2 * h2 + 1) * both,
                both > 0,
        ;
        assert(h1 == h2 + 1);
        assert((2 * h1 - 1) * both == 2 * (n1 * d2));
        assert((2 * h1 - 1) * d1 == 2 * n1) by (nonlinear_arith)
            requires
                (2 * h1 - 1) * both == 2 * (n1 * d2),
                both == d1 * d2,
                d2 > 0,
        ;
        assert((2 * h2 + 1) * d2 == 2 * n2) by (nonlinear_arith)
            requires
                (2 * h2 + 1) * both == 2 * (n2 * d1),
                both == d1 * d2,
                d1 > 0,
        ;
    }
}

/// The result is canonical, and its exponent tells on which side the ratio lies.
pub proof fn lemma_nearest(n: nat, d: nat)
    requires
        n > 0,
        d > 0,
    ensures
        LEAST <= nearest(n, d).significand < BEYOND,
        n < LEAST * d ==> nearest(n, d).exponent < 0 || (nearest(n, d).exponent == 0 && nearest(
            n,
            d,
        ).significand == LEAST),
        n >= LEAST * d ==> nearest(n, d).exponent >= 0,
        n >= BEYOND * d ==> nearest(n, d).exponent >= 1,
    decreases distance(n, d),
{
    if n < LEAST * d {
        lemma_nearest(2 * n, d);
    } else if n >= BEYOND * d {
        lemma_nearest(n, 2 * d);
    } else {
        lemma_half_even_within(n, d, LEAST as nat, BEYOND as nat);
    }
}

/// A greater ratio has no lesser number.
pub proof fn lemma_ordered(n1: nat, d1: nat, n2: nat, d2: nat)
    requires
        d1 > 0,
        d2 > 0,
        n1 * d2 <= n2 * d1,
    ensures
        nearest(n1, d1).le(nearest(n2, d2)),
    decreases distance(n1, d1),
{
    if n1 == 0 {
    } else {
        assert(n1 * d2 > 0) by (nonlinear_arith)
            requires
                n1 > 0,
                d2 > 0,
        ;
        if n2 == 0 {
            assert(n2 * d1 == 0) by (nonlinear_arith)
                requires
                    n2 == 0,
            ;
        }
        lemma_nearest(n1, d1);
        lemma_nearest(n2, d2);
        if n1 < LEAST * d1 {
            if n2 < LEAST * d2 {
                assert((2 * n1) * d2 <= (2 * n2) * d1) by (nonlinear_arith)
                    requires
                        n1 * d2 <= n2 * d1,
                ;
                lemma_ordered(2 * n1, d1, 2 * n2, d2);
                lemma_nearest(2 * n1, d1);
                lemma_nearest(2 * n2, d2);
            }
        } else {
            assert(n2 >= LEAST * d2) by (nonlinear_arith)
                requires
                    n1 >= LEAST * d1,
                    n1 * d2 <= n2 * d1,
                    d1 > 0,
                    d2 > 0,
            ;
            if n1 >= BEYOND * d1 {
                assert(n2 >= BEYOND * d2) by (nonlinear_arith)
                    requires
                        n1 >= BEYOND * d1,
                        n1 * d2 <= n2 * d1,
                        d1 > 0,
                        d2 > 0,
                ;
                assert(n1 * (2 * d2) <= n2 * (2 * d1)) by (nonlinear_arith)
                    requires
                        n1 * d2 <= n2 * d1,
                ;
                lemma_ordered(n1, 2 * d1, n2, 2 * d2);
                lemma_nearest(n1, 2 * d1);
                lemma_nearest(n2, 2 * d2);
            } else if n2 < BEYOND * d2 {
                lemma_half_even_ordered(n1, d1, n2, d2);
                lemma_half_even_within(n1, d1, LEAST as nat, BEYOND as nat);
                lemma_half_even_within(n2, d2, LEAST as nat, BEYOND as nat);
            }
        }
    }
}

/// Equal ratios have the same number.
pub proof fn lemma_same_ratio(n1: nat, d1: nat, n2: nat, d2: nat)
    requires
        d1 > 0,
        d2 > 0,
        n1 * d2 == n2 * d1,
    ensures
        nearest(n1, d1) == nearest(n2, d2),
{
    lemma_ordered(n1, d1, n2, d2);
    lemma_ordered(n2, d2, n1, d1);
    if n1 > 0 {
        lemma_nearest(n1, d1);
    }
    if n2 > 0 {
        lemma_nearest(n2, d2);
    }
}

/// Halving a ratio takes one from the exponent.
proof fn lemma_halved(n: nat, d: nat)
    requires
        n > 0,
        d > 0,
    ensures
        nearest(n, 2 * d) == nearest(n, d).scaled(-1),
{
    lemma_nearest(n, d);
    lemma_nearest(n, 2 * d);
    if n < BEYOND * d {
        assert((2 * n) * d == n * (2 * d)) by (nonlinear_arith);
        lemma_same_ratio(2 * n, 2 * d, n, d);
    }
}

/// Powers of two only move the exponent.
pub proof fn lemma_shifted(n: nat, d: nat, up: nat)
    requires
        d > 0,
    ensures
        pow2(up) > 0,
        nearest(n, d * pow2(up)) == nearest(n, d).scaled(-up),
        nearest(n * pow2(up), d) == nearest(n, d).scaled(up as int),
    decreases up,
{
    lemma_pow2_pos(up);
    if n == 0 {
        assert(n * pow2(up) == 0) by (nonlinear_arith)
            requires
                n == 0,
        ;
    } else if up == 0 {
        lemma2_to64();
        lemma_nearest(n, d);
    } else {
        let less = (up - 1) as nat;
        lemma_shifted(n, d, less);
        lemma_pow2_unfold(up);
        let p = pow2(less);
        assert(d * pow2(up) == 2 * (d * p)) by (nonlinear_arith)
            requires
                pow2(up) == 2 * p,
        ;
        assert(n * pow2(up) == 2 * (n * p)) by (nonlinear_arith)
            requires
                pow2(up) == 2 * p,
        ;
        assert(d * p > 0 && n * p > 0) by (nonlinear_arith)
            requires
                d > 0,
                n > 0,
                p > 0,
        ;
        lemma_nearest(n, d);
        lemma_halved(n, d * p);
        lemma_halved(2 * (n * p), d);
        assert((2 * (n * p)) * d == (n * p) * (2 * d)) by (nonlinear_arith);
        lemma_same_ratio(2 * (n * p), 2 * d, n * p, d);
        lemma_nearest(2 * (n * p), d);
    }
}

/// A number counted in a power of two that is not greater than its own.
proof fn lemma_whole(x: Number, power: int)
    requires
        x.wf(),
        x.significand > 0 ==> power <= x.exponent,
    ensures
        nearest(x.counted_in(power), 1).scaled(power) == x,
{
    let up = (x.exponent - power) as nat;
    if x.significand == 0 {
        assert(x.counted_in(power) == 0) by (nonlinear_arith)
            requires
                x.significand == 0,
                x.counted_in(power) == x.significand * pow2(up),
        ;
    } else {
        lemma_shifted(x.significand, 1, up);
        assert(half_even(x.significand, 1) == x.significand);
    }
}

/// What is far below the last bit of a number does not change it.
proof fn lemma_absorbed(significand: nat, gap: nat, small: nat)
    requires
        LEAST <= significand < BEYOND,
        gap >= 56,
        0 < small < BEYOND,
    ensures
        nearest(significand * pow2(gap) + small, 1) == (Number {
            significand,
            exponent: gap as int,
        }),
        significand * pow2(gap) > small,
        nearest((significand * pow2(gap) - small) as nat, 1) == (Number {
            significand,
            exponent: gap as int,
        }),
{
    let p = pow2(gap);
    assert(pow2(56) == 72_057_594_037_927_936) by {
        vstd::arithmetic::power2::lemma2_to64_rest();
    }
    if gap > 56 {
        lemma_pow2_strictly_increases(56, gap);
    }
    let above = significand * p + small;
    assert(significand * p >= LEAST * p && significand * p + p <= BEYOND * p) by (nonlinear_arith)
        requires
            LEAST <= significand,
            significand + 1 <= BEYOND,
            p > 0,
    ;
    assert(p * significand == significand * p) by (nonlinear_arith);
    vstd::arithmetic::div_mod::lemma_fundamental_div_mod_converse(
        above as int,
        p as int,
        significand as int,
        small as int,
    );
    lemma_shifted(above, 1, gap);
    lemma_nearest(above, 1);
    assert(1 * p == p);
    let below = (significand * p - small) as nat;
    assert(below > 0) by (nonlinear_arith)
        requires
            below == significand * p - small,
            significand * p >= LEAST * p,
            p > small,
    ;
    lemma_shifted(below, 1, gap);
    lemma_nearest(below, 1);
    if significand > LEAST {
        assert((significand - 1) * p == significand * p - p) by (nonlinear_arith);
        assert((significand - 1) * p >= LEAST * p) by (nonlinear_arith)
            requires
                significand - 1 >= LEAST,
                p > 0,
        ;
        vstd::arithmetic::div_mod::lemma_fundamental_div_mod_converse(
            below as int,
            p as int,
            significand - 1,
            p - small,
        );
    } else {
        assert(below < LEAST * p);
        assert(2 * below == (BEYOND - 1) * p + (p - 2 * small)) by (nonlinear_arith)
            requires
                below == significand * p - small,
                significand == LEAST,
        ;
        assert(2 * below >= LEAST * p && 2 * below < BEYOND * p) by (nonlinear_arith)
            requires
                2 * below == (BEYOND - 1) * p + (p - 2 * small),
                p > 4 * small,
                small > 0,
        ;
        vstd::arithmetic::div_mod::lemma_fundamental_div_mod_converse(
            (2 * below) as int,
            p as int,
            BEYOND - 1,
            p - 2 * small,
        );
        assert(half_even(2 * below, p) == BEYOND);
        assert(nearest(2 * below, p) == (Number { significand: LEAST as nat, exponent: 1 }));
    }
}

// Powers of two that fit.

proof fn lemma_power_fits(power: nat, value: u128)
    requires
        pow2(power) <= value,
    ensures
        power < 128,
{
    if power >= 128 {
        vstd::arithmetic::power2::lemma2_to64();
        lemma_pow2_adds(64, 64);
        assert(pow2(128) == 0x1_0000_0000_0000_0000 * 0x1_0000_0000_0000_0000);
        if power > 128 {
            lemma_pow2_strictly_increases(128, power);
        }
    }
}

fn power_of_two(power: u32) -> (value: u128)
    requires
        power < 128,
    ensures
        value == pow2(power as nat),
{
    let mut value: u128 = 1;
    let mut i: u32 = 0;
    proof {
        lemma2_to64();
    }
    while i < power
        invariant
            i <= power < 128,
            value == pow2(i as nat),
        decreases power - i,
    {
        proof {
            lemma_pow2_unfold((i + 1) as nat);
            vstd::arithmetic::power2::lemma2_to64();
            lemma_pow2_adds(64, 64);
            if i + 1 < 128 {
                lemma_pow2_strictly_increases((i + 1) as nat, 128);
            }
        }
        value = value * 2;
        i = i + 1;
    }
    value
}

// The numbers.

/// A number of 53 significant bits.
#[derive(Clone, Copy, Debug, PartialEq, Eq, Structural)]
pub struct Double {
    pub significand: u64,
    pub exponent: i128,
}

/// Exponents stay far from what 128 bits can hold.
pub const TAME: i128 = 0x1_0000_0000_0000_0000_0000_0000;

impl View for Double {
    type V = Number;

    open spec fn view(&self) -> Number {
        Number { significand: self.significand as nat, exponent: self.exponent as int }
    }
}

impl Double {
    /// Canonical, with an exponent of no more than `bound` either way.
    pub open spec fn tame(&self, bound: int) -> bool {
        self@.wf() && -bound <= self.exponent <= bound
    }

    /// An exponent not far from one or between two.
    pub open spec fn near(&self, one: i128, other: i128) -> bool {
        ||| self.exponent == 0
        ||| (self.exponent >= one - 130 || self.exponent >= other - 130) && (self.exponent <= one
            + 130 || self.exponent <= other + 130)
    }

    pub fn zero() -> (zero: Double)
        ensures
            zero@ == nearest(0, 1),
            zero.tame(0),
    {
        Double { significand: 0, exponent: 0 }
    }

    /// The number nearest to a ratio.
    pub fn of_ratio(n: u128, d: u128) -> (result: Double)
        requires
            n < 0x1000_0000_0000_0000_0000_0000_0000_0000,
            0 < d < BEYOND,
        ensures
            result@ == nearest(n as nat, d as nat),
            result.tame(130),
    {
        if n == 0 {
            return Double::zero();
        }
        let ghost n0 = n as nat;
        let ghost d0 = d as nat;
        let mut n: u128 = n;
        let mut d: u128 = d;
        let mut exponent: i128 = 0;
        proof {
            lemma2_to64();
            lemma_nearest(n0, d0);
        }
        while n < LEAST as u128 * d
            invariant
                0 < n < 0x1000_0000_0000_0000_0000_0000_0000_0000,
                d == d0,
                0 < d < BEYOND,
                n0 > 0,
                -128 < exponent <= 0,
                pow2((-exponent) as nat) <= n,
                nearest(n0, d0) == nearest(n as nat, d as nat).scaled(exponent as int),
                exponent < 0 ==> n < BEYOND * d,
            decreases distance(n as nat, d as nat),
        {
            proof {
                lemma_nearest(n as nat, d as nat);
                lemma_nearest(2 * n as nat, d as nat);
                lemma_pow2_unfold((1 - exponent) as nat);
                assert(n < 0x400_0000_0000_0000_0000_0000_0000) by (nonlinear_arith)
                    requires
                        n < LEAST * d,
                        d < BEYOND,
                ;
            }
            n = 2 * n;
            exponent = exponent - 1;
            proof {
                lemma_power_fits((-exponent) as nat, n);
            }
        }
        let ghost turn = exponent;
        proof {
            lemma2_to64();
        }
        while n >= BEYOND as u128 * d
            invariant
                0 < n < 0x1000_0000_0000_0000_0000_0000_0000_0000,
                LEAST * d <= n,
                0 < d <= 0x1_0000_0000_0000_0000_0000,
                n0 > 0,
                d0 > 0,
                -128 < turn <= exponent < turn + 128,
                turn <= 0,
                pow2((exponent - turn) as nat) <= d,
                nearest(n0, d0) == nearest(n as nat, d as nat).scaled(exponent as int),
            decreases distance(n as nat, d as nat),
        {
            proof {
                lemma_nearest(n as nat, d as nat);
                lemma_nearest(n as nat, (2 * d) as nat);
                lemma_pow2_unfold((exponent - turn + 1) as nat);
                assert(2 * d <= 0x1_0000_0000_0000_0000_0000) by (nonlinear_arith)
                    requires
                        n >= BEYOND * d,
                        n < 0x1000_0000_0000_0000_0000_0000_0000_0000,
                ;
            }
            d = 2 * d;
            exponent = exponent + 1;
            proof {
                lemma_power_fits((exponent - turn) as nat, d);
            }
        }
        let quotient: u128 = n / d;
        let rest: u128 = n % d;
        proof {
            lemma_half_even_within(n as nat, d as nat, LEAST as nat, BEYOND as nat);
            vstd::arithmetic::div_mod::lemma_fundamental_div_mod(n as int, d as int);
            assert(quotient < BEYOND) by (nonlinear_arith)
                requires
                    n == d * quotient + rest,
                    n < BEYOND * d,
                    rest >= 0,
            ;
        }
        let rounded: u128 = if 2 * rest > d || (2 * rest == d && quotient % 2 == 1) {
            quotient + 1
        } else {
            quotient
        };
        if rounded == BEYOND as u128 {
            Double { significand: LEAST, exponent: exponent + 1 }
        } else {
            Double { significand: rounded as u64, exponent }
        }
    }

    /// The number nearest to an integer.
    pub fn of_int(n: u64) -> (result: Double)
        ensures
            result@ == nearest(n as nat, 1),
            result.tame(130),
    {
        Double::of_ratio(n as u128, 1)
    }

    fn scale(self, by: i128) -> (result: Double)
        requires
            self.tame(TAME as int),
            -4 * TAME <= by <= 4 * TAME,
        ensures
            result@ == self@.scaled(by as int),
            result@.wf(),
            self.significand > 0 ==> result.exponent == self.exponent + by,
            self.significand == 0 ==> result.exponent == 0,
    {
        if self.significand == 0 {
            self
        } else {
            Double { significand: self.significand, exponent: self.exponent + by }
        }
    }

    /// Whether this number is at most another.
    pub fn at_most(self, other: Double) -> (result: bool)
        ensures
            result == self@.le(other@),
    {
        self.significand == 0 || (other.significand > 0 && (self.exponent < other.exponent || (
        self.exponent == other.exponent && self.significand <= other.significand)))
    }

    pub fn times(self, other: Double) -> (result: Double)
        requires
            self.tame(TAME as int),
            other.tame(TAME as int),
        ensures
            result@ == self@.times(other@),
            result@.wf(),
            -130 + self.exponent + other.exponent <= result.exponent <= 130 + self.exponent
                + other.exponent || result.exponent == 0,
    {
        assert(self.significand * other.significand < 0x1000_0000_0000_0000_0000_0000_0000_0000)
            by (nonlinear_arith)
            requires
                self.significand < BEYOND,
                other.significand < BEYOND,
        ;
        Double::of_ratio(self.significand as u128 * other.significand as u128, 1).scale(
            self.exponent + other.exponent,
        )
    }

    pub fn over(self, other: Double) -> (result: Double)
        requires
            self.tame(TAME as int),
            other.tame(TAME as int),
            other.significand > 0,
        ensures
            result@ == self@.over(other@),
            result@.wf(),
            -130 + self.exponent - other.exponent <= result.exponent <= 130 + self.exponent
                - other.exponent || result.exponent == 0,
    {
        Double::of_ratio(self.significand as u128, other.significand as u128).scale(
            self.exponent - other.exponent,
        )
    }

    pub fn plus(self, other: Double) -> (result: Double)
        requires
            self.tame(TAME as int),
            other.tame(TAME as int),
        ensures
            result@ == self@.plus(other@),
            result@.wf(),
            result.near(self.exponent, other.exponent),
    {
        let ghost power = self@.finer(other@);
        proof {
            lemma_whole(self@, power);
            lemma_whole(other@, power);
        }
        if self.significand == 0 {
            assert(self@.counted_in(power) == 0) by (nonlinear_arith)
                requires
                    self@.significand == 0,
                    self@.counted_in(power) == self@.significand * pow2(
                        (self@.exponent - power) as nat,
                    ),
            ;
            return other;
        }
        if other.significand == 0 {
            assert(other@.counted_in(power) == 0) by (nonlinear_arith)
                requires
                    other@.significand == 0,
                    other@.counted_in(power) == other@.significand * pow2(
                        (other@.exponent - power) as nat,
                    ),
            ;
            return self;
        }
        let (coarse, fine): (Double, Double) = if self.exponent >= other.exponent {
            (self, other)
        } else {
            (other, self)
        };
        let gap: i128 = coarse.exponent - fine.exponent;
        proof {
            lemma_counted_once(fine@);
        }
        if gap > 64 {
            proof {
                lemma_absorbed(
                    coarse.significand as nat,
                    gap as nat,
                    fine.significand as nat,
                );
            }
            return coarse;
        }
        let shift: u128 = power_of_two(gap as u32);
        proof {
            lemma_shift_fits(coarse.significand, gap as nat);
        }
        let n: u128 = coarse.significand as u128 * shift + fine.significand as u128;
        Double::of_ratio(n, 1).scale(fine.exponent)
    }

    /// This number less one that is not greater.
    pub fn minus(self, other: Double) -> (result: Double)
        requires
            self.tame(TAME as int),
            other.tame(TAME as int),
            other@.le(self@),
        ensures
            result@ == self@.minus(other@),
            result@.wf(),
            result.near(self.exponent, other.exponent),
    {
        let ghost power = self@.finer(other@);
        proof {
            lemma_whole(self@, power);
        }
        if other.significand == 0 {
            assert(other@.counted_in(power) == 0) by (nonlinear_arith)
                requires
                    other@.significand == 0,
                    other@.counted_in(power) == other@.significand * pow2(
                        (other@.exponent - power) as nat,
                    ),
            ;
            return self;
        }
        let gap: i128 = self.exponent - other.exponent;
        proof {
            lemma_counted_once(other@);
        }
        if gap > 64 {
            proof {
                lemma_absorbed(
                    self.significand as nat,
                    gap as nat,
                    other.significand as nat,
                );
            }
            return self;
        }
        let shift: u128 = power_of_two(gap as u32);
        proof {
            lemma_shift_fits(self.significand, gap as nat);
            lemma_counted_once(self@);
            if gap > 0 {
                lemma_pow2_unfold(gap as nat);
                lemma_pow2_pos((gap - 1) as nat);
                assert(self.significand * pow2(gap as nat) >= 2 * LEAST) by (nonlinear_arith)
                    requires
                        self.significand >= LEAST,
                        pow2(gap as nat) >= 2,
                ;
            }
        }
        let n: u128 = self.significand as u128 * shift - other.significand as u128;
        Double::of_ratio(n, 1).scale(other.exponent)
    }
}

// Spans of time.

/// Nanoseconds in a second.
pub const SECOND: u64 = 1_000_000_000;

/// The least exponent of the numbers that are no finite ones to a reader of decimals.
pub const UNBOUNDED: i128 = 972;

/// The whole nanoseconds nearest to so many seconds, where the seconds fit in 64 bits; of two that
/// are as near, the even one.
pub open spec fn nanos_of(seconds: Number) -> Option<nat> {
    if seconds.exponent >= 12 {
        None
    } else if seconds.exponent >= 0 {
        Some((seconds.significand * pow2(seconds.exponent as nat)) * (SECOND as nat))
    } else {
        Some(
            half_even(
                seconds.significand * (SECOND as nat),
                pow2((-seconds.exponent) as nat),
            ),
        )
    }
}

/// So many nanoseconds in seconds: whole seconds and the rest, each rounded, and their sum.
pub open spec fn seconds_of(nanos: nat) -> Number {
    nearest(nanos / (SECOND as nat), 1).plus(
        nearest(nanos % (SECOND as nat), 1).over(nearest(SECOND as nat, 1)),
    )
}

impl Double {
    /// The whole nanoseconds nearest to so many seconds.
    pub fn nanos(self) -> (nanos: Option<u128>)
        requires
            self.tame(8 * TAME),
        ensures
            match nanos {
                Some(nanos) => nanos_of(self@) == Some(nanos as nat),
                None => nanos_of(self@) is None,
            },
    {
        if self.exponent >= 12 {
            return None;
        }
        proof {
            lemma2_to64();
        }
        if self.exponent >= 0 {
            let shift: u128 = power_of_two(self.exponent as u32);
            proof {
                if self.exponent < 12 {
                    lemma_pow2_strictly_increases(self.exponent as nat, 12);
                }
                assert(self.significand * shift < 0x1_0000_0000_0000_0000_0000) by (nonlinear_arith)
                    requires
                        self.significand < BEYOND,
                        shift < 4096,
                ;
            }
            return Some((self.significand as u128 * shift) * SECOND as u128);
        }
        let n: u128 = self.significand as u128 * SECOND as u128;
        let down: i128 = -self.exponent;
        if down > 100 {
            proof {
                lemma_pow2_adds(64, 36);
                vstd::arithmetic::power2::lemma2_to64_rest();
                lemma_pow2_strictly_increases(100, down as nat);
                vstd::arithmetic::div_mod::lemma_fundamental_div_mod_converse(
                    n as int,
                    pow2(down as nat) as int,
                    0,
                    n as int,
                );
            }
            return Some(0);
        }
        let d: u128 = power_of_two(down as u32);
        proof {
            lemma_pow2_pos(down as nat);
        }
        let quotient: u128 = n / d;
        let rest: u128 = n % d;
        proof {
            lemma_pow2_adds(64, 36);
            vstd::arithmetic::power2::lemma2_to64_rest();
            if down < 100 {
                lemma_pow2_strictly_increases(down as nat, 100);
            }
            assert(quotient <= n) by {
                vstd::arithmetic::div_mod::lemma_div_is_ordered_by_denominator(
                    n as int,
                    1,
                    d as int,
                );
            }
        }
        if 2 * rest > d || (2 * rest == d && quotient % 2 == 1) {
            Some(quotient + 1)
        } else {
            Some(quotient)
        }
    }

    /// So many nanoseconds in seconds.
    pub fn of_nanos(nanos: u128) -> (seconds: Double)
        requires
            nanos / (SECOND as u128) <= u64::MAX,
        ensures
            seconds@ == seconds_of(nanos as nat),
            seconds.tame(600),
    {
        let whole: Double = Double::of_int((nanos / SECOND as u128) as u64);
        let rest: Double = Double::of_int((nanos % SECOND as u128) as u64);
        let unit: Double = Double::of_int(SECOND);
        proof {
            lemma_nearest(SECOND as nat, 1);
        }
        whole.plus(rest.over(unit))
    }
}

// Shares of a count.

/// The least integer that is not less than a number, as far as 64 bits can hold it.
pub open spec fn ceiling(x: Number) -> int {
    num::at_most(
        if x.exponent >= 0 {
            (x.significand * pow2(x.exponent as nat)) as int
        } else {
            num::ceil_div(x.significand as int, pow2((-x.exponent) as nat) as int)
        },
        u64::MAX as int,
    )
}

/// How many of `count` it takes for a share of so many percent.
pub open spec fn share_of(count: nat, percent: nat) -> int {
    ceiling(nearest(count, 1).times(nearest(percent, 100)))
}

impl Double {
    /// The least integer that is not less than this number, as far as 64 bits can hold it.
    pub fn ceil(self) -> (result: u64)
        requires
            self.tame(8 * TAME),
        ensures
            result == ceiling(self@),
    {
        proof {
            lemma2_to64();
        }
        if self.exponent >= 12 {
            proof {
                if self.exponent > 12 {
                    lemma_pow2_strictly_increases(12, self.exponent as nat);
                }
                assert(self.significand * pow2(self.exponent as nat) > u64::MAX)
                    by (nonlinear_arith)
                    requires
                        self.significand >= LEAST,
                        pow2(self.exponent as nat) >= 4096,
                ;
            }
            return u64::MAX;
        }
        if self.exponent >= 0 {
            let shift: u128 = power_of_two(self.exponent as u32);
            proof {
                lemma_pow2_strictly_increases(self.exponent as nat, 12);
                assert(self.significand * shift < 0x1_0000_0000_0000_0000_0000) by (nonlinear_arith)
                    requires
                        self.significand < BEYOND,
                        shift < 4096,
                ;
            }
            return num::min_u128(self.significand as u128 * shift, u64::MAX as u128) as u64;
        }
        let down: i128 = -self.exponent;
        if down > 64 {
            proof {
                lemma_pow2_strictly_increases(64, down as nat);
                let d = pow2(down as nat) as int;
                let n = self.significand as int;
                if n == 0 {
                    vstd::arithmetic::div_mod::lemma_fundamental_div_mod_converse(
                        d - 1,
                        d,
                        0,
                        d - 1,
                    );
                } else {
                    vstd::arithmetic::div_mod::lemma_fundamental_div_mod_converse(
                        n + d - 1,
                        d,
                        1,
                        n - 1,
                    );
                }
            }
            return if self.significand == 0 {
                0
            } else {
                1
            };
        }
        let d: u128 = power_of_two(down as u32);
        proof {
            lemma_pow2_pos(down as nat);
            num::lemma_ceil_div(self.significand as int, d as int);
        }
        num::div_ceil_u128(self.significand as u128, d) as u64
    }

    /// How many of `count` it takes for a share of so many percent.
    pub fn share(count: u64, percent: u64) -> (result: u64)
        ensures
            result == share_of(count as nat, percent as nat),
    {
        Double::of_int(count).times(Double::of_ratio(percent as u128, 100)).ceil()
    }
}

proof fn lemma_counted_once(x: Number)
    ensures
        x.counted_in(x.exponent) == x.significand,
        pow2(0) == 1,
        x.significand * pow2(0) == x.significand,
{
    lemma2_to64();
    assert(x.significand * pow2(0) == x.significand) by (nonlinear_arith)
        requires
            pow2(0) == 1,
    ;
}

proof fn lemma_shift_fits(significand: u64, gap: nat)
    requires
        significand < BEYOND,
        gap <= 64,
    ensures
        significand * pow2(gap) < 0x100_0000_0000_0000_0000_0000_0000_0000,
{
    lemma2_to64();
    lemma_pow2_pos(gap);
    if gap < 64 {
        lemma_pow2_strictly_increases(gap, 64);
    }
    assert(significand * pow2(gap) < 0x100_0000_0000_0000_0000_0000_0000_0000)
        by (nonlinear_arith)
        requires
            significand < BEYOND,
            pow2(gap) <= 0x1_0000_0000_0000_0000,
            pow2(gap) > 0,
    ;
}

// Order.

proof fn lemma_scaled_le(x: Number, y: Number, by: int)
    requires
        x.le(y),
    ensures
        x.scaled(by).le(y.scaled(by)),
{
}

pub proof fn lemma_nearest_wf(n: nat, d: nat)
    ensures
        nearest(n, d).wf(),
{
    if n > 0 && d > 0 {
        lemma_nearest(n, d);
    }
}

/// A finer power of two goes into a number that much more often.
proof fn lemma_recounted(x: Number, power: int, finer: int)
    requires
        finer <= power <= x.exponent,
    ensures
        x.counted_in(finer) == x.counted_in(power) * pow2((power - finer) as nat),
{
    let a = (x.exponent - power) as nat;
    let b = (power - finer) as nat;
    lemma_pow2_adds(a, b);
    assert((x.exponent - finer) as nat == a + b);
    assert(x.significand * (pow2(a) * pow2(b)) == (x.significand * pow2(a)) * pow2(b))
        by (nonlinear_arith);
}

/// Numbers are ordered as what they count.
proof fn lemma_counted_le(x: Number, y: Number, power: int)
    requires
        x.wf(),
        y.wf(),
        x.le(y),
        power <= x.exponent,
        power <= y.exponent,
    ensures
        x.counted_in(power) <= y.counted_in(power),
{
    if x.significand == 0 {
        assert(x.counted_in(power) == 0) by (nonlinear_arith)
            requires
                x.significand == 0,
                x.counted_in(power) == x.significand * pow2((x.exponent - power) as nat),
        ;
    } else {
        let gap = (y.exponent - x.exponent) as nat;
        lemma_recounted(y, x.exponent, power);
        let p = pow2((x.exponent - power) as nat);
        lemma_pow2_pos((x.exponent - power) as nat);
        let high = y.significand * pow2(gap);
        if gap == 0 {
            lemma_counted_once(y);
        } else {
            lemma_pow2_unfold(gap);
            lemma_pow2_pos((gap - 1) as nat);
            assert(high >= 2 * LEAST) by (nonlinear_arith)
                requires
                    high == y.significand * pow2(gap),
                    y.significand >= LEAST,
                    pow2(gap) >= 2,
            ;
        }
        assert(x.significand * p <= high * p) by (nonlinear_arith)
            requires
                x.significand <= high,
                p > 0,
        ;
    }
}

/// A sum, counted in any power of two that is fine enough.
proof fn lemma_sum_counted(x: Number, y: Number, power: int)
    requires
        x.wf(),
        y.wf(),
        power <= x.exponent,
        power <= y.exponent,
    ensures
        x.plus(y) == nearest(x.counted_in(power) + y.counted_in(power), 1).scaled(power),
        y.le(x) ==> x.minus(y) == nearest(
            (x.counted_in(power) - y.counted_in(power)) as nat,
            1,
        ).scaled(power),
{
    let own = x.finer(y);
    let up = (own - power) as nat;
    lemma_recounted(x, own, power);
    lemma_recounted(y, own, power);
    let a = x.counted_in(own);
    let b = y.counted_in(own);
    assert((a + b) * pow2(up) == a * pow2(up) + b * pow2(up)) by (nonlinear_arith);
    lemma_shifted(a + b, 1, up);
    lemma_nearest_wf(a + b, 1);
    if y.le(x) {
        lemma_counted_le(y, x, own);
        let c = (a - b) as nat;
        assert(c * pow2(up) == a * pow2(up) - b * pow2(up)) by (nonlinear_arith)
            requires
                c == a - b,
        ;
        lemma_shifted(c, 1, up);
        lemma_nearest_wf(c, 1);
    }
}

pub proof fn lemma_times_le(x: Number, y: Number, z: Number)
    requires
        x.wf(),
        y.wf(),
        x.le(y),
    ensures
        x.times(z).le(y.times(z)),
        x.times(z).wf(),
{
    lemma_nearest_wf(x.significand * z.significand, 1);
    if x.significand == 0 {
        assert(x.significand * z.significand == 0) by (nonlinear_arith)
            requires
                x.significand == 0,
        ;
    } else {
        let gap = (y.exponent - x.exponent) as nat;
        lemma_counted_le(x, y, x.exponent);
        lemma_counted_once(x);
        let ys = y.significand * z.significand;
        lemma_shifted(ys, 1, gap);
        lemma_nearest_wf(ys, 1);
        assert(x.significand * z.significand <= ys * pow2(gap)) by (nonlinear_arith)
            requires
                x.significand <= y.significand * pow2(gap),
                ys == y.significand * z.significand,
        ;
        lemma_ordered(x.significand * z.significand, 1, ys * pow2(gap), 1);
        lemma_scaled_le(
            nearest(x.significand * z.significand, 1),
            nearest(ys * pow2(gap), 1),
            x.exponent + z.exponent,
        );
    }
}

pub proof fn lemma_over_le(x: Number, y: Number, z: Number)
    requires
        x.wf(),
        y.wf(),
        x.le(y),
        z.significand > 0,
    ensures
        x.over(z).le(y.over(z)),
        x.over(z).wf(),
{
    lemma_nearest_wf(x.significand, z.significand);
    if x.significand > 0 {
        let gap = (y.exponent - x.exponent) as nat;
        lemma_counted_le(x, y, x.exponent);
        lemma_counted_once(x);
        let ys = y.significand;
        let zs = z.significand;
        lemma_shifted(ys, zs, gap);
        lemma_nearest_wf(ys, zs);
        assert(x.significand * zs <= (ys * pow2(gap)) * zs) by (nonlinear_arith)
            requires
                x.significand <= ys * pow2(gap),
        ;
        lemma_ordered(x.significand, zs, ys * pow2(gap), zs);
        lemma_scaled_le(
            nearest(x.significand, zs),
            nearest(ys * pow2(gap), zs),
            x.exponent - z.exponent,
        );
    }
}

proof fn lemma_finest(x: Number, y: Number, z: Number) -> (power: int)
    ensures
        power <= x.exponent,
        power <= y.exponent,
        power <= z.exponent,
        power <= 0,
{
    let a = x.finer(y);
    let b = if a < z.exponent {
        a
    } else {
        z.exponent
    };
    if b < 0 {
        b
    } else {
        0
    }
}

pub proof fn lemma_plus_le(x: Number, y: Number, z: Number)
    requires
        x.wf(),
        y.wf(),
        z.wf(),
        y.le(z),
    ensures
        x.plus(y).le(x.plus(z)),
        x.plus(y).wf(),
{
    let power = lemma_finest(x, y, z);
    lemma_sum_counted(x, y, power);
    lemma_sum_counted(x, z, power);
    lemma_counted_le(y, z, power);
    let a = x.counted_in(power) + y.counted_in(power);
    let b = x.counted_in(power) + z.counted_in(power);
    lemma_ordered(a, 1, b, 1);
    lemma_scaled_le(nearest(a, 1), nearest(b, 1), power);
    lemma_nearest_wf(a, 1);
}

pub proof fn lemma_minus_le(x: Number, y: Number, z: Number)
    requires
        x.wf(),
        y.wf(),
        z.wf(),
        y.le(z),
        z.le(x),
    ensures
        x.minus(z).le(x.minus(y)),
        x.minus(z).wf(),
{
    let power = lemma_finest(x, y, z);
    assert(y.le(x));
    lemma_sum_counted(x, y, power);
    lemma_sum_counted(x, z, power);
    lemma_counted_le(y, z, power);
    lemma_counted_le(z, x, power);
    let a = (x.counted_in(power) - z.counted_in(power)) as nat;
    let b = (x.counted_in(power) - y.counted_in(power)) as nat;
    lemma_ordered(a, 1, b, 1);
    lemma_scaled_le(nearest(a, 1), nearest(b, 1), power);
    lemma_nearest_wf(a, 1);
}

/// One time changes nothing.
pub proof fn lemma_times_one(x: Number)
    requires
        x.wf(),
    ensures
        nearest(1, 1).times(x) == x,
{
    let one = nearest(1, 1);
    assert(nearest(1, 1) == (Number { significand: LEAST as nat, exponent: -52 })) by {
        lemma_whole(Number { significand: LEAST as nat, exponent: -52 }, -52);
        lemma_counted_once(Number { significand: LEAST as nat, exponent: -52 });
        lemma2_to64();
        vstd::arithmetic::power2::lemma2_to64_rest();
        lemma_shifted(LEAST as nat, 1, 52);
        assert(pow2(52) == LEAST);
        lemma_same_ratio(LEAST as nat, LEAST as nat, 1, 1);
    }
    if x.significand == 0 {
        assert(one.significand * x.significand == 0) by (nonlinear_arith)
            requires
                x.significand == 0,
        ;
    } else {
        vstd::arithmetic::power2::lemma2_to64_rest();
        assert(pow2(52) == LEAST);
        lemma_shifted(x.significand, 1, 52);
        assert(one.significand * x.significand == x.significand * pow2(52)) by (nonlinear_arith)
            requires
                one.significand == LEAST,
                pow2(52) == LEAST,
        ;
        lemma_whole(x, x.exponent);
        lemma_counted_once(x);
    }
}

/// A number over itself is one.
pub proof fn lemma_over_itself(x: Number)
    requires
        x.significand > 0,
    ensures
        x.over(x) == nearest(1, 1),
{
    lemma_same_ratio(x.significand, x.significand, 1, 1);
    lemma_nearest(1, 1);
}

/// Zero changes nothing.
pub proof fn lemma_plus_zero(x: Number)
    requires
        x.wf(),
    ensures
        x.plus(nearest(0, 1)) == x,
        x.minus(nearest(0, 1)) == x,
{
    let zero = nearest(0, 1);
    let power = x.finer(zero);
    lemma_whole(x, power);
    assert(zero.counted_in(power) == 0) by (nonlinear_arith)
        requires
            zero.significand == 0,
            zero.counted_in(power) == zero.significand * pow2((zero.exponent - power) as nat),
    ;
}

/// Nanoseconds as a quotient of integers, counted in any power of two that is fine enough.
proof fn lemma_nanos_counted(x: Number, power: int)
    requires
        x.wf(),
        x.exponent < 12,
        power <= x.exponent,
        power <= 0,
    ensures
        nanos_of(x) == Some(
            half_even(x.counted_in(power) * (SECOND as nat), pow2((-power) as nat)),
        ),
{
    let d = pow2((-power) as nat);
    lemma_pow2_pos((-power) as nat);
    let second = SECOND as nat;
    if x.exponent >= 0 {
        lemma_recounted(x, 0, power);
        let whole = x.significand * pow2(x.exponent as nat);
        assert(x.counted_in(0) == whole);
        let n = x.counted_in(power) * second;
        assert(n == (whole * second) * d) by (nonlinear_arith)
            requires
                n == (whole * d) * second,
        ;
        assert(n * 1 == (whole * second) * d);
        lemma_half_even_ordered(n, d, whole * second, 1);
        lemma_half_even_ordered(whole * second, 1, n, d);
        assert(half_even(whole * second, 1) == whole * second);
    } else {
        lemma_recounted(x, x.exponent, power);
        lemma_counted_once(x);
        let own = pow2((-x.exponent) as nat);
        lemma_pow2_pos((-x.exponent) as nat);
        let up = pow2((x.exponent - power) as nat);
        lemma_pow2_adds((-x.exponent) as nat, (x.exponent - power) as nat);
        assert(d == own * up);
        let a = x.significand * second;
        let b = (x.significand * up) * second;
        assert(a * d == b * own) by (nonlinear_arith)
            requires
                a == x.significand * second,
                b == (x.significand * up) * second,
                d == own * up,
        ;
        lemma_half_even_ordered(a, own, b, d);
        lemma_half_even_ordered(b, d, a, own);
    }
}

/// More seconds are no fewer nanoseconds.
pub proof fn lemma_nanos_le(x: Number, y: Number)
    requires
        x.wf(),
        y.wf(),
        x.le(y),
    ensures
        nanos_of(y) is Some ==> nanos_of(x) is Some && nanos_of(x)->Some_0 <= nanos_of(y)->Some_0,
{
    if y.exponent < 12 {
        let power = lemma_finest(x, y, y);
        lemma_nanos_counted(x, power);
        lemma_nanos_counted(y, power);
        lemma_counted_le(x, y, power);
        let d = pow2((-power) as nat);
        lemma_pow2_pos((-power) as nat);
        let a = x.counted_in(power) * (SECOND as nat);
        let b = y.counted_in(power) * (SECOND as nat);
        assert(a * d <= b * d) by (nonlinear_arith)
            requires
                a <= b,
        ;
        lemma_half_even_ordered(a, d, b, d);
    }
}

} // verus!
