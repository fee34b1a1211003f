//! What rounding to a double promises: it is to the nearest, and whole numbers stay exact.

use vstd::arithmetic::power2::{
    lemma_pow2_adds, lemma_pow2_pos, lemma_pow2_unfold, pow2,
};
use vstd::prelude::*;

use crate::double;
use crate::double::Number;
use crate::num;

verus! {

/// Rounding to an integer goes to the nearest, and from the middle to the even one.
pub proof fn law_halves_round_to_even(n: nat, d: nat)
    requires
        d > 0,
    ensures
        ({
            let rounded = double::half_even(n, d);
            let below = n / d;
            let rest = n % d;
            &&& 2 * rest < d ==> rounded == below
            &&& 2 * rest > d ==> rounded == below + 1
            &&& 2 * rest == d ==> rounded % 2 == 0 && (rounded == below || rounded == below + 1)
        }),
{
}

/// A double is the nearest of its precision: it has fifty-three significant bits, and is off by no
/// more than half of the last of them.
pub proof fn law_doubles_are_the_nearest(n: nat, d: nat)
    requires
        n > 0,
        d > 0,
    ensures
        ({
            let rounded = double::nearest(n, d);
            let s = rounded.significand;
            &&& 4_503_599_627_370_496 <= s < 9_007_199_254_740_992
            &&& rounded.exponent >= 0 ==> {
                let last = pow2(rounded.exponent as nat) * d;
                2 * s * last <= 2 * n + last && 2 * n <= 2 * s * last + last
            }
            &&& rounded.exponent < 0 ==> {
                let finer = n * pow2((-rounded.exponent) as nat);
                2 * s * d <= 2 * finer + d && 2 * finer <= 2 * s * d + d
            }
        }),
    decreases double::distance(n, d),
{
    double::lemma_nearest(n, d);
    let least = double::LEAST;
    let beyond = double::BEYOND;
    let rounded = double::nearest(n, d);
    vstd::arithmetic::power2::lemma2_to64();
    if n < least * d {
        law_doubles_are_the_nearest(2 * n, d);
        let doubled = double::nearest(2 * n, d);
        let s = doubled.significand;
        let e = doubled.exponent;
        if e > 0 {
            lemma_pow2_unfold(e as nat);
            let last = pow2(e as nat) * d;
            let half = pow2((e - 1) as nat) * d;
            assert(last == 2 * half) by (nonlinear_arith)
                requires
                    last == pow2(e as nat) * d,
                    half == pow2((e - 1) as nat) * d,
                    pow2(e as nat) == 2 * pow2((e - 1) as nat),
            ;
            assert(2 * s * last == 2 * (2 * s * half)) by (nonlinear_arith)
                requires
                    last == 2 * half,
            ;
        } else {
            let up = (-e) as nat;
            lemma_pow2_unfold(up + 1);
            assert(n * pow2(up + 1) == (2 * n) * pow2(up)) by (nonlinear_arith)
                requires
                    pow2(up + 1) == 2 * pow2(up),
            ;
            if e == 0 {
                assert((2 * n) * pow2(0) == 2 * n);
                assert(pow2(0) * d == d);
            }
        }
    } else if n >= beyond * d {
        law_doubles_are_the_nearest(n, 2 * d);
        let halved = double::nearest(n, 2 * d);
        double::lemma_nearest(n, 2 * d);
        let s = halved.significand;
        let e = halved.exponent;
        assert(e >= 0) by {
            assert(n >= least * (2 * d)) by (nonlinear_arith)
                requires
                    n >= beyond * d,
                    beyond == 2 * least,
            ;
        }
        lemma_pow2_unfold((e + 1) as nat);
        assert(pow2((e + 1) as nat) * d == pow2(e as nat) * (2 * d)) by (nonlinear_arith)
            requires
                pow2((e + 1) as nat) == 2 * pow2(e as nat),
        ;
    } else {
        double::lemma_half_even_within(n, d, least as nat, beyond as nat);
        let h = double::half_even(n, d);
        let q = n / d;
        let r = n % d;
        vstd::arithmetic::div_mod::lemma_fundamental_div_mod(n as int, d as int);
        assert(n == q * d + r) by (nonlinear_arith)
            requires
                n == d * q + r,
        ;
        assert((q + 1) * d == q * d + d) by (nonlinear_arith);
        assert(2 * h * d == 2 * (h * d)) by (nonlinear_arith);
        assert(2 * (h * d) <= 2 * n + d && 2 * n <= 2 * (h * d) + d);
        assert(pow2(0) * d == d);
        if h == beyond {
            let last = pow2(1) * d;
            assert(last == 2 * d) by (nonlinear_arith)
                requires
                    last == pow2(1) * d,
                    pow2(1) == 2,
            ;
            assert(2 * least * last == 2 * (h * d)) by (nonlinear_arith)
                requires
                    last == 2 * d,
                    h == 2 * least,
            ;
        }
    }
}

/// A whole number of at most fifty-three bits is exact.
proof fn lemma_exact(a: nat) -> (k: nat)
    requires
        0 < a < 9_007_199_254_740_992,
    ensures
        double::nearest(a, 1) == (Number { significand: a * pow2(k), exponent: -(k as int) }),
        pow2(k) > 0,
    decreases double::distance(a, 1),
{
    lemma_pow2_pos(0);
    vstd::arithmetic::power2::lemma2_to64();
    if a < double::LEAST {
        let k = lemma_exact(2 * a);
        lemma_pow2_unfold(k + 1);
        assert((2 * a) * pow2(k) == a * pow2(k + 1)) by (nonlinear_arith)
            requires
                pow2(k + 1) == 2 * pow2(k),
        ;
        lemma_pow2_pos(k + 1);
        k + 1
    } else {
        assert(a / 1 == a && a % 1 == 0);
        assert(double::half_even(a, 1) == a);
        assert(a * pow2(0) == a);
        0
    }
}

/// Arithmetic on whole numbers rounds the exact result once: the product, the quotient, the sum and
/// the difference.
pub proof fn law_arithmetic_rounds_once(a: nat, b: nat)
    requires
        0 < a < 9_007_199_254_740_992,
        0 < b < 9_007_199_254_740_992,
    ensures
        double::nearest(a, 1).times(double::nearest(b, 1)) == double::nearest(a * b, 1),
        double::nearest(a, 1).over(double::nearest(b, 1)) == double::nearest(a, b),
        double::nearest(a, 1).plus(double::nearest(b, 1)) == double::nearest(a + b, 1),
        b <= a ==> double::nearest(a, 1).minus(double::nearest(b, 1)) == double::nearest(
            (a - b) as nat,
            1,
        ),
{
    let k = lemma_exact(a);
    let l = lemma_exact(b);
    let x = double::nearest(a, 1);
    let y = double::nearest(b, 1);
    // The product.
    lemma_pow2_adds(k, l);
    assert((a * pow2(k)) * (b * pow2(l)) == (a * b) * pow2(k + l)) by (nonlinear_arith)
        requires
            pow2(k) * pow2(l) == pow2(k + l),
    ;
    double::lemma_shifted(a * b, 1, k + l);
    lemma_scaled_back(double::nearest(a * b, 1), (k + l) as int);
    // The quotient.
    assert(b * pow2(l) > 0) by (nonlinear_arith)
        requires
            b > 0,
            pow2(l) > 0,
    ;
    double::lemma_shifted(a, b * pow2(l), k);
    double::lemma_shifted(a, b, l);
    lemma_scaled_back(double::nearest(a, b), k - l);
    let quotient = double::nearest(a, b);
    double::lemma_nearest(a, b);
    assert(quotient.scaled(-(l as int)).scaled(k as int) == quotient.scaled(k - l));
    assert(x.over(y) == quotient.scaled(k - l).scaled(-(k as int) + l));
    // The sum and the difference.
    let power = x.finer(y);
    if k >= l {
        assert(power == -(k as int));
        lemma_pow2_adds((k - l) as nat, l);
        lemma_pow2_pos(0);
        vstd::arithmetic::power2::lemma2_to64();
        assert(x.counted_in(power) == a * pow2(k)) by {
            assert((a * pow2(k)) * pow2(0) == a * pow2(k));
        }
        assert(y.counted_in(power) == b * pow2(k)) by {
            assert((b * pow2(l)) * pow2((k - l) as nat) == b * pow2(k)) by (nonlinear_arith)
                requires
                    pow2((k - l) as nat) * pow2(l) == pow2(k),
            ;
        }
        lemma_summed(a, b, k);
    } else {
        assert(power == -(l as int));
        lemma_pow2_adds((l - k) as nat, k);
        vstd::arithmetic::power2::lemma2_to64();
        assert(y.counted_in(power) == b * pow2(l)) by {
            assert((b * pow2(l)) * pow2(0) == b * pow2(l));
        }
        assert(x.counted_in(power) == a * pow2(l)) by {
            assert((a * pow2(k)) * pow2((l - k) as nat) == a * pow2(l)) by (nonlinear_arith)
                requires
                    pow2((l - k) as nat) * pow2(k) == pow2(l),
            ;
        }
        lemma_summed(a, b, l);
    }
}

proof fn lemma_scaled_back(x: Number, by: int)
    ensures
        x.wf() ==> x.scaled(by).scaled(-by) == x,
        x.wf() ==> x.scaled(-by).scaled(by) == x,
{
    if x.significand > 0 {
        assert(x.scaled(by).exponent - by == x.exponent);
    }
}

proof fn lemma_summed(a: nat, b: nat, k: nat)
    ensures
        double::nearest(a * pow2(k) + b * pow2(k), 1).scaled(-(k as int)) == double::nearest(
            a + b,
            1,
        ),
        b <= a ==> double::nearest((a * pow2(k) - b * pow2(k)) as nat, 1).scaled(-(k as int))
            == double::nearest((a - b) as nat, 1),
{
    assert(a * pow2(k) + b * pow2(k) == (a + b) * pow2(k)) by (nonlinear_arith);
    double::lemma_shifted(a + b, 1, k);
    double::lemma_nearest_wf(a + b, 1);
    lemma_scaled_back(double::nearest(a + b, 1), k as int);
    if b <= a {
        let less = (a - b) as nat;
        assert(a * pow2(k) - b * pow2(k) == less * pow2(k)) by (nonlinear_arith)
            requires
                less == a - b,
        ;
        double::lemma_shifted(less, 1, k);
        double::lemma_nearest_wf(less, 1);
        lemma_scaled_back(double::nearest(less, 1), k as int);
    }
}

/// Whole seconds are a thousand million nanoseconds each, and a whole number is its own ceiling; all
/// of a number is the number.
pub proof fn law_whole_numbers_stay_whole(a: nat)
    requires
        0 < a < 9_007_199_254_740_992,
    ensures
        double::nanos_of(double::nearest(a, 1)) == Some(a * 1_000_000_000),
        double::seconds_of(a * 1_000_000_000) == double::nearest(a, 1),
        double::ceiling(double::nearest(a, 1)) == a,
        double::share_of(a, 100) == a,
        double::share_of(a, 0) == 0,
{
    let k = lemma_exact(a);
    let x = double::nearest(a, 1);
    vstd::arithmetic::power2::lemma2_to64();
    let second: nat = 1_000_000_000;
    if k == 0 {
        assert(x.significand * pow2(0) == a);
        assert(a * pow2(0) == a);
    } else {
        assert((a * pow2(k)) * second == (a * second) * pow2(k)) by (nonlinear_arith);
        vstd::arithmetic::div_mod::lemma_div_multiples_vanish((a * second) as int, pow2(k) as int);
        vstd::arithmetic::div_mod::lemma_mod_multiples_basic((a * second) as int, pow2(k) as int);
        assert(double::half_even((a * second) * pow2(k), pow2(k)) == a * second) by {
            assert((a * second) * pow2(k) == pow2(k) * (a * second)) by (nonlinear_arith);
        }
        // The ceiling.
        let d = pow2(k) as int;
        let rounded = num::ceil_div(a * d, d);
        assert(rounded == a) by (nonlinear_arith)
            requires
                d > 0,
                rounded == (a * d + d - 1) / d,
        ;
    }
    // Seconds.
    vstd::arithmetic::div_mod::lemma_div_multiples_vanish(a as int, second as int);
    vstd::arithmetic::div_mod::lemma_mod_multiples_basic(a as int, second as int);
    assert(second * a == a * second) by (nonlinear_arith);
    double::lemma_nearest_wf(a, 1);
    lemma_zero_over(second);
    double::lemma_plus_zero(x);
    // Shares.
    double::lemma_same_ratio(100, 100, 1, 1);
    lemma_times_commute(x, double::nearest(1, 1));
    double::lemma_times_one(x);
    assert(double::nearest(0, 100) == double::nearest(0, 1));
    assert(x.significand * 0 == 0);
    assert(double::nearest(0, 1).significand == 0);
    assert(0 * pow2(0) == 0);
}

proof fn lemma_zero_over(d: nat)
    ensures
        double::nearest(0, 1).over(double::nearest(d, 1)) == double::nearest(0, 1),
{
}

proof fn lemma_times_commute(x: Number, y: Number)
    ensures
        x.times(y) == y.times(x),
{
    assert(x.significand * y.significand == y.significand * x.significand) by (nonlinear_arith);
}

} // verus!
