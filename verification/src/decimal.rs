//! Decimal digits of any number, and the binary number nearest to what they say.

use vstd::arithmetic::power2::{
    lemma2_to64, lemma_pow2_adds, lemma_pow2_strictly_increases, lemma_pow2_unfold, pow2,
};
use vstd::prelude::*;

use crate::double;
use crate::double::{distance, nearest, Double, BEYOND, LEAST, TAME};
use crate::text;

verus! {

/// A power of ten.
pub open spec fn tens(places: nat) -> nat
    decreases places,
{
    if places == 0 {
        1
    } else {
        10 * tens((places - 1) as nat)
    }
}

/// The word at a place; zero beyond the end.
pub open spec fn word(words: Seq<u32>, at: int) -> nat {
    if 0 <= at < words.len() {
        words[at] as nat
    } else {
        0
    }
}

/// What the first `count` words come to, the least first.
pub open spec fn low(words: Seq<u32>, count: nat) -> nat
    decreases count,
{
    if count == 0 {
        0
    } else {
        low(words, (count - 1) as nat) + word(words, count - 1) * pow2(32 * (count - 1) as nat)
    }
}

/// An integer of any size.
pub struct Big {
    pub words: Vec<u32>,
}

impl View for Big {
    type V = nat;

    open spec fn view(&self) -> nat {
        low(self.words@, self.words@.len())
    }
}

proof fn lemma_low_alike(a: Seq<u32>, b: Seq<u32>, count: nat)
    requires
        forall|i: int| 0 <= i < count ==> word(a, i) == #[trigger] word(b, i),
    ensures
        low(a, count) == low(b, count),
    decreases count,
{
    if count > 0 {
        lemma_low_alike(a, b, (count - 1) as nat);
        assert(word(a, count - 1) == word(b, count - 1));
    }
}

proof fn lemma_low_beyond(words: Seq<u32>, count: nat)
    requires
        count >= words.len(),
    ensures
        low(words, count) == low(words, words.len()),
    decreases count,
{
    if count > words.len() {
        lemma_low_beyond(words, (count - 1) as nat);
        assert(word(words, count - 1) * pow2(32 * (count - 1) as nat) == 0) by (nonlinear_arith)
            requires
                word(words, count - 1) == 0,
        ;
    }
}

proof fn lemma_low_bound(words: Seq<u32>, count: nat)
    ensures
        low(words, count) < pow2(32 * count),
    decreases count,
{
    lemma2_to64();
    if count > 0 {
        let less = (count - 1) as nat;
        lemma_low_bound(words, less);
        lemma_pow2_adds(32 * less, 32);
        assert(32 * less + 32 == 32 * count);
        let p = pow2(32 * less);
        let w = word(words, count - 1);
        assert(w * p + p <= p * 0x1_0000_0000) by (nonlinear_arith)
            requires
                w + 1 <= 0x1_0000_0000,
                p >= 0,
        ;
    }
}

proof fn lemma_pushed(words: Seq<u32>, more: u32)
    ensures
        low(words.push(more), words.len() + 1) == low(words, words.len()) + more * pow2(
            32 * words.len(),
        ),
{
    let longer = words.push(more);
    assert forall|i: int| 0 <= i < words.len() implies word(words, i) == #[trigger] word(
        longer,
        i,
    ) by {}
    lemma_low_alike(words, longer, words.len());
}

impl Big {
    pub fn small(value: u32) -> (result: Big)
        ensures
            result@ == value,
    {
        let mut words: Vec<u32> = Vec::new();
        words.push(value);
        proof {
            lemma2_to64();
            assert(low(words@, 1) == low(words@, 0) + word(words@, 0) * pow2(0));
            assert(word(words@, 0) * pow2(0) == value) by (nonlinear_arith)
                requires
                    pow2(0) == 1,
                    word(words@, 0) == value,
            ;
        }
        Big { words }
    }

    /// What decimal digits stand for.
    pub fn of_digits(digits: &Vec<char>) -> (result: Big)
        requires
            forall|i: int|
                0 <= i < digits@.len() ==> text::digit_value(#[trigger] digits@[i]) is Some,
        ensures
            result@ == text::place_value(digits@),
    {
        let mut result: Big = Big::small(0);
        let mut i: usize = 0;
        assert(digits@.take(0) =~= Seq::<char>::empty());
        while i < digits.len()
            invariant
                i <= digits@.len(),
                forall|k: int|
                    0 <= k < digits@.len() ==> text::digit_value(#[trigger] digits@[k]) is Some,
                result@ == text::place_value(digits@.take(i as int)),
            decreases digits@.len() - i,
        {
            assert(digits@.take(i + 1).drop_last() =~= digits@.take(i as int));
            let digit: u32 = match text::value_of_digit(digits[i]) {
                Some(digit) => digit as u32,
                None => 0,
            };
            result = result.times(10, digit);
            i = i + 1;
        }
        assert(digits@.take(i as int) =~= digits@);
        result
    }

    /// A power of ten.
    pub fn power_of_ten(places: u128) -> (result: Big)
        ensures
            result@ == tens(places as nat),
            result@ > 0,
    {
        let mut result: Big = Big::small(1);
        let mut i: u128 = 0;
        while i < places
            invariant
                i <= places,
                result@ == tens(i as nat),
                result@ > 0,
            decreases places - i,
        {
            result = result.times(10, 0);
            i = i + 1;
        }
        result
    }

    /// This integer times a factor, and some more.
    pub fn times(&self, factor: u32, more: u32) -> (result: Big)
        ensures
            result@ == self@ * factor + more,
    {
        let mut words: Vec<u32> = Vec::new();
        let mut carry: u64 = more as u64;
        let mut i: usize = 0;
        proof {
            lemma2_to64();
            assert(carry * pow2(0) == more) by (nonlinear_arith)
                requires
                    pow2(0) == 1,
                    carry == more,
            ;
            assert(low(self.words@, 0) * factor == 0) by (nonlinear_arith)
                requires
                    low(self.words@, 0) == 0,
            ;
        }
        while i < self.words.len()
            invariant
                i <= self.words@.len(),
                words@.len() == i,
                carry < 0x1_0000_0000,
                low(words@, i as nat) + carry * pow2(32 * i as nat) == low(self.words@, i as nat)
                    * factor + more,
            decreases self.words@.len() - i,
        {
            let ghost before = words@;
            let ghost had = carry;
            assert(self.words@[i as int] * factor <= 0xffff_ffff * 0xffff_ffff) by (nonlinear_arith)
                requires
                    self.words@[i as int] <= 0xffff_ffff,
                    factor <= 0xffff_ffff,
            ;
            let total: u64 = self.words[i] as u64 * factor as u64 + carry;
            words.push((total % 0x1_0000_0000) as u32);
            carry = total / 0x1_0000_0000;
            proof {
                lemma_pushed(before, words@[i as int]);
                lemma2_to64();
                lemma_pow2_adds(32 * i as nat, 32);
                assert(32 * i + 32 == 32 * (i + 1));
                let p = pow2(32 * i as nat);
                let w = self.words@[i as int];
                let last = words@[i as int];
                assert(low(self.words@, (i + 1) as nat) == low(self.words@, i as nat) + w * p);
                assert(last * p + carry * (p * 0x1_0000_0000) == (w * factor + had) * p)
                    by (nonlinear_arith)
                    requires
                        last + carry * 0x1_0000_0000 == w * factor + had,
                ;
                assert((w * factor + had) * p == (w * p) * factor + had * p) by (nonlinear_arith);
                assert((low(self.words@, i as nat) + w * p) * factor == low(
                    self.words@,
                    i as nat,
                ) * factor + (w * p) * factor) by (nonlinear_arith);
            }
            i = i + 1;
        }
        let ghost before = words@;
        words.push(carry as u32);
        proof {
            lemma_pushed(before, carry as u32);
        }
        Big { words }
    }

    fn word_at(&self, at: usize) -> (value: u32)
        ensures
            value == word(self.words@, at as int),
    {
        if at < self.words.len() {
            self.words[at]
        } else {
            0
        }
    }

    /// This integer less another, where that is not greater.
    pub fn minus(&self, other: &Big) -> (result: Option<Big>)
        ensures
            match result {
                Some(result) => self@ >= other@ && result@ == self@ - other@,
                None => self@ < other@,
            },
    {
        let count: usize = if self.words.len() < other.words.len() {
            other.words.len()
        } else {
            self.words.len()
        };
        let mut words: Vec<u32> = Vec::new();
        let mut borrow: u64 = 0;
        let mut i: usize = 0;
        while i < count
            invariant
                i <= count,
                words@.len() == i,
                borrow <= 1,
                low(self.words@, i as nat) + borrow * pow2(32 * i as nat) == low(
                    other.words@,
                    i as nat,
                ) + low(words@, i as nat),
            decreases count - i,
        {
            let ghost before = words@;
            let ghost had = borrow;
            let have: u64 = self.word_at(i) as u64 + 0x1_0000_0000;
            let take: u64 = other.word_at(i) as u64 + borrow;
            let left: u64 = have - take;
            words.push((left % 0x1_0000_0000) as u32);
            borrow = 1 - left / 0x1_0000_0000;
            proof {
                lemma_pushed(before, words@[i as int]);
                lemma2_to64();
                lemma_pow2_adds(32 * i as nat, 32);
                assert(32 * i + 32 == 32 * (i + 1));
                let p = pow2(32 * i as nat);
                let a = word(self.words@, i as int);
                let b = word(other.words@, i as int);
                let last = words@[i as int];
                assert(a * p + borrow * (p * 0x1_0000_0000) == b * p + had * p + last * p)
                    by (nonlinear_arith)
                    requires
                        a + borrow * 0x1_0000_0000 == b + had + last,
                ;
            }
            i = i + 1;
        }
        proof {
            lemma_low_beyond(self.words@, count as nat);
            lemma_low_beyond(other.words@, count as nat);
            lemma_low_bound(words@, count as nat);
            if borrow == 0 {
                assert(borrow * pow2(32 * count as nat) == 0) by (nonlinear_arith)
                    requires
                        borrow == 0,
                ;
            } else {
                assert(borrow * pow2(32 * count as nat) == pow2(32 * count as nat))
                    by (nonlinear_arith)
                    requires
                        borrow == 1,
                ;
            }
        }
        if borrow == 0 {
            Some(Big { words })
        } else {
            None
        }
    }

    /// Whether this integer is less than another.
    pub fn less(&self, other: &Big) -> (result: bool)
        ensures
            result == (self@ < other@),
    {
        self.minus(other).is_none()
    }
}

proof fn lemma_power_below(power: nat, value: nat, words: nat)
    requires
        pow2(power) <= value,
        value < pow2(32 * words),
    ensures
        power < 32 * words,
{
    if power > 32 * words {
        lemma_pow2_strictly_increases(32 * words, power);
    }
}

/// Long division leaves the quotient and the rest of the ratio itself.
proof fn lemma_divided(n: nat, d: nat, lo: nat, quotient: nat, rest: nat)
    requires
        d > 0,
        lo == LEAST * d,
        n * BEYOND == (2 * quotient) * lo + rest,
        rest < 2 * lo,
    ensures
        n / d == quotient,
        rest > lo <==> 2 * (n % d) > d,
        rest == lo <==> 2 * (n % d) == d,
{
    let r = n - quotient * d;
    assert((2 * quotient) * lo == BEYOND * (quotient * d)) by (nonlinear_arith)
        requires
            lo == LEAST * d,
            BEYOND == 2 * LEAST,
    ;
    assert(rest == BEYOND * r) by (nonlinear_arith)
        requires
            r == n - quotient * d,
            n * BEYOND == BEYOND * (quotient * d) + rest,
    ;
    assert(0 <= r < d) by (nonlinear_arith)
        requires
            rest == BEYOND * r,
            0 <= rest < BEYOND * d,
            BEYOND > 0,
    ;
    vstd::arithmetic::div_mod::lemma_fundamental_div_mod_converse(
        n as int,
        d as int,
        quotient as int,
        r,
    );
}

/// The number nearest to a ratio of integers of any size.
pub fn nearest_ratio(n: Big, d: Big) -> (result: Double)
    requires
        d@ > 0,
    ensures
        result@ == nearest(n@, d@),
        result.tame(TAME as int),
{
    let none: Big = Big::small(0);
    if !none.less(&n) {
        return Double::zero();
    }
    let ghost n0 = n@;
    let ghost d0 = d@;
    let ghost mut by = d@;
    let mut n: Big = n;
    let middle: Big = d.times(0x400_0000, 0);
    let mut lo: Big = middle.times(0x400_0000, 0);
    let mut exponent: i128 = 0;
    let words: usize = lo.words.len();
    proof {
        assert(lo@ == LEAST * by) by (nonlinear_arith)
            requires
                middle@ == by * 0x400_0000 + 0,
                lo@ == middle@ * 0x400_0000 + 0,
                LEAST == 0x400_0000 * 0x400_0000,
        ;
        lemma2_to64();
        double::lemma_nearest(n0, d0);
    }
    while n.less(&lo)
        invariant
            n@ > 0,
            by > 0,
            lo@ == LEAST * by,
            nearest(n0, d0) == nearest(n@, by).scaled(exponent as int),
            exponent <= 0,
            lo.words@.len() == words,
            -exponent <= 32 * words,
            pow2((-exponent) as nat) <= n@,
        decreases distance(n@, by),
    {
        proof {
            double::lemma_nearest(n@, by);
            double::lemma_nearest(2 * n@, by);
            lemma_low_bound(lo.words@, lo.words@.len());
            lemma_power_below((-exponent) as nat, n@, lo.words@.len());
            lemma_pow2_unfold((1 - exponent) as nat);
        }
        n = n.times(2, 0);
        exponent = exponent - 1;
    }
    let ghost turn = exponent;
    let words: usize = n.words.len();
    let mut hi: Big = lo.times(2, 0);
    while !n.less(&hi)
        invariant
            n@ > 0,
            by > 0,
            lo@ == LEAST * by,
            lo@ <= n@,
            hi@ == 2 * lo@,
            nearest(n0, d0) == nearest(n@, by).scaled(exponent as int),
            turn <= exponent,
            -32 * 0x1_0000_0000_0000_0000 <= turn <= 0,
            n.words@.len() == words,
            exponent - turn <= 32 * words,
            pow2((exponent - turn) as nat) <= lo@,
        decreases distance(n@, by),
    {
        proof {
            double::lemma_nearest(n@, by);
            double::lemma_nearest(n@, 2 * by);
            lemma_low_bound(n.words@, n.words@.len());
            lemma_power_below((exponent - turn) as nat, n@, n.words@.len());
            lemma_pow2_unfold((exponent - turn + 1) as nat);
            by = 2 * by;
        }
        let next: Big = hi.times(2, 0);
        lo = hi;
        hi = next;
        exponent = exponent + 1;
    }
    let ghost whole = n@;
    let mut rest: Big = n;
    let mut quotient: u64 = 0;
    let mut step: u32 = 0;
    proof {
        lemma2_to64();
        assert(whole * pow2(0) == whole) by (nonlinear_arith)
            requires
                pow2(0) == 1,
        ;
    }
    while step < 53
        invariant
            step <= 53,
            quotient < pow2(step as nat) || (step == 0 && quotient == 0),
            whole * pow2(step as nat) == (2 * quotient) * lo@ + rest@,
            rest@ < 2 * lo@,
        decreases 53 - step,
    {
        let ghost had = rest@;
        let ghost q = quotient;
        proof {
            vstd::arithmetic::power2::lemma2_to64_rest();
            lemma2_to64();
            if step < 53 {
                lemma_pow2_strictly_increases(step as nat, 53);
            }
            lemma_pow2_unfold((step + 1) as nat);
            let p = pow2(step as nat);
            assert(whole * pow2((step + 1) as nat) == 2 * (whole * p)) by (nonlinear_arith)
                requires
                    pow2((step + 1) as nat) == 2 * p,
            ;
            assert((2 * (2 * q)) * lo@ == 2 * ((2 * q) * lo@)) by (nonlinear_arith);
            assert((2 * (2 * q + 1)) * lo@ == 2 * ((2 * q) * lo@) + 2 * lo@) by (nonlinear_arith);
        }
        quotient = 2 * quotient;
        if let Some(left) = rest.minus(&lo) {
            quotient = quotient + 1;
            rest = left.times(2, 0);
        } else {
            rest = rest.times(2, 0);
        }
        step = step + 1;
    }
    proof {
        vstd::arithmetic::power2::lemma2_to64_rest();
        lemma_divided(whole, by, lo@, quotient as nat, rest@);
        double::lemma_half_even_within(whole, by, LEAST as nat, BEYOND as nat);
    }
    let up: bool = lo.less(&rest) || (!rest.less(&lo) && quotient % 2 == 1);
    let rounded: u64 = if up {
        quotient + 1
    } else {
        quotient
    };
    if rounded == BEYOND {
        Double { significand: LEAST, exponent: exponent + 1 }
    } else {
        Double { significand: rounded, exponent }
    }
}

} // verus!
