//! Numbers as they are written: digits, a point, a sign, an exponent.

use vstd::arithmetic::power2::{lemma2_to64, lemma_pow2_adds, lemma_pow2_pos, pow2};
use vstd::prelude::*;

use crate::decimal;
use crate::decimal::{tens, Big};
use crate::double;
use crate::double::{nearest, Double, Number};
use crate::text;
use crate::text::{letters, part, same, to_lower_case};

verus! {

// An amount: digits and points.

/// Whether a character can belong to an amount.
pub open spec fn in_amount(c: char, dots: bool) -> bool {
    text::digit_value(c) is Some || (dots && c == '.')
}

/// How many leading characters belong to the amount.
pub open spec fn amount_len(value: Seq<char>, dots: bool) -> nat
    decreases value.len(),
{
    if value.len() == 0 || !in_amount(value[0], dots) {
        0
    } else {
        1 + amount_len(value.skip(1), dots)
    }
}

pub proof fn lemma_amount(value: Seq<char>, dots: bool)
    ensures
        amount_len(value, dots) <= value.len(),
        forall|i: int| 0 <= i < amount_len(value, dots) ==> in_amount(#[trigger] value[i], dots),
    decreases value.len(),
{
    if value.len() > 0 && in_amount(value[0], dots) {
        lemma_amount(value.skip(1), dots);
        assert forall|i: int| 0 <= i < amount_len(value, dots) implies in_amount(
            #[trigger] value[i],
            dots,
        ) by {
            if i > 0 {
                assert(value.skip(1)[i - 1] == value[i]);
            }
        }
    }
}

/// Where the amount ends.
pub fn split_amount(value: &Vec<char>, dots: bool) -> (at: usize)
    ensures
        at <= value@.len(),
        at == amount_len(value@, dots),
{
    let mut at: usize = 0;
    assert(value@.skip(0) =~= value@);
    while at < value.len() && (text::value_of_digit(value[at]).is_some() || (dots && value[at]
        == '.'))
        invariant
            at <= value@.len(),
            amount_len(value@, dots) == at + amount_len(value@.skip(at as int), dots),
        decreases value@.len() - at,
    {
        assert(value@.skip(at as int)[0] == value@[at as int]);
        assert(value@.skip(at as int).skip(1) =~= value@.skip(at + 1));
        at = at + 1;
    }
    proof {
        if at < value@.len() {
            assert(value@.skip(at as int)[0] == value@[at as int]);
        }
    }
    at
}

/// The place of the first point, or the end.
pub open spec fn point(amount: Seq<char>) -> nat
    decreases amount.len(),
{
    if amount.len() == 0 || amount[0] == '.' {
        0
    } else {
        1 + point(amount.skip(1))
    }
}

/// The digits before the point.
pub open spec fn whole_part(amount: Seq<char>) -> Seq<char> {
    amount.take(point(amount) as int)
}

/// The digits behind the point.
pub open spec fn fraction_part(amount: Seq<char>) -> Seq<char> {
    if point(amount) < amount.len() {
        amount.skip(point(amount) as int + 1)
    } else {
        Seq::empty()
    }
}

/// Why digits and points make no number: there are none, there are two points, or only a point.
pub open spec fn amount_fault(amount: Seq<char>) -> Option<Seq<char>> {
    if amount.len() == 0 {
        Some("cannot parse float from empty string"@)
    } else if amount == seq!['.'] || fraction_part(amount).contains('.') {
        Some("invalid float literal"@)
    } else {
        None
    }
}

/// The binary number nearest to what digits with a point stand for.
pub open spec fn amount_number(amount: Seq<char>) -> Number {
    double::nearest(
        text::place_value(whole_part(amount) + fraction_part(amount)) as nat,
        decimal::tens(fraction_part(amount).len()),
    )
}

fn point_place(amount: &Vec<char>, len: usize) -> (at: usize)
    requires
        len <= amount@.len(),
    ensures
        at <= len,
        at == point(amount@.take(len as int)),
        at < len ==> amount@[at as int] == '.',
        forall|i: int| 0 <= i < at ==> amount@[i] != '.',
{
    let ghost all = amount@.take(len as int);
    let mut at: usize = 0;
    assert(all.skip(0) =~= all);
    while at < len && amount[at] != '.'
        invariant
            at <= len <= amount@.len(),
            all == amount@.take(len as int),
            point(all) == at + point(all.skip(at as int)),
            forall|i: int| 0 <= i < at ==> amount@[i] != '.',
        decreases len - at,
    {
        assert(all.skip(at as int)[0] == amount@[at as int]);
        assert(all.skip(at as int).skip(1) =~= all.skip(at + 1));
        at = at + 1;
    }
    proof {
        if at < len {
            assert(all.skip(at as int)[0] == amount@[at as int]);
        }
    }
    at
}

fn has_point(amount: &Vec<char>, from: usize, to: usize) -> (result: bool)
    requires
        from <= to <= amount@.len(),
    ensures
        result == amount@.subrange(from as int, to as int).contains('.'),
{
    let ghost all = amount@.subrange(from as int, to as int);
    let mut i: usize = from;
    while i < to
        invariant
            from <= i <= to <= amount@.len(),
            all == amount@.subrange(from as int, to as int),
            forall|k: int| 0 <= k < i - from ==> all[k] != '.',
        decreases to - i,
    {
        assert(all[i - from] == amount@[i as int]);
        if amount[i] == '.' {
            return true;
        }
        i = i + 1;
    }
    false
}

/// The digits before and behind the point.
fn digits_around(
    amount: &Vec<char>,
    dot: usize,
    behind: usize,
    to: usize,
) -> (digits: Vec<char>)
    requires
        dot <= behind <= to <= amount@.len(),
    ensures
        digits@ == amount@.subrange(0, dot as int) + amount@.subrange(behind as int, to as int),
{
    let mut digits: Vec<char> = Vec::new();
    let mut i: usize = 0;
    while i < dot
        invariant
            i <= dot <= amount@.len(),
            digits@ == amount@.subrange(0, i as int),
        decreases dot - i,
    {
        digits.push(amount[i]);
        i = i + 1;
        assert(digits@ =~= amount@.subrange(0, i as int));
    }
    let ghost whole = digits@;
    let mut j: usize = behind;
    assert(whole + amount@.subrange(behind as int, behind as int) =~= whole);
    while j < to
        invariant
            behind <= j <= to <= amount@.len(),
            digits@ == whole + amount@.subrange(behind as int, j as int),
        decreases to - j,
    {
        digits.push(amount[j]);
        j = j + 1;
        assert(digits@ =~= whole + amount@.subrange(behind as int, j as int));
    }
    digits
}

/// An amount without its point.
pub struct Amount {
    pub digits: Vec<char>,
    /// How many of the digits stand behind the point.
    pub places: usize,
}

impl Amount {
    /// The digits are those of an amount.
    pub open spec fn reads(&self, amount: Seq<char>) -> bool {
        &&& amount_fault(amount) is None
        &&& self.digits@ == whole_part(amount) + fraction_part(amount)
        &&& self.places == fraction_part(amount).len()
        &&& text::all_digits(self.digits@)
    }

    /// The binary number nearest to the amount.
    pub fn number(&self) -> (number: Double)
        requires
            text::all_digits(self.digits@),
        ensures
            number@ == nearest(
                text::place_value(self.digits@) as nat,
                tens(self.places as nat),
            ),
            number.tame(double::TAME as int),
    {
        decimal::nearest_ratio(Big::of_digits(&self.digits), Big::power_of_ten(self.places as u128))
    }
}

/// Reads the amount in front, where it is one.
pub fn read_amount(chars: &Vec<char>, len: usize) -> (amount: Option<Amount>)
    requires
        0 < len <= chars@.len(),
        forall|i: int| 0 <= i < len ==> in_amount(#[trigger] chars@[i], true),
    ensures
        match amount {
            Some(amount) => amount.reads(chars@.take(len as int)),
            None => amount_fault(chars@.take(len as int)) == Some("invalid float literal"@),
        },
{
    let ghost amount = chars@.take(len as int);
    let dot: usize = point_place(chars, len);
    let behind: usize = if dot < len {
        dot + 1
    } else {
        len
    };
    assert(chars@.subrange(behind as int, len as int) =~= fraction_part(amount));
    assert(chars@.subrange(0, dot as int) =~= whole_part(amount));
    if (len == 1 && dot == 0) || has_point(chars, behind, len) {
        assert(len == 1 && dot == 0 ==> amount =~= seq!['.']);
        return None;
    }
    assert(amount != seq!['.']) by {
        if amount == seq!['.'] {
            assert(amount[0] == '.');
        }
    }
    let digits: Vec<char> = digits_around(chars, dot, behind, len);
    assert forall|i: int| 0 <= i < digits@.len() implies text::digit_value(
        #[trigger] digits@[i],
    ) is Some by {
        let place = if i < dot {
            i
        } else {
            behind + (i - dot)
        };
        assert(digits@[i] == chars@[place]);
        assert(in_amount(chars@[place], true));
        if i >= dot {
            assert(fraction_part(amount)[i - dot] == chars@[place]);
        }
    }
    Some(Amount { digits, places: len - behind })
}

// A numeral: an amount with a sign and an exponent.

pub open spec fn negative(text: Seq<char>) -> bool {
    text.len() > 0 && text[0] == '-'
}

/// The text without a sign in front.
pub open spec fn unsigned(text: Seq<char>) -> Seq<char> {
    if text.len() > 0 && (text[0] == '+' || text[0] == '-') {
        text.skip(1)
    } else {
        text
    }
}

/// Whether a text without its sign names infinity, or no number.
pub open spec fn unbounded(body: Seq<char>) -> bool {
    let low = text::lower_case(body);
    low == "inf"@ || low == "infinity"@ || low == "nan"@
}

/// The place of the exponent's mark, or the end.
pub open spec fn exponent_mark(body: Seq<char>) -> nat
    decreases body.len(),
{
    if body.len() == 0 || body[0] == 'e' || body[0] == 'E' {
        0
    } else {
        1 + exponent_mark(body.skip(1))
    }
}

/// What stands before the exponent.
pub open spec fn amount_of(body: Seq<char>) -> Seq<char> {
    body.take(exponent_mark(body) as int)
}

/// What stands behind the exponent's mark.
pub open spec fn exponent_text(body: Seq<char>) -> Seq<char> {
    if exponent_mark(body) < body.len() {
        body.skip(exponent_mark(body) as int + 1)
    } else {
        Seq::empty()
    }
}

/// Whether a text without its sign is an amount, alone or with an exponent.
pub open spec fn is_numeral(body: Seq<char>) -> bool {
    &&& amount_len(amount_of(body), true) == amount_of(body).len()
    &&& amount_fault(amount_of(body)) is None
    &&& exponent_mark(body) < body.len() ==> unsigned(exponent_text(body)).len() > 0
        && text::all_digits(unsigned(exponent_text(body)))
}

pub open spec fn exponent(body: Seq<char>) -> int {
    let size = text::place_value(unsigned(exponent_text(body)));
    if negative(exponent_text(body)) {
        -size
    } else {
        size
    }
}

/// The numeral's digits, as one number.
pub open spec fn digits_of(body: Seq<char>) -> nat {
    text::place_value(whole_part(amount_of(body)) + fraction_part(amount_of(body))) as nat
}

/// The power of ten by which the digits are multiplied.
pub open spec fn scale_of(body: Seq<char>) -> int {
    exponent(body) - fraction_part(amount_of(body)).len()
}

/// Ten to the power, or one where the power is negative.
pub open spec fn tens_up(power: int) -> nat {
    if power > 0 {
        tens(power as nat)
    } else {
        1
    }
}

/// Whether digits, multiplied by a power of ten and rounded to a number of floating point, lie
/// between zero and `most`. Below zero they do where they are rounded to zero: where they are no
/// more than half of the least number, which is two to the power of -1074.
pub open spec fn rounds_within(below_zero: bool, digits: nat, scale: int, most: nat) -> bool {
    if below_zero {
        digits * tens_up(scale) * pow2(1_075) <= tens_up(-scale)
    } else {
        nearest(digits * tens_up(scale), tens_up(-scale)).le(nearest(most, 1))
    }
}

/// Whether a numeral stands for a number between zero and `most`.
pub open spec fn lies_within(text: Seq<char>, most: nat) -> bool {
    let body = unsigned(text);
    rounds_within(negative(text), digits_of(body), scale_of(body), most)
}

proof fn lemma_tens_pos(power: nat)
    ensures
        tens(power) > 0,
    decreases power,
{
    if power > 0 {
        lemma_tens_pos((power - 1) as nat);
    }
}

proof fn lemma_tens_adds(a: nat, b: nat)
    ensures
        tens(a + b) == tens(a) * tens(b),
    decreases b,
{
    if b == 0 {
        assert(tens(a) * 1 == tens(a));
    } else {
        let less = (b - 1) as nat;
        lemma_tens_adds(a, less);
        assert((a + b - 1) as nat == a + less);
        assert(10 * (tens(a) * tens(less)) == tens(a) * (10 * tens(less))) by (nonlinear_arith);
    }
}

proof fn lemma_tens_grow(a: nat, b: nat)
    requires
        a <= b,
    ensures
        0 < tens(a) <= tens(b),
{
    lemma_tens_pos(a);
    lemma_tens_pos((b - a) as nat);
    lemma_tens_adds(a, (b - a) as nat);
    assert(tens(a) <= tens(a) * tens((b - a) as nat)) by (nonlinear_arith)
        requires
            tens(a) > 0,
            tens((b - a) as nat) > 0,
    ;
}

/// Digits stand for less than the power of ten that has one digit more.
proof fn lemma_digits_below(digits: Seq<char>)
    requires
        text::all_digits(digits),
    ensures
        0 <= text::place_value(digits) < tens(digits.len()),
    decreases digits.len(),
{
    if digits.len() > 0 {
        lemma_digits_below(digits.drop_last());
        assert(text::digit_value(digits.last()) is Some);
    }
}

/// Ten powers of two lie between three and four powers of ten.
proof fn lemma_powers(count: nat)
    ensures
        tens(3 * count) <= pow2(10 * count) <= tens(4 * count),
    decreases count,
{
    lemma2_to64();
    if count > 0 {
        let less = (count - 1) as nat;
        lemma_powers(less);
        lemma_tens_adds(3 * less, 3);
        lemma_tens_adds(4 * less, 4);
        lemma_pow2_adds(10 * less, 10);
        assert(tens(3) == 1_000 && tens(4) == 10_000) by {
            reveal_with_fuel(tens, 5);
        }
        assert(3 * count == 3 * less + 3 && 4 * count == 4 * less + 4 && 10 * count == 10 * less
            + 10);
        assert(tens(3 * less) * 1_000 <= pow2(10 * less) * 1_024 && pow2(10 * less) * 1_024
            <= tens(4 * less) * 10_000);
    }
}

proof fn lemma_a_thousand_is_beyond(most: nat)
    requires
        most <= 100,
    ensures
        !nearest(1_000, 1).le(nearest(most, 1)),
{
    lemma2_to64();
    double::lemma_shifted(1_000, 1, 43);
    double::lemma_shifted(100, 1, 46);
    lemma_pow2_adds(32, 11);
    lemma_pow2_adds(32, 14);
    assert(pow2(43) == 0x800_0000_0000 && pow2(46) == 0x4000_0000_0000);
    double::lemma_nearest(1_000, 1);
    double::lemma_nearest(100, 1);
    assert(nearest(1_000 * pow2(43), 1).exponent == 0);
    assert(nearest(100 * pow2(46), 1).exponent == 0);
    double::lemma_ordered(most, 1, 100, 1);
}

/// Three powers of ten or more are too many.
proof fn lemma_far_above(digits: nat, scale: int, most: nat)
    requires
        digits > 0,
        scale >= 3,
        most <= 100,
    ensures
        !rounds_within(false, digits, scale, most),
{
    lemma_tens_grow(3, scale as nat);
    assert(tens(3) == 1_000) by {
        reveal_with_fuel(tens, 4);
    }
    let n = digits * tens_up(scale);
    assert(n >= 1_000) by (nonlinear_arith)
        requires
            n == digits * tens_up(scale),
            digits >= 1,
            tens_up(scale) >= 1_000,
    ;
    double::lemma_ordered(1_000, 1, n, 1);
    lemma_a_thousand_is_beyond(most);
    double::lemma_nearest(n, 1);
    double::lemma_nearest(1_000, 1);
}

/// What is less than one lies within.
proof fn lemma_far_below(digits: nat, count: nat, scale: int, most: nat)
    requires
        digits < tens(count),
        count + scale <= 0,
        most >= 1,
    ensures
        rounds_within(false, digits, scale, most),
{
    lemma_tens_grow(count, (-scale) as nat);
    let d = tens_up(-scale);
    assert(d == tens((-scale) as nat));
    assert(digits * tens_up(scale) == digits);
    assert(digits * 1 <= most * d) by (nonlinear_arith)
        requires
            digits <= d,
            most >= 1,
    ;
    double::lemma_ordered(digits, d, most, 1);
}

/// What is not very small is not rounded to zero.
proof fn lemma_below_zero(digits: nat, scale: int)
    requires
        digits > 0,
        scale >= -321,
    ensures
        !rounds_within(true, digits, scale, 1),
{
    lemma_powers(107);
    lemma_pow2_adds(1_070, 5);
    lemma_pow2_pos(1_070);
    lemma2_to64();
    let d = tens_up(-scale);
    lemma_tens_grow(0, 321);
    if scale < 0 {
        lemma_tens_grow((-scale) as nat, 321);
    } else {
        lemma_tens_pos(scale as nat);
    }
    assert(d <= tens(321));
    let n = digits * tens_up(scale);
    assert(n >= 1) by (nonlinear_arith)
        requires
            n == digits * tens_up(scale),
            digits >= 1,
            tens_up(scale) >= 1,
    ;
    assert(n * pow2(1_075) >= pow2(1_075)) by (nonlinear_arith)
        requires
            n >= 1,
    ;
}

/// What is very small is rounded to zero.
proof fn lemma_almost_zero(digits: nat, count: nat, scale: int)
    requires
        digits < tens(count),
        count + scale <= -432,
    ensures
        rounds_within(true, digits, scale, 1),
{
    lemma_powers(108);
    lemma_pow2_adds(1_075, 5);
    lemma_pow2_pos(1_075);
    lemma2_to64();
    assert(pow2(1_075) <= tens(432)) by {
        assert(pow2(1_080) == pow2(1_075) * 32);
    }
    lemma_tens_adds(count, 432);
    lemma_tens_grow(count + 432, (-scale) as nat);
    assert(digits * tens_up(scale) == digits);
    assert(digits * pow2(1_075) <= tens(count) * tens(432)) by (nonlinear_arith)
        requires
            digits <= tens(count),
            pow2(1_075) <= tens(432),
    ;
}

/// An integer, multiplied by two to the power of 1075.
fn enlarged(value: Big) -> (result: Big)
    ensures
        result@ == value@ * pow2(1_075),
{
    let ghost value0 = value@;
    let mut result: Big = value;
    let mut i: u32 = 0;
    proof {
        lemma2_to64();
        assert(value0 * pow2(0) == value0) by (nonlinear_arith)
            requires
                pow2(0) == 1,
        ;
    }
    while i < 43
        invariant
            i <= 43,
            result@ == value0 * pow2(25 * i as nat),
        decreases 43 - i,
    {
        proof {
            lemma2_to64();
            lemma_pow2_adds(25 * i as nat, 25);
            assert(25 * (i + 1) as nat == 25 * i as nat + 25);
            assert(value0 * pow2(25 * i as nat) * 0x200_0000 == value0 * (pow2(25 * i as nat)
                * pow2(25))) by (nonlinear_arith)
                requires
                    pow2(25) == 0x200_0000,
            ;
        }
        result = result.times(0x200_0000, 0);
        i = i + 1;
    }
    result
}

/// Whether digits with a power of ten lie within, where the power is not far from what the digits
/// make up for.
fn near_ones_within(
    below_zero: bool,
    digits: &Vec<char>,
    scale: i128,
    most: u64,
) -> (result: bool)
    requires
        text::all_digits(digits@),
        -FAR <= scale < 3,
    ensures
        result == rounds_within(
            below_zero,
            text::place_value(digits@) as nat,
            scale as int,
            most as nat,
        ),
{
    let mut n: Big = Big::of_digits(digits);
    let ghost n0 = n@;
    let d: Big = if scale < 0 {
        Big::power_of_ten((-scale) as u128)
    } else {
        Big::small(1)
    };
    assert(d@ == tens_up(-scale));
    if scale == 1 {
        n = n.times(10, 0);
    } else if scale == 2 {
        n = n.times(100, 0);
    }
    proof {
        assert(tens(1) == 10 && tens(2) == 100) by {
            reveal_with_fuel(tens, 3);
        }
        assert(n@ == n0 * tens_up(scale as int));
    }
    if below_zero {
        !d.less(&enlarged(n))
    } else {
        decimal::nearest_ratio(n, d).at_most(Double::of_int(most))
    }
}

/// Beyond this an exponent outweighs any text's digits.
const FAR: u128 = 0x1_0000_0000_0000_0000_0000;

/// An exponent as it was written, or `FAR` where its size is larger.
fn read_exponent(text: &Vec<char>) -> (size: Option<u128>)
    ensures
        match size {
            Some(size) => {
                &&& text@.len() > 0
                &&& text::all_digits(text@)
                &&& size <= FAR
                &&& text::place_value(text@) >= size
                &&& size < FAR ==> text::place_value(text@) == size
            },
            None => text@.len() == 0 || !text::all_digits(text@),
        },
{
    let len: usize = text.len();
    if len == 0 {
        return None;
    }
    let at: usize = split_amount(text, false);
    proof {
        lemma_amount(text@, false);
        lemma_amount_ends(text@, false);
    }
    if at < len {
        assert(text::digit_value(text@[at as int]) is None);
        return None;
    }
    proof {
        assert forall|i: int| 0 <= i < text@.len() implies text::digit_value(
            #[trigger] text@[i],
        ) is Some by {
            assert(in_amount(text@[i], false));
        }
        text::lemma_digits_value(text@, FAR as int);
        text::lemma_digits_bounded(text@, FAR as int);
        assert(text@.subrange(0, len as int) =~= text@);
    }
    match text::parse_digits(text, 0, len, FAR) {
        Ok(size) => Some(size),
        Err(_) => Some(FAR),
    }
}

/// The amount ends where a character does not belong to it.
proof fn lemma_amount_ends(value: Seq<char>, dots: bool)
    ensures
        amount_len(value, dots) <= value.len(),
        amount_len(value, dots) < value.len() ==> !in_amount(
            value[amount_len(value, dots) as int],
            dots,
        ),
    decreases value.len(),
{
    if value.len() > 0 && in_amount(value[0], dots) {
        lemma_amount_ends(value.skip(1), dots);
    }
}

fn place_of_mark(body: &Vec<char>) -> (at: usize)
    ensures
        at <= body@.len(),
        at == exponent_mark(body@),
{
    let mut at: usize = 0;
    assert(body@.skip(0) =~= body@);
    while at < body.len() && body[at] != 'e' && body[at] != 'E'
        invariant
            at <= body@.len(),
            exponent_mark(body@) == at + exponent_mark(body@.skip(at as int)),
        decreases body@.len() - at,
    {
        assert(body@.skip(at as int)[0] == body@[at as int]);
        assert(body@.skip(at as int).skip(1) =~= body@.skip(at + 1));
        at = at + 1;
    }
    proof {
        if at < body@.len() {
            assert(body@.skip(at as int)[0] == body@[at as int]);
        }
    }
    at
}

/// The characters from a place on.
fn tail(chars: &Vec<char>, from: usize) -> (rest: Vec<char>)
    requires
        from <= chars@.len(),
    ensures
        rest@ == chars@.skip(from as int),
{
    let mut rest: Vec<char> = Vec::new();
    let mut i: usize = from;
    while i < chars.len()
        invariant
            from <= i <= chars@.len(),
            rest@ == chars@.subrange(from as int, i as int),
        decreases chars@.len() - i,
    {
        rest.push(chars[i]);
        i = i + 1;
        assert(rest@ =~= chars@.subrange(from as int, i as int));
    }
    assert(rest@ =~= chars@.skip(from as int));
    rest
}

/// Whether there is a sign in front, and whether it is a minus.
fn sign(chars: &Vec<char>) -> (result: (usize, bool))
    ensures
        result.0 <= 1,
        result.0 <= chars@.len(),
        unsigned(chars@) == chars@.skip(result.0 as int),
        result.1 == negative(chars@),
{
    assert(chars@.skip(0) =~= chars@);
    if chars.len() > 0 && chars[0] == '-' {
        (1, true)
    } else if chars.len() > 0 && chars[0] == '+' {
        (1, false)
    } else {
        (0, false)
    }
}

/// What a text stands for, as far as a range asks for it.
#[derive(Clone, Copy, Debug, PartialEq, Eq, Structural)]
pub enum Standing {
    /// The text is no number.
    Malformed,
    Outside,
    Within,
}

/// Where a text stands to the range between zero and `most`.
pub open spec fn standing(text: Seq<char>, most: nat) -> Standing {
    let body = unsigned(text);
    if unbounded(body) {
        Standing::Outside
    } else if !is_numeral(body) {
        Standing::Malformed
    } else if lies_within(text, most) {
        Standing::Within
    } else {
        Standing::Outside
    }
}

/// Where a text stands to the range between zero and `most`: an optional sign, then digits with or
/// without a point and an exponent, or the name of infinity or of what is no number.
pub fn stands(value: &str, most: u64) -> (result: Standing)
    requires
        1 <= most <= 100,
    ensures
        result == standing(value@, most as nat),
{
    let chars: Vec<char> = letters(value);
    let (from, below_zero): (usize, bool) = sign(&chars);
    let body: Vec<char> = tail(&chars, from);
    let low: String = to_lower_case(part(value, from, chars.len()).as_str());
    assert(value@.subrange(from as int, chars@.len() as int) =~= body@);
    if same(low.as_str(), "inf") || same(low.as_str(), "infinity") || same(low.as_str(), "nan") {
        return Standing::Outside;
    }
    let at: usize = place_of_mark(&body);
    let front: Vec<char> = letters(part(value, from, from + at).as_str());
    assert(front@ =~= amount_of(body@));
    let end: usize = split_amount(&front, true);
    if at == 0 || end < at {
        return Standing::Malformed;
    }
    proof {
        lemma_amount(front@, true);
    }
    assert(front@.take(at as int) =~= front@);
    let amount: Amount = match read_amount(&front, at) {
        Some(amount) => amount,
        None => {
            return Standing::Malformed;
        },
    };
    let mut scale: i128 = 0;
    if at < body.len() {
        let behind: Vec<char> = tail(&body, at + 1);
        let (skipped, minus): (usize, bool) = sign(&behind);
        match read_exponent(&tail(&behind, skipped)) {
            None => {
                return Standing::Malformed;
            },
            Some(size) => {
                scale = if minus {
                    -(size as i128)
                } else {
                    size as i128
                };
            },
        }
    }
    let ghost far = scale as int;
    let ghost meant = exponent(body@);
    assert(meant == far || (far == FAR && meant > far) || (far == -FAR && meant < far)) by {
        if at == body@.len() {
            assert(exponent_text(body@) =~= Seq::<char>::empty());
        }
    }
    scale = scale - amount.places as i128;
    let ghost true_scale = scale_of(body@);
    let ghost digits = text::place_value(amount.digits@) as nat;
    assert(digits == digits_of(body@));
    let count: i128 = amount.digits.len() as i128;
    proof {
        lemma_digits_below(amount.digits@);
    }
    let value_is_zero: bool = !Big::small(0).less(&Big::of_digits(&amount.digits));
    let within: bool = if value_is_zero {
        proof {
            lemma_tens_pos(if true_scale < 0 { -true_scale } else { 0 } as nat);
            assert(digits * tens_up(true_scale) == 0) by (nonlinear_arith)
                requires
                    digits == 0,
            ;
            assert(0 * pow2(1_075) == 0);
        }
        true
    } else if below_zero {
        if scale >= -321 {
            proof {
                lemma_below_zero(digits, true_scale);
            }
            false
        } else if count + scale <= -432 {
            proof {
                lemma_almost_zero(digits, amount.digits@.len(), true_scale);
            }
            true
        } else {
            near_ones_within(true, &amount.digits, scale, most)
        }
    } else if scale >= 3 {
        proof {
            lemma_far_above(digits, true_scale, most as nat);
        }
        false
    } else if count + scale <= 0 {
        proof {
            lemma_far_below(digits, amount.digits@.len(), true_scale, most as nat);
        }
        true
    } else {
        near_ones_within(false, &amount.digits, scale, most)
    };
    if within {
        Standing::Within
    } else {
        Standing::Outside
    }
}

} // verus!
