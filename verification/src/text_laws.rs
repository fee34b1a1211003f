//! What reading and writing of numbers and words promises.

use vstd::prelude::*;

use crate::decimal;
use crate::double;
use crate::numeral;
use crate::numeral::Standing;
use crate::text;
use crate::text::NumberError;

verus! {

/// Digits stand for their values, and nothing else is a digit.
pub proof fn law_digits_stand_for_their_values(value: int, c: char)
    ensures
        0 <= value < 10 ==> text::digit(value) as int == '0' as int + value,
        0 <= value < 10 ==> text::digit_value(text::digit(value)) == Some(value),
        text::digit_value(c) is Some <==> '0' <= c <= '9',
        text::digit_value(c) matches Some(meant) ==> 0 <= meant < 10 && c as int == '0' as int
            + meant,
{
}

/// A number is written without leading zeros: one more digit is ten times as much and the digit.
pub proof fn law_one_more_digit_is_ten_times_as_much(value: int, digit: int, digits: Seq<char>, c: char)
    requires
        0 <= value,
        0 <= digit < 10,
        '0' <= c <= '9',
    ensures
        text::decimal(digit) == seq![text::digit(digit)],
        value > 0 ==> text::decimal(10 * value + digit) == text::decimal(value) + seq![
            text::digit(digit),
        ],
        text::place_value(Seq::empty()) == 0,
        text::place_value(digits.push(c)) == 10 * text::place_value(digits) + (c as int
            - '0' as int),
        decimal::tens(0) == 1,
        decimal::tens((value + 1) as nat) == 10 * decimal::tens(value as nat),
{
    assert(digits.push(c).drop_last() =~= digits);
}

/// Digits are read as the number that they write, where it is not too large, and as nothing else.
pub proof fn law_digits_are_read_as_their_number(digits: Seq<char>, most: int)
    requires
        0 <= most,
    ensures
        text::all_digits(digits) && text::place_value(digits) <= most ==> text::digits_value(
            digits,
            most,
        ) == Ok::<int, NumberError>(text::place_value(digits)),
        text::digits_value(digits, most) matches Ok(value) ==> text::all_digits(digits) && value
            == text::place_value(digits) && 0 <= value <= most,
        text::all_digits(digits) && text::place_value(digits) > most ==> text::digits_value(
            digits,
            most,
        ) == Err::<int, NumberError>(NumberError::TooLarge),
        text::all_digits(digits) ==> text::place_value(digits) >= 0,
    decreases digits.len(),
{
    if digits.len() > 0 {
        let init = digits.drop_last();
        law_digits_are_read_as_their_number(init, most);
        assert(digits[digits.len() - 1] == digits.last());
        if text::all_digits(digits) {
            assert forall|i: int| 0 <= i < init.len() implies text::digit_value(
                #[trigger] init[i],
            ) is Some by {
                assert(init[i] == digits[i]);
            }
        }
        if text::digits_value(digits, most) is Ok {
            assert forall|i: int| 0 <= i < digits.len() implies text::digit_value(
                #[trigger] digits[i],
            ) is Some by {
                if i < init.len() {
                    assert(init[i] == digits[i]);
                }
            }
        }
    }
}

/// The first fault of a number is what is told: no text is empty, anything but a digit is invalid,
/// and the digit that makes it too large is too much. A plus sign may stand in front of digits.
pub proof fn law_the_first_fault_is_told(digits: Seq<char>, c: char, most: int)
    ensures
        text::number(Seq::empty(), most) == Err::<int, NumberError>(NumberError::Empty),
        text::number(seq!['+'], most) == Err::<int, NumberError>(NumberError::InvalidDigit),
        digits.len() > 0 ==> text::number(seq!['+'] + digits, most) == text::digits_value(
            digits,
            most,
        ),
        digits.len() > 0 && digits[0] != '+' ==> text::number(digits, most) == text::digits_value(
            digits,
            most,
        ),
        text::digits_value(digits, most) is Err ==> text::digits_value(digits.push(c), most)
            == text::digits_value(digits, most),
        text::digits_value(digits, most) matches Ok(value) ==> {
            let after = text::digits_value(digits.push(c), most);
            &&& !('0' <= c <= '9') ==> after == Err::<int, NumberError>(NumberError::InvalidDigit)
            &&& '0' <= c <= '9' && 10 * value + (c as int - '0' as int) > most ==> after == Err::<
                int,
                NumberError,
            >(NumberError::TooLarge)
            &&& '0' <= c <= '9' && 10 * value + (c as int - '0' as int) <= most ==> after == Ok::<
                int,
                NumberError,
            >(10 * value + (c as int - '0' as int))
        },
{
    assert(digits.push(c).drop_last() =~= digits);
    assert((seq!['+'] + digits).skip(1) =~= digits);
}

/// Trimming takes the spaces off both ends and nothing else: what is left begins and ends with
/// something else.
pub proof fn law_trimming_takes_spaces_off(words: Seq<char>)
    ensures
        ({
            let left = text::trimmed(words);
            &&& left.len() > 0 ==> !text::is_space(left[0]) && !text::is_space(left.last())
            &&& exists|front: int|
                #![trigger words.skip(front)]
                0 <= front <= words.len() - left.len() && words.subrange(
                    front,
                    front + left.len(),
                ) == left && (forall|i: int|
                    0 <= i < front ==> text::is_space(#[trigger] words[i])) && forall|i: int|
                    front + left.len() <= i < words.len() ==> text::is_space(#[trigger] words[i])
        }),
{
    lemma_leading(words);
    let front = text::leading_spaces(words) as int;
    let rest = words.skip(front);
    lemma_trim_end(rest);
    let left = text::trim_end(rest);
    assert(words.subrange(front, front + left.len()) =~= left);
    assert forall|i: int| front + left.len() <= i < words.len() implies text::is_space(
        #[trigger] words[i],
    ) by {
        assert(rest[i - front] == words[i]);
    }
    if left.len() > 0 {
        assert(left[0] == rest[0]);
        assert(rest[0] == words[front]);
    }
}

proof fn lemma_leading(words: Seq<char>)
    ensures
        text::leading_spaces(words) <= words.len(),
        forall|i: int|
            0 <= i < text::leading_spaces(words) ==> text::is_space(#[trigger] words[i]),
        text::leading_spaces(words) < words.len() ==> !text::is_space(
            words[text::leading_spaces(words) as int],
        ),
    decreases words.len(),
{
    if words.len() > 0 && text::is_space(words[0]) {
        let rest = words.skip(1);
        lemma_leading(rest);
        assert forall|i: int| 0 <= i < text::leading_spaces(words) implies text::is_space(
            #[trigger] words[i],
        ) by {
            if i > 0 {
                assert(rest[i - 1] == words[i]);
            }
        }
    }
}

proof fn lemma_trim_end(words: Seq<char>)
    ensures
        ({
            let left = text::trim_end(words);
            &&& left.len() <= words.len()
            &&& left == words.take(left.len() as int)
            &&& left.len() > 0 ==> !text::is_space(left.last())
            &&& forall|i: int| left.len() <= i < words.len() ==> text::is_space(#[trigger] words[i])
        }),
    decreases words.len(),
{
    if words.len() > 0 && text::is_space(words.last()) {
        let init = words.drop_last();
        lemma_trim_end(init);
        let left = text::trim_end(words);
        assert(left =~= words.take(left.len() as int));
        assert forall|i: int| left.len() <= i < words.len() implies text::is_space(
            #[trigger] words[i],
        ) by {
            if i < init.len() {
                assert(init[i] == words[i]);
            }
        }
    } else {
        assert(words.take(words.len() as int) =~= words);
    }
}

/// Spaces are the blank characters: of the common ones the space, the tab and the line breaks, and no
/// letter, digit or mark.
pub proof fn law_spaces_are_blank(c: char)
    ensures
        text::is_space(' ') && text::is_space('\t') && text::is_space('\n') && text::is_space('\r'),
        '!' <= c <= '~' ==> !text::is_space(c),
        (c as int) < 128 && text::is_space(c) ==> c == ' ' || 9 <= c as int <= 13,
        text::is_space(c) && c as int >= 128 ==> c as int == 0x85 || c as int == 0xa0 || c as int
            == 0x1680 || 0x2000 <= c as int <= 0x200a || c as int == 0x2028 || c as int == 0x2029
            || c as int == 0x202f || c as int == 0x205f || c as int == 0x3000,
{
}

/// Lower case changes capital letters alone, to their small ones, and letter by letter.
pub proof fn law_capitals_become_small(c: char, words: Seq<char>, at: int)
    requires
        0 <= at < words.len(),
    ensures
        'A' <= c <= 'Z' ==> 'a' <= text::lower(c) <= 'z' && text::lower(c) as int - c as int
            == 'a' as int - 'A' as int,
        !('A' <= c <= 'Z') ==> text::lower(c) == c,
        text::lower_case(words).len() == words.len(),
        text::lower_case(words)[at] == text::lower(words[at]),
{
}

// Numerals.

/// A digit, and where they may stand a point, belong to an amount; it ends before anything else.
pub proof fn law_amounts_end_before_other_characters(
    amount: Seq<char>,
    rest: Seq<char>,
    dots: bool,
)
    requires
        forall|i: int|
            0 <= i < amount.len() ==> '0' <= #[trigger] amount[i] <= '9' || dots && amount[i]
                == '.',
        rest.len() > 0 ==> !('0' <= rest[0] <= '9') && !(dots && rest[0] == '.'),
    ensures
        numeral::amount_len(amount + rest, dots) == amount.len(),
    decreases amount.len(),
{
    let whole = amount + rest;
    if amount.len() > 0 {
        assert(whole[0] == amount[0]);
        let tail = amount.skip(1);
        assert forall|i: int| 0 <= i < tail.len() implies '0' <= #[trigger] tail[i] <= '9' || dots
            && tail[i] == '.' by {
            assert(tail[i] == amount[i + 1]);
        }
        law_amounts_end_before_other_characters(tail, rest, dots);
        assert(whole.skip(1) =~= tail + rest);
    } else if rest.len() > 0 {
        assert(whole[0] == rest[0]);
    }
}

/// An amount is what stands before its point and what stands behind it: the digits of both, over so
/// many powers of ten as stand behind the point. Without a point it is a whole number.
pub proof fn law_amounts_are_split_at_their_point(whole: Seq<char>, fraction: Seq<char>)
    requires
        text::all_digits(whole),
        text::all_digits(fraction),
    ensures
        ({
            let amount = whole + seq!['.'] + fraction;
            &&& numeral::whole_part(amount) == whole
            &&& numeral::fraction_part(amount) == fraction
            &&& numeral::amount_number(amount) == double::nearest(
                text::place_value(whole + fraction) as nat,
                decimal::tens(fraction.len()),
            )
            &&& numeral::amount_fault(amount) is None <==> whole.len() + fraction.len() > 0
            &&& numeral::amount_number(whole) == double::nearest(
                text::place_value(whole) as nat,
                1,
            )
            &&& numeral::amount_fault(whole) is None <==> whole.len() > 0
            &&& numeral::amount_fault(Seq::empty()) == Some(
                "cannot parse float from empty string"@,
            )
            &&& numeral::amount_fault(seq!['.']) == Some("invalid float literal"@)
        }),
{
    let amount = whole + seq!['.'] + fraction;
    assert(amount =~= whole + (seq!['.'] + fraction));
    lemma_point(whole, seq!['.'] + fraction);
    assert(amount.take(whole.len() as int) =~= whole);
    assert(amount.skip(whole.len() as int + 1) =~= fraction);
    lemma_point(whole, Seq::empty());
    assert(whole + Seq::<char>::empty() =~= whole);
    assert(whole.take(whole.len() as int) =~= whole);
    assert(!fraction.contains('.')) by {
        if fraction.contains('.') {
            let k = fraction.index_of('.');
            assert(text::digit_value(fraction[k]) is Some);
        }
    }
    assert(!Seq::<char>::empty().contains('.'));
    if whole.len() + fraction.len() == 0 {
        assert(amount =~= seq!['.']);
    } else {
        assert(amount.len() > 1);
        assert(amount != seq!['.']);
    }
    if whole.len() > 0 {
        assert(text::digit_value(whole[0]) is Some);
        assert(whole != seq!['.']) by {
            if whole == seq!['.'] {
                assert(whole[0] == '.');
            }
        }
    } else {
        assert(whole =~= Seq::empty());
    }
    assert(decimal::tens(0) == 1);
    assert(seq!['.'][0] == '.');
}

proof fn lemma_point(front: Seq<char>, rest: Seq<char>)
    requires
        text::all_digits(front),
        rest.len() > 0 ==> rest[0] == '.',
    ensures
        numeral::point(front + rest) == front.len(),
    decreases front.len(),
{
    let all = front + rest;
    if front.len() > 0 {
        assert(all[0] == front[0]);
        assert(text::digit_value(front[0]) is Some);
        let tail = front.skip(1);
        assert forall|i: int| 0 <= i < tail.len() implies text::digit_value(
            #[trigger] tail[i],
        ) is Some by {
            assert(tail[i] == front[i + 1]);
        }
        lemma_point(tail, rest);
        assert(all.skip(1) =~= tail + rest);
    } else if rest.len() > 0 {
        assert(all[0] == rest[0]);
    }
}

/// A second point makes an amount invalid.
pub proof fn law_amounts_have_one_point(
    whole: Seq<char>,
    fraction: Seq<char>,
    at: int,
)
    requires
        text::all_digits(whole),
        0 <= at < fraction.len(),
        fraction[at] == '.',
    ensures
        numeral::amount_fault(whole + seq!['.'] + fraction) == Some("invalid float literal"@),
{
    let amount = whole + seq!['.'] + fraction;
    assert(amount =~= whole + (seq!['.'] + fraction));
    lemma_point(whole, seq!['.'] + fraction);
    assert(amount.skip(whole.len() as int + 1) =~= fraction);
    assert(fraction.contains(fraction[at]));
}

/// A sign stands in front and belongs to the number: minus makes it negative, plus does not.
pub proof fn law_signs_stand_in_front(body: Seq<char>)
    ensures
        numeral::negative(seq!['-'] + body),
        !numeral::negative(seq!['+'] + body),
        numeral::unsigned(seq!['-'] + body) == body,
        numeral::unsigned(seq!['+'] + body) == body,
        body.len() > 0 && body[0] != '-' ==> !numeral::negative(body),
        body.len() > 0 && body[0] != '-' && body[0] != '+' ==> numeral::unsigned(body) == body,
{
    assert((seq!['-'] + body).skip(1) =~= body);
    assert((seq!['+'] + body).skip(1) =~= body);
}

/// What is no number of its own lies outside; what is no numeral is malformed; and a numeral lies
/// within where it does not round to more than the most, nor to less than zero.
pub proof fn law_numerals_stand_within_or_outside(words: Seq<char>, most: nat)
    ensures
        ({
            let body = numeral::unsigned(words);
            let low = text::lower_case(body);
            let unbounded = low == "inf"@ || low == "infinity"@ || low == "nan"@;
            let standing = numeral::standing(words, most);
            &&& unbounded ==> standing == Standing::Outside
            &&& !unbounded && !numeral::is_numeral(body) ==> standing == Standing::Malformed
            &&& !unbounded && numeral::is_numeral(body) && numeral::lies_within(words, most)
                ==> standing == Standing::Within
            &&& !unbounded && numeral::is_numeral(body) && !numeral::lies_within(words, most)
                ==> standing == Standing::Outside
        }),
{
}

/// An exponent stands behind its mark, with or without a sign, and moves the point by so many places:
/// `d.de+n` is the digits times ten to the power of `n` less the digits behind the point.
pub proof fn law_exponents_move_the_point(whole: Seq<char>, fraction: Seq<char>, power: Seq<char>)
    requires
        text::all_digits(whole),
        text::all_digits(fraction),
        text::all_digits(power),
        power.len() > 0,
    ensures
        ({
            let amount = whole + seq!['.'] + fraction;
            let up = amount + seq!['e'] + power;
            let down = amount + seq!['e'] + (seq!['-'] + power);
            &&& numeral::digits_of(amount) == text::place_value(whole + fraction) as nat
            &&& numeral::digits_of(up) == numeral::digits_of(amount)
            &&& numeral::digits_of(down) == numeral::digits_of(amount)
            &&& numeral::scale_of(amount) == -fraction.len()
            &&& numeral::scale_of(up) == text::place_value(power) - fraction.len()
            &&& numeral::scale_of(down) == -text::place_value(power) - fraction.len()
        }),
{
    let amount = whole + seq!['.'] + fraction;
    law_amounts_are_split_at_their_point(whole, fraction);
    assert forall|i: int| 0 <= i < amount.len() implies #[trigger] amount[i] != 'e' && amount[i]
        != 'E' by {
        if i < whole.len() {
            assert(amount[i] == whole[i]);
            assert(text::digit_value(whole[i]) is Some);
        } else if i > whole.len() {
            assert(amount[i] == fraction[i - whole.len() - 1]);
            assert(text::digit_value(fraction[i - whole.len() - 1]) is Some);
        }
    }
    lemma_mark(amount, Seq::empty());
    assert(amount + Seq::<char>::empty() =~= amount);
    assert(amount.take(amount.len() as int) =~= amount);
    assert(text::place_value(Seq::empty()) == 0);
    let signed = seq!['-'] + power;
    law_signs_stand_in_front(power);
    assert(text::digit_value(power[0]) is Some);
    lemma_exponent(amount, power);
    lemma_exponent(amount, signed);
}

proof fn lemma_exponent(amount: Seq<char>, power: Seq<char>)
    requires
        forall|i: int| 0 <= i < amount.len() ==> #[trigger] amount[i] != 'e' && amount[i] != 'E',
    ensures
        ({
            let body = amount + seq!['e'] + power;
            &&& numeral::amount_of(body) == amount
            &&& numeral::exponent_text(body) == power
        }),
{
    let body = amount + seq!['e'] + power;
    assert(body =~= amount + (seq!['e'] + power));
    lemma_mark(amount, seq!['e'] + power);
    assert(body.take(amount.len() as int) =~= amount);
    assert(body.skip(amount.len() as int + 1) =~= power);
}

proof fn lemma_mark(front: Seq<char>, rest: Seq<char>)
    requires
        forall|i: int| 0 <= i < front.len() ==> #[trigger] front[i] != 'e' && front[i] != 'E',
        rest.len() > 0 ==> rest[0] == 'e' || rest[0] == 'E',
    ensures
        numeral::exponent_mark(front + rest) == front.len(),
    decreases front.len(),
{
    let all = front + rest;
    if front.len() > 0 {
        assert(all[0] == front[0]);
        let tail = front.skip(1);
        assert forall|i: int| 0 <= i < tail.len() implies #[trigger] tail[i] != 'e' && tail[i]
            != 'E' by {
            assert(tail[i] == front[i + 1]);
        }
        lemma_mark(tail, rest);
        assert(all.skip(1) =~= tail + rest);
    } else if rest.len() > 0 {
        assert(all[0] == rest[0]);
    }
}

/// A number rounds to no more than the most exactly where its nearest double does; a negative one
/// only where it rounds to zero.
pub proof fn law_shares_are_rounded_before_they_are_judged(digits: nat, places: nat, most: nat)
    ensures
        numeral::rounds_within(false, digits, -(places as int), most) <==> double::nearest(
            digits,
            decimal::tens(places),
        ).le(double::nearest(most, 1)),
        numeral::rounds_within(false, digits, places as int, most) <==> double::nearest(
            digits * decimal::tens(places),
            1,
        ).le(double::nearest(most, 1)),
        numeral::rounds_within(true, 0, -(places as int), most),
        digits > 0 ==> !numeral::rounds_within(true, digits, places as int, most),
{
    assert(decimal::tens(0) == 1);
    lemma_tens(places);
    if places == 0 {
        assert(digits * 1 == digits);
    }
    assert(digits * 1 == digits);
    vstd::arithmetic::power2::lemma_pow2_pos(1_075);
    assert(0 * 1 * vstd::arithmetic::power2::pow2(1_075) == 0) by (nonlinear_arith);
    assert(0 * numeral::tens_up(-(places as int)) * vstd::arithmetic::power2::pow2(1_075) == 0)
        by (nonlinear_arith);
    if digits > 0 {
        let up = numeral::tens_up(places as int);
        let far = vstd::arithmetic::power2::pow2(1_075);
        vstd::arithmetic::power2::lemma_pow2_strictly_increases(0, 1_075);
        vstd::arithmetic::power2::lemma2_to64();
        assert(digits * up * far > 1) by (nonlinear_arith)
            requires
                digits >= 1,
                up >= 1,
                far > 1,
        ;
    }
}

proof fn lemma_tens(places: nat)
    ensures
        decimal::tens(places) >= 1,
    decreases places,
{
    if places > 0 {
        lemma_tens((places - 1) as nat);
    }
}

} // verus!
