//! Text: comparing, taking apart, and writing numbers.

use vstd::prelude::*;
use vstd::string::{StrSliceExecFns, StringExecFns};

verus! {

/// Whether two texts are the same.
pub fn same(a: &str, b: &str) -> (result: bool)
    ensures
        result == (a@ == b@),
{
    a.to_owned() == b.to_owned()
}

/// The characters of a text.
pub fn letters(text: &str) -> (result: Vec<char>)
    ensures
        result@ == text@,
{
    let len: usize = text.unicode_len();
    let mut result: Vec<char> = Vec::new();
    let mut i: usize = 0;
    while i < len
        invariant
            i <= len,
            len == text@.len(),
            result@ == text@.take(i as int),
        decreases len - i,
    {
        result.push(text.get_char(i));
        i = i + 1;
        assert(result@ =~= text@.take(i as int));
    }
    assert(text@.take(i as int) =~= text@);
    result
}

/// The text between two places.
pub fn part(text: &str, from: usize, to: usize) -> (result: String)
    requires
        from <= to <= text@.len(),
    ensures
        result@ == text@.subrange(from as int, to as int),
{
    text.substring_char(from, to).to_owned()
}

/// One text behind another.
pub fn joined(a: &str, b: &str) -> (result: String)
    ensures
        result@ == a@ + b@,
{
    let mut result: String = a.to_owned();
    result.append(b);
    result
}

/// Three texts behind one another.
pub fn joined3(a: &str, b: &str, c: &str) -> (result: String)
    ensures
        result@ == a@ + b@ + c@,
{
    let mut result: String = joined(a, b);
    result.append(c);
    result
}

/// The digit that stands for `value`.
pub open spec fn digit(value: int) -> char {
    if value == 0 {
        '0'
    } else if value == 1 {
        '1'
    } else if value == 2 {
        '2'
    } else if value == 3 {
        '3'
    } else if value == 4 {
        '4'
    } else if value == 5 {
        '5'
    } else if value == 6 {
        '6'
    } else if value == 7 {
        '7'
    } else if value == 8 {
        '8'
    } else {
        '9'
    }
}

/// A number in decimal, without leading zeros.
pub open spec fn decimal(value: int) -> Seq<char>
    decreases value,
{
    if value < 10 {
        seq![digit(value)]
    } else {
        decimal(value / 10) + seq![digit(value % 10)]
    }
}

fn digit_text(value: u8) -> (result: &'static str)
    requires
        value < 10,
    ensures
        result@ == seq![digit(value as int)],
{
    let digits: &'static str = "0123456789";
    proof {
        reveal_strlit("0123456789");
    }
    let result: &'static str = digits.substring_char(value as usize, value as usize + 1);
    assert(result@ =~= seq![digit(value as int)]);
    result
}

/// A number in decimal.
pub fn decimal_text(value: u64) -> (result: String)
    ensures
        result@ == decimal(value as int),
    decreases value,
{
    if value < 10 {
        digit_text(value as u8).to_owned()
    } else {
        let mut result: String = decimal_text(value / 10);
        result.append(digit_text((value % 10) as u8));
        result
    }
}

/// The number that a digit stands for.
pub open spec fn digit_value(c: char) -> Option<int> {
    if '0' <= c <= '9' {
        Some(c as int - '0' as int)
    } else {
        None
    }
}

/// The number that a digit stands for.
pub fn value_of_digit(c: char) -> (value: Option<u8>)
    ensures
        match value {
            Some(value) => value < 10 && digit_value(c) == Some(value as int),
            None => digit_value(c) is None,
        },
{
    if c >= '0' && c <= '9' {
        Some((c as u32 - '0' as u32) as u8)
    } else {
        None
    }
}

/// Why a text is no number.
#[derive(Clone, Copy, Debug, PartialEq, Eq, Structural)]
pub enum NumberError {
    Empty,
    InvalidDigit,
    TooLarge,
}

impl NumberError {
    pub open spec fn words(self) -> Seq<char> {
        match self {
            NumberError::Empty => "cannot parse integer from empty string"@,
            NumberError::InvalidDigit => "invalid digit found in string"@,
            NumberError::TooLarge => "number too large to fit in target type"@,
        }
    }

    pub fn text(&self) -> (words: &'static str)
        ensures
            words@ == self.words(),
    {
        match self {
            NumberError::Empty => "cannot parse integer from empty string",
            NumberError::InvalidDigit => "invalid digit found in string",
            NumberError::TooLarge => "number too large to fit in target type",
        }
    }
}

/// What a run of digits stands for, read from the left: the first character that is no digit, or
/// that makes the number exceed `most`, ends the reading.
pub open spec fn digits_value(digits: Seq<char>, most: int) -> Result<int, NumberError>
    decreases digits.len(),
{
    if digits.len() == 0 {
        Ok(0)
    } else {
        match digits_value(digits.drop_last(), most) {
            Err(error) => Err(error),
            Ok(value) => match digit_value(digits.last()) {
                None => Err(NumberError::InvalidDigit),
                Some(digit) => if value * 10 + digit > most {
                    Err(NumberError::TooLarge)
                } else {
                    Ok(value * 10 + digit)
                },
            },
        }
    }
}

/// What an unsigned number's text stands for: digits, with or without a plus sign.
pub open spec fn number(text: Seq<char>, most: int) -> Result<int, NumberError> {
    if text.len() == 0 {
        Err(NumberError::Empty)
    } else if text[0] == '+' {
        if text.len() == 1 {
            Err(NumberError::InvalidDigit)
        } else {
            digits_value(text.skip(1), most)
        }
    } else {
        digits_value(text, most)
    }
}

proof fn lemma_digits_error_sticks(digits: Seq<char>, most: int, upto: int)
    requires
        0 <= upto <= digits.len(),
        digits_value(digits.take(upto), most) is Err,
    ensures
        digits_value(digits, most) == digits_value(digits.take(upto), most),
    decreases digits.len() - upto,
{
    if upto < digits.len() {
        assert(digits.take(upto + 1).drop_last() =~= digits.take(upto));
        lemma_digits_error_sticks(digits, most, upto + 1);
    } else {
        assert(digits.take(upto) =~= digits);
    }
}

/// What the digits between two places stand for.
pub fn parse_digits(text: &Vec<char>, from: usize, to: usize, most: u128) -> (value: Result<
    u128,
    NumberError,
>)
    requires
        from <= to <= text@.len(),
    ensures
        match value {
            Ok(value) => digits_value(text@.subrange(from as int, to as int), most as int) == Ok::<
                int,
                NumberError,
            >(value as int),
            Err(error) => digits_value(text@.subrange(from as int, to as int), most as int)
                == Err::<int, NumberError>(error),
        },
{
    let ghost digits = text@.subrange(from as int, to as int);
    let mut value: u128 = 0;
    let mut i: usize = from;
    assert(digits.take(0) =~= Seq::<char>::empty());
    while i < to
        invariant
            from <= i <= to <= text@.len(),
            digits == text@.subrange(from as int, to as int),
            digits_value(digits.take(i - from), most as int) == Ok::<int, NumberError>(
                value as int,
            ),
        decreases to - i,
    {
        assert(digits[i - from] == text@[i as int]);
        assert(digits.take(i - from + 1).drop_last() =~= digits.take(i - from));
        assert(digits.take(i - from + 1).last() == text@[i as int]);
        let digit: u8 = match value_of_digit(text[i]) {
            Some(digit) => digit,
            None => {
                proof {
                    lemma_digits_error_sticks(digits, most as int, i - from + 1);
                }
                return Err(NumberError::InvalidDigit);
            },
        };
        let next: Option<u128> = match value.checked_mul(10) {
            Some(tens) => tens.checked_add(digit as u128),
            None => None,
        };
        match next {
            Some(next) => {
                if next > most {
                    proof {
                        lemma_digits_error_sticks(digits, most as int, i - from + 1);
                    }
                    return Err(NumberError::TooLarge);
                }
                value = next;
            },
            None => {
                proof {
                    lemma_digits_error_sticks(digits, most as int, i - from + 1);
                }
                return Err(NumberError::TooLarge);
            },
        }
        i = i + 1;
    }
    assert(digits.take(i - from) =~= digits);
    Ok(value)
}

/// The number that a text stands for.
pub fn parse_number(text: &str, most: u64) -> (value: Result<u64, NumberError>)
    ensures
        match value {
            Ok(value) => number(text@, most as int) == Ok::<int, NumberError>(value as int) && value
                <= most,
            Err(error) => number(text@, most as int) == Err::<int, NumberError>(error),
        },
{
    let chars: Vec<char> = letters(text);
    if chars.len() == 0 {
        return Err(NumberError::Empty);
    }
    let from: usize = if chars[0] == '+' {
        if chars.len() == 1 {
            return Err(NumberError::InvalidDigit);
        }
        1
    } else {
        0
    };
    assert(chars@.subrange(from as int, chars@.len() as int) =~= (if from == 1 {
        text@.skip(1)
    } else {
        text@
    }));
    proof {
        lemma_digits_bounded(chars@.subrange(from as int, chars@.len() as int), most as int);
    }
    match parse_digits(&chars, from, chars.len(), most as u128) {
        Ok(value) => Ok(value as u64),
        Err(error) => Err(error),
    }
}

/// What a run of digits stands for, however large.
pub open spec fn place_value(digits: Seq<char>) -> int
    decreases digits.len(),
{
    if digits.len() == 0 {
        0
    } else {
        place_value(digits.drop_last()) * 10 + (match digit_value(digits.last()) {
            Some(digit) => digit,
            None => 0,
        })
    }
}

/// Whether every character is a digit.
pub open spec fn all_digits(text: Seq<char>) -> bool {
    forall|i: int| 0 <= i < text.len() ==> digit_value(#[trigger] text[i]) is Some
}

pub proof fn lemma_digits_value(digits: Seq<char>, most: int)
    requires
        most >= 0,
        all_digits(digits),
    ensures
        place_value(digits) >= 0,
        digits_value(digits, most) == (if place_value(digits) <= most {
            Ok::<int, NumberError>(place_value(digits))
        } else {
            Err(NumberError::TooLarge)
        }),
    decreases digits.len(),
{
    if digits.len() > 0 {
        lemma_digits_value(digits.drop_last(), most);
        assert(digit_value(digits.last()) is Some);
        assert(digit_value(digits.last())->0 >= 0);
    }
}

pub proof fn lemma_digits_bounded(digits: Seq<char>, most: int)
    requires
        most >= 0,
    ensures
        digits_value(digits, most) matches Ok(value) ==> 0 <= value <= most,
    decreases digits.len(),
{
    if digits.len() > 0 {
        lemma_digits_bounded(digits.drop_last(), most);
    }
}

// Blanks and cases.

/// Whether a character is white space.
pub open spec fn is_space(c: char) -> bool {
    let code = c as int;
    ||| 9 <= code <= 13
    ||| code == 32
    ||| code == 0x85
    ||| code == 0xa0
    ||| code == 0x1680
    ||| 0x2000 <= code <= 0x200a
    ||| code == 0x2028
    ||| code == 0x2029
    ||| code == 0x202f
    ||| code == 0x205f
    ||| code == 0x3000
}

fn is_blank(c: char) -> (result: bool)
    ensures
        result == is_space(c),
{
    let code: u32 = c as u32;
    (9 <= code && code <= 13) || code == 32 || code == 0x85 || code == 0xa0 || code == 0x1680 || (
    0x2000 <= code && code <= 0x200a) || code == 0x2028 || code == 0x2029 || code == 0x202f || code
        == 0x205f || code == 0x3000
}

/// How many leading characters are white space.
pub open spec fn leading_spaces(text: Seq<char>) -> nat
    decreases text.len(),
{
    if text.len() == 0 || !is_space(text[0]) {
        0
    } else {
        1 + leading_spaces(text.skip(1))
    }
}

/// The text without white space behind it.
pub open spec fn trim_end(text: Seq<char>) -> Seq<char>
    decreases text.len(),
{
    if text.len() == 0 || !is_space(text.last()) {
        text
    } else {
        trim_end(text.drop_last())
    }
}

/// The text without white space around it.
pub open spec fn trimmed(text: Seq<char>) -> Seq<char> {
    trim_end(text.skip(leading_spaces(text) as int))
}

/// The text without white space around it.
pub fn trim(text: &str) -> (result: String)
    ensures
        result@ == trimmed(text@),
{
    let chars: Vec<char> = letters(text);
    let mut from: usize = 0;
    assert(chars@.skip(0) =~= chars@);
    while from < chars.len() && is_blank(chars[from])
        invariant
            from <= chars@.len(),
            leading_spaces(chars@) == from + leading_spaces(chars@.skip(from as int)),
        decreases chars@.len() - from,
    {
        assert(chars@.skip(from as int).skip(1) =~= chars@.skip(from + 1));
        assert(chars@.skip(from as int)[0] == chars@[from as int]);
        from = from + 1;
    }
    proof {
        if from < chars@.len() {
            assert(chars@.skip(from as int)[0] == chars@[from as int]);
        }
        assert(leading_spaces(chars@) == from);
    }
    let ghost rest = chars@.skip(from as int);
    let mut to: usize = chars.len();
    assert(rest.take(to - from) =~= rest);
    while to > from && is_blank(chars[to - 1])
        invariant
            from <= to <= chars@.len(),
            rest == chars@.skip(from as int),
            trim_end(rest) == trim_end(rest.take(to - from)),
        decreases to - from,
    {
        let ghost now = rest.take(to - from);
        assert(now.last() == chars@[to - 1]);
        assert(now.drop_last() =~= rest.take(to - 1 - from));
        to = to - 1;
    }
    proof {
        let now = rest.take(to - from);
        if now.len() > 0 {
            assert(now.last() == chars@[to - 1]);
        }
        assert(now =~= chars@.subrange(from as int, to as int));
    }
    part(text, from, to)
}

/// The lower case of an ASCII letter; any other character as it is.
pub open spec fn lower(c: char) -> char {
    if 'A' <= c <= 'Z' {
        (c as int + 32) as char
    } else {
        c
    }
}

/// The text with ASCII letters in lower case.
pub open spec fn lower_case(text: Seq<char>) -> Seq<char> {
    text.map_values(|c: char| lower(c))
}

/// The text with ASCII letters in lower case.
pub fn to_lower_case(text: &str) -> (result: String)
    ensures
        result@ == lower_case(text@),
{
    let alphabet: &'static str = "abcdefghijklmnopqrstuvwxyz";
    proof {
        reveal_strlit("abcdefghijklmnopqrstuvwxyz");
    }
    let len: usize = text.unicode_len();
    let mut result: String = String::new();
    let mut i: usize = 0;
    while i < len
        invariant
            i <= len,
            len == text@.len(),
            alphabet@.len() == 26,
            forall|k: int|
                0 <= k < 26 ==> #[trigger] alphabet@[k] as int == 'a' as int + k,
            result@ == lower_case(text@.take(i as int)),
        decreases len - i,
    {
        let c: char = text.get_char(i);
        let ghost before = result@;
        if c >= 'A' && c <= 'Z' {
            let at: usize = (c as u32 - 'A' as u32) as usize;
            result.append(alphabet.substring_char(at, at + 1));
            assert(result@ =~= before.push(alphabet@[at as int]));
            assert(alphabet@[at as int] as int == lower(c) as int);
        } else {
            result.append(text.substring_char(i, i + 1));
            assert(result@ =~= before.push(c));
        }
        i = i + 1;
        assert(lower_case(text@.take(i as int)) =~= lower_case(text@.take(i - 1)).push(lower(c)));
    }
    assert(text@.take(i as int) =~= text@);
    result
}

// Laws.

proof fn lemma_digit_round_trip(value: int)
    requires
        0 <= value < 10,
    ensures
        digit_value(digit(value)) == Some(value),
{
}

/// Writing a number and reading it back gives the number.
pub proof fn law_decimal_round_trip(value: int, most: int)
    requires
        0 <= value <= most,
    ensures
        digits_value(decimal(value), most) == Ok::<int, NumberError>(value),
        number(decimal(value), most) == Ok::<int, NumberError>(value),
    decreases value,
{
    let all = decimal(value);
    if value < 10 {
        lemma_digit_round_trip(value);
        assert(all.drop_last() =~= Seq::<char>::empty());
        assert(digits_value(all.drop_last(), most) == Ok::<int, NumberError>(0));
        assert(all.last() == digit(value));
    } else {
        law_decimal_round_trip(value / 10, most);
        lemma_digit_round_trip(value % 10);
        assert(all.drop_last() =~= decimal(value / 10));
        assert(all.last() == digit(value % 10));
    }
    lemma_decimal_starts_with_digit(value);
}

proof fn lemma_decimal_starts_with_digit(value: int)
    requires
        value >= 0,
    ensures
        decimal(value).len() > 0,
        digit_value(decimal(value)[0]) is Some,
    decreases value,
{
    if value < 10 {
        lemma_digit_round_trip(value);
    } else {
        lemma_decimal_starts_with_digit(value / 10);
        assert(decimal(value)[0] == decimal(value / 10)[0]);
    }
}

} // verus!
