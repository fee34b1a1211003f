//! Values of command line options.

use vstd::prelude::*;

use crate::double;
use crate::double::{Double, Number};
use crate::numeral;
use crate::numeral::{
    amount_fault, amount_len, amount_number, lemma_amount, read_amount, split_amount, Standing,
};
use crate::text;
use crate::text::{joined, joined3, letters, part, same, to_lower_case, trim};

verus! {

/// A value is the one that is meant, or the message is.
pub open spec fn agrees<T>(result: Result<T, String>, meant: Result<T, Seq<char>>) -> bool {
    match (result, meant) {
        (Ok(value), Ok(other)) => value == other,
        (Err(message), Err(words)) => message@ == words,
        _ => false,
    }
}

/// `what 'value': why`
pub open spec fn complaint(what: Seq<char>, value: Seq<char>, why: Seq<char>) -> Seq<char> {
    what + value + "': "@ + why
}

fn complain(what: &str, value: &str, why: &str) -> (message: String)
    ensures
        message@ == complaint(what@, value@, why@),
{
    let open: String = joined3(what, value, "': ");
    joined(open.as_str(), why)
}

// Integers and switches.

/// What an integer's text stands for.
pub open spec fn integer(value: Seq<char>, most: int) -> Result<int, Seq<char>> {
    match text::number(value, most) {
        Ok(number) => Ok(number),
        Err(error) => Err(complaint("invalid integer '"@, value, error.words())),
    }
}

pub open spec fn spec_parse_u64(value: Seq<char>) -> Result<u64, Seq<char>> {
    match integer(value, u64::MAX as int) {
        Ok(number) => Ok(number as u64),
        Err(message) => Err(message),
    }
}

pub fn parse_u64(value: &str) -> (result: Result<u64, String>)
    ensures
        agrees(result, spec_parse_u64(value@)),
{
    match text::parse_number(value, u64::MAX) {
        Ok(number) => Ok(number),
        Err(error) => Err(complain("invalid integer '", value, error.text())),
    }
}

pub open spec fn spec_parse_nonzero_usize(value: Seq<char>) -> Result<usize, Seq<char>> {
    match integer(value, usize::MAX as int) {
        Ok(number) => if number == 0 {
            Err("value must be non-zero, got '"@ + value + "'"@)
        } else {
            Ok(number as usize)
        },
        Err(message) => Err(message),
    }
}

pub fn parse_nonzero_usize(value: &str) -> (result: Result<usize, String>)
    ensures
        agrees(result, spec_parse_nonzero_usize(value@)),
{
    match text::parse_number(value, usize::MAX as u64) {
        Ok(number) => {
            if number == 0 {
                return Err(joined3("value must be non-zero, got '", value, "'"));
            }
            Ok(number as usize)
        },
        Err(error) => Err(complain("invalid integer '", value, error.text())),
    }
}

pub open spec fn spec_parse_bool(value: Seq<char>) -> Result<bool, Seq<char>> {
    if value == "true"@ {
        Ok(true)
    } else if value == "false"@ {
        Ok(false)
    } else {
        Err("expected true or false, got '"@ + value + "'"@)
    }
}

pub fn parse_bool(value: &str) -> (result: Result<bool, String>)
    ensures
        agrees(result, spec_parse_bool(value@)),
{
    if same(value, "true") {
        Ok(true)
    } else if same(value, "false") {
        Ok(false)
    } else {
        Err(joined3("expected true or false, got '", value, "'"))
    }
}

// An amount and its unit.

/// The unit behind an amount: without blanks, in lower case.
pub open spec fn suffix_of(value: Seq<char>, dots: bool) -> Seq<char> {
    text::lower_case(text::trimmed(value.skip(amount_len(value, dots) as int)))
}

fn suffix(value: &str, at: usize) -> (result: String)
    requires
        at <= value@.len(),
    ensures
        result@ == text::lower_case(text::trimmed(value@.skip(at as int))),
{
    let len: usize = letters(value).len();
    let rest: String = part(value, at, len);
    assert(value@.subrange(at as int, len as int) =~= value@.skip(at as int));
    to_lower_case(trim(rest.as_str()).as_str())
}

// Sizes.

/// Bytes of a unit of size.
pub open spec fn size_unit(suffix: Seq<char>) -> Option<usize> {
    if suffix == ""@ || suffix == "b"@ {
        Some(1)
    } else if suffix == "k"@ || suffix == "kb"@ || suffix == "kib"@ {
        Some(1_024)
    } else if suffix == "m"@ || suffix == "mb"@ || suffix == "mib"@ {
        Some(1_048_576)
    } else if suffix == "g"@ || suffix == "gb"@ || suffix == "gib"@ {
        Some(1_073_741_824)
    } else {
        None
    }
}

fn unit_of_size(suffix: &str) -> (unit: Option<usize>)
    ensures
        unit == size_unit(suffix@),
{
    if same(suffix, "") || same(suffix, "b") {
        Some(1)
    } else if same(suffix, "k") || same(suffix, "kb") || same(suffix, "kib") {
        Some(1_024)
    } else if same(suffix, "m") || same(suffix, "mb") || same(suffix, "mib") {
        Some(1_048_576)
    } else if same(suffix, "g") || same(suffix, "gb") || same(suffix, "gib") {
        Some(1_073_741_824)
    } else {
        None
    }
}

/// The size that a trimmed text stands for: a whole number and a binary unit.
pub open spec fn size(value: Seq<char>) -> Result<usize, Seq<char>> {
    match text::number(value.take(amount_len(value, false) as int), usize::MAX as int) {
        Err(error) => Err(complaint("invalid size '"@, value, error.words())),
        Ok(number) => match size_unit(suffix_of(value, false)) {
            None => Err(
                "unsupported size suffix '"@ + suffix_of(value, false) + "' in '"@ + value + "'"@,
            ),
            Some(unit) => if number * unit > usize::MAX {
                Err("size '"@ + value + "' overflows usize"@)
            } else {
                Ok((number * unit) as usize)
            },
        },
    }
}

pub open spec fn spec_parse_size(value: Seq<char>) -> Result<usize, Seq<char>> {
    size(text::trimmed(value))
}

/// The number of bytes that a text stands for, as in `512MiB`.
pub fn parse_size(value: &str) -> (result: Result<usize, String>)
    ensures
        agrees(result, spec_parse_size(value@)),
{
    let value: String = trim(value);
    let chars: Vec<char> = letters(value.as_str());
    let at: usize = split_amount(&chars, false);
    let digits: String = part(value.as_str(), 0, at);
    assert(value@.subrange(0, at as int) =~= value@.take(at as int));
    let number: usize = match text::parse_number(digits.as_str(), usize::MAX as u64) {
        Ok(number) => number as usize,
        Err(error) => {
            return Err(complain("invalid size '", value.as_str(), error.text()));
        },
    };
    let suffix: String = suffix(value.as_str(), at);
    match unit_of_size(suffix.as_str()) {
        None => {
            let open: String = joined3("unsupported size suffix '", suffix.as_str(), "' in '");
            Err(joined3(open.as_str(), value.as_str(), "'"))
        },
        Some(unit) => match number.checked_mul(unit) {
            None => Err(joined3("size '", value.as_str(), "' overflows usize")),
            Some(bytes) => Ok(bytes),
        },
    }
}

// Spans of time.

/// A unit of time in seconds.
pub open spec fn duration_unit(suffix: Seq<char>) -> Option<Number> {
    if suffix == ""@ || suffix == "s"@ || suffix == "sec"@ || suffix == "secs"@ {
        Some(double::nearest(1, 1))
    } else if suffix == "ms"@ {
        Some(double::nearest(1, 1_000))
    } else if suffix == "m"@ || suffix == "min"@ || suffix == "mins"@ {
        Some(double::nearest(60, 1))
    } else if suffix == "h"@ || suffix == "hr"@ || suffix == "hrs"@ {
        Some(double::nearest(3_600, 1))
    } else if suffix == "d"@ || suffix == "day"@ || suffix == "days"@ {
        Some(double::nearest(86_400, 1))
    } else {
        None
    }
}

fn unit_of_duration(suffix: &str) -> (unit: Option<Double>)
    ensures
        match unit {
            Some(unit) => duration_unit(suffix@) == Some(unit@) && unit.tame(130),
            None => duration_unit(suffix@) is None,
        },
{
    if same(suffix, "") || same(suffix, "s") || same(suffix, "sec") || same(suffix, "secs") {
        Some(Double::of_ratio(1, 1))
    } else if same(suffix, "ms") {
        Some(Double::of_ratio(1, 1_000))
    } else if same(suffix, "m") || same(suffix, "min") || same(suffix, "mins") {
        Some(Double::of_ratio(60, 1))
    } else if same(suffix, "h") || same(suffix, "hr") || same(suffix, "hrs") {
        Some(Double::of_ratio(3_600, 1))
    } else if same(suffix, "d") || same(suffix, "day") || same(suffix, "days") {
        Some(Double::of_ratio(86_400, 1))
    } else {
        None
    }
}

/// The span of time that a trimmed text stands for: a decimal number and a unit. The number, and
/// its product with the unit, are rounded to 53 bits, and then to nanoseconds.
pub open spec fn duration(value: Seq<char>) -> Result<u128, Seq<char>> {
    let amount = value.take(amount_len(value, true) as int);
    match amount_fault(amount) {
        Some(why) => Err(complaint("invalid duration '"@, value, why)),
        None => if amount_number(amount).exponent >= double::UNBOUNDED {
            Err("duration must be finite and non-negative, got '"@ + value + "'"@)
        } else {
            match duration_unit(suffix_of(value, true)) {
                None => Err(
                    "unsupported duration suffix '"@ + suffix_of(value, true) + "' in '"@ + value
                        + "'"@,
                ),
                Some(unit) => match double::nanos_of(amount_number(amount).times(unit)) {
                    None => Err(complaint("invalid duration '"@, value, TOO_LONG@)),
                    Some(nanos) => Ok(nanos as u128),
                },
            }
        },
    }
}

pub const TOO_LONG: &'static str =
    "cannot convert float seconds to Duration: value is either too big or NaN";

pub open spec fn spec_parse_duration(value: Seq<char>) -> Result<u128, Seq<char>> {
    duration(text::trimmed(value))
}

/// The span of time that a text stands for, as in `1.5m`, in nanoseconds.
pub fn parse_duration(value: &str) -> (result: Result<u128, String>)
    ensures
        agrees(result, spec_parse_duration(value@)),
{
    let value: String = trim(value);
    let chars: Vec<char> = letters(value.as_str());
    let at: usize = split_amount(&chars, true);
    proof {
        lemma_amount(value@, true);
    }
    if at == 0 {
        return Err(
            complain(
                "invalid duration '",
                value.as_str(),
                "cannot parse float from empty string",
            ),
        );
    }
    let number: Double = match read_amount(&chars, at) {
        Some(amount) => amount.number(),
        None => {
            return Err(complain("invalid duration '", value.as_str(), "invalid float literal"));
        },
    };
    if number.exponent >= double::UNBOUNDED {
        return Err(
            joined3("duration must be finite and non-negative, got '", value.as_str(), "'"),
        );
    }
    let suffix: String = suffix(value.as_str(), at);
    let unit: Double = match unit_of_duration(suffix.as_str()) {
        Some(unit) => unit,
        None => {
            let open: String = joined3("unsupported duration suffix '", suffix.as_str(), "' in '");
            return Err(joined3(open.as_str(), value.as_str(), "'"));
        },
    };
    match number.times(unit).nanos() {
        Some(nanos) => Ok(nanos),
        None => Err(complain("invalid duration '", value.as_str(), TOO_LONG)),
    }
}

// Percentages and fractions.

/// Whether a text stands for a number between zero and `most`, or the message.
pub open spec fn share(
    value: Seq<char>,
    most: nat,
    malformed: Seq<char>,
    outside: Seq<char>,
) -> Result<(), Seq<char>> {
    match numeral::standing(value, most) {
        Standing::Within => Ok(()),
        Standing::Outside => Err(outside + value + "'"@),
        Standing::Malformed => Err(
            complaint(
                malformed,
                value,
                if value.len() == 0 {
                    "cannot parse float from empty string"@
                } else {
                    "invalid float literal"@
                },
            ),
        ),
    }
}

fn check_share(value: &str, most: u64, malformed: &str, outside: &str) -> (result: Result<
    (),
    String,
>)
    requires
        1 <= most <= 100,
    ensures
        agrees(result, share(value@, most as nat, malformed@, outside@)),
{
    match numeral::stands(value, most) {
        Standing::Within => Ok(()),
        Standing::Outside => Err(joined3(outside, value, "'")),
        Standing::Malformed => {
            let why: &'static str = if letters(value).len() == 0 {
                "cannot parse float from empty string"
            } else {
                "invalid float literal"
            };
            Err(complain(malformed, value, why))
        },
    }
}

pub open spec fn spec_check_percent(value: Seq<char>) -> Result<(), Seq<char>> {
    share(value, 100, "invalid percentage '"@, "percentage must be between 0 and 100, got '"@)
}

/// Checks that a text stands for a percentage: a number of floating point from 0 to 100.
pub fn check_percent(value: &str) -> (result: Result<(), String>)
    ensures
        agrees(result, spec_check_percent(value@)),
{
    check_share(value, 100, "invalid percentage '", "percentage must be between 0 and 100, got '")
}

pub open spec fn spec_check_fraction(value: Seq<char>) -> Result<(), Seq<char>> {
    share(value, 1, "invalid fraction '"@, "fraction must be between 0 and 1, got '"@)
}

/// Checks that a text stands for a fraction: a number of floating point from 0 to 1.
pub fn check_fraction(value: &str) -> (result: Result<(), String>)
    ensures
        agrees(result, spec_check_fraction(value@)),
{
    check_share(value, 1, "invalid fraction '", "fraction must be between 0 and 1, got '")
}

} // verus!
