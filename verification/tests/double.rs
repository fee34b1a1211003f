//! Numbers of 53 bits round as the machine's own do.

use std::time::Duration;

use strata::bench::config::Config;
use strata::bench::lifetimes::{checked_retention, jittered_retention};
use strata::bench::options::{check_fraction, check_percent, parse_duration};
use strata::bench::random::SplitMix64;
use strata::decimal::{nearest_ratio, Big};
use strata::double::{Double, LEAST};

/// The machine's number, bit for bit.
fn machine(x: Double) -> f64 {
    let mut value = x.significand as f64;
    for _ in 0..x.exponent.unsigned_abs() {
        value = if x.exponent < 0 { value / 2.0 } else { value * 2.0 };
    }
    value
}

fn reference(value: &str) -> Result<u128, String> {
    let value = value.trim();
    let split_at =
        value.find(|c: char| !(c.is_ascii_digit() || c == '.')).unwrap_or(value.len());
    let amount = value[..split_at]
        .parse::<f64>()
        .map_err(|error| format!("invalid duration '{value}': {error}"))?;
    if !amount.is_finite() || amount < 0.0 {
        return Err(format!("duration must be finite and non-negative, got '{value}'"));
    }
    let multiplier = match value[split_at..].trim().to_ascii_lowercase().as_str() {
        "" | "s" | "sec" | "secs" => 1.0,
        "ms" => 0.001,
        "m" | "min" | "mins" => 60.0,
        "h" | "hr" | "hrs" => 3_600.0,
        "d" | "day" | "days" => 86_400.0,
        suffix => {
            return Err(format!("unsupported duration suffix '{suffix}' in '{value}'"));
        }
    };
    Duration::try_from_secs_f64(amount * multiplier)
        .map(|span| span.as_nanos())
        .map_err(|error| format!("invalid duration '{value}': {error}"))
}

#[test]
fn durations_are_read_as_the_machine_reads_them() {
    for value in [
        "0.1ms",
        "1.0005ms",
        "0.000000001",
        "0.0000000005",
        "0.0000000015",
        "0.0000000025s",
        "0.00000000049999999999999999999999999999999",
        "12345678.123456789",
        "4503599627370497.5",
        "9007199254740993",
        "18446744073709551615",
        "18446744073709551616",
        "18446744073709550592.000000001s",
        "213503982334601.29d",
        "213503982334601.3d",
        "1.7976931348623157",
        "5.",
        ".5h",
        "0.29m",
        "1.1h",
        "2.3 days",
        "",
        ".",
        "1..2",
        "7 weeks",
        "-1s",
    ] {
        assert_eq!(parse_duration(value), reference(value), "{value}");
    }
    let huge = "9".repeat(400);
    assert_eq!(parse_duration(&huge), reference(&huge));
    assert!(parse_duration(&huge).unwrap_err().starts_with("duration must be finite"));
    let tiny = format!("0.{}1", "0".repeat(400));
    assert_eq!(parse_duration(&tiny), Ok(0));
    assert_eq!(reference(&tiny), Ok(0));
    let mut rng = SplitMix64::new(7);
    for _ in 0..2_000 {
        let whole = rng.next_u64() >> (rng.next_u64() % 64);
        let fraction = rng.next_u64() >> (rng.next_u64() % 64);
        let unit = ["", "ms", "s", "m", "h", "d"][(rng.next_u64() % 6) as usize];
        let value = format!("{whole}.{fraction}{unit}");
        assert_eq!(parse_duration(&value), reference(&value), "{value}");
    }
}

#[test]
fn jitter_is_computed_as_the_machine_computes_it() {
    let args = ["--engine", "strata", "--root", "/tmp/x"].map(str::to_owned).to_vec();
    let mut config = Config::parse(&args).unwrap();
    let mut rng = SplitMix64::new(11);
    for _ in 0..2_000 {
        config.retention = u128::from(rng.next_u64() >> (rng.next_u64() % 60));
        config.retention_jitter_percent = 1 + rng.next_u64() % 130;
        config.lifetime_seed = rng.next_u64();
        let id = rng.next_u64() % 100;
        let mut draws = SplitMix64::new(
            config.lifetime_seed.wrapping_add(id.wrapping_mul(0x9e37_79b9_7f4a_7c15)),
        );
        let unit = (draws.next_u64() >> 11) as f64 / (1u64 << 53) as f64 * 2.0 - 1.0;
        let factor = 1.0 + unit * config.retention_jitter_percent as f64 / 100.0;
        let retention = Duration::from_nanos(config.retention as u64);
        let expected = retention.mul_f64(factor.max(0.0)).as_nanos();
        assert_eq!(jittered_retention(&config, id), expected);
        assert_eq!(checked_retention(&config, id), Some(expected));
    }
    // Longer than any span, for a draw of the upper half.
    config.retention = u128::from(u64::MAX) * 1_000_000_000;
    config.retention_jitter_percent = 100;
    assert!((0..50).any(|id| checked_retention(&config, id).is_none()));
    assert!((0..50).any(|id| checked_retention(&config, id).is_some()));
}

#[test]
fn arithmetic_rounds_as_the_machine_does() {
    let mut rng = SplitMix64::new(3);
    for _ in 0..2_000 {
        let a = rng.next_u64() >> (rng.next_u64() % 64);
        let b = (rng.next_u64() >> (rng.next_u64() % 64)) | 1;
        let (x, y) = (Double::of_int(a), Double::of_int(b));
        assert_eq!(machine(x), a as f64);
        assert_eq!(machine(x.times(y)), a as f64 * b as f64);
        assert_eq!(machine(x.over(y)), a as f64 / b as f64);
        assert_eq!(machine(x.plus(y)), a as f64 + b as f64);
        assert_eq!(x.at_most(y), a as f64 <= b as f64);
        let small = x.over(Double::of_int(1 << 62));
        assert_eq!(machine(y.plus(small)), b as f64 + a as f64 / (1u64 << 62) as f64);
        if x.at_most(y) {
            assert_eq!(machine(y.minus(x)), b as f64 - a as f64);
            assert_eq!(machine(y.minus(small)), b as f64 - a as f64 / (1u64 << 62) as f64);
        }
        let span = u128::from(a) * 1_000_000_007;
        assert_eq!(
            machine(Double::of_nanos(span)),
            Duration::new((span / 1_000_000_000) as u64, (span % 1_000_000_000) as u32)
                .as_secs_f64()
        );
    }
    for _ in 0..2_000 {
        let count = rng.next_u64() >> (rng.next_u64() % 64);
        assert_eq!(Double::share(count, 99), (count as f64 * 0.99).ceil() as u64, "{count}");
        assert_eq!(Double::share(count, 50), (count as f64 * 0.50).ceil() as u64, "{count}");
    }
    assert_eq!(Double::share(u64::MAX, 100), u64::MAX);
    assert_eq!(Double::share(100, 99), 99);
    assert_eq!(Double::share(101, 99), 100);
    // Ties go to the even significand.
    assert_eq!(Double::of_int((1 << 53) + 1).significand, LEAST);
    assert_eq!(Double::of_int((1 << 53) + 3).significand, LEAST + 2);
    assert_eq!(Double::zero(), Double::of_int(0));
}

#[test]
fn decimals_of_any_length_are_read() {
    let digits: Vec<char> = "3141592653589793238462643383279502884197".chars().collect();
    let pi = nearest_ratio(Big::of_digits(&digits), Big::power_of_ten(39));
    assert_eq!(machine(pi), std::f64::consts::PI);
    assert_eq!(nearest_ratio(Big::small(0), Big::power_of_ten(5)), Double::zero());
    let five = Big::small(5);
    assert!(five.minus(&Big::small(6)).is_none());
    assert!(Big::small(4).less(&five));
    assert!(!five.less(&Big::small(5)));
    assert_eq!(
        nearest_ratio(five.times(3, 1), Big::small(1)),
        Double::of_int(16)
    );
}

fn percent_by_machine(value: &str) -> Result<(), String> {
    let parsed = value
        .parse::<f64>()
        .map_err(|error| format!("invalid percentage '{value}': {error}"))?;
    if !parsed.is_finite() || !(0.0..=100.0).contains(&parsed) {
        return Err(format!("percentage must be between 0 and 100, got '{value}'"));
    }
    Ok(())
}

fn fraction_by_machine(value: &str) -> Result<(), String> {
    let parsed = value
        .parse::<f64>()
        .map_err(|error| format!("invalid fraction '{value}': {error}"))?;
    if !parsed.is_finite() || !(0.0..=1.0).contains(&parsed) {
        return Err(format!("fraction must be between 0 and 1, got '{value}'"));
    }
    Ok(())
}

fn shares_agree(value: &str) {
    assert_eq!(check_percent(value), percent_by_machine(value), "{value}");
    assert_eq!(check_fraction(value), fraction_by_machine(value), "{value}");
}

#[test]
fn shares_are_read_as_the_machine_reads_them() {
    for value in [
        "", "0", "-0", "+0", "-0.0", "0e999999999999999999999999999999999", "1", "1.0", "100",
        "100.0", "100.", ".5", "5.", ".", "-", "+", "+-1", "--1", "e5", "1e", "1e+", "1e-", "1e+2",
        "1E2", "1E3", "1e-2", "-1e-2", "inf", "-inf", "+Infinity", "INFINITY", "infinit", "nan",
        "-NaN", "nano", "abc", "50%", " 50", "50 ", "1_0", "0x10", "1.2.3", "1e5.0", "1.5e+01",
        "0.00001e7", "10000e-2", "10001e-2", "99.99999999999999999999", "1.00000000000000001",
        "1.0000000000000002", "1.00000000000000011102230246251565404236316680908203125",
        "1.00000000000000011102230246251565404236316680908203126",
        "100.00000000000000710542735760100185871124267578125",
        "100.000000000000007105427357601001858711242675781250000000001",
        "100.00000000000001", "1e-400", "-1e-400", "-1e-323", "-2.4703282292062327e-324",
        "-2.4703282292062328e-324", "-2.5e-324", "-2.4e-324", "-5e-324", "-1e-321", "-1e-320",
        "-1e-432", "-0.0000001e-430", "-1000000000000e-440", "1e99999999999999999999999999",
        "-1e99999999999999999999999999", "1e-99999999999999999999999999",
        "-1e-99999999999999999999999999", "1000e-1", "1000e-3", "1001e-3", "0.1e1", "0.11e1",
        "3", "2e1", "9e1", "11e1", "1e1", "1e2", "0.001e5", "0.0011e5", "é", "1é",
    ] {
        shares_agree(value);
    }
}

#[test]
fn long_shares_are_read_as_the_machine_reads_them() {
    let zeros = "0".repeat(500);
    let nines = "9".repeat(400);
    for value in [
        format!("0.{zeros}1"),
        format!("-0.{zeros}1"),
        format!("-0.{zeros}1e200"),
        format!("0.{zeros}1e503"),
        format!("0.{zeros}1e504"),
        format!("{zeros}100"),
        format!("1{zeros}e-500"),
        format!("1{zeros}e-498"),
        format!("1{zeros}e-497"),
        format!("-1{zeros}e-823"),
        format!("-1{zeros}e-824"),
        format!("-1{zeros}e-825"),
        format!("0.{nines}"),
        format!("99.{nines}"),
        format!("100.{zeros}1"),
        format!("1.{zeros}1"),
        nines,
    ] {
        shares_agree(&value);
    }
    let mut random = SplitMix64::new(7);
    for _ in 0..2_000 {
        let digits = random.next_u64() % 1_000_000_000;
        let exponent = random.next_u64() % 24;
        let sign = ["", "+", "-"][(random.next_u64() % 3) as usize];
        shares_agree(&format!("{sign}{}.{digits}e-{exponent}", digits / 1_000));
        shares_agree(&format!("{sign}{digits}e-{exponent}"));
        shares_agree(&format!("-{digits}e-{}", 318 + exponent));
    }
}
