//! The token bucket of background GC. Times are in nanoseconds.

use strata::gc::rate_limiter::{
    duration_for_scaled_bytes, scaled_bytes, GcIoLimiter, GcIoLimiterState, GcIoReservation,
};

const MILLIS: u128 = 1_000_000;
const START: u128 = 1_000_000_000_000;

fn wait_millis(millis: u64) -> GcIoReservation {
    GcIoReservation::Wait(millis * 1_000_000)
}

#[test]
fn reserve_consumes_initial_burst_without_waiting() {
    let now = START;
    let mut state = GcIoLimiterState::new(100, 100, now);

    assert_eq!(state.reserve(now, 40), GcIoReservation::Acquired);
    assert_eq!(state.reserve(now, 60), GcIoReservation::Acquired);
    assert_eq!(state.reserve(now, 1), wait_millis(10));
}

#[test]
fn reserve_refills_with_elapsed_time() {
    let now = START;
    let mut state = GcIoLimiterState::new(100, 100, now);

    assert_eq!(state.reserve(now, 100), GcIoReservation::Acquired);
    assert_eq!(state.reserve(now + 250 * MILLIS, 25), GcIoReservation::Acquired);
    assert_eq!(state.reserve(now + 250 * MILLIS, 1), wait_millis(10));
}

#[test]
fn reserve_caps_refill_at_burst() {
    let now = START;
    let mut state = GcIoLimiterState::new(100, 50, now);

    assert_eq!(state.reserve(now + 10_000 * MILLIS, 50), GcIoReservation::Acquired);
    assert_eq!(state.reserve(now + 10_000 * MILLIS, 1), wait_millis(10));
}

#[test]
fn rate_decrease_clamps_available_tokens_and_future_waits() {
    let now = START;
    let mut state = GcIoLimiterState::new(100, 100, now);

    state.set_bytes_per_sec(now, 20);

    assert_eq!(state.reserve(now, 20), GcIoReservation::Acquired);
    assert_eq!(state.reserve(now, 1), wait_millis(50));
}

#[test]
fn rate_increase_uses_new_budget_for_future_refill() {
    let now = START;
    let mut state = GcIoLimiterState::new(100, 100, now);

    assert_eq!(state.reserve(now, 100), GcIoReservation::Acquired);
    state.set_bytes_per_sec(now, 200);

    assert_eq!(state.reserve(now + 250 * MILLIS, 50), GcIoReservation::Acquired);
    assert_eq!(state.reserve(now + 250 * MILLIS, 1), wait_millis(5));
}

#[test]
fn an_earlier_time_refills_nothing() {
    let mut state = GcIoLimiterState::new(100, 100, START);
    assert_eq!(state.reserve(START, 100), GcIoReservation::Acquired);
    assert_eq!(state.reserve(START - 500 * MILLIS, 1), wait_millis(10));
    assert_eq!(state.last_refill, START);
}

#[test]
fn waiting_as_long_as_told_is_enough() {
    let mut state = GcIoLimiterState::new(3, 10, START);
    assert_eq!(state.reserve(START, 10), GcIoReservation::Acquired);
    let GcIoReservation::Wait(nanos) = state.reserve(START, 1) else {
        panic!("the bucket is empty");
    };
    assert_eq!(nanos, 333_333_334);
    assert_eq!(state.reserve(START + nanos as u128, 1), GcIoReservation::Acquired);
}

#[test]
fn tokens_are_billionths_of_a_byte() {
    assert_eq!(scaled_bytes(7), 7_000_000_000);
    assert_eq!(duration_for_scaled_bytes(1, 3), 1);
    assert_eq!(duration_for_scaled_bytes(u128::MAX, 1), u64::MAX);
}

#[test]
fn requests_beyond_the_burst_are_taken_in_parts() {
    let mut limiter = GcIoLimiter::new(100, START);
    let step = limiter.acquire_step(START, 250);
    assert_eq!(step.remaining, 150);
    assert_eq!(step.wait, None);
    let step = limiter.acquire_step(START, step.remaining);
    assert_eq!(step.remaining, 150);
    assert!(step.wait.is_some());
}

#[test]
fn two_refills_are_one() {
    let start = GcIoLimiterState::new(1_000, 500, START);
    for (first, second) in [(10, 20), (0, 30), (450, 500), (700, 900), (30, 30)] {
        let mut twice = start;
        assert_eq!(twice.reserve(START, 500), GcIoReservation::Acquired);
        let mut once = twice;
        twice.refill(START + first * MILLIS);
        twice.refill(START + second * MILLIS);
        once.refill(START + second * MILLIS);
        assert_eq!(twice, once);
        assert_eq!(once.available_scaled, (second * 1_000 * MILLIS).min(scaled_bytes(500)));
    }
}
