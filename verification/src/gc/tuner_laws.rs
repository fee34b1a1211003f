//! What a tuning decision promises, over the signals and the limits themselves.

use vstd::prelude::*;

use super::tuner;
use super::tuner::{
    GcConcurrencyConfig, GcConcurrencyState, GcTunerHealth, GcTuningMode, TunedSignal,
};

verus! {

/// Twice the largest factor that latencies are scaled by; below this nothing is cut off.
pub open spec fn is_measurable(nanos: u128) -> bool {
    nanos * 20_000 <= u128::MAX
}

/// The signal of a state: sync latency, else write-queue latency, else what is given.
pub open spec fn signal_or(state: GcConcurrencyState, otherwise: u128) -> u128 {
    if state.sync_latency_nanos.ewma_nanos is Some {
        state.sync_latency_nanos.ewma_nanos->Some_0
    } else if state.write_queue_send_nanos.ewma_nanos is Some {
        state.write_queue_send_nanos.ewma_nanos->Some_0
    } else {
        otherwise
    }
}

/// `after` is `before` with one worker less, where there is more than one, with the byte budget
/// halved down to its floor, and otherwise with a new mode and a fresh window.
pub open spec fn is_one_step_lower(
    before: GcConcurrencyState,
    after: GcConcurrencyState,
    config: GcConcurrencyConfig,
) -> bool {
    &&& before.active_limit > 1 ==> after.active_limit == before.active_limit - 1
    &&& before.active_limit <= 1 ==> after.active_limit == before.active_limit
    &&& is_budget_lowered(before.active_io_bytes_per_sec, after.active_io_bytes_per_sec, config)
    &&& is_otherwise_kept(before, after)
}

/// `after` is `before` with one worker more, up to the most, and the byte budget doubled up to its
/// ceiling.
pub open spec fn is_one_step_higher(
    before: GcConcurrencyState,
    after: GcConcurrencyState,
    config: GcConcurrencyConfig,
) -> bool {
    &&& before.active_limit < config.max_workers ==> after.active_limit == before.active_limit + 1
    &&& before.active_limit >= config.max_workers ==> after.active_limit == before.active_limit
    &&& is_budget_raised(before.active_io_bytes_per_sec, after.active_io_bytes_per_sec, config)
    &&& is_otherwise_kept(before, after)
}

pub open spec fn is_budget_lowered(before: u64, after: u64, config: GcConcurrencyConfig) -> bool {
    let floor = config.min_io_bytes_per_sec;
    &&& before <= floor ==> after == before
    &&& before > floor ==> floor <= after < before
    &&& before > floor && before * 5_000 <= u64::MAX && before as int / 2 >= floor ==> after
        == before as int / 2
    &&& before > floor && before * 5_000 <= u64::MAX && (before as int / 2) < floor ==> after
        == floor
}

pub open spec fn is_budget_raised(before: u64, after: u64, config: GcConcurrencyConfig) -> bool {
    let ceiling = config.max_io_bytes_per_sec;
    &&& before >= ceiling ==> after == before
    &&& before < ceiling ==> before < after <= ceiling
    &&& 0 < before < ceiling && before * 20_000 <= u64::MAX && 2 * before <= ceiling ==> after == 2
        * before
    &&& 0 < before < ceiling && before * 20_000 <= u64::MAX && 2 * before > ceiling ==> after
        == ceiling
    &&& before == 0 && 0 < ceiling ==> after == 1
}

/// Both limits stay.
pub open spec fn are_limits_kept(before: GcConcurrencyState, after: GcConcurrencyState) -> bool {
    &&& after.active_limit == before.active_limit
    &&& after.active_io_bytes_per_sec == before.active_io_bytes_per_sec
    &&& is_otherwise_kept(before, after)
}

/// All but the limits and the mode stays, and the window's pressure is forgotten.
pub open spec fn is_otherwise_kept(before: GcConcurrencyState, after: GcConcurrencyState) -> bool {
    &&& after.in_flight == before.in_flight
    &&& after.cycles_since_tune == before.cycles_since_tune
    &&& after.sync_latency_nanos == before.sync_latency_nanos
    &&& after.write_queue_send_nanos == before.write_queue_send_nanos
    &&& after.seal_backpressure_current == before.seal_backpressure_current
    &&& !after.pressure_observed_during_gc
}

/// Backing off goes on only while it helps: where pressure overlapped GC, a limit can still go down
/// and the signal is more than a twentieth below the previous one, the limits go one step down and
/// the new signal is what the next one is held against. In every other case both limits stay and
/// probing starts again.
pub proof fn law_backing_off_goes_on_while_the_signal_falls(
    state: GcConcurrencyState,
    config: GcConcurrencyConfig,
    previous: u128,
)
    requires
        state.mode == (GcTuningMode::BackingOff { previous_signal_nanos: previous }),
        is_measurable(previous),
        is_measurable(signal_or(state, previous)),
    ensures
        ({
            let after = state.tuned(config);
            let signal = signal_or(state, previous);
            let goes_on = {
                &&& state.pressured(config)
                &&& state.pressure_observed_during_gc
                &&& state.active_limit > 1 || state.active_io_bytes_per_sec
                    > config.min_io_bytes_per_sec
                &&& 20 * signal < 19 * previous
            };
            &&& goes_on ==> after.mode == (GcTuningMode::BackingOff {
                previous_signal_nanos: signal,
            }) && is_one_step_lower(state, after, config)
            &&& !goes_on ==> after.mode == GcTuningMode::Probing && are_limits_kept(state, after)
        }),
{
    tuner::law_budget_steps_make_progress(config, state.active_io_bytes_per_sec);
}

/// While backing off, a signal that did not fall never lowers a limit, however large it is.
pub proof fn law_a_signal_that_did_not_fall_lowers_nothing(
    state: GcConcurrencyState,
    config: GcConcurrencyConfig,
    previous: u128,
)
    requires
        state.mode == (GcTuningMode::BackingOff { previous_signal_nanos: previous }),
        signal_or(state, previous) >= previous,
    ensures
        state.tuned(config).mode == GcTuningMode::Probing,
        are_limits_kept(state, state.tuned(config)),
{
    let signal = signal_or(state, previous);
    assert(signal * 10_000 >= previous * 9_500) by (nonlinear_arith)
        requires
            signal >= previous,
    ;
}

/// Probing goes one step up after a healthy window, stands still on pressure that GC had no part in,
/// and goes one step down on pressure that overlapped GC, from where it backs off.
pub proof fn law_probing_follows_the_pressure(
    state: GcConcurrencyState,
    config: GcConcurrencyConfig,
)
    requires
        state.mode == GcTuningMode::Probing,
    ensures
        ({
            let after = state.tuned(config);
            let pressured = state.pressured(config);
            let attributed = pressured && state.pressure_observed_during_gc;
            &&& attributed ==> after.mode == (GcTuningMode::BackingOff {
                previous_signal_nanos: signal_or(state, 0),
            }) && is_one_step_lower(state, after, config)
            &&& pressured && !attributed ==> after.mode == GcTuningMode::Probing
                && are_limits_kept(state, after)
            &&& !pressured ==> after.mode == GcTuningMode::Probing && is_one_step_higher(
                state,
                after,
                config,
            )
        }),
{
    tuner::law_budget_steps_make_progress(config, state.active_io_bytes_per_sec);
}

/// What is reported of a decision: which limit moved, a cooldown where one did, and else whether
/// the foreground is under pressure.
pub proof fn law_outcomes_tell_what_moved(state: GcConcurrencyState, config: GcConcurrencyConfig)
    ensures
        ({
            let after = state.tuned(config);
            let outcome = state.tuning_outcome(config);
            &&& outcome.workers_changed <==> after.active_limit != state.active_limit
            &&& outcome.io_budget_changed <==> after.active_io_bytes_per_sec
                != state.active_io_bytes_per_sec
            &&& outcome.health == GcTunerHealth::Cooldown <==> outcome.workers_changed
                || outcome.io_budget_changed
            &&& outcome.health == GcTunerHealth::Pressured <==> !outcome.workers_changed
                && !outcome.io_budget_changed && state.pressured(config)
        }),
{
}

/// The budget steps, also where scaling a budget does not fit: a step down then leaves the
/// ten-thousandth part of what fits, and a step up one byte more, within the bounds.
pub proof fn law_huge_budgets_are_cut_off(config: GcConcurrencyConfig, budget: u64)
    ensures
        is_budget_lowered(budget, config.io_lowered(budget), config),
        is_budget_raised(budget, config.io_raised(budget), config),
        ({
            let part: int = 1_844_674_407_370_955;
            &&& budget > config.min_io_bytes_per_sec && budget * 5_000 > u64::MAX
                && config.min_io_bytes_per_sec <= part ==> config.io_lowered(budget) == part
            &&& budget > config.min_io_bytes_per_sec && budget * 5_000 > u64::MAX
                && config.min_io_bytes_per_sec > part ==> config.io_lowered(budget)
                == config.min_io_bytes_per_sec
            &&& part <= budget < config.max_io_bytes_per_sec ==> config.io_raised(budget) == budget
                + 1
            &&& budget < part <= config.max_io_bytes_per_sec && budget * 20_000 > u64::MAX
                ==> config.io_raised(budget) == part
        }),
{
}

/// The health gauge tells the three states apart.
pub proof fn law_health_is_told_apart()
    ensures
        GcTunerHealth::Healthy.spec_metric_value() == 0,
        GcTunerHealth::Pressured.spec_metric_value() == 1,
        GcTunerHealth::Cooldown.spec_metric_value() == 2,
{
}

// Signals.

/// The foreground is under pressure where seals hold writes back, where syncs are slow by the
/// configured threshold, or where enqueueing is slow by ten milliseconds.
pub proof fn law_any_signal_is_pressure(state: GcConcurrencyState, config: GcConcurrencyConfig)
    ensures
        state.seal_backpressure_current ==> state.pressured(config),
        state.sync_latency_nanos.is_degraded(config.sync_impact_threshold) ==> state.pressured(
            config,
        ),
        state.write_queue_send_nanos.is_degraded(10_000_000) ==> state.pressured(config),
        state.pressured(config) ==> state.seal_backpressure_current
            || state.sync_latency_nanos.is_degraded(config.sync_impact_threshold)
            || state.write_queue_send_nanos.is_degraded(10_000_000),
{
}

/// A signal is degraded where it is above the threshold and either above twice the threshold or more
/// than a quarter above its baseline. Without a sample it never is.
pub proof fn law_degraded_means_slow_and_slower_than_usual(signal: TunedSignal, threshold: u128)
    requires
        signal.ewma_nanos matches Some(current) ==> is_measurable(current),
        signal.baseline_ewma_nanos matches Some(baseline) ==> is_measurable(baseline),
        is_measurable(threshold),
    ensures
        signal.ewma_nanos is None ==> !signal.is_degraded(threshold),
        signal.ewma_nanos matches Some(current) ==> {
            &&& current <= threshold ==> !signal.is_degraded(threshold)
            &&& current > 2 * threshold ==> signal.is_degraded(threshold)
            &&& threshold < current <= 2 * threshold ==> match signal.baseline_ewma_nanos {
                Some(baseline) => signal.is_degraded(threshold) <==> 4 * current > 5 * baseline,
                None => !signal.is_degraded(threshold),
            }
        },
{
}

/// A first sample is the average; a later one moves it by an eighth of the difference.
pub proof fn law_averages_move_by_an_eighth(signal: TunedSignal, sample: u128)
    requires
        signal.ewma_nanos matches Some(current) ==> is_measurable(current),
        is_measurable(sample),
    ensures
        signal.after(sample).ewma_nanos matches Some(average) && match signal.ewma_nanos {
            None => average == sample,
            Some(current) => 8 * average <= 7 * current + sample < 8 * average + 8,
        },
        ({
            let average = signal.after(sample).ewma_nanos->Some_0;
            signal.after(sample).baseline_ewma_nanos matches Some(now)
                && match signal.baseline_ewma_nanos {
                None => now == average,
                Some(baseline) => now == tuner::baseline_after(baseline, average),
            }
        }),
{
}

/// A baseline drops to a better signal at once. Towards a worse one it moves by a sixty-fourth of
/// the difference, by one at least, and never beyond it.
pub proof fn law_baselines_rise_by_a_sixty_fourth(baseline: u128, current: u128)
    requires
        is_measurable(baseline),
        is_measurable(current),
    ensures
        ({
            let now = tuner::baseline_after(baseline, current);
            &&& current <= baseline ==> now == current
            &&& baseline < current < baseline + 64 ==> now == baseline + 1
            &&& current >= baseline + 64 ==> 64 * now <= 63 * baseline + current < 64 * now + 64
        }),
{
}

/// A flush below one MiB counts as it is, one nanosecond at least; a larger one counts per MiB.
pub proof fn law_large_flushes_count_per_mib(elapsed: u128, bytes: u64)
    requires
        elapsed * 1_048_576 <= u128::MAX,
    ensures
        ({
            let sample = tuner::sync_sample(elapsed, bytes);
            &&& bytes < 1_048_576 && elapsed > 0 ==> sample == elapsed
            &&& bytes < 1_048_576 && elapsed == 0 ==> sample == 1
            &&& bytes >= 1_048_576 && elapsed > 0 ==> sample == (elapsed * 1_048_576)
                / bytes as int
            &&& bytes >= 1_048_576 && elapsed == 0 ==> sample == 1_048_576int / bytes as int
        }),
{
}

// Windows.

/// A window is as long as configured while probing and half as long while backing off, and never
/// empty.
pub proof fn law_backing_off_halves_the_window(cycles: u64, previous: u128)
    ensures
        cycles > 0 ==> tuner::window_of(cycles, GcTuningMode::Probing) == cycles,
        tuner::window_of(0, GcTuningMode::Probing) == 1,
        ({
            let backing_off = tuner::window_of(
                cycles,
                GcTuningMode::BackingOff { previous_signal_nanos: previous },
            );
            &&& cycles >= 2 ==> backing_off == cycles as int / 2
            &&& cycles < 2 ==> backing_off == 1
        }),
{
}

/// An attempt that ends gives its slot back and counts towards the window; the window closes with
/// the attempt that fills it.
pub proof fn law_finished_attempts_fill_the_window(
    state: GcConcurrencyState,
    config: GcConcurrencyConfig,
)
    requires
        state.cycles_since_tune < u64::MAX,
    ensures
        ({
            let finished = state.run_finished();
            &&& state.in_flight > 0 ==> finished.in_flight == state.in_flight - 1
            &&& state.in_flight == 0 ==> finished.in_flight == 0
            &&& finished.cycles_since_tune == state.cycles_since_tune + 1
            &&& finished.active_limit == state.active_limit
            &&& finished.active_io_bytes_per_sec == state.active_io_bytes_per_sec
            &&& finished.mode == state.mode
            &&& finished.pressure_observed_during_gc == state.pressure_observed_during_gc
            &&& finished.sync_latency_nanos == state.sync_latency_nanos
            &&& finished.write_queue_send_nanos == state.write_queue_send_nanos
            &&& finished.seal_backpressure_current == state.seal_backpressure_current
            &&& state.window_closed(config) <==> state.cycles_since_tune + 1 >= tuner::window_of(
                config.tuning_window_cycles,
                state.mode,
            )
        }),
{
}

/// Pressure is remembered exactly where an attempt runs while it is seen; nothing else changes, and
/// what was remembered stays.
pub proof fn law_overlap_is_remembered(state: GcConcurrencyState, config: GcConcurrencyConfig)
    ensures
        ({
            let after = state.overlap_recorded(config);
            &&& state.pressure_observed_during_gc ==> after == state
            &&& !state.pressure_observed_during_gc ==> (after.pressure_observed_during_gc
                <==> state.in_flight > 0 && state.pressured(config))
            &&& after == (GcConcurrencyState {
                pressure_observed_during_gc: after.pressure_observed_during_gc,
                ..state
            })
        }),
{
}

} // verus!
