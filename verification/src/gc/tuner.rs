//! Runtime admission control for background GC attempts.
//!
//! Workers ask for admission before they run. Foreground paths feed in sync latency, write-queue
//! latency and seal backpressure. The tuner probes for more concurrency while the foreground is
//! healthy, and backs off while pressure that overlapped GC is visible.

use vstd::prelude::*;

use crate::num;
use crate::num::{
    max_u128, max_u64, max_usize, min_u128, min_u64, min_usize, saturating_mul_u128,
    saturating_mul_u64,
};

verus! {

/// Relative EWMA increase that counts as foreground impact.
pub const GC_IMPACT_FACTOR_BPS: u128 = 12_500;

/// Absolute hard pressure multiplier over the configured latency threshold.
pub const GC_IMPACT_HARD_FACTOR_BPS: u128 = 20_000;

/// Old-baseline weight when adapting the foreground-latency baseline upward.
pub const GC_BASELINE_DECAY_OLD_WEIGHT: u128 = 63;

/// New-sample weight when adapting the foreground-latency baseline upward.
pub const GC_BASELINE_DECAY_NEW_WEIGHT: u128 = 1;

/// Total weight for upward baseline adaptation.
pub const GC_BASELINE_DECAY_WEIGHT_TOTAL: u128 = 64;

/// Relative EWMA decrease that counts as improvement during backoff.
pub const GC_IMPROVEMENT_FACTOR_BPS: u128 = 9_500;

/// Write-queue send latency, in nanoseconds, above which enqueueing itself is pressured.
pub const GC_WRITE_QUEUE_IMPACT_THRESHOLD: u128 = 10_000_000;

/// Basis points in one.
pub const GC_RATE_FACTOR_DENOMINATOR: u64 = 10_000;

/// Foreground pressure halves the byte budget until the configured floor.
pub const GC_RATE_DECREASE_FACTOR_BPS: u64 = 5_000;

/// Healthy windows double the byte budget until the configured ceiling.
pub const GC_RATE_INCREASE_FACTOR_BPS: u64 = 20_000;

/// One mebibyte.
pub const MIB: u64 = 1_048_576;

/// Tuning knobs.
///
/// The tuner never starts or stops worker threads; it only changes how many may run at once.
#[derive(Clone, Copy, Debug, PartialEq, Eq, Structural)]
pub struct GcConcurrencyConfig {
    /// Upper bound for simultaneously admitted GC workers.
    pub max_workers: usize,
    /// Initial admission limit.
    pub initial_workers: usize,
    /// Number of admitted GC attempts between normal tuning decisions.
    pub tuning_window_cycles: u64,
    /// Sync-latency floor, in nanoseconds, for considering foreground durability work impacted.
    pub sync_impact_threshold: u128,
    /// Healthy upper bound for store-wide GC disk I/O.
    pub max_io_bytes_per_sec: u64,
    /// Pressure lower bound for store-wide GC disk I/O.
    pub min_io_bytes_per_sec: u64,
}

/// What the tuner reports about foreground health.
#[derive(Clone, Copy, Debug, PartialEq, Eq, Structural)]
pub enum GcTunerHealth {
    /// No foreground pressure.
    Healthy,
    /// Foreground pressure.
    Pressured,
    /// The limits were just changed.
    Cooldown,
}

impl GcTunerHealth {
    pub open spec fn spec_metric_value(self) -> i64 {
        match self {
            GcTunerHealth::Healthy => 0,
            GcTunerHealth::Pressured => 1,
            GcTunerHealth::Cooldown => 2,
        }
    }

    /// The gauge value of this state.
    pub fn metric_value(self) -> (value: i64)
        ensures
            value == self.spec_metric_value(),
    {
        match self {
            GcTunerHealth::Healthy => 0,
            GcTunerHealth::Pressured => 1,
            GcTunerHealth::Cooldown => 2,
        }
    }
}

/// Tuner phase used to choose window length and next adjustment direction.
#[derive(Clone, Copy, Debug, PartialEq, Eq, Structural)]
pub enum GcTuningMode {
    /// Cautiously increase concurrency after healthy windows.
    Probing,
    /// Decrease concurrency while the pressure signal keeps improving after a prior decrease.
    BackingOff { previous_signal_nanos: u128 },
}

/// `a * b`, cut off at what 128 bits can hold.
pub open spec fn capped_product(a: u128, b: u128) -> u128 {
    num::at_most(a * b, u128::MAX as int) as u128
}

/// `a + b`, cut off at what 128 bits can hold.
pub open spec fn capped_sum(a: u128, b: u128) -> u128 {
    num::at_most(a + b, u128::MAX as int) as u128
}

/// The baseline after an observation: it drops at once when latency improves, and rises slowly
/// when the workload changes.
pub open spec fn baseline_after(baseline: u128, current: u128) -> u128 {
    if current <= baseline {
        current
    } else {
        let decayed = capped_sum(capped_product(baseline, GC_BASELINE_DECAY_OLD_WEIGHT), current)
            / GC_BASELINE_DECAY_WEIGHT_TOTAL;
        num::at_most(
            num::at_least(decayed as int, capped_sum(baseline, 1) as int),
            current as int,
        ) as u128
    }
}

/// Updates the latency baseline used by foreground-pressure detection.
///
/// A quiet store may learn a 50 ms sync baseline. If 120 ms syncs later become normal, an all-time
/// best would blame GC forever; this baseline moves towards 120 ms. A later jump from 120 ms to
/// 220 ms is still detected.
pub fn decayed_latency_baseline(baseline: u128, current: u128) -> (result: u128)
    ensures
        result == baseline_after(baseline, current),
{
    if current <= baseline {
        return current;
    }
    let decayed: u128 = saturating_mul_u128(baseline, GC_BASELINE_DECAY_OLD_WEIGHT).saturating_add(
        saturating_mul_u128(current, GC_BASELINE_DECAY_NEW_WEIGHT),
    ) / GC_BASELINE_DECAY_WEIGHT_TOTAL;
    min_u128(max_u128(decayed, baseline.saturating_add(1)), current)
}

/// One EWMA foreground-health signal and its recent-best latency baseline.
#[derive(Clone, Copy, Debug, PartialEq, Eq, Structural)]
pub struct TunedSignal {
    /// Current exponentially weighted moving average.
    pub ewma_nanos: Option<u128>,
    /// Decaying baseline used to decide whether the current EWMA is unexpectedly slow.
    pub baseline_ewma_nanos: Option<u128>,
}

impl TunedSignal {
    /// The average after a sample: seven parts old, one part new.
    pub open spec fn ewma_after(self, sample_nanos: u128) -> u128 {
        match self.ewma_nanos {
            Some(current) => capped_sum(capped_product(current, 7), sample_nanos) / 8,
            None => sample_nanos,
        }
    }

    pub open spec fn after(self, sample_nanos: u128) -> TunedSignal {
        let ewma = self.ewma_after(sample_nanos);
        TunedSignal {
            ewma_nanos: Some(ewma),
            baseline_ewma_nanos: Some(
                match self.baseline_ewma_nanos {
                    Some(baseline) => baseline_after(baseline, ewma),
                    None => ewma,
                },
            ),
        }
    }

    /// Above the floor, and either well above the baseline or far above the floor.
    pub open spec fn is_degraded(self, threshold_nanos: u128) -> bool {
        self.ewma_nanos matches Some(current) && current > threshold_nanos && ({
            ||| capped_product(current, 10_000) > capped_product(
                threshold_nanos,
                GC_IMPACT_HARD_FACTOR_BPS,
            )
            ||| self.baseline_ewma_nanos matches Some(baseline) && capped_product(current, 10_000)
                > capped_product(baseline, GC_IMPACT_FACTOR_BPS)
        })
    }

    /// A signal without samples.
    pub fn new() -> (signal: TunedSignal)
        ensures
            signal == (TunedSignal { ewma_nanos: None, baseline_ewma_nanos: None }),
    {
        TunedSignal { ewma_nanos: None, baseline_ewma_nanos: None }
    }

    /// Updates the EWMA with a new nanosecond sample.
    pub fn observe(&mut self, sample_nanos: u128)
        ensures
            *final(self) == old(self).after(sample_nanos),
    {
        let ewma: u128 = match self.ewma_nanos {
            Some(current) => saturating_mul_u128(current, 7).saturating_add(sample_nanos) / 8,
            None => sample_nanos,
        };
        let baseline: u128 = match self.baseline_ewma_nanos {
            Some(baseline) => decayed_latency_baseline(baseline, ewma),
            None => ewma,
        };
        self.ewma_nanos = Some(ewma);
        self.baseline_ewma_nanos = Some(baseline);
    }

    /// The current EWMA, if at least one sample has been observed.
    pub fn current(&self) -> (result: Option<u128>)
        ensures
            result == self.ewma_nanos,
    {
        self.ewma_nanos
    }

    /// Whether this signal is both above the floor and worse than usual.
    pub fn degraded(&self, threshold_nanos: u128) -> (result: bool)
        ensures
            result == self.is_degraded(threshold_nanos),
    {
        let current: u128 = match self.ewma_nanos {
            Some(current) => current,
            None => {
                return false;
            },
        };
        if current <= threshold_nanos {
            return false;
        }
        let scaled: u128 = saturating_mul_u128(current, 10_000);
        let hard: bool = scaled > saturating_mul_u128(threshold_nanos, GC_IMPACT_HARD_FACTOR_BPS);
        match self.baseline_ewma_nanos {
            None => hard,
            Some(baseline) => scaled > saturating_mul_u128(baseline, GC_IMPACT_FACTOR_BPS) || hard,
        }
    }
}

/// The latency sample of a foreground sync.
pub open spec fn sync_sample(elapsed_nanos: u128, bytes: u64) -> u128 {
    let elapsed = num::at_least(elapsed_nanos as int, 1) as u128;
    if bytes >= MIB {
        capped_product(elapsed, MIB as u128) / bytes as u128
    } else {
        elapsed
    }
}

/// The latency sample used for foreground sync impact detection.
///
/// Small flushes are kept as raw latency. Larger ones are normalized to latency per MiB, so the
/// tuner responds to unusually slow durability work, not merely to high foreground write volume.
pub fn sync_impact_sample_nanos(elapsed_nanos: u128, bytes: u64) -> (sample: u128)
    ensures
        sample == sync_sample(elapsed_nanos, bytes),
{
    let elapsed: u128 = max_u128(elapsed_nanos, 1);
    if bytes >= MIB {
        saturating_mul_u128(elapsed, MIB as u128) / bytes as u128
    } else {
        elapsed
    }
}

/// The number of completed GC attempts before the next tuning decision.
pub open spec fn window_of(normal_window: u64, mode: GcTuningMode) -> int {
    match mode {
        GcTuningMode::Probing => num::at_least(normal_window as int, 1),
        GcTuningMode::BackingOff { .. } => num::at_least(normal_window as int / 2, 1),
    }
}

/// Chooses the number of completed GC attempts required before the next tuning decision.
pub fn tuning_window_cycles(normal_window: u64, mode: GcTuningMode) -> (cycles: u64)
    ensures
        cycles == window_of(normal_window, mode),
{
    match mode {
        GcTuningMode::Probing => max_u64(normal_window, 1),
        GcTuningMode::BackingOff { .. } => max_u64(normal_window / 2, 1),
    }
}

/// Whether a signal fell by more than a twentieth.
pub open spec fn improved(current: u128, previous: u128) -> bool {
    previous != 0 && capped_product(current, 10_000) < capped_product(
        previous,
        GC_IMPROVEMENT_FACTOR_BPS,
    )
}

/// Whether the pressure signal improved materially.
pub fn signal_improved(current: u128, previous: u128) -> (result: bool)
    ensures
        result == improved(current, previous),
{
    if previous == 0 {
        return false;
    }
    saturating_mul_u128(current, 10_000) < saturating_mul_u128(previous, GC_IMPROVEMENT_FACTOR_BPS)
}

/// Admission and tuning state.
///
/// The worker limit bounds how many GC attempts run at once; the byte budget bounds how much disk
/// I/O they issue together. Both are needed, because one worker alone can issue enough sequential
/// copy I/O to affect foreground sync latency.
#[derive(Clone, Copy, Debug, PartialEq, Eq, Structural)]
pub struct GcConcurrencyState {
    /// Current maximum number of workers allowed to run at once.
    pub active_limit: usize,
    /// Current store-wide GC I/O byte budget.
    pub active_io_bytes_per_sec: u64,
    /// Number of workers admitted and not yet finished.
    pub in_flight: usize,
    /// Admitted attempts completed since the last tuning decision.
    pub cycles_since_tune: u64,
    /// Normalized foreground sync latency signal.
    pub sync_latency_nanos: TunedSignal,
    /// Write-queue enqueue latency signal.
    pub write_queue_send_nanos: TunedSignal,
    /// Whether foreground writes are currently stalled on seal backlog capacity.
    pub seal_backpressure_current: bool,
    /// Whether foreground pressure overlapped an admitted GC attempt in this window.
    pub pressure_observed_during_gc: bool,
    /// Current probe/backoff phase.
    pub mode: GcTuningMode,
}

/// What one tuning decision did.
#[derive(Clone, Copy, Debug, PartialEq, Eq, Structural)]
pub struct GcTuningOutcome {
    pub health: GcTunerHealth,
    pub workers_changed: bool,
    pub io_budget_changed: bool,
}

impl GcConcurrencyConfig {
    /// The budget one step up: twice as much, at least one byte more, at most the ceiling.
    pub open spec fn io_raised(self, current: u64) -> u64 {
        if current >= self.max_io_bytes_per_sec {
            current
        } else {
            num::at_most(
                num::at_least(
                    num::at_most(current * GC_RATE_INCREASE_FACTOR_BPS, u64::MAX as int)
                        / GC_RATE_FACTOR_DENOMINATOR as int,
                    current + 1,
                ),
                self.max_io_bytes_per_sec as int,
            ) as u64
        }
    }

    /// The budget one step down: half as much, at least one byte less, at least the floor.
    pub open spec fn io_lowered(self, current: u64) -> u64 {
        if current <= self.min_io_bytes_per_sec {
            current
        } else {
            num::at_most(
                num::at_least(
                    num::at_most(current * GC_RATE_DECREASE_FACTOR_BPS, u64::MAX as int)
                        / GC_RATE_FACTOR_DENOMINATOR as int,
                    self.min_io_bytes_per_sec as int,
                ),
                current - 1,
            ) as u64
        }
    }
}

impl GcConcurrencyState {
    /// Any foreground signal indicates user-visible pressure.
    pub open spec fn pressured(self, config: GcConcurrencyConfig) -> bool {
        ||| self.seal_backpressure_current
        ||| self.sync_latency_nanos.is_degraded(config.sync_impact_threshold)
        ||| self.write_queue_send_nanos.is_degraded(GC_WRITE_QUEUE_IMPACT_THRESHOLD)
    }

    /// Pressure that is seen while GC runs is remembered for the next decision.
    pub open spec fn overlap_recorded(self, config: GcConcurrencyConfig) -> GcConcurrencyState {
        GcConcurrencyState {
            pressure_observed_during_gc: self.pressure_observed_during_gc || (self.in_flight > 0
                && self.pressured(config)),
            ..self
        }
    }

    /// The signal that backoff compares: sync latency, or write-queue latency without it.
    pub open spec fn pressure_signal(self) -> Option<u128> {
        match self.sync_latency_nanos.ewma_nanos {
            Some(current) => Some(current),
            None => self.write_queue_send_nanos.ewma_nanos,
        }
    }

    /// One worker and one budget step more.
    pub open spec fn raised(self, config: GcConcurrencyConfig) -> GcConcurrencyState {
        GcConcurrencyState {
            active_limit: if self.active_limit >= config.max_workers {
                self.active_limit
            } else {
                (self.active_limit + 1) as usize
            },
            active_io_bytes_per_sec: config.io_raised(self.active_io_bytes_per_sec),
            ..self
        }
    }

    /// One worker and one budget step less.
    pub open spec fn lowered(self, config: GcConcurrencyConfig) -> GcConcurrencyState {
        GcConcurrencyState {
            active_limit: if self.active_limit <= 1 {
                self.active_limit
            } else {
                (self.active_limit - 1) as usize
            },
            active_io_bytes_per_sec: config.io_lowered(self.active_io_bytes_per_sec),
            ..self
        }
    }

    /// Whether either limit can still be lowered.
    pub open spec fn can_back_off(self, config: GcConcurrencyConfig) -> bool {
        self.active_limit > 1 || self.active_io_bytes_per_sec > config.min_io_bytes_per_sec
    }

    /// The state after a tuning decision.
    ///
    /// A healthy window probes one step up. A window with pressure during GC goes one step down
    /// and starts to back off. Backing off goes on only while the signal still improves.
    pub open spec fn tuned(self, config: GcConcurrencyConfig) -> GcConcurrencyState {
        let pressured = self.pressured(config);
        let attributed = pressured && self.pressure_observed_during_gc;
        let cleared = GcConcurrencyState { pressure_observed_during_gc: false, ..self };
        match self.mode {
            GcTuningMode::Probing => if attributed {
                GcConcurrencyState {
                    mode: GcTuningMode::BackingOff {
                        previous_signal_nanos: match self.pressure_signal() {
                            Some(signal) => signal,
                            None => 0,
                        },
                    },
                    ..cleared.lowered(config)
                }
            } else if pressured {
                cleared
            } else {
                cleared.raised(config)
            },
            GcTuningMode::BackingOff { previous_signal_nanos } => {
                let signal = match self.pressure_signal() {
                    Some(signal) => signal,
                    None => previous_signal_nanos,
                };
                if attributed && self.can_back_off(config) && improved(
                    signal,
                    previous_signal_nanos,
                ) {
                    GcConcurrencyState {
                        mode: GcTuningMode::BackingOff { previous_signal_nanos: signal },
                        ..cleared.lowered(config)
                    }
                } else {
                    GcConcurrencyState { mode: GcTuningMode::Probing, ..cleared }
                }
            },
        }
    }

    /// What is reported of a tuning decision: a cooldown where a limit changed, else the pressure.
    pub open spec fn tuning_outcome(self, config: GcConcurrencyConfig) -> GcTuningOutcome {
        let after = self.tuned(config);
        let workers_changed = after.active_limit != self.active_limit;
        let io_budget_changed = after.active_io_bytes_per_sec != self.active_io_bytes_per_sec;
        GcTuningOutcome {
            health: if workers_changed || io_budget_changed {
                GcTunerHealth::Cooldown
            } else if self.pressured(config) {
                GcTunerHealth::Pressured
            } else {
                GcTunerHealth::Healthy
            },
            workers_changed,
            io_budget_changed,
        }
    }

    /// The state after an admitted attempt ended, before any tuning.
    pub open spec fn run_finished(self) -> GcConcurrencyState {
        GcConcurrencyState {
            in_flight: if self.in_flight == 0 {
                0
            } else {
                (self.in_flight - 1) as usize
            },
            cycles_since_tune: if self.cycles_since_tune == u64::MAX {
                u64::MAX
            } else {
                (self.cycles_since_tune + 1) as u64
            },
            ..self
        }
    }

    /// Whether the attempt that just ended closes its window.
    pub open spec fn window_closed(self, config: GcConcurrencyConfig) -> bool {
        self.run_finished().cycles_since_tune >= window_of(config.tuning_window_cycles, self.mode)
    }
}

/// Admission controller for background GC attempts.
#[derive(Clone, Copy, Debug, PartialEq, Eq, Structural)]
pub struct GcConcurrencyController {
    /// Immutable tuning bounds and thresholds.
    pub config: GcConcurrencyConfig,
    pub state: GcConcurrencyState,
}

impl GcConcurrencyController {
    /// At least one worker may always run, never more than configured. The byte budget stays at or
    /// below its ceiling, and at or above its floor where the floor is below the ceiling.
    pub open spec fn wf(self) -> bool {
        &&& 1 <= self.state.active_limit
        &&& self.state.active_limit <= num::at_least(self.config.max_workers as int, 1)
        &&& self.state.active_io_bytes_per_sec <= self.config.max_io_bytes_per_sec
        &&& self.state.active_io_bytes_per_sec >= num::at_most(
            self.config.min_io_bytes_per_sec as int,
            self.config.max_io_bytes_per_sec as int,
        )
    }

    /// A controller that starts at the configured initial limit and the full byte budget.
    pub fn new(config: GcConcurrencyConfig) -> (controller: GcConcurrencyController)
        ensures
            controller.wf(),
            controller.config == config,
            controller.state == (GcConcurrencyState {
                active_limit: num::at_least(
                    num::at_most(config.initial_workers as int, config.max_workers as int),
                    1,
                ) as usize,
                active_io_bytes_per_sec: config.max_io_bytes_per_sec,
                in_flight: 0,
                cycles_since_tune: 0,
                sync_latency_nanos: TunedSignal { ewma_nanos: None, baseline_ewma_nanos: None },
                write_queue_send_nanos: TunedSignal { ewma_nanos: None, baseline_ewma_nanos: None },
                seal_backpressure_current: false,
                pressure_observed_during_gc: false,
                mode: GcTuningMode::Probing,
            }),
    {
        let active_limit: usize = max_usize(
            min_usize(config.initial_workers, config.max_workers),
            1,
        );
        GcConcurrencyController {
            config,
            state: GcConcurrencyState {
                active_limit,
                active_io_bytes_per_sec: config.max_io_bytes_per_sec,
                in_flight: 0,
                cycles_since_tune: 0,
                sync_latency_nanos: TunedSignal::new(),
                write_queue_send_nanos: TunedSignal::new(),
                seal_backpressure_current: false,
                pressure_observed_during_gc: false,
                mode: GcTuningMode::Probing,
            },
        }
    }

    /// The current admission limit.
    pub fn active_limit(&self) -> (limit: usize)
        ensures
            limit == self.state.active_limit,
    {
        self.state.active_limit
    }

    /// The current store-wide GC I/O budget.
    pub fn active_io_bytes_per_sec(&self) -> (budget: u64)
        ensures
            budget == self.state.active_io_bytes_per_sec,
    {
        self.state.active_io_bytes_per_sec
    }

    /// Reserves one worker slot, unless the limit is already full.
    ///
    /// An admitted attempt is ended by [`GcConcurrencyController::finish_run`].
    pub fn try_admit(&mut self) -> (admitted: bool)
        requires
            old(self).wf(),
        ensures
            final(self).wf(),
            admitted == (old(self).state.in_flight < old(self).state.active_limit),
            final(self).config == old(self).config,
            final(self).state == (GcConcurrencyState {
                in_flight: if admitted {
                    (old(self).state.in_flight + 1) as usize
                } else {
                    old(self).state.in_flight
                },
                ..old(self).state
            }),
    {
        if self.state.in_flight >= self.state.active_limit {
            return false;
        }
        self.state.in_flight = self.state.in_flight + 1;
        true
    }

    /// Records foreground sync latency.
    pub fn observe_sync(&mut self, elapsed_nanos: u128, bytes: u64)
        requires
            old(self).wf(),
        ensures
            final(self).wf(),
            final(self).config == old(self).config,
            final(self).state == (GcConcurrencyState {
                sync_latency_nanos: old(self).state.sync_latency_nanos.after(
                    sync_sample(elapsed_nanos, bytes),
                ),
                ..old(self).state
            }).overlap_recorded(old(self).config),
    {
        self.state.sync_latency_nanos.observe(sync_impact_sample_nanos(elapsed_nanos, bytes));
        self.record_pressure_overlap();
    }

    /// Records time spent enqueueing a command into the writer queue.
    pub fn observe_write_queue_send(&mut self, elapsed_nanos: u128)
        requires
            old(self).wf(),
        ensures
            final(self).wf(),
            final(self).config == old(self).config,
            final(self).state == (GcConcurrencyState {
                write_queue_send_nanos: old(self).state.write_queue_send_nanos.after(
                    num::at_least(elapsed_nanos as int, 1) as u128,
                ),
                ..old(self).state
            }).overlap_recorded(old(self).config),
    {
        self.state.write_queue_send_nanos.observe(max_u128(elapsed_nanos, 1));
        self.record_pressure_overlap();
    }

    /// Records whether foreground writes are blocked by seal backlog pressure, and returns the
    /// health to report, where it is to be reported.
    pub fn set_seal_backpressure(&mut self, current: bool) -> (report: Option<GcTunerHealth>)
        requires
            old(self).wf(),
        ensures
            final(self).wf(),
            final(self).config == old(self).config,
            ({
                let flagged = GcConcurrencyState {
                    seal_backpressure_current: current,
                    ..old(self).state
                };
                &&& final(self).state == (if current {
                    flagged.overlap_recorded(old(self).config)
                } else {
                    flagged
                })
                &&& report == (if current {
                    Some(GcTunerHealth::Pressured)
                } else if !flagged.pressured(old(self).config) {
                    Some(GcTunerHealth::Healthy)
                } else {
                    None
                })
            }),
    {
        self.state.seal_backpressure_current = current;
        if current {
            self.record_pressure_overlap();
            Some(GcTunerHealth::Pressured)
        } else if !self.workload_pressured() {
            Some(GcTunerHealth::Healthy)
        } else {
            None
        }
    }

    /// Releases one slot, and makes a tuning decision if the current window ended.
    pub fn finish_run(&mut self) -> (outcome: Option<GcTuningOutcome>)
        requires
            old(self).wf(),
        ensures
            final(self).wf(),
            final(self).config == old(self).config,
            ({
                let finished = old(self).state.run_finished();
                let reset = GcConcurrencyState { cycles_since_tune: 0, ..finished };
                if old(self).state.window_closed(old(self).config) {
                    &&& final(self).state == reset.tuned(old(self).config)
                    &&& outcome == Some(reset.tuning_outcome(old(self).config))
                } else {
                    &&& final(self).state == finished
                    &&& outcome is None
                }
            }),
    {
        self.state.in_flight = self.state.in_flight.saturating_sub(1);
        self.state.cycles_since_tune = self.state.cycles_since_tune.saturating_add(1);
        let window: u64 = tuning_window_cycles(self.config.tuning_window_cycles, self.state.mode);
        if self.state.cycles_since_tune >= window {
            self.state.cycles_since_tune = 0;
            Some(self.tune())
        } else {
            None
        }
    }

    /// Adjusts the limits according to the current pressure.
    fn tune(&mut self) -> (outcome: GcTuningOutcome)
        requires
            old(self).wf(),
        ensures
            final(self).wf(),
            final(self).config == old(self).config,
            final(self).state == old(self).state.tuned(old(self).config),
            outcome == old(self).state.tuning_outcome(old(self).config),
    {
        let pressured: bool = self.workload_pressured();
        let attributed: bool = pressured && self.state.pressure_observed_during_gc;
        self.state.pressure_observed_during_gc = false;
        let signal: Option<u128> = self.current_pressure_signal_nanos();
        let mut workers_changed: bool = false;
        let mut io_budget_changed: bool = false;
        match self.state.mode {
            GcTuningMode::Probing => {
                if attributed {
                    workers_changed = self.decrease();
                    io_budget_changed = self.decrease_io_budget();
                    self.state.mode = GcTuningMode::BackingOff {
                        previous_signal_nanos: match signal {
                            Some(nanos) => nanos,
                            None => 0,
                        },
                    };
                } else if !pressured {
                    workers_changed = self.increase();
                    io_budget_changed = self.increase_io_budget();
                }
            },
            GcTuningMode::BackingOff { previous_signal_nanos } => {
                let current_signal: u128 = match signal {
                    Some(nanos) => nanos,
                    None => previous_signal_nanos,
                };
                let can_back_off_more: bool = self.state.active_limit > 1
                    || self.state.active_io_bytes_per_sec > self.config.min_io_bytes_per_sec;
                if attributed && can_back_off_more && signal_improved(
                    current_signal,
                    previous_signal_nanos,
                ) {
                    workers_changed = self.decrease();
                    io_budget_changed = self.decrease_io_budget();
                    self.state.mode = GcTuningMode::BackingOff {
                        previous_signal_nanos: current_signal,
                    };
                } else {
                    self.state.mode = GcTuningMode::Probing;
                }
            },
        }
        let health: GcTunerHealth = if workers_changed || io_budget_changed {
            GcTunerHealth::Cooldown
        } else if pressured {
            GcTunerHealth::Pressured
        } else {
            GcTunerHealth::Healthy
        };
        GcTuningOutcome { health, workers_changed, io_budget_changed }
    }

    /// Whether any foreground signal indicates user-visible pressure.
    pub fn workload_pressured(&self) -> (result: bool)
        ensures
            result == self.state.pressured(self.config),
    {
        self.state.seal_backpressure_current || self.state.sync_latency_nanos.degraded(
            self.config.sync_impact_threshold,
        ) || self.state.write_queue_send_nanos.degraded(GC_WRITE_QUEUE_IMPACT_THRESHOLD)
    }

    /// The signal that backoff compares.
    fn current_pressure_signal_nanos(&self) -> (signal: Option<u128>)
        ensures
            signal == self.state.pressure_signal(),
    {
        match self.state.sync_latency_nanos.current() {
            Some(nanos) => Some(nanos),
            None => self.state.write_queue_send_nanos.current(),
        }
    }

    /// Remembers foreground pressure that is seen while GC runs.
    fn record_pressure_overlap(&mut self)
        ensures
            final(self).config == old(self).config,
            final(self).state == old(self).state.overlap_recorded(old(self).config),
    {
        if self.state.in_flight > 0 && self.workload_pressured() {
            self.state.pressure_observed_during_gc = true;
        }
    }

    /// Raises concurrency by one worker when below the configured maximum.
    fn increase(&mut self) -> (changed: bool)
        ensures
            final(self).config == old(self).config,
            final(self).state == (GcConcurrencyState {
                active_limit: old(self).state.raised(old(self).config).active_limit,
                ..old(self).state
            }),
            changed == (final(self).state.active_limit != old(self).state.active_limit),
    {
        if self.state.active_limit >= self.config.max_workers {
            return false;
        }
        self.state.active_limit = self.state.active_limit + 1;
        true
    }

    /// Lowers concurrency by one worker while preserving at least one.
    fn decrease(&mut self) -> (changed: bool)
        ensures
            final(self).config == old(self).config,
            final(self).state == (GcConcurrencyState {
                active_limit: old(self).state.lowered(old(self).config).active_limit,
                ..old(self).state
            }),
            changed == (final(self).state.active_limit != old(self).state.active_limit),
    {
        if self.state.active_limit <= 1 {
            return false;
        }
        self.state.active_limit = self.state.active_limit - 1;
        true
    }

    /// Raises the I/O budget toward the configured ceiling.
    fn increase_io_budget(&mut self) -> (changed: bool)
        ensures
            final(self).config == old(self).config,
            final(self).state == (GcConcurrencyState {
                active_io_bytes_per_sec: old(self).config.io_raised(
                    old(self).state.active_io_bytes_per_sec,
                ),
                ..old(self).state
            }),
            changed == (final(self).state.active_io_bytes_per_sec
                != old(self).state.active_io_bytes_per_sec),
    {
        let current: u64 = self.state.active_io_bytes_per_sec;
        if current >= self.config.max_io_bytes_per_sec {
            return false;
        }
        let scaled: u64 = saturating_mul_u64(current, GC_RATE_INCREASE_FACTOR_BPS)
            / GC_RATE_FACTOR_DENOMINATOR;
        let next: u64 = min_u64(
            max_u64(scaled, current.saturating_add(1)),
            self.config.max_io_bytes_per_sec,
        );
        self.state.active_io_bytes_per_sec = next;
        true
    }

    /// Lowers the I/O budget toward the configured floor.
    fn decrease_io_budget(&mut self) -> (changed: bool)
        ensures
            final(self).config == old(self).config,
            final(self).state == (GcConcurrencyState {
                active_io_bytes_per_sec: old(self).config.io_lowered(
                    old(self).state.active_io_bytes_per_sec,
                ),
                ..old(self).state
            }),
            changed == (final(self).state.active_io_bytes_per_sec
                != old(self).state.active_io_bytes_per_sec),
    {
        let current: u64 = self.state.active_io_bytes_per_sec;
        if current <= self.config.min_io_bytes_per_sec {
            return false;
        }
        let scaled: u64 = saturating_mul_u64(current, GC_RATE_DECREASE_FACTOR_BPS)
            / GC_RATE_FACTOR_DENOMINATOR;
        let next: u64 = min_u64(
            max_u64(scaled, self.config.min_io_bytes_per_sec),
            current.saturating_sub(1),
        );
        self.state.active_io_bytes_per_sec = next;
        true
    }
}

// Laws.

/// A baseline never overtakes the signal that it follows, never falls behind by standing still, and
/// never jumps: it moves towards the signal and does not pass it.
pub proof fn law_baseline_follows_without_overtaking(baseline: u128, current: u128)
    ensures
        baseline_after(baseline, current) <= current,
        current < baseline ==> baseline_after(baseline, current) == current,
        current > baseline ==> baseline < baseline_after(baseline, current),
        current == baseline ==> baseline_after(baseline, current) == baseline,
{
}

/// A signal that never changes is never worse than its own baseline: only the absolute limit, twice
/// the threshold, can make a steady workload look pressured.
pub proof fn law_steady_signal_is_judged_absolutely(
    signal: TunedSignal,
    level: u128,
    threshold_nanos: u128,
)
    requires
        signal.ewma_nanos == Some(level),
        signal.baseline_ewma_nanos == Some(level),
        // Far beyond any latency: the comparison in basis points does not overflow.
        level * 20_000 <= u128::MAX,
        threshold_nanos * 20_000 <= u128::MAX,
    ensures
        signal.is_degraded(threshold_nanos) <==> level > 2 * threshold_nanos,
{
    assert(level * 12_500 >= level * 10_000) by (nonlinear_arith)
        requires
            level >= 0,
    ;
}

/// A tuning decision moves the worker limit by at most one, and never out of its bounds.
pub proof fn law_tuning_moves_one_step(controller: GcConcurrencyController)
    requires
        controller.wf(),
    ensures
        ({
            let after = controller.state.tuned(controller.config);
            &&& GcConcurrencyController { state: after, ..controller }.wf()
            &&& after.active_limit <= controller.state.active_limit + 1
            &&& after.active_limit + 1 >= controller.state.active_limit
            &&& after.in_flight == controller.state.in_flight
            &&& !after.pressure_observed_during_gc
        }),
{
}

/// The limits go up only in a healthy window, and down only on pressure that overlapped GC.
pub proof fn law_limits_move_with_pressure(controller: GcConcurrencyController)
    requires
        controller.wf(),
    ensures
        ({
            let before = controller.state;
            let after = before.tuned(controller.config);
            let pressured = before.pressured(controller.config);
            &&& (after.active_limit > before.active_limit || after.active_io_bytes_per_sec
                > before.active_io_bytes_per_sec) ==> !pressured && before.mode is Probing
            &&& (after.active_limit < before.active_limit || after.active_io_bytes_per_sec
                < before.active_io_bytes_per_sec) ==> pressured
                && before.pressure_observed_during_gc && after.mode is BackingOff
        }),
{
}

/// Pressure without GC is never blamed on GC.
pub proof fn law_pressure_without_gc_is_not_attributed(
    state: GcConcurrencyState,
    config: GcConcurrencyConfig,
)
    requires
        state.in_flight == 0,
        !state.pressure_observed_during_gc,
    ensures
        !state.overlap_recorded(config).pressure_observed_during_gc,
{
}

/// Healthy windows reach the byte ceiling and pressured ones the byte floor: every step before that
/// makes progress.
pub proof fn law_budget_steps_make_progress(config: GcConcurrencyConfig, budget: u64)
    ensures
        budget < config.max_io_bytes_per_sec ==> budget < config.io_raised(budget)
            <= config.max_io_bytes_per_sec,
        budget >= config.max_io_bytes_per_sec ==> config.io_raised(budget) == budget,
        budget > config.min_io_bytes_per_sec ==> config.min_io_bytes_per_sec <= config.io_lowered(
            budget,
        ) < budget,
        budget <= config.min_io_bytes_per_sec ==> config.io_lowered(budget) == budget,
{
}

/// Within the range of real disks, a step up doubles the budget and a step down halves it, up to
/// the configured bounds.
pub proof fn law_budget_doubles_and_halves(config: GcConcurrencyConfig, budget: u64)
    requires
        budget * 20_000 <= u64::MAX,
        budget > 0,
    ensures
        budget < config.max_io_bytes_per_sec ==> config.io_raised(budget) == num::at_most(
            2 * budget,
            config.max_io_bytes_per_sec as int,
        ),
        budget > config.min_io_bytes_per_sec ==> config.io_lowered(budget) == num::at_least(
            budget as int / 2,
            config.min_io_bytes_per_sec as int,
        ),
{
}

} // verus!
