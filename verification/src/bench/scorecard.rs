//! What a run reports: its settings, and how it came out. Spans of time are in nanoseconds; figures
//! that are shown as decimal fractions stay exact here.

use vstd::prelude::*;

use crate::bench::config::{Config, EngineKind, LifetimeMode};
use crate::bench::model::{DeleteBacklog, ModelSnapshot};
use crate::bench::space::SpaceSnapshot;
use crate::config::{GcPlannerConfig, StrataStoreConfig};
use crate::num;
use crate::num::{max_u64, min_u64, saturating_mul_u64};
use crate::types::Epoch;

verus! {

/// A share that the command line gives as a decimal fraction.
#[derive(Clone, Copy, Debug, PartialEq, Eq, Structural)]
pub enum Share {
    ReadDeleted,
    ReadAttainment,
    DeleteTimely,
}

/// One reported value.
#[derive(Clone, Debug)]
pub enum Figure {
    Count(u64),
    Sum(u128),
    Flag(bool),
    Name(&'static str),
    Text(String),
    /// Seconds with so many places behind the point.
    Seconds { nanos: u128, places: u8 },
    /// A span of time in its largest unit.
    Span(u128),
    /// Whole microseconds of a span.
    Micros(u128),
    /// An amount per second of a span, with three places.
    Rate { amount: u64, nanos: u128 },
    /// A quotient with six places; nothing where there is no whole.
    Ratio { part: u64, whole: u64 },
    /// A percentage with three places; all where there is no whole.
    PercentOf { part: u64, whole: u64 },
    /// A share with three places.
    Share(Share),
    Pair(usize, usize),
    Triple(usize, usize, usize),
    /// A value, or a word where there is none.
    Setting { value: Option<u64>, otherwise: &'static str },
    /// The value of a counter of the store.
    Counter(&'static str),
    /// How often each lifetime was given.
    Offsets,
}

/// One line of a report.
#[derive(Clone, Debug)]
pub struct Line {
    pub name: &'static str,
    pub figure: Figure,
}

/// An engine's name.
pub open spec fn engine_name(engine: EngineKind) -> &'static str {
    match engine {
        EngineKind::Strata => "strata",
        EngineKind::BlobDb => "blobdb",
    }
}

/// A mode's name.
pub open spec fn mode_name(mode: LifetimeMode) -> &'static str {
    match mode {
        LifetimeMode::Retention => "retention",
        LifetimeMode::Epoch => "epoch",
    }
}

/// A count as a wider number.
pub open spec fn widened(count: Option<usize>) -> Option<u64> {
    match count {
        Some(count) => Some(count as u64),
        None => None,
    }
}

fn widen(count: Option<usize>) -> (wide: Option<u64>)
    ensures
        wide == widened(count),
{
    match count {
        Some(count) => Some(count as u64),
        None => None,
    }
}

// Settings.

/// What every run reports first.
pub open spec fn opening_settings(config: &Config) -> Seq<Line> {
    seq![
        Line { name: "engine", figure: Figure::Name(engine_name(config.engine)) },
        Line { name: "root", figure: Figure::Text(config.root_dir) },
        Line {
            name: "duration_seconds",
            figure: Figure::Seconds { nanos: config.duration, places: 3 },
        },
        Line { name: "lifetime_mode", figure: Figure::Name(mode_name(config.lifetime_mode)) },
    ]
}

fn push_opening_settings(lines: &mut Vec<Line>, config: &Config)
    ensures
        final(lines)@ == old(lines)@ + opening_settings(config),
{
    let ghost before = lines@;
    lines.push(Line { name: "engine", figure: Figure::Name(config.engine.as_str()) });
    lines.push(Line { name: "root", figure: Figure::Text(config.root_dir.clone()) });
    lines.push(
        Line {
            name: "duration_seconds",
            figure: Figure::Seconds { nanos: config.duration, places: 3 },
        },
    );
    lines.push(Line { name: "lifetime_mode", figure: Figure::Name(config.lifetime_mode.as_str()) });
    assert(lines@ =~= before + opening_settings(config));
}

/// The settings of retention mode.
pub open spec fn retention_settings(config: &Config) -> Seq<Line> {
    seq![
        Line {
            name: "retention_seconds",
            figure: Figure::Seconds { nanos: config.retention, places: 3 },
        },
        Line {
            name: "retention_jitter_percent",
            figure: Figure::Count(config.retention_jitter_percent),
        },
    ]
}

fn push_retention_settings(lines: &mut Vec<Line>, config: &Config)
    ensures
        final(lines)@ == old(lines)@ + retention_settings(config),
{
    let ghost before = lines@;
    lines.push(
        Line {
            name: "retention_seconds",
            figure: Figure::Seconds { nanos: config.retention, places: 3 },
        },
    );
    lines.push(
        Line {
            name: "retention_jitter_percent",
            figure: Figure::Count(config.retention_jitter_percent),
        },
    );
    assert(lines@ =~= before + retention_settings(config));
}

/// The settings of epoch mode.
pub open spec fn epoch_settings(config: &Config) -> Seq<Line> {
    seq![
        Line {
            name: "epoch_duration_seconds",
            figure: Figure::Seconds { nanos: config.epoch_duration, places: 3 },
        },
        Line { name: "future_epochs", figure: Figure::Count(config.future_epochs) },
        Line {
            name: "min_future_epoch_offset",
            figure: Figure::Count(config.min_future_epoch_offset),
        },
        Line { name: "lifetime_seed", figure: Figure::Count(config.lifetime_seed) },
        Line { name: "hashed_keys", figure: Figure::Flag(config.hashed_keys) },
    ]
}

fn push_epoch_settings(lines: &mut Vec<Line>, config: &Config)
    ensures
        final(lines)@ == old(lines)@ + epoch_settings(config),
{
    let ghost before = lines@;
    lines.push(
        Line {
            name: "epoch_duration_seconds",
            figure: Figure::Seconds { nanos: config.epoch_duration, places: 3 },
        },
    );
    lines.push(Line { name: "future_epochs", figure: Figure::Count(config.future_epochs) });
    lines.push(
        Line {
            name: "min_future_epoch_offset",
            figure: Figure::Count(config.min_future_epoch_offset),
        },
    );
    lines.push(Line { name: "lifetime_seed", figure: Figure::Count(config.lifetime_seed) });
    lines.push(Line { name: "hashed_keys", figure: Figure::Flag(config.hashed_keys) });
    assert(lines@ =~= before + epoch_settings(config));
}

/// The settings of the workload.
pub open spec fn workload_settings(config: &Config) -> Seq<Line> {
    seq![
        Line {
            name: "cleanup_grace_seconds",
            figure: Figure::Seconds { nanos: config.cleanup_grace, places: 3 },
        },
        Line { name: "payload_bytes", figure: Figure::Count(config.payload_size as u64) },
        Line {
            name: "put_target_ops_per_second",
            figure: Figure::Count(config.put_ops_per_second),
        },
        Line {
            name: "write_workers_min_initial_max",
            figure: Figure::Triple(
                config.min_write_workers,
                config.initial_write_workers,
                config.max_write_workers,
            ),
        },
        Line { name: "read_workers", figure: Figure::Count(config.read_workers as u64) },
        Line {
            name: "read_target_ops_per_second",
            figure: Figure::Count(config.read_ops_per_second),
        },
        Line { name: "read_deleted_percent", figure: Figure::Share(Share::ReadDeleted) },
        Line {
            name: "read_p99_slo_seconds",
            figure: Figure::Seconds { nanos: config.read_p99_slo, places: 6 },
        },
        Line { name: "read_attainment_percent", figure: Figure::Share(Share::ReadAttainment) },
        Line { name: "delete_workers", figure: Figure::Count(config.delete_workers as u64) },
        Line {
            name: "delete_lag_slo_seconds",
            figure: Figure::Seconds { nanos: config.delete_lag_slo, places: 6 },
        },
        Line { name: "delete_timely_percent_required", figure: Figure::Share(Share::DeleteTimely) },
        Line {
            name: "controller_interval_seconds",
            figure: Figure::Seconds { nanos: config.control_interval, places: 3 },
        },
        Line {
            name: "controller_debounce_windows",
            figure: Figure::Count(config.controller_debounce_windows as u64),
        },
        Line {
            name: "sync_interval_seconds",
            figure: Figure::Seconds { nanos: config.sync_interval, places: 3 },
        },
    ]
}

fn push_workload_settings(lines: &mut Vec<Line>, config: &Config)
    ensures
        final(lines)@ == old(lines)@ + workload_settings(config),
{
    let ghost before = lines@;
    lines.push(
        Line {
            name: "cleanup_grace_seconds",
            figure: Figure::Seconds { nanos: config.cleanup_grace, places: 3 },
        },
    );
    lines.push(Line { name: "payload_bytes", figure: Figure::Count(config.payload_size as u64) });
    lines.push(
        Line {
            name: "put_target_ops_per_second",
            figure: Figure::Count(config.put_ops_per_second),
        },
    );
    lines.push(
        Line {
            name: "write_workers_min_initial_max",
            figure: Figure::Triple(
                config.min_write_workers,
                config.initial_write_workers,
                config.max_write_workers,
            ),
        },
    );
    lines.push(Line { name: "read_workers", figure: Figure::Count(config.read_workers as u64) });
    lines.push(
        Line {
            name: "read_target_ops_per_second",
            figure: Figure::Count(config.read_ops_per_second),
        },
    );
    lines.push(Line { name: "read_deleted_percent", figure: Figure::Share(Share::ReadDeleted) });
    lines.push(
        Line {
            name: "read_p99_slo_seconds",
            figure: Figure::Seconds { nanos: config.read_p99_slo, places: 6 },
        },
    );
    lines.push(
        Line { name: "read_attainment_percent", figure: Figure::Share(Share::ReadAttainment) },
    );
    lines.push(
        Line { name: "delete_workers", figure: Figure::Count(config.delete_workers as u64) },
    );
    lines.push(
        Line {
            name: "delete_lag_slo_seconds",
            figure: Figure::Seconds { nanos: config.delete_lag_slo, places: 6 },
        },
    );
    lines.push(
        Line { name: "delete_timely_percent_required", figure: Figure::Share(Share::DeleteTimely) },
    );
    lines.push(
        Line {
            name: "controller_interval_seconds",
            figure: Figure::Seconds { nanos: config.control_interval, places: 3 },
        },
    );
    lines.push(
        Line {
            name: "controller_debounce_windows",
            figure: Figure::Count(config.controller_debounce_windows as u64),
        },
    );
    lines.push(
        Line {
            name: "sync_interval_seconds",
            figure: Figure::Seconds { nanos: config.sync_interval, places: 3 },
        },
    );
    assert(lines@ =~= before + workload_settings(config));
}

/// The settings of the store under test.
pub open spec fn strata_settings(config: &Config) -> Seq<Line> {
    let store = config.store_settings();
    let planner = config.planner_settings();
    seq![
        Line { name: "segment_max_bytes", figure: Figure::Count(config.segment_max_bytes) },
        Line { name: "strata_gc", figure: Figure::Flag(config.strata_gc) },
        Line { name: "strata_gc_workers", figure: Figure::Count(store.gc_worker_count as u64) },
        Line {
            name: "strata_lsm_partitions",
            figure: Figure::Count(store.lsm_partition_count as u64),
        },
        Line { name: "strata_memtable_max_age", figure: Figure::Span(store.lsm_memtable_max_age) },
        Line {
            name: "strata_gc_min_l0_rewrite_epoch_distance",
            figure: Figure::Setting {
                value: planner.min_l0_rewrite_epoch_distance,
                otherwise: "default",
            },
        },
        Line {
            name: "strata_gc_min_l0_rewrite_useful_ratio_bps",
            figure: Figure::Setting {
                value: planner.min_l0_rewrite_useful_ratio_bps,
                otherwise: "default",
            },
        },
        Line {
            name: "strata_gc_min_exact_epoch_distance",
            figure: Figure::Setting {
                value: planner.min_exact_epoch_distance,
                otherwise: "default",
            },
        },
        Line {
            name: "strata_gc_max_copy_bytes_per_plan",
            figure: Figure::Setting {
                value: planner.max_copy_bytes_per_plan,
                otherwise: "default",
            },
        },
        Line {
            name: "strata_relocation_writeback_chunk",
            figure: Figure::Setting {
                value: widened(config.strata_relocation_writeback),
                otherwise: "off",
            },
        },
        Line {
            name: "relocation_profile_reads",
            figure: Figure::Count(config.relocation_profile_reads as u64),
        },
        Line {
            name: "relocation_profile_timeout_seconds",
            figure: Figure::Seconds { nanos: config.relocation_profile_timeout, places: 3 },
        },
    ]
}

fn push_strata_settings(lines: &mut Vec<Line>, config: &Config)
    ensures
        final(lines)@ == old(lines)@ + strata_settings(config),
{
    let store: StrataStoreConfig = config.store_config();
    let planner: GcPlannerConfig = store.gc_planner_config;
    let ghost before = lines@;
    lines.push(Line { name: "segment_max_bytes", figure: Figure::Count(config.segment_max_bytes) });
    lines.push(Line { name: "strata_gc", figure: Figure::Flag(config.strata_gc) });
    lines.push(
        Line { name: "strata_gc_workers", figure: Figure::Count(store.gc_worker_count as u64) },
    );
    lines.push(
        Line {
            name: "strata_lsm_partitions",
            figure: Figure::Count(store.lsm_partition_count as u64),
        },
    );
    lines.push(
        Line { name: "strata_memtable_max_age", figure: Figure::Span(store.lsm_memtable_max_age) },
    );
    lines.push(
        Line {
            name: "strata_gc_min_l0_rewrite_epoch_distance",
            figure: Figure::Setting {
                value: planner.min_l0_rewrite_epoch_distance,
                otherwise: "default",
            },
        },
    );
    lines.push(
        Line {
            name: "strata_gc_min_l0_rewrite_useful_ratio_bps",
            figure: Figure::Setting {
                value: planner.min_l0_rewrite_useful_ratio_bps,
                otherwise: "default",
            },
        },
    );
    lines.push(
        Line {
            name: "strata_gc_min_exact_epoch_distance",
            figure: Figure::Setting {
                value: planner.min_exact_epoch_distance,
                otherwise: "default",
            },
        },
    );
    lines.push(
        Line {
            name: "strata_gc_max_copy_bytes_per_plan",
            figure: Figure::Setting {
                value: planner.max_copy_bytes_per_plan,
                otherwise: "default",
            },
        },
    );
    lines.push(
        Line {
            name: "strata_relocation_writeback_chunk",
            figure: Figure::Setting {
                value: widen(config.strata_relocation_writeback),
                otherwise: "off",
            },
        },
    );
    lines.push(
        Line {
            name: "relocation_profile_reads",
            figure: Figure::Count(config.relocation_profile_reads as u64),
        },
    );
    lines.push(
        Line {
            name: "relocation_profile_timeout_seconds",
            figure: Figure::Seconds { nanos: config.relocation_profile_timeout, places: 3 },
        },
    );
    assert(lines@ =~= before + strata_settings(config));
}

/// The settings of the store that it is compared with.
pub open spec fn blobdb_settings(config: &Config) -> Seq<Line> {
    seq![
        Line { name: "rocksdb_wal_enabled", figure: Figure::Flag(true) },
        Line { name: "rocksdb_per_write_sync", figure: Figure::Flag(false) },
        Line {
            name: "rocksdb_write_buffer_size",
            figure: Figure::Count(config.rocksdb_write_buffer_size as u64),
        },
        Line {
            name: "rocksdb_db_write_buffer_size",
            figure: Figure::Count(config.rocksdb_db_write_buffer_size as u64),
        },
        Line {
            name: "rocksdb_max_write_buffer_number",
            figure: Figure::Count(config.rocksdb_max_write_buffer_number as u64),
        },
        Line {
            name: "rocksdb_max_background_flushes",
            figure: Figure::Setting {
                value: widened(config.rocksdb_max_background_flushes),
                otherwise: "default",
            },
        },
        Line {
            name: "rocksdb_max_subcompactions",
            figure: Figure::Count(config.rocksdb_max_subcompactions as u64),
        },
        Line {
            name: "rocksdb_high_low_pri_threads",
            figure: Figure::Pair(config.rocksdb_high_pri_threads, config.rocksdb_low_pri_threads),
        },
        Line { name: "rocksdb_blob_gc", figure: Figure::Flag(config.rocksdb_blob_gc) },
    ]
}

fn push_blobdb_settings(lines: &mut Vec<Line>, config: &Config)
    ensures
        final(lines)@ == old(lines)@ + blobdb_settings(config),
{
    let ghost before = lines@;
    lines.push(Line { name: "rocksdb_wal_enabled", figure: Figure::Flag(true) });
    lines.push(Line { name: "rocksdb_per_write_sync", figure: Figure::Flag(false) });
    lines.push(
        Line {
            name: "rocksdb_write_buffer_size",
            figure: Figure::Count(config.rocksdb_write_buffer_size as u64),
        },
    );
    lines.push(
        Line {
            name: "rocksdb_db_write_buffer_size",
            figure: Figure::Count(config.rocksdb_db_write_buffer_size as u64),
        },
    );
    lines.push(
        Line {
            name: "rocksdb_max_write_buffer_number",
            figure: Figure::Count(config.rocksdb_max_write_buffer_number as u64),
        },
    );
    lines.push(
        Line {
            name: "rocksdb_max_background_flushes",
            figure: Figure::Setting {
                value: widen(config.rocksdb_max_background_flushes),
                otherwise: "default",
            },
        },
    );
    lines.push(
        Line {
            name: "rocksdb_max_subcompactions",
            figure: Figure::Count(config.rocksdb_max_subcompactions as u64),
        },
    );
    lines.push(
        Line {
            name: "rocksdb_high_low_pri_threads",
            figure: Figure::Pair(config.rocksdb_high_pri_threads, config.rocksdb_low_pri_threads),
        },
    );
    lines.push(Line { name: "rocksdb_blob_gc", figure: Figure::Flag(config.rocksdb_blob_gc) });
    assert(lines@ =~= before + blobdb_settings(config));
}

/// The settings that a run reports.
pub open spec fn settings_report(config: &Config) -> Seq<Line> {
    opening_settings(config) + (match config.lifetime_mode {
        LifetimeMode::Retention => retention_settings(config),
        LifetimeMode::Epoch => epoch_settings(config),
    }) + workload_settings(config) + (match config.engine {
        EngineKind::Strata => strata_settings(config),
        EngineKind::BlobDb => blobdb_settings(config),
    })
}

/// The settings that a run reports.
pub fn report_settings(config: &Config) -> (lines: Vec<Line>)
    ensures
        lines@ == settings_report(config),
{
    let mut lines: Vec<Line> = Vec::new();
    push_opening_settings(&mut lines, config);
    match config.lifetime_mode {
        LifetimeMode::Retention => push_retention_settings(&mut lines, config),
        LifetimeMode::Epoch => push_epoch_settings(&mut lines, config),
    }
    push_workload_settings(&mut lines, config);
    match config.engine {
        EngineKind::Strata => push_strata_settings(&mut lines, config),
        EngineKind::BlobDb => push_blobdb_settings(&mut lines, config),
    }
    assert(lines@ =~= settings_report(config));
    lines
}

// Results.

/// What a run counted and measured.
#[derive(Clone, Copy, Debug, PartialEq, Eq, Structural)]
pub struct RunTotals {
    pub elapsed: u128,
    pub puts: u64,
    pub put_bytes: u64,
    pub deletes: u64,
    pub live_reads: u64,
    pub deleted_reads: u64,
    pub retired_bytes: u64,
    pub delete_due: u64,
    pub delete_timely: u64,
    pub delete_late: u64,
    pub native_expirations: u64,
    pub epoch_advances: u64,
    pub correctness_errors: u64,
    pub put_p50: u128,
    pub put_p99: u128,
    pub read_p50: u128,
    pub read_p99: u128,
    pub delete_p50: u128,
    pub delete_p99: u128,
    pub delete_lag_p99: u128,
    pub blob_file_bytes_read: u64,
    pub blob_file_bytes_written: u64,
    pub blob_gc_bytes_relocated: u64,
}

/// What the totals come to.
#[derive(Clone, Copy, Debug, PartialEq, Eq, Structural)]
pub struct Verdict {
    /// Whether every obligation was met.
    pub qualified: bool,
    pub reads: u64,
    /// Deletes that count: done, or late beyond the service level. A due key that is still within
    /// it has not failed its obligation.
    pub delete_obligations: u64,
    /// Payload bytes of the keys that are live and not due.
    pub logical_live_bytes: u64,
}

/// What the totals of a run come to. Whether reads kept their rate and enough deletes were timely
/// is judged by the caller.
pub open spec fn verdict_of(
    config: &Config,
    totals: RunTotals,
    model: ModelSnapshot,
    backlog: DeleteBacklog,
    failed: bool,
    read_rate_kept: bool,
    deletes_timely: bool,
) -> Verdict {
    Verdict {
        qualified: !failed && totals.correctness_errors == 0 && read_rate_kept && totals.read_p99
            <= config.read_p99_slo && deletes_timely,
        reads: num::at_most(totals.live_reads + totals.deleted_reads, u64::MAX as int) as u64,
        delete_obligations: num::at_most(
            totals.delete_timely + totals.delete_late + backlog.matured_overdue_keys,
            u64::MAX as int,
        ) as u64,
        logical_live_bytes: num::at_most(
            num::at_least(
                num::at_most(model.live_keys + model.deleting_keys, u64::MAX as int)
                    - backlog.due_keys,
                0,
            ) * config.payload_size,
            u64::MAX as int,
        ) as u64,
    }
}

pub fn judge_run(
    config: &Config,
    totals: &RunTotals,
    model: &ModelSnapshot,
    backlog: &DeleteBacklog,
    failed: bool,
    read_rate_kept: bool,
    deletes_timely: bool,
) -> (verdict: Verdict)
    ensures
        verdict == verdict_of(
            config,
            *totals,
            *model,
            *backlog,
            failed,
            read_rate_kept,
            deletes_timely,
        ),
{
    let done: u64 = totals.delete_timely.saturating_add(totals.delete_late);
    let keys: u64 = model.live_keys.saturating_add(model.deleting_keys);
    let kept: u64 = if keys > backlog.due_keys {
        keys - backlog.due_keys
    } else {
        0
    };
    Verdict {
        qualified: !failed && totals.correctness_errors == 0 && read_rate_kept && totals.read_p99
            <= config.read_p99_slo && deletes_timely,
        reads: totals.live_reads.saturating_add(totals.deleted_reads),
        delete_obligations: done.saturating_add(backlog.matured_overdue_keys),
        logical_live_bytes: saturating_mul_u64(kept, config.payload_size as u64),
    }
}

/// How often lifetimes were given.
#[derive(Clone, Copy, Debug, PartialEq, Eq, Structural)]
pub struct OffsetSummary {
    pub total: u128,
    pub least: u64,
    pub most: u64,
}

/// The sum of some counts.
pub open spec fn total_of(counts: Seq<u64>) -> int
    decreases counts.len(),
{
    if counts.len() == 0 {
        0
    } else {
        total_of(counts.drop_last()) + counts.last()
    }
}

/// The least of some counts; nothing where there are none.
pub open spec fn least_of(counts: Seq<u64>) -> int
    decreases counts.len(),
{
    if counts.len() == 0 {
        0
    } else if counts.len() == 1 {
        counts[0] as int
    } else {
        num::at_most(least_of(counts.drop_last()), counts.last() as int)
    }
}

/// The largest of some counts; nothing where there are none.
pub open spec fn most_of(counts: Seq<u64>) -> int
    decreases counts.len(),
{
    if counts.len() == 0 {
        0
    } else {
        num::at_least(most_of(counts.drop_last()), counts.last() as int)
    }
}

/// Sums up how often lifetimes were given.
pub fn summarize_offsets(counts: &Vec<u64>) -> (summary: OffsetSummary)
    ensures
        summary.total == total_of(counts@),
        summary.least == least_of(counts@),
        summary.most == most_of(counts@),
{
    let len: usize = counts.len();
    let mut total: u128 = 0;
    let mut least: u64 = 0;
    let mut most: u64 = 0;
    let mut i: usize = 0;
    assert(counts@.take(0) =~= Seq::<u64>::empty());
    while i < len
        invariant
            i <= len,
            len == counts@.len(),
            total == total_of(counts@.take(i as int)),
            total <= i * u64::MAX,
            least == least_of(counts@.take(i as int)),
            most == most_of(counts@.take(i as int)),
        decreases len - i,
    {
        let count: u64 = counts[i];
        let ghost now = counts@.take(i + 1);
        assert(now.drop_last() =~= counts@.take(i as int));
        assert(now.last() == count);
        assert(total + count <= (i + 1) * u64::MAX) by (nonlinear_arith)
            requires
                total <= i * u64::MAX,
                count <= u64::MAX,
        ;
        assert((i + 1) * u64::MAX <= u64::MAX * u64::MAX) by (nonlinear_arith)
            requires
                i + 1 <= u64::MAX,
        ;
        total = total + count as u128;
        least = if i == 0 {
            count
        } else {
            min_u64(least, count)
        };
        most = max_u64(most, count);
        i = i + 1;
    }
    assert(counts@.take(i as int) =~= counts@);
    OffsetSummary { total, least, most }
}

/// What a scorecard begins with.
pub open spec fn score_opening(
    fatal_words: String,
    totals: &RunTotals,
    verdict: &Verdict,
) -> Seq<Line> {
    seq![
        Line { name: "phase", figure: Figure::Name("scorecard") },
        Line { name: "qualified", figure: Figure::Flag(verdict.qualified) },
        Line { name: "fatal_error", figure: Figure::Text(fatal_words) },
        Line {
            name: "workload_elapsed_seconds",
            figure: Figure::Seconds { nanos: totals.elapsed, places: 3 },
        },
        Line { name: "put_ops", figure: Figure::Count(totals.puts) },
        Line {
            name: "put_ops_per_second",
            figure: Figure::Rate { amount: totals.puts, nanos: totals.elapsed },
        },
        Line { name: "put_bytes", figure: Figure::Count(totals.put_bytes) },
        Line {
            name: "put_bytes_per_second",
            figure: Figure::Rate { amount: totals.put_bytes, nanos: totals.elapsed },
        },
        Line { name: "delete_ops", figure: Figure::Count(totals.deletes) },
        Line { name: "manual_tombstone_ops", figure: Figure::Count(totals.deletes) },
        Line { name: "native_expiration_ops", figure: Figure::Count(totals.native_expirations) },
        Line { name: "epoch_advances", figure: Figure::Count(totals.epoch_advances) },
    ]
}

fn push_score_opening(
    lines: &mut Vec<Line>,
    fatal_words: String,
    totals: &RunTotals,
    verdict: &Verdict,
)
    ensures
        final(lines)@ == old(lines)@ + score_opening(fatal_words, totals, verdict),
{
    let ghost before = lines@;
    lines.push(Line { name: "phase", figure: Figure::Name("scorecard") });
    lines.push(Line { name: "qualified", figure: Figure::Flag(verdict.qualified) });
    lines.push(Line { name: "fatal_error", figure: Figure::Text(fatal_words) });
    lines.push(
        Line {
            name: "workload_elapsed_seconds",
            figure: Figure::Seconds { nanos: totals.elapsed, places: 3 },
        },
    );
    lines.push(Line { name: "put_ops", figure: Figure::Count(totals.puts) });
    lines.push(
        Line {
            name: "put_ops_per_second",
            figure: Figure::Rate { amount: totals.puts, nanos: totals.elapsed },
        },
    );
    lines.push(Line { name: "put_bytes", figure: Figure::Count(totals.put_bytes) });
    lines.push(
        Line {
            name: "put_bytes_per_second",
            figure: Figure::Rate { amount: totals.put_bytes, nanos: totals.elapsed },
        },
    );
    lines.push(Line { name: "delete_ops", figure: Figure::Count(totals.deletes) });
    lines.push(Line { name: "manual_tombstone_ops", figure: Figure::Count(totals.deletes) });
    lines.push(
        Line { name: "native_expiration_ops", figure: Figure::Count(totals.native_expirations) },
    );
    lines.push(Line { name: "epoch_advances", figure: Figure::Count(totals.epoch_advances) });
    assert(lines@ =~= before + score_opening(fatal_words, totals, verdict));
}

/// What a scorecard says of lifetimes, in epoch mode.
pub open spec fn score_epochs(
    config: &Config,
    totals: &RunTotals,
    epoch: Epoch,
    offsets: &OffsetSummary,
) -> Seq<Line> {
    let steady = num::at_least(totals.epoch_advances - config.future_epochs, 0) as u64;
    seq![
        Line {
            name: "lifetime_window_filled",
            figure: Figure::Flag(totals.epoch_advances >= config.future_epochs),
        },
        Line { name: "steady_state_epoch_transitions", figure: Figure::Count(steady) },
        Line { name: "current_epoch", figure: Figure::Count(epoch) },
        Line { name: "lifetime_assignments", figure: Figure::Sum(offsets.total) },
        Line { name: "lifetime_offset_min_assignments", figure: Figure::Count(offsets.least) },
        Line { name: "lifetime_offset_max_assignments", figure: Figure::Count(offsets.most) },
        Line { name: "lifetime_offset_assignments", figure: Figure::Offsets },
    ]
}

fn push_score_epochs(
    lines: &mut Vec<Line>,
    config: &Config,
    totals: &RunTotals,
    epoch: Epoch,
    offsets: &OffsetSummary,
)
    ensures
        final(lines)@ == old(lines)@ + score_epochs(config, totals, epoch, offsets),
{
    let steady: u64 = if totals.epoch_advances > config.future_epochs {
        totals.epoch_advances - config.future_epochs
    } else {
        0
    };
    let ghost before = lines@;
    lines.push(
        Line {
            name: "lifetime_window_filled",
            figure: Figure::Flag(totals.epoch_advances >= config.future_epochs),
        },
    );
    lines.push(Line { name: "steady_state_epoch_transitions", figure: Figure::Count(steady) });
    lines.push(Line { name: "current_epoch", figure: Figure::Count(epoch) });
    lines.push(Line { name: "lifetime_assignments", figure: Figure::Sum(offsets.total) });
    lines.push(
        Line { name: "lifetime_offset_min_assignments", figure: Figure::Count(offsets.least) },
    );
    lines.push(
        Line { name: "lifetime_offset_max_assignments", figure: Figure::Count(offsets.most) },
    );
    lines.push(Line { name: "lifetime_offset_assignments", figure: Figure::Offsets });
    assert(lines@ =~= before + score_epochs(config, totals, epoch, offsets));
}

/// What a scorecard says of the workload.
pub open spec fn score_workload(
    totals: &RunTotals,
    verdict: &Verdict,
    model: &ModelSnapshot,
    backlog: &DeleteBacklog,
) -> Seq<Line> {
    seq![
        Line {
            name: "delete_ops_per_second",
            figure: Figure::Rate { amount: totals.deletes, nanos: totals.elapsed },
        },
        Line { name: "retired_bytes", figure: Figure::Count(totals.retired_bytes) },
        Line {
            name: "retired_bytes_per_second",
            figure: Figure::Rate { amount: totals.retired_bytes, nanos: totals.elapsed },
        },
        Line { name: "read_ops", figure: Figure::Count(verdict.reads) },
        Line {
            name: "read_ops_per_second",
            figure: Figure::Rate { amount: verdict.reads, nanos: totals.elapsed },
        },
        Line { name: "read_live_ops", figure: Figure::Count(totals.live_reads) },
        Line { name: "read_deleted_ops", figure: Figure::Count(totals.deleted_reads) },
        Line { name: "put_p50_us", figure: Figure::Micros(totals.put_p50) },
        Line { name: "put_p99_us", figure: Figure::Micros(totals.put_p99) },
        Line { name: "read_p50_us", figure: Figure::Micros(totals.read_p50) },
        Line { name: "read_p99_us", figure: Figure::Micros(totals.read_p99) },
        Line { name: "delete_p50_us", figure: Figure::Micros(totals.delete_p50) },
        Line { name: "delete_p99_us", figure: Figure::Micros(totals.delete_p99) },
        Line { name: "delete_lag_p99_us", figure: Figure::Micros(totals.delete_lag_p99) },
        Line { name: "delete_due", figure: Figure::Count(totals.delete_due) },
        Line { name: "delete_timely", figure: Figure::Count(totals.delete_timely) },
        Line { name: "delete_late", figure: Figure::Count(totals.delete_late) },
        Line { name: "delete_outstanding", figure: Figure::Count(backlog.due_keys) },
        Line {
            name: "delete_timely_percent",
            figure: Figure::PercentOf {
                part: totals.delete_timely,
                whole: verdict.delete_obligations,
            },
        },
        Line { name: "correctness_errors", figure: Figure::Count(totals.correctness_errors) },
        Line { name: "live_keys", figure: Figure::Count(model.live_keys) },
        Line { name: "deleting_keys", figure: Figure::Count(model.deleting_keys) },
        Line { name: "deleted_sample_keys", figure: Figure::Count(model.deleted_sample_keys) },
        Line {
            name: "oldest_live_age_seconds",
            figure: Figure::Seconds { nanos: model.oldest_live_age, places: 3 },
        },
        Line { name: "logical_live_bytes", figure: Figure::Count(verdict.logical_live_bytes) },
    ]
}

fn push_score_workload(
    lines: &mut Vec<Line>,
    totals: &RunTotals,
    verdict: &Verdict,
    model: &ModelSnapshot,
    backlog: &DeleteBacklog,
)
    ensures
        final(lines)@ == old(lines)@ + score_workload(totals, verdict, model, backlog),
{
    let ghost before = lines@;
    lines.push(
        Line {
            name: "delete_ops_per_second",
            figure: Figure::Rate { amount: totals.deletes, nanos: totals.elapsed },
        },
    );
    lines.push(Line { name: "retired_bytes", figure: Figure::Count(totals.retired_bytes) });
    lines.push(
        Line {
            name: "retired_bytes_per_second",
            figure: Figure::Rate { amount: totals.retired_bytes, nanos: totals.elapsed },
        },
    );
    lines.push(Line { name: "read_ops", figure: Figure::Count(verdict.reads) });
    lines.push(
        Line {
            name: "read_ops_per_second",
            figure: Figure::Rate { amount: verdict.reads, nanos: totals.elapsed },
        },
    );
    lines.push(Line { name: "read_live_ops", figure: Figure::Count(totals.live_reads) });
    lines.push(Line { name: "read_deleted_ops", figure: Figure::Count(totals.deleted_reads) });
    lines.push(Line { name: "put_p50_us", figure: Figure::Micros(totals.put_p50) });
    lines.push(Line { name: "put_p99_us", figure: Figure::Micros(totals.put_p99) });
    lines.push(Line { name: "read_p50_us", figure: Figure::Micros(totals.read_p50) });
    lines.push(Line { name: "read_p99_us", figure: Figure::Micros(totals.read_p99) });
    lines.push(Line { name: "delete_p50_us", figure: Figure::Micros(totals.delete_p50) });
    lines.push(Line { name: "delete_p99_us", figure: Figure::Micros(totals.delete_p99) });
    lines.push(Line { name: "delete_lag_p99_us", figure: Figure::Micros(totals.delete_lag_p99) });
    lines.push(Line { name: "delete_due", figure: Figure::Count(totals.delete_due) });
    lines.push(Line { name: "delete_timely", figure: Figure::Count(totals.delete_timely) });
    lines.push(Line { name: "delete_late", figure: Figure::Count(totals.delete_late) });
    lines.push(Line { name: "delete_outstanding", figure: Figure::Count(backlog.due_keys) });
    lines.push(
        Line {
            name: "delete_timely_percent",
            figure: Figure::PercentOf {
                part: totals.delete_timely,
                whole: verdict.delete_obligations,
            },
        },
    );
    lines.push(
        Line { name: "correctness_errors", figure: Figure::Count(totals.correctness_errors) },
    );
    lines.push(Line { name: "live_keys", figure: Figure::Count(model.live_keys) });
    lines.push(Line { name: "deleting_keys", figure: Figure::Count(model.deleting_keys) });
    lines.push(
        Line { name: "deleted_sample_keys", figure: Figure::Count(model.deleted_sample_keys) },
    );
    lines.push(
        Line {
            name: "oldest_live_age_seconds",
            figure: Figure::Seconds { nanos: model.oldest_live_age, places: 3 },
        },
    );
    lines.push(
        Line { name: "logical_live_bytes", figure: Figure::Count(verdict.logical_live_bytes) },
    );
    assert(lines@ =~= before + score_workload(totals, verdict, model, backlog));
}

/// What a scorecard says of space, at the end of the workload and after the grace period.
pub open spec fn score_space(
    totals: &RunTotals,
    verdict: &Verdict,
    terminal: &SpaceSnapshot,
    grace: &SpaceSnapshot,
) -> Seq<Line> {
    seq![
        Line {
            name: "terminal_directory_allocated_bytes",
            figure: Figure::Count(terminal.allocated_bytes),
        },
        Line {
            name: "terminal_directory_apparent_bytes",
            figure: Figure::Count(terminal.apparent_bytes),
        },
        Line {
            name: "terminal_space_amplification",
            figure: Figure::Ratio {
                part: terminal.allocated_bytes,
                whole: verdict.logical_live_bytes,
            },
        },
        Line {
            name: "terminal_strata_exact_epoch_bytes",
            figure: Figure::Count(terminal.strata_exact_epoch_bytes),
        },
        Line {
            name: "terminal_strata_spillover_bytes",
            figure: Figure::Count(terminal.strata_spillover_bytes),
        },
        Line {
            name: "terminal_strata_epoch_directories",
            figure: Figure::Count(terminal.strata_epoch_directories),
        },
        Line {
            name: "post_grace_directory_allocated_bytes",
            figure: Figure::Count(grace.allocated_bytes),
        },
        Line {
            name: "post_grace_directory_apparent_bytes",
            figure: Figure::Count(grace.apparent_bytes),
        },
        Line {
            name: "post_grace_space_amplification",
            figure: Figure::Ratio {
                part: grace.allocated_bytes,
                whole: verdict.logical_live_bytes,
            },
        },
        Line {
            name: "post_grace_strata_exact_epoch_bytes",
            figure: Figure::Count(grace.strata_exact_epoch_bytes),
        },
        Line {
            name: "post_grace_strata_spillover_bytes",
            figure: Figure::Count(grace.strata_spillover_bytes),
        },
        Line {
            name: "post_grace_strata_epoch_directories",
            figure: Figure::Count(grace.strata_epoch_directories),
        },
        Line {
            name: "strata_gc_output_bytes",
            figure: Figure::Counter("strata_store_gc_output_bytes_total"),
        },
        Line {
            name: "strata_gc_source_deleted_bytes",
            figure: Figure::Counter("strata_store_gc_source_deleted_bytes_total"),
        },
        Line {
            name: "strata_gc_reclaimed_bytes",
            figure: Figure::Counter("strata_store_gc_reclaimed_bytes_total"),
        },
        Line {
            name: "strata_segment_file_bytes_read",
            figure: Figure::Counter("strata_store_segment_file_bytes_read_total"),
        },
        Line {
            name: "strata_segment_file_bytes_written",
            figure: Figure::Counter("strata_store_segment_file_bytes_written_total"),
        },
        Line {
            name: "blobdb_blob_file_bytes_read",
            figure: Figure::Count(totals.blob_file_bytes_read),
        },
        Line {
            name: "blobdb_blob_file_bytes_written",
            figure: Figure::Count(totals.blob_file_bytes_written),
        },
        Line {
            name: "blobdb_gc_bytes_relocated",
            figure: Figure::Count(totals.blob_gc_bytes_relocated),
        },
        Line {
            name: "post_grace_filesystem_available_bytes",
            figure: Figure::Count(grace.filesystem_available_bytes),
        },
    ]
}

fn push_score_space(
    lines: &mut Vec<Line>,
    totals: &RunTotals,
    verdict: &Verdict,
    terminal: &SpaceSnapshot,
    grace: &SpaceSnapshot,
)
    ensures
        final(lines)@ == old(lines)@ + score_space(totals, verdict, terminal, grace),
{
    let ghost before = lines@;
    lines.push(
        Line {
            name: "terminal_directory_allocated_bytes",
            figure: Figure::Count(terminal.allocated_bytes),
        },
    );
    lines.push(
        Line {
            name: "terminal_directory_apparent_bytes",
            figure: Figure::Count(terminal.apparent_bytes),
        },
    );
    lines.push(
        Line {
            name: "terminal_space_amplification",
            figure: Figure::Ratio {
                part: terminal.allocated_bytes,
                whole: verdict.logical_live_bytes,
            },
        },
    );
    lines.push(
        Line {
            name: "terminal_strata_exact_epoch_bytes",
            figure: Figure::Count(terminal.strata_exact_epoch_bytes),
        },
    );
    lines.push(
        Line {
            name: "terminal_strata_spillover_bytes",
            figure: Figure::Count(terminal.strata_spillover_bytes),
        },
    );
    lines.push(
        Line {
            name: "terminal_strata_epoch_directories",
            figure: Figure::Count(terminal.strata_epoch_directories),
        },
    );
    lines.push(
        Line {
            name: "post_grace_directory_allocated_bytes",
            figure: Figure::Count(grace.allocated_bytes),
        },
    );
    lines.push(
        Line {
            name: "post_grace_directory_apparent_bytes",
            figure: Figure::Count(grace.apparent_bytes),
        },
    );
    lines.push(
        Line {
            name: "post_grace_space_amplification",
            figure: Figure::Ratio {
                part: grace.allocated_bytes,
                whole: verdict.logical_live_bytes,
            },
        },
    );
    lines.push(
        Line {
            name: "post_grace_strata_exact_epoch_bytes",
            figure: Figure::Count(grace.strata_exact_epoch_bytes),
        },
    );
    lines.push(
        Line {
            name: "post_grace_strata_spillover_bytes",
            figure: Figure::Count(grace.strata_spillover_bytes),
        },
    );
    lines.push(
        Line {
            name: "post_grace_strata_epoch_directories",
            figure: Figure::Count(grace.strata_epoch_directories),
        },
    );
    lines.push(
        Line {
            name: "strata_gc_output_bytes",
            figure: Figure::Counter("strata_store_gc_output_bytes_total"),
        },
    );
    lines.push(
        Line {
            name: "strata_gc_source_deleted_bytes",
            figure: Figure::Counter("strata_store_gc_source_deleted_bytes_total"),
        },
    );
    lines.push(
        Line {
            name: "strata_gc_reclaimed_bytes",
            figure: Figure::Counter("strata_store_gc_reclaimed_bytes_total"),
        },
    );
    lines.push(
        Line {
            name: "strata_segment_file_bytes_read",
            figure: Figure::Counter("strata_store_segment_file_bytes_read_total"),
        },
    );
    lines.push(
        Line {
            name: "strata_segment_file_bytes_written",
            figure: Figure::Counter("strata_store_segment_file_bytes_written_total"),
        },
    );
    lines.push(
        Line {
            name: "blobdb_blob_file_bytes_read",
            figure: Figure::Count(totals.blob_file_bytes_read),
        },
    );
    lines.push(
        Line {
            name: "blobdb_blob_file_bytes_written",
            figure: Figure::Count(totals.blob_file_bytes_written),
        },
    );
    lines.push(
        Line {
            name: "blobdb_gc_bytes_relocated",
            figure: Figure::Count(totals.blob_gc_bytes_relocated),
        },
    );
    lines.push(
        Line {
            name: "post_grace_filesystem_available_bytes",
            figure: Figure::Count(grace.filesystem_available_bytes),
        },
    );
    assert(lines@ =~= before + score_space(totals, verdict, terminal, grace));
}

/// Everything that a scorecard is made from.
pub struct RunResult {
    pub totals: RunTotals,
    pub verdict: Verdict,
    /// The first failure, or `none`.
    pub fatal_words: String,
    pub model: ModelSnapshot,
    pub backlog: DeleteBacklog,
    pub terminal_space: SpaceSnapshot,
    pub grace_space: SpaceSnapshot,
    /// The epoch at the end, and the lifetimes that were given, in epoch mode.
    pub epochs: Option<(Epoch, OffsetSummary)>,
}

/// The scorecard of a run.
pub open spec fn scorecard(config: &Config, result: &RunResult) -> Seq<Line> {
    score_opening(result.fatal_words, &result.totals, &result.verdict) + (match result.epochs {
        Some((epoch, offsets)) => score_epochs(config, &result.totals, epoch, &offsets),
        None => Seq::empty(),
    }) + score_workload(&result.totals, &result.verdict, &result.model, &result.backlog)
        + score_space(
        &result.totals,
        &result.verdict,
        &result.terminal_space,
        &result.grace_space,
    )
}

/// The scorecard of a run.
pub fn report_result(config: &Config, result: &RunResult) -> (lines: Vec<Line>)
    ensures
        lines@ == scorecard(config, result),
{
    let mut lines: Vec<Line> = Vec::new();
    push_score_opening(
        &mut lines,
        result.fatal_words.clone(),
        &result.totals,
        &result.verdict,
    );
    match &result.epochs {
        Some((epoch, offsets)) => push_score_epochs(
            &mut lines,
            config,
            &result.totals,
            *epoch,
            offsets,
        ),
        None => {},
    }
    push_score_workload(
        &mut lines,
        &result.totals,
        &result.verdict,
        &result.model,
        &result.backlog,
    );
    push_score_space(
        &mut lines,
        &result.totals,
        &result.verdict,
        &result.terminal_space,
        &result.grace_space,
    );
    assert(lines@ =~= scorecard(config, result));
    lines
}

// Laws.

/// A run with a failure, a wrong answer, slow reads or late deletes does not qualify.
pub proof fn law_broken_obligations_disqualify(
    config: &Config,
    totals: RunTotals,
    model: ModelSnapshot,
    backlog: DeleteBacklog,
    failed: bool,
    read_rate_kept: bool,
    deletes_timely: bool,
)
    requires
        failed || totals.correctness_errors > 0 || !read_rate_kept || totals.read_p99
            > config.read_p99_slo || !deletes_timely,
    ensures
        !verdict_of(
            config,
            totals,
            model,
            backlog,
            failed,
            read_rate_kept,
            deletes_timely,
        ).qualified,
{
}

} // verus!
