//! What of a store's metrics is shown: each figure with its name and its meaning.

use vstd::prelude::*;

use crate::metrics::{LabelTallies, StrataStoreMetrics, SyncPhases, Tally};

verus! {

/// How finely spans of time are told apart.
#[derive(Clone, Copy, Debug, PartialEq, Eq, Structural)]
pub enum Scale {
    /// Calls: from a microsecond to seconds.
    Operation,
    /// Syncs: from a microsecond to a minute.
    Sync,
    /// Compactions: from a millisecond to an hour.
    Compaction,
}

/// The upper bounds of the spans that a scale tells apart, in nanoseconds.
pub open spec fn scale_bounds(scale: Scale) -> Seq<u64> {
    match scale {
        Scale::Operation => seq![
            1_000u64, 5_000, 10_000, 25_000, 50_000, 100_000, 250_000, 500_000, 1_000_000,
            2_500_000, 5_000_000, 10_000_000, 25_000_000, 50_000_000, 100_000_000, 250_000_000,
            500_000_000, 1_000_000_000, 2_500_000_000, 5_000_000_000,
        ],
        Scale::Sync => seq![
            1_000u64, 5_000, 10_000, 25_000, 50_000, 100_000, 250_000, 500_000, 1_000_000,
            2_500_000, 5_000_000, 10_000_000, 25_000_000, 50_000_000, 100_000_000, 250_000_000,
            500_000_000, 1_000_000_000, 2_500_000_000, 5_000_000_000, 10_000_000_000,
            30_000_000_000, 60_000_000_000,
        ],
        Scale::Compaction => seq![
            1_000_000u64, 5_000_000, 10_000_000, 50_000_000, 100_000_000, 500_000_000,
            1_000_000_000, 5_000_000_000, 10_000_000_000, 30_000_000_000, 60_000_000_000,
            300_000_000_000, 1_200_000_000_000, 3_600_000_000_000,
        ],
    }
}

impl Scale {
    /// The upper bounds of the spans that are told apart, in nanoseconds.
    pub fn bounds(self) -> (bounds: Vec<u64>)
        ensures
            bounds@ == scale_bounds(self),
    {
        let bounds: Vec<u64> = match self {
            Scale::Operation => vec![
                1_000u64, 5_000, 10_000, 25_000, 50_000, 100_000, 250_000, 500_000, 1_000_000,
                2_500_000, 5_000_000, 10_000_000, 25_000_000, 50_000_000, 100_000_000,
                250_000_000, 500_000_000, 1_000_000_000, 2_500_000_000, 5_000_000_000,
            ],
            Scale::Sync => vec![
                1_000u64, 5_000, 10_000, 25_000, 50_000, 100_000, 250_000, 500_000, 1_000_000,
                2_500_000, 5_000_000, 10_000_000, 25_000_000, 50_000_000, 100_000_000,
                250_000_000, 500_000_000, 1_000_000_000, 2_500_000_000, 5_000_000_000,
                10_000_000_000, 30_000_000_000, 60_000_000_000,
            ],
            Scale::Compaction => vec![
                1_000_000u64, 5_000_000, 10_000_000, 50_000_000, 100_000_000, 500_000_000,
                1_000_000_000, 5_000_000_000, 10_000_000_000, 30_000_000_000, 60_000_000_000,
                300_000_000_000, 1_200_000_000_000, 3_600_000_000_000,
            ],
        };
        assert(bounds@ =~= scale_bounds(self));
        bounds
    }
}

/// The upper bounds of the sizes of commit groups that are told apart.
pub open spec fn group_bounds() -> Seq<u64> {
    seq![1u64, 2, 4, 8, 16]
}

/// The upper bounds of the sizes of commit groups that are told apart.
pub fn commit_group_bounds() -> (bounds: Vec<u64>)
    ensures
        bounds@ == group_bounds(),
{
    let bounds: Vec<u64> = vec![1, 2, 4, 8, 16];
    assert(bounds@ =~= group_bounds());
    bounds
}

/// What a figure shows.
#[derive(Clone, Copy, Debug)]
pub enum Reading<'a> {
    Counter(u64),
    Gauge(i64),
    /// Sizes of commit groups.
    Sizes(Tally),
    Spans { tally: Tally, scale: Scale },
    /// Counters by label, or by two.
    Labelled { label: &'static str, detail: Option<&'static str>, tallies: &'a LabelTallies },
    /// Spans by label.
    LabelledSpans { label: &'static str, tallies: &'a LabelTallies, scale: Scale },
    /// The phases of syncs, on the scale of syncs.
    Phases(SyncPhases),
}

/// One figure, with its meaning.
#[derive(Clone, Copy, Debug)]
pub struct StoreFigure<'a> {
    pub name: &'static str,
    pub help: &'static str,
    pub reading: Reading<'a>,
}

/// Writes.
pub open spec fn write_figures<'a>(metrics: &'a StrataStoreMetrics) -> Seq<StoreFigure<'a>> {
    seq![
        StoreFigure {
            name: "queued_write_commands",
            help: "Number of write commands queued for the Strata writer.",
            reading: Reading::Gauge(metrics.queued_write_commands),
        },
        StoreFigure {
            name: "write_queue_send_duration_seconds",
            help: "Time spent sending commands into the bounded Strata write queue.",
            reading: Reading::Spans { tally: metrics.write_queue_send_duration_seconds, scale: Scale::Operation },
        },
        StoreFigure {
            name: "write_queue_send_errors_total",
            help: "Total failures while sending commands into the Strata write queue.",
            reading: Reading::Counter(metrics.write_queue_send_errors_total),
        },
        StoreFigure {
            name: "requests_per_commit_group",
            help: "Successfully committed client batch requests per physical writer commit.",
            reading: Reading::Sizes(metrics.requests_per_commit_group),
        },
        StoreFigure {
            name: "put_calls_total",
            help: "Total Strata put calls.",
            reading: Reading::Counter(metrics.put_calls_total),
        },
        StoreFigure {
            name: "put_errors_total",
            help: "Total failed Strata put calls.",
            reading: Reading::Counter(metrics.put_errors_total),
        },
        StoreFigure {
            name: "put_duration_seconds",
            help: "Strata put latency in seconds.",
            reading: Reading::Spans { tally: metrics.put_duration_seconds, scale: Scale::Operation },
        },
        StoreFigure {
            name: "put_payload_bytes_total",
            help: "Total payload bytes accepted by Strata put calls.",
            reading: Reading::Counter(metrics.put_payload_bytes_total),
        },
        StoreFigure {
            name: "put_record_bytes_total",
            help: "Total encoded record bytes written by Strata put calls.",
            reading: Reading::Counter(metrics.put_record_bytes_total),
        },
        StoreFigure {
            name: "segment_file_bytes_read_total",
            help: "Total bytes successfully read from Strata segment files.",
            reading: Reading::Counter(metrics.segment_file_bytes_read_total),
        },
        StoreFigure {
            name: "segment_file_bytes_written_total",
            help: "Total bytes successfully appended to Strata segment files.",
            reading: Reading::Counter(metrics.segment_file_bytes_written_total),
        },
    ]
}

fn push_write_figures<'a>(figures: &mut Vec<StoreFigure<'a>>, metrics: &'a StrataStoreMetrics)
    ensures
        final(figures)@ == old(figures)@ + write_figures(metrics),
{
    let ghost before = figures@;
    figures.push(
        StoreFigure {
            name: "queued_write_commands",
            help: "Number of write commands queued for the Strata writer.",
            reading: Reading::Gauge(metrics.queued_write_commands),
        },
    );
    figures.push(
        StoreFigure {
            name: "write_queue_send_duration_seconds",
            help: "Time spent sending commands into the bounded Strata write queue.",
            reading: Reading::Spans { tally: metrics.write_queue_send_duration_seconds, scale: Scale::Operation },
        },
    );
    figures.push(
        StoreFigure {
            name: "write_queue_send_errors_total",
            help: "Total failures while sending commands into the Strata write queue.",
            reading: Reading::Counter(metrics.write_queue_send_errors_total),
        },
    );
    figures.push(
        StoreFigure {
            name: "requests_per_commit_group",
            help: "Successfully committed client batch requests per physical writer commit.",
            reading: Reading::Sizes(metrics.requests_per_commit_group),
        },
    );
    figures.push(
        StoreFigure {
            name: "put_calls_total",
            help: "Total Strata put calls.",
            reading: Reading::Counter(metrics.put_calls_total),
        },
    );
    figures.push(
        StoreFigure {
            name: "put_errors_total",
            help: "Total failed Strata put calls.",
            reading: Reading::Counter(metrics.put_errors_total),
        },
    );
    figures.push(
        StoreFigure {
            name: "put_duration_seconds",
            help: "Strata put latency in seconds.",
            reading: Reading::Spans { tally: metrics.put_duration_seconds, scale: Scale::Operation },
        },
    );
    figures.push(
        StoreFigure {
            name: "put_payload_bytes_total",
            help: "Total payload bytes accepted by Strata put calls.",
            reading: Reading::Counter(metrics.put_payload_bytes_total),
        },
    );
    figures.push(
        StoreFigure {
            name: "put_record_bytes_total",
            help: "Total encoded record bytes written by Strata put calls.",
            reading: Reading::Counter(metrics.put_record_bytes_total),
        },
    );
    figures.push(
        StoreFigure {
            name: "segment_file_bytes_read_total",
            help: "Total bytes successfully read from Strata segment files.",
            reading: Reading::Counter(metrics.segment_file_bytes_read_total),
        },
    );
    figures.push(
        StoreFigure {
            name: "segment_file_bytes_written_total",
            help: "Total bytes successfully appended to Strata segment files.",
            reading: Reading::Counter(metrics.segment_file_bytes_written_total),
        },
    );
    assert(figures@ =~= before + write_figures(metrics));
}

/// Deletes and durability.
pub open spec fn durability_figures<'a>(metrics: &'a StrataStoreMetrics) -> Seq<StoreFigure<'a>> {
    seq![
        StoreFigure {
            name: "delete_calls_total",
            help: "Total Strata delete calls.",
            reading: Reading::Counter(metrics.delete_calls_total),
        },
        StoreFigure {
            name: "delete_errors_total",
            help: "Total failed Strata delete calls.",
            reading: Reading::Counter(metrics.delete_errors_total),
        },
        StoreFigure {
            name: "delete_duration_seconds",
            help: "Strata delete latency in seconds.",
            reading: Reading::Spans { tally: metrics.delete_duration_seconds, scale: Scale::Operation },
        },
        StoreFigure {
            name: "sync_calls_total",
            help: "Total Strata sync calls.",
            reading: Reading::Counter(metrics.sync_calls_total),
        },
        StoreFigure {
            name: "sync_errors_total",
            help: "Total failed Strata sync calls.",
            reading: Reading::Counter(metrics.sync_errors_total),
        },
        StoreFigure {
            name: "sync_duration_seconds",
            help: "Strata sync latency in seconds.",
            reading: Reading::Spans { tally: metrics.sync_duration_seconds, scale: Scale::Sync },
        },
        StoreFigure {
            name: "sync_phase_duration_seconds",
            help: "Successful Strata durability publication latency by non-overlapping phase.",
            reading: Reading::Phases(metrics.sync_phase_duration_seconds),
        },
        StoreFigure {
            name: "wal_reclaim_phase_duration_seconds",
            help: "Background store-WAL reclamation latency by phase.",
            reading: Reading::LabelledSpans { label: "phase", tallies: &metrics.wal_reclaim_phase_duration_seconds, scale: Scale::Sync },
        },
        StoreFigure {
            name: "sync_bytes_total",
            help: "Total bytes made durable by Strata sync calls.",
            reading: Reading::Counter(metrics.sync_bytes_total),
        },
        StoreFigure {
            name: "durability_wal_bytes_total",
            help: "Total store-WAL bytes covered by successful durability publications.",
            reading: Reading::Counter(metrics.durability_wal_bytes_total),
        },
        StoreFigure {
            name: "durability_pending_wal_bytes",
            help: "Store-WAL bytes committed since the latest captured durability boundary.",
            reading: Reading::Gauge(metrics.durability_pending_wal_bytes),
        },
        StoreFigure {
            name: "durability_pending_segment_bytes",
            help: "Encoded segment bytes committed since the latest captured durability boundary.",
            reading: Reading::Gauge(metrics.durability_pending_segment_bytes),
        },
        StoreFigure {
            name: "durability_publish_in_flight",
            help: "Whether one asynchronous durability publication is currently in flight.",
            reading: Reading::Gauge(metrics.durability_publish_in_flight),
        },
    ]
}

fn push_durability_figures<'a>(figures: &mut Vec<StoreFigure<'a>>, metrics: &'a StrataStoreMetrics)
    ensures
        final(figures)@ == old(figures)@ + durability_figures(metrics),
{
    let ghost before = figures@;
    figures.push(
        StoreFigure {
            name: "delete_calls_total",
            help: "Total Strata delete calls.",
            reading: Reading::Counter(metrics.delete_calls_total),
        },
    );
    figures.push(
        StoreFigure {
            name: "delete_errors_total",
            help: "Total failed Strata delete calls.",
            reading: Reading::Counter(metrics.delete_errors_total),
        },
    );
    figures.push(
        StoreFigure {
            name: "delete_duration_seconds",
            help: "Strata delete latency in seconds.",
            reading: Reading::Spans { tally: metrics.delete_duration_seconds, scale: Scale::Operation },
        },
    );
    figures.push(
        StoreFigure {
            name: "sync_calls_total",
            help: "Total Strata sync calls.",
            reading: Reading::Counter(metrics.sync_calls_total),
        },
    );
    figures.push(
        StoreFigure {
            name: "sync_errors_total",
            help: "Total failed Strata sync calls.",
            reading: Reading::Counter(metrics.sync_errors_total),
        },
    );
    figures.push(
        StoreFigure {
            name: "sync_duration_seconds",
            help: "Strata sync latency in seconds.",
            reading: Reading::Spans { tally: metrics.sync_duration_seconds, scale: Scale::Sync },
        },
    );
    figures.push(
        StoreFigure {
            name: "sync_phase_duration_seconds",
            help: "Successful Strata durability publication latency by non-overlapping phase.",
            reading: Reading::Phases(metrics.sync_phase_duration_seconds),
        },
    );
    figures.push(
        StoreFigure {
            name: "wal_reclaim_phase_duration_seconds",
            help: "Background store-WAL reclamation latency by phase.",
            reading: Reading::LabelledSpans { label: "phase", tallies: &metrics.wal_reclaim_phase_duration_seconds, scale: Scale::Sync },
        },
    );
    figures.push(
        StoreFigure {
            name: "sync_bytes_total",
            help: "Total bytes made durable by Strata sync calls.",
            reading: Reading::Counter(metrics.sync_bytes_total),
        },
    );
    figures.push(
        StoreFigure {
            name: "durability_wal_bytes_total",
            help: "Total store-WAL bytes covered by successful durability publications.",
            reading: Reading::Counter(metrics.durability_wal_bytes_total),
        },
    );
    figures.push(
        StoreFigure {
            name: "durability_pending_wal_bytes",
            help: "Store-WAL bytes committed since the latest captured durability boundary.",
            reading: Reading::Gauge(metrics.durability_pending_wal_bytes),
        },
    );
    figures.push(
        StoreFigure {
            name: "durability_pending_segment_bytes",
            help: "Encoded segment bytes committed since the latest captured durability boundary.",
            reading: Reading::Gauge(metrics.durability_pending_segment_bytes),
        },
    );
    figures.push(
        StoreFigure {
            name: "durability_publish_in_flight",
            help: "Whether one asynchronous durability publication is currently in flight.",
            reading: Reading::Gauge(metrics.durability_publish_in_flight),
        },
    );
    assert(figures@ =~= before + durability_figures(metrics));
}

/// Whole reads.
pub open spec fn read_figures<'a>(metrics: &'a StrataStoreMetrics) -> Seq<StoreFigure<'a>> {
    seq![
        StoreFigure {
            name: "get_calls_total",
            help: "Total Strata get calls.",
            reading: Reading::Counter(metrics.get_calls_total),
        },
        StoreFigure {
            name: "get_hits_total",
            help: "Total Strata get calls that found a blob.",
            reading: Reading::Counter(metrics.get_hits_total),
        },
        StoreFigure {
            name: "get_misses_total",
            help: "Total Strata get calls that did not find a blob.",
            reading: Reading::Counter(metrics.get_misses_total),
        },
        StoreFigure {
            name: "get_errors_total",
            help: "Total failed Strata get calls.",
            reading: Reading::Counter(metrics.get_errors_total),
        },
        StoreFigure {
            name: "get_duration_seconds",
            help: "Strata get latency in seconds.",
            reading: Reading::Spans { tally: metrics.get_duration_seconds, scale: Scale::Operation },
        },
        StoreFigure {
            name: "get_payload_bytes_total",
            help: "Total payload bytes returned by Strata get calls.",
            reading: Reading::Counter(metrics.get_payload_bytes_total),
        },
    ]
}

fn push_read_figures<'a>(figures: &mut Vec<StoreFigure<'a>>, metrics: &'a StrataStoreMetrics)
    ensures
        final(figures)@ == old(figures)@ + read_figures(metrics),
{
    let ghost before = figures@;
    figures.push(
        StoreFigure {
            name: "get_calls_total",
            help: "Total Strata get calls.",
            reading: Reading::Counter(metrics.get_calls_total),
        },
    );
    figures.push(
        StoreFigure {
            name: "get_hits_total",
            help: "Total Strata get calls that found a blob.",
            reading: Reading::Counter(metrics.get_hits_total),
        },
    );
    figures.push(
        StoreFigure {
            name: "get_misses_total",
            help: "Total Strata get calls that did not find a blob.",
            reading: Reading::Counter(metrics.get_misses_total),
        },
    );
    figures.push(
        StoreFigure {
            name: "get_errors_total",
            help: "Total failed Strata get calls.",
            reading: Reading::Counter(metrics.get_errors_total),
        },
    );
    figures.push(
        StoreFigure {
            name: "get_duration_seconds",
            help: "Strata get latency in seconds.",
            reading: Reading::Spans { tally: metrics.get_duration_seconds, scale: Scale::Operation },
        },
    );
    figures.push(
        StoreFigure {
            name: "get_payload_bytes_total",
            help: "Total payload bytes returned by Strata get calls.",
            reading: Reading::Counter(metrics.get_payload_bytes_total),
        },
    );
    assert(figures@ =~= before + read_figures(metrics));
}

/// Relocations and compaction.
pub open spec fn compaction_figures<'a>(metrics: &'a StrataStoreMetrics) -> Seq<StoreFigure<'a>> {
    seq![
        StoreFigure {
            name: "relocation_cache_requests_total",
            help: "Total relocation-cache requests by result.",
            reading: Reading::Labelled { label: "result", detail: None, tallies: &metrics.relocation_cache_requests_total },
        },
        StoreFigure {
            name: "relocation_lookups_total",
            help: "Total relocation LSM point lookups by result.",
            reading: Reading::Labelled { label: "result", detail: None, tallies: &metrics.relocation_lookups_total },
        },
        StoreFigure {
            name: "relocation_lookup_duration_seconds",
            help: "Relocation LSM point lookup latency in seconds.",
            reading: Reading::Spans { tally: metrics.relocation_lookup_duration_seconds, scale: Scale::Operation },
        },
        StoreFigure {
            name: "main_compaction_healed_references_total",
            help: "Total physical references updated by successful main LSM compactions.",
            reading: Reading::Counter(metrics.main_compaction_healed_references_total),
        },
        StoreFigure {
            name: "main_compaction_duration_seconds",
            help: "Wall-clock duration of successful main LSM compactions.",
            reading: Reading::Spans { tally: metrics.main_compaction_duration_seconds, scale: Scale::Compaction },
        },
        StoreFigure {
            name: "main_compaction_input_bytes_total",
            help: "Encoded main SST input bytes consumed by successful compactions; this is not a device I/O counter.",
            reading: Reading::Counter(metrics.main_compaction_input_bytes_total),
        },
        StoreFigure {
            name: "main_compaction_output_bytes_total",
            help: "Encoded main SST output bytes created by successful compactions; this is not a device I/O counter.",
            reading: Reading::Counter(metrics.main_compaction_output_bytes_total),
        },
        StoreFigure {
            name: "main_minor_compaction_lsn",
            help: "Highest durable LSN cutoff processed by a successful minor main LSM compaction in this process.",
            reading: Reading::Gauge(metrics.main_minor_compaction_lsn),
        },
        StoreFigure {
            name: "main_full_compaction_lsn",
            help: "Highest durable LSN cutoff processed by a successful full main LSM compaction in this process.",
            reading: Reading::Gauge(metrics.main_full_compaction_lsn),
        },
        StoreFigure {
            name: "relocation_compaction_entries_examined_total",
            help: "Total logical relocation entries examined by successful relocation LSM compactions.",
            reading: Reading::Counter(metrics.relocation_compaction_entries_examined_total),
        },
        StoreFigure {
            name: "relocation_compaction_entries_dropped_total",
            help: "Total relocation entries targeting deleted segments dropped by successful relocation LSM compactions.",
            reading: Reading::Counter(metrics.relocation_compaction_entries_dropped_total),
        },
        StoreFigure {
            name: "relocation_compaction_duration_seconds",
            help: "Wall-clock duration of successful relocation LSM compactions.",
            reading: Reading::Spans { tally: metrics.relocation_compaction_duration_seconds, scale: Scale::Compaction },
        },
        StoreFigure {
            name: "relocation_compaction_input_bytes_total",
            help: "Encoded relocation SST input bytes consumed by successful compactions; this is not a device I/O counter.",
            reading: Reading::Counter(metrics.relocation_compaction_input_bytes_total),
        },
        StoreFigure {
            name: "relocation_compaction_output_bytes_total",
            help: "Encoded relocation SST output bytes created by successful compactions; this is not a device I/O counter.",
            reading: Reading::Counter(metrics.relocation_compaction_output_bytes_total),
        },
        StoreFigure {
            name: "relocation_compaction_passes_total",
            help: "Total relocation LSM compaction passes by shape (partial merges a patch tier; full rewrites base tables).",
            reading: Reading::Labelled { label: "kind", detail: None, tallies: &metrics.relocation_compaction_passes_total },
        },
        StoreFigure {
            name: "relocation_compaction_pass_input_bytes_total",
            help: "Total relocation LSM compaction input bytes by pass shape.",
            reading: Reading::Labelled { label: "kind", detail: None, tallies: &metrics.relocation_compaction_pass_input_bytes_total },
        },
    ]
}

fn push_compaction_figures<'a>(figures: &mut Vec<StoreFigure<'a>>, metrics: &'a StrataStoreMetrics)
    ensures
        final(figures)@ == old(figures)@ + compaction_figures(metrics),
{
    let ghost before = figures@;
    figures.push(
        StoreFigure {
            name: "relocation_cache_requests_total",
            help: "Total relocation-cache requests by result.",
            reading: Reading::Labelled { label: "result", detail: None, tallies: &metrics.relocation_cache_requests_total },
        },
    );
    figures.push(
        StoreFigure {
            name: "relocation_lookups_total",
            help: "Total relocation LSM point lookups by result.",
            reading: Reading::Labelled { label: "result", detail: None, tallies: &metrics.relocation_lookups_total },
        },
    );
    figures.push(
        StoreFigure {
            name: "relocation_lookup_duration_seconds",
            help: "Relocation LSM point lookup latency in seconds.",
            reading: Reading::Spans { tally: metrics.relocation_lookup_duration_seconds, scale: Scale::Operation },
        },
    );
    figures.push(
        StoreFigure {
            name: "main_compaction_healed_references_total",
            help: "Total physical references updated by successful main LSM compactions.",
            reading: Reading::Counter(metrics.main_compaction_healed_references_total),
        },
    );
    figures.push(
        StoreFigure {
            name: "main_compaction_duration_seconds",
            help: "Wall-clock duration of successful main LSM compactions.",
            reading: Reading::Spans { tally: metrics.main_compaction_duration_seconds, scale: Scale::Compaction },
        },
    );
    figures.push(
        StoreFigure {
            name: "main_compaction_input_bytes_total",
            help: "Encoded main SST input bytes consumed by successful compactions; this is not a device I/O counter.",
            reading: Reading::Counter(metrics.main_compaction_input_bytes_total),
        },
    );
    figures.push(
        StoreFigure {
            name: "main_compaction_output_bytes_total",
            help: "Encoded main SST output bytes created by successful compactions; this is not a device I/O counter.",
            reading: Reading::Counter(metrics.main_compaction_output_bytes_total),
        },
    );
    figures.push(
        StoreFigure {
            name: "main_minor_compaction_lsn",
            help: "Highest durable LSN cutoff processed by a successful minor main LSM compaction in this process.",
            reading: Reading::Gauge(metrics.main_minor_compaction_lsn),
        },
    );
    figures.push(
        StoreFigure {
            name: "main_full_compaction_lsn",
            help: "Highest durable LSN cutoff processed by a successful full main LSM compaction in this process.",
            reading: Reading::Gauge(metrics.main_full_compaction_lsn),
        },
    );
    figures.push(
        StoreFigure {
            name: "relocation_compaction_entries_examined_total",
            help: "Total logical relocation entries examined by successful relocation LSM compactions.",
            reading: Reading::Counter(metrics.relocation_compaction_entries_examined_total),
        },
    );
    figures.push(
        StoreFigure {
            name: "relocation_compaction_entries_dropped_total",
            help: "Total relocation entries targeting deleted segments dropped by successful relocation LSM compactions.",
            reading: Reading::Counter(metrics.relocation_compaction_entries_dropped_total),
        },
    );
    figures.push(
        StoreFigure {
            name: "relocation_compaction_duration_seconds",
            help: "Wall-clock duration of successful relocation LSM compactions.",
            reading: Reading::Spans { tally: metrics.relocation_compaction_duration_seconds, scale: Scale::Compaction },
        },
    );
    figures.push(
        StoreFigure {
            name: "relocation_compaction_input_bytes_total",
            help: "Encoded relocation SST input bytes consumed by successful compactions; this is not a device I/O counter.",
            reading: Reading::Counter(metrics.relocation_compaction_input_bytes_total),
        },
    );
    figures.push(
        StoreFigure {
            name: "relocation_compaction_output_bytes_total",
            help: "Encoded relocation SST output bytes created by successful compactions; this is not a device I/O counter.",
            reading: Reading::Counter(metrics.relocation_compaction_output_bytes_total),
        },
    );
    figures.push(
        StoreFigure {
            name: "relocation_compaction_passes_total",
            help: "Total relocation LSM compaction passes by shape (partial merges a patch tier; full rewrites base tables).",
            reading: Reading::Labelled { label: "kind", detail: None, tallies: &metrics.relocation_compaction_passes_total },
        },
    );
    figures.push(
        StoreFigure {
            name: "relocation_compaction_pass_input_bytes_total",
            help: "Total relocation LSM compaction input bytes by pass shape.",
            reading: Reading::Labelled { label: "kind", detail: None, tallies: &metrics.relocation_compaction_pass_input_bytes_total },
        },
    );
    assert(figures@ =~= before + compaction_figures(metrics));
}

/// Partial reads.
pub open spec fn range_figures<'a>(metrics: &'a StrataStoreMetrics) -> Seq<StoreFigure<'a>> {
    seq![
        StoreFigure {
            name: "range_read_calls_total",
            help: "Total Strata range read calls.",
            reading: Reading::Counter(metrics.range_read_calls_total),
        },
        StoreFigure {
            name: "range_read_hits_total",
            help: "Total Strata range reads that found a blob.",
            reading: Reading::Counter(metrics.range_read_hits_total),
        },
        StoreFigure {
            name: "range_read_misses_total",
            help: "Total Strata range reads that did not find a blob.",
            reading: Reading::Counter(metrics.range_read_misses_total),
        },
        StoreFigure {
            name: "range_read_errors_total",
            help: "Total failed Strata range reads.",
            reading: Reading::Counter(metrics.range_read_errors_total),
        },
        StoreFigure {
            name: "range_read_duration_seconds",
            help: "Strata range read latency in seconds.",
            reading: Reading::Spans { tally: metrics.range_read_duration_seconds, scale: Scale::Operation },
        },
        StoreFigure {
            name: "range_read_payload_bytes_total",
            help: "Total payload bytes returned by Strata range reads.",
            reading: Reading::Counter(metrics.range_read_payload_bytes_total),
        },
        StoreFigure {
            name: "stream_calls_total",
            help: "Total Strata stream setup calls.",
            reading: Reading::Counter(metrics.stream_calls_total),
        },
        StoreFigure {
            name: "stream_hits_total",
            help: "Total Strata stream setup calls that found a blob.",
            reading: Reading::Counter(metrics.stream_hits_total),
        },
        StoreFigure {
            name: "stream_misses_total",
            help: "Total Strata stream setup calls that did not find a blob.",
            reading: Reading::Counter(metrics.stream_misses_total),
        },
        StoreFigure {
            name: "stream_errors_total",
            help: "Total failed Strata stream setup calls.",
            reading: Reading::Counter(metrics.stream_errors_total),
        },
        StoreFigure {
            name: "stream_duration_seconds",
            help: "Strata stream setup latency in seconds.",
            reading: Reading::Spans { tally: metrics.stream_duration_seconds, scale: Scale::Operation },
        },
        StoreFigure {
            name: "reader_cache_evictions_total",
            help: "Total Strata segment reader cache evictions.",
            reading: Reading::Counter(metrics.reader_cache_evictions_total),
        },
        StoreFigure {
            name: "orphaned_segment_records_total",
            help: "Total Strata records appended before their metadata batch failed.",
            reading: Reading::Counter(metrics.orphaned_segment_records_total),
        },
        StoreFigure {
            name: "orphaned_segment_bytes_total",
            help: "Total Strata segment bytes appended before their metadata batch failed.",
            reading: Reading::Counter(metrics.orphaned_segment_bytes_total),
        },
    ]
}

fn push_range_figures<'a>(figures: &mut Vec<StoreFigure<'a>>, metrics: &'a StrataStoreMetrics)
    ensures
        final(figures)@ == old(figures)@ + range_figures(metrics),
{
    let ghost before = figures@;
    figures.push(
        StoreFigure {
            name: "range_read_calls_total",
            help: "Total Strata range read calls.",
            reading: Reading::Counter(metrics.range_read_calls_total),
        },
    );
    figures.push(
        StoreFigure {
            name: "range_read_hits_total",
            help: "Total Strata range reads that found a blob.",
            reading: Reading::Counter(metrics.range_read_hits_total),
        },
    );
    figures.push(
        StoreFigure {
            name: "range_read_misses_total",
            help: "Total Strata range reads that did not find a blob.",
            reading: Reading::Counter(metrics.range_read_misses_total),
        },
    );
    figures.push(
        StoreFigure {
            name: "range_read_errors_total",
            help: "Total failed Strata range reads.",
            reading: Reading::Counter(metrics.range_read_errors_total),
        },
    );
    figures.push(
        StoreFigure {
            name: "range_read_duration_seconds",
            help: "Strata range read latency in seconds.",
            reading: Reading::Spans { tally: metrics.range_read_duration_seconds, scale: Scale::Operation },
        },
    );
    figures.push(
        StoreFigure {
            name: "range_read_payload_bytes_total",
            help: "Total payload bytes returned by Strata range reads.",
            reading: Reading::Counter(metrics.range_read_payload_bytes_total),
        },
    );
    figures.push(
        StoreFigure {
            name: "stream_calls_total",
            help: "Total Strata stream setup calls.",
            reading: Reading::Counter(metrics.stream_calls_total),
        },
    );
    figures.push(
        StoreFigure {
            name: "stream_hits_total",
            help: "Total Strata stream setup calls that found a blob.",
            reading: Reading::Counter(metrics.stream_hits_total),
        },
    );
    figures.push(
        StoreFigure {
            name: "stream_misses_total",
            help: "Total Strata stream setup calls that did not find a blob.",
            reading: Reading::Counter(metrics.stream_misses_total),
        },
    );
    figures.push(
        StoreFigure {
            name: "stream_errors_total",
            help: "Total failed Strata stream setup calls.",
            reading: Reading::Counter(metrics.stream_errors_total),
        },
    );
    figures.push(
        StoreFigure {
            name: "stream_duration_seconds",
            help: "Strata stream setup latency in seconds.",
            reading: Reading::Spans { tally: metrics.stream_duration_seconds, scale: Scale::Operation },
        },
    );
    figures.push(
        StoreFigure {
            name: "reader_cache_evictions_total",
            help: "Total Strata segment reader cache evictions.",
            reading: Reading::Counter(metrics.reader_cache_evictions_total),
        },
    );
    figures.push(
        StoreFigure {
            name: "orphaned_segment_records_total",
            help: "Total Strata records appended before their metadata batch failed.",
            reading: Reading::Counter(metrics.orphaned_segment_records_total),
        },
    );
    figures.push(
        StoreFigure {
            name: "orphaned_segment_bytes_total",
            help: "Total Strata segment bytes appended before their metadata batch failed.",
            reading: Reading::Counter(metrics.orphaned_segment_bytes_total),
        },
    );
    assert(figures@ =~= before + range_figures(metrics));
}

/// The segment that is written, and the LSNs.
pub open spec fn segment_figures<'a>(metrics: &'a StrataStoreMetrics) -> Seq<StoreFigure<'a>> {
    seq![
        StoreFigure {
            name: "active_segment_id",
            help: "Current active Strata segment id.",
            reading: Reading::Gauge(metrics.active_segment_id),
        },
        StoreFigure {
            name: "active_segment_write_offset",
            help: "Current active Strata segment write offset.",
            reading: Reading::Gauge(metrics.active_segment_write_offset),
        },
        StoreFigure {
            name: "active_segment_durable_offset",
            help: "Current active Strata segment durable offset.",
            reading: Reading::Gauge(metrics.active_segment_durable_offset),
        },
        StoreFigure {
            name: "next_lsn",
            help: "Next Strata LSN to assign.",
            reading: Reading::Gauge(metrics.next_lsn),
        },
        StoreFigure {
            name: "published_lsn",
            help: "Highest contiguous durable Strata LSN.",
            reading: Reading::Gauge(metrics.published_lsn),
        },
    ]
}

fn push_segment_figures<'a>(figures: &mut Vec<StoreFigure<'a>>, metrics: &'a StrataStoreMetrics)
    ensures
        final(figures)@ == old(figures)@ + segment_figures(metrics),
{
    let ghost before = figures@;
    figures.push(
        StoreFigure {
            name: "active_segment_id",
            help: "Current active Strata segment id.",
            reading: Reading::Gauge(metrics.active_segment_id),
        },
    );
    figures.push(
        StoreFigure {
            name: "active_segment_write_offset",
            help: "Current active Strata segment write offset.",
            reading: Reading::Gauge(metrics.active_segment_write_offset),
        },
    );
    figures.push(
        StoreFigure {
            name: "active_segment_durable_offset",
            help: "Current active Strata segment durable offset.",
            reading: Reading::Gauge(metrics.active_segment_durable_offset),
        },
    );
    figures.push(
        StoreFigure {
            name: "next_lsn",
            help: "Next Strata LSN to assign.",
            reading: Reading::Gauge(metrics.next_lsn),
        },
    );
    figures.push(
        StoreFigure {
            name: "published_lsn",
            help: "Highest contiguous durable Strata LSN.",
            reading: Reading::Gauge(metrics.published_lsn),
        },
    );
    assert(figures@ =~= before + segment_figures(metrics));
}

/// Known garbage and its collection.
pub open spec fn garbage_figures<'a>(metrics: &'a StrataStoreMetrics) -> Seq<StoreFigure<'a>> {
    seq![
        StoreFigure {
            name: "gc_known_total_bytes",
            help: "Encoded segment bytes classified in Strata GC summaries.",
            reading: Reading::Gauge(metrics.gc_known_total_bytes),
        },
        StoreFigure {
            name: "gc_known_live_bytes",
            help: "Encoded segment bytes currently classified live in Strata GC summaries.",
            reading: Reading::Gauge(metrics.gc_known_live_bytes),
        },
        StoreFigure {
            name: "gc_known_retired_bytes",
            help: "Encoded segment bytes currently classified retired in Strata GC summaries.",
            reading: Reading::Gauge(metrics.gc_known_retired_bytes),
        },
        StoreFigure {
            name: "gc_known_expired_bytes",
            help: "Encoded segment bytes currently classified expired in Strata GC summaries.",
            reading: Reading::Gauge(metrics.gc_known_expired_bytes),
        },
        StoreFigure {
            name: "gc_known_live_ref_count",
            help: "Physical references currently classified live in Strata GC summaries.",
            reading: Reading::Gauge(metrics.gc_known_live_ref_count),
        },
        StoreFigure {
            name: "gc_relocating_segments",
            help: "Sealed source segments fenced between GC relocation publish and final deletion.",
            reading: Reading::Gauge(metrics.gc_relocating_segments),
        },
        StoreFigure {
            name: "gc_output_bytes_total",
            help: "Encoded bytes in GC output segments that were successfully published.",
            reading: Reading::Counter(metrics.gc_output_bytes_total),
        },
        StoreFigure {
            name: "gc_source_deleted_bytes_total",
            help: "Physical bytes in GC source segment files that were successfully unlinked.",
            reading: Reading::Counter(metrics.gc_source_deleted_bytes_total),
        },
        StoreFigure {
            name: "gc_reclaimed_bytes_total",
            help: "Net physical bytes reclaimed by GC after subtracting replacement output bytes from successfully unlinked source bytes.",
            reading: Reading::Counter(metrics.gc_reclaimed_bytes_total),
        },
        StoreFigure {
            name: "gc_strategy_selected_total",
            help: "GC plans successfully selected and source-claimed, classified by strategy and action.",
            reading: Reading::Labelled { label: "strategy", detail: Some("action"), tallies: &metrics.gc_strategy_selected_total },
        },
        StoreFigure {
            name: "gc_strategy_completed_total",
            help: "GC plans whose metadata or relocation publication completed successfully, classified by strategy and action.",
            reading: Reading::Labelled { label: "strategy", detail: Some("action"), tallies: &metrics.gc_strategy_completed_total },
        },
        StoreFigure {
            name: "gc_strategy_output_bytes_total",
            help: "Encoded bytes in successfully published GC output segments, classified by originating strategy.",
            reading: Reading::Labelled { label: "strategy", detail: None, tallies: &metrics.gc_strategy_output_bytes_total },
        },
        StoreFigure {
            name: "gc_strategy_source_deleted_bytes_total",
            help: "Physical source-file bytes successfully unlinked, attributed to the GC strategy that made them reclaimable.",
            reading: Reading::Labelled { label: "strategy", detail: None, tallies: &metrics.gc_strategy_source_deleted_bytes_total },
        },
        StoreFigure {
            name: "gc_strategy_reclaimed_bytes_total",
            help: "Net physical bytes reclaimed after subtracting replacement output, attributed to the originating GC strategy.",
            reading: Reading::Labelled { label: "strategy", detail: None, tallies: &metrics.gc_strategy_reclaimed_bytes_total },
        },
    ]
}

fn push_garbage_figures<'a>(figures: &mut Vec<StoreFigure<'a>>, metrics: &'a StrataStoreMetrics)
    ensures
        final(figures)@ == old(figures)@ + garbage_figures(metrics),
{
    let ghost before = figures@;
    figures.push(
        StoreFigure {
            name: "gc_known_total_bytes",
            help: "Encoded segment bytes classified in Strata GC summaries.",
            reading: Reading::Gauge(metrics.gc_known_total_bytes),
        },
    );
    figures.push(
        StoreFigure {
            name: "gc_known_live_bytes",
            help: "Encoded segment bytes currently classified live in Strata GC summaries.",
            reading: Reading::Gauge(metrics.gc_known_live_bytes),
        },
    );
    figures.push(
        StoreFigure {
            name: "gc_known_retired_bytes",
            help: "Encoded segment bytes currently classified retired in Strata GC summaries.",
            reading: Reading::Gauge(metrics.gc_known_retired_bytes),
        },
    );
    figures.push(
        StoreFigure {
            name: "gc_known_expired_bytes",
            help: "Encoded segment bytes currently classified expired in Strata GC summaries.",
            reading: Reading::Gauge(metrics.gc_known_expired_bytes),
        },
    );
    figures.push(
        StoreFigure {
            name: "gc_known_live_ref_count",
            help: "Physical references currently classified live in Strata GC summaries.",
            reading: Reading::Gauge(metrics.gc_known_live_ref_count),
        },
    );
    figures.push(
        StoreFigure {
            name: "gc_relocating_segments",
            help: "Sealed source segments fenced between GC relocation publish and final deletion.",
            reading: Reading::Gauge(metrics.gc_relocating_segments),
        },
    );
    figures.push(
        StoreFigure {
            name: "gc_output_bytes_total",
            help: "Encoded bytes in GC output segments that were successfully published.",
            reading: Reading::Counter(metrics.gc_output_bytes_total),
        },
    );
    figures.push(
        StoreFigure {
            name: "gc_source_deleted_bytes_total",
            help: "Physical bytes in GC source segment files that were successfully unlinked.",
            reading: Reading::Counter(metrics.gc_source_deleted_bytes_total),
        },
    );
    figures.push(
        StoreFigure {
            name: "gc_reclaimed_bytes_total",
            help: "Net physical bytes reclaimed by GC after subtracting replacement output bytes from successfully unlinked source bytes.",
            reading: Reading::Counter(metrics.gc_reclaimed_bytes_total),
        },
    );
    figures.push(
        StoreFigure {
            name: "gc_strategy_selected_total",
            help: "GC plans successfully selected and source-claimed, classified by strategy and action.",
            reading: Reading::Labelled { label: "strategy", detail: Some("action"), tallies: &metrics.gc_strategy_selected_total },
        },
    );
    figures.push(
        StoreFigure {
            name: "gc_strategy_completed_total",
            help: "GC plans whose metadata or relocation publication completed successfully, classified by strategy and action.",
            reading: Reading::Labelled { label: "strategy", detail: Some("action"), tallies: &metrics.gc_strategy_completed_total },
        },
    );
    figures.push(
        StoreFigure {
            name: "gc_strategy_output_bytes_total",
            help: "Encoded bytes in successfully published GC output segments, classified by originating strategy.",
            reading: Reading::Labelled { label: "strategy", detail: None, tallies: &metrics.gc_strategy_output_bytes_total },
        },
    );
    figures.push(
        StoreFigure {
            name: "gc_strategy_source_deleted_bytes_total",
            help: "Physical source-file bytes successfully unlinked, attributed to the GC strategy that made them reclaimable.",
            reading: Reading::Labelled { label: "strategy", detail: None, tallies: &metrics.gc_strategy_source_deleted_bytes_total },
        },
    );
    figures.push(
        StoreFigure {
            name: "gc_strategy_reclaimed_bytes_total",
            help: "Net physical bytes reclaimed after subtracting replacement output, attributed to the originating GC strategy.",
            reading: Reading::Labelled { label: "strategy", detail: None, tallies: &metrics.gc_strategy_reclaimed_bytes_total },
        },
    );
    assert(figures@ =~= before + garbage_figures(metrics));
}

/// Epochs and sealing.
pub open spec fn sealing_figures<'a>(metrics: &'a StrataStoreMetrics) -> Seq<StoreFigure<'a>> {
    seq![
        StoreFigure {
            name: "current_epoch",
            help: "Current Strata epoch.",
            reading: Reading::Gauge(metrics.current_epoch),
        },
        StoreFigure {
            name: "pending_lsn_count",
            help: "Number of assigned Strata LSNs not yet known durable.",
            reading: Reading::Gauge(metrics.pending_lsn_count),
        },
        StoreFigure {
            name: "unsealed_segments",
            help: "Number of unsealed Strata segments.",
            reading: Reading::Gauge(metrics.unsealed_segments),
        },
        StoreFigure {
            name: "sealed_segments_total",
            help: "Total Strata segments sealed.",
            reading: Reading::Counter(metrics.sealed_segments_total),
        },
        StoreFigure {
            name: "seal_errors_total",
            help: "Total Strata segment seal failures.",
            reading: Reading::Counter(metrics.seal_errors_total),
        },
        StoreFigure {
            name: "seal_backpressure_waits_total",
            help: "Total times Strata writes waited for unsealed segment backlog capacity.",
            reading: Reading::Counter(metrics.seal_backpressure_waits_total),
        },
        StoreFigure {
            name: "seal_backpressure_wait_duration_seconds",
            help: "Time Strata writes spent waiting for unsealed segment backlog capacity.",
            reading: Reading::Spans { tally: metrics.seal_backpressure_wait_duration_seconds, scale: Scale::Operation },
        },
        StoreFigure {
            name: "seal_backpressure_current",
            help: "Whether the Strata writer is currently waiting for unsealed segment backlog capacity.",
            reading: Reading::Gauge(metrics.seal_backpressure_current),
        },
    ]
}

fn push_sealing_figures<'a>(figures: &mut Vec<StoreFigure<'a>>, metrics: &'a StrataStoreMetrics)
    ensures
        final(figures)@ == old(figures)@ + sealing_figures(metrics),
{
    let ghost before = figures@;
    figures.push(
        StoreFigure {
            name: "current_epoch",
            help: "Current Strata epoch.",
            reading: Reading::Gauge(metrics.current_epoch),
        },
    );
    figures.push(
        StoreFigure {
            name: "pending_lsn_count",
            help: "Number of assigned Strata LSNs not yet known durable.",
            reading: Reading::Gauge(metrics.pending_lsn_count),
        },
    );
    figures.push(
        StoreFigure {
            name: "unsealed_segments",
            help: "Number of unsealed Strata segments.",
            reading: Reading::Gauge(metrics.unsealed_segments),
        },
    );
    figures.push(
        StoreFigure {
            name: "sealed_segments_total",
            help: "Total Strata segments sealed.",
            reading: Reading::Counter(metrics.sealed_segments_total),
        },
    );
    figures.push(
        StoreFigure {
            name: "seal_errors_total",
            help: "Total Strata segment seal failures.",
            reading: Reading::Counter(metrics.seal_errors_total),
        },
    );
    figures.push(
        StoreFigure {
            name: "seal_backpressure_waits_total",
            help: "Total times Strata writes waited for unsealed segment backlog capacity.",
            reading: Reading::Counter(metrics.seal_backpressure_waits_total),
        },
    );
    figures.push(
        StoreFigure {
            name: "seal_backpressure_wait_duration_seconds",
            help: "Time Strata writes spent waiting for unsealed segment backlog capacity.",
            reading: Reading::Spans { tally: metrics.seal_backpressure_wait_duration_seconds, scale: Scale::Operation },
        },
    );
    figures.push(
        StoreFigure {
            name: "seal_backpressure_current",
            help: "Whether the Strata writer is currently waiting for unsealed segment backlog capacity.",
            reading: Reading::Gauge(metrics.seal_backpressure_current),
        },
    );
    assert(figures@ =~= before + sealing_figures(metrics));
}

/// Recovery.
pub open spec fn recovery_figures<'a>(metrics: &'a StrataStoreMetrics) -> Seq<StoreFigure<'a>> {
    seq![
        StoreFigure {
            name: "recovery_segments_total",
            help: "Total Strata unsealed segments processed during recovery.",
            reading: Reading::Counter(metrics.recovery_segments_total),
        },
        StoreFigure {
            name: "recovery_complete_segments_total",
            help: "Total complete Strata unsealed segments recovered.",
            reading: Reading::Counter(metrics.recovery_complete_segments_total),
        },
        StoreFigure {
            name: "recovery_incomplete_segments_total",
            help: "Total incomplete Strata unsealed segments recovered.",
            reading: Reading::Counter(metrics.recovery_incomplete_segments_total),
        },
        StoreFigure {
            name: "recovery_records_total",
            help: "Total Strata records recovered from unsealed segment files.",
            reading: Reading::Counter(metrics.recovery_records_total),
        },
        StoreFigure {
            name: "recovery_bytes_total",
            help: "Total Strata bytes recovered from unsealed segment files.",
            reading: Reading::Counter(metrics.recovery_bytes_total),
        },
        StoreFigure {
            name: "recovery_discarded_segments_total",
            help: "Total Strata segment files discarded during recovery.",
            reading: Reading::Counter(metrics.recovery_discarded_segments_total),
        },
        StoreFigure {
            name: "recovery_rollback_ops_total",
            help: "Total Strata metadata operations rolled back during recovery.",
            reading: Reading::Counter(metrics.recovery_rollback_ops_total),
        },
        StoreFigure {
            name: "recovery_last_rollback_from",
            help: "Lowest Strata LSN rolled back by the most recent recovery rollback.",
            reading: Reading::Gauge(metrics.recovery_last_rollback_from),
        },
    ]
}

fn push_recovery_figures<'a>(figures: &mut Vec<StoreFigure<'a>>, metrics: &'a StrataStoreMetrics)
    ensures
        final(figures)@ == old(figures)@ + recovery_figures(metrics),
{
    let ghost before = figures@;
    figures.push(
        StoreFigure {
            name: "recovery_segments_total",
            help: "Total Strata unsealed segments processed during recovery.",
            reading: Reading::Counter(metrics.recovery_segments_total),
        },
    );
    figures.push(
        StoreFigure {
            name: "recovery_complete_segments_total",
            help: "Total complete Strata unsealed segments recovered.",
            reading: Reading::Counter(metrics.recovery_complete_segments_total),
        },
    );
    figures.push(
        StoreFigure {
            name: "recovery_incomplete_segments_total",
            help: "Total incomplete Strata unsealed segments recovered.",
            reading: Reading::Counter(metrics.recovery_incomplete_segments_total),
        },
    );
    figures.push(
        StoreFigure {
            name: "recovery_records_total",
            help: "Total Strata records recovered from unsealed segment files.",
            reading: Reading::Counter(metrics.recovery_records_total),
        },
    );
    figures.push(
        StoreFigure {
            name: "recovery_bytes_total",
            help: "Total Strata bytes recovered from unsealed segment files.",
            reading: Reading::Counter(metrics.recovery_bytes_total),
        },
    );
    figures.push(
        StoreFigure {
            name: "recovery_discarded_segments_total",
            help: "Total Strata segment files discarded during recovery.",
            reading: Reading::Counter(metrics.recovery_discarded_segments_total),
        },
    );
    figures.push(
        StoreFigure {
            name: "recovery_rollback_ops_total",
            help: "Total Strata metadata operations rolled back during recovery.",
            reading: Reading::Counter(metrics.recovery_rollback_ops_total),
        },
    );
    figures.push(
        StoreFigure {
            name: "recovery_last_rollback_from",
            help: "Lowest Strata LSN rolled back by the most recent recovery rollback.",
            reading: Reading::Gauge(metrics.recovery_last_rollback_from),
        },
    );
    assert(figures@ =~= before + recovery_figures(metrics));
}

/// Workers that collect garbage.
pub open spec fn worker_figures<'a>(metrics: &'a StrataStoreMetrics) -> Seq<StoreFigure<'a>> {
    seq![
        StoreFigure {
            name: "gc_configured_workers",
            help: "Configured upper bound for background Strata GC workers.",
            reading: Reading::Gauge(metrics.gc_configured_workers),
        },
        StoreFigure {
            name: "gc_active_worker_limit",
            help: "Current runtime limit for background Strata GC workers admitted concurrently.",
            reading: Reading::Gauge(metrics.gc_active_worker_limit),
        },
        StoreFigure {
            name: "gc_configured_io_bytes_per_sec",
            help: "Configured healthy upper bound for background Strata GC disk I/O bytes per second.",
            reading: Reading::Gauge(metrics.gc_configured_io_bytes_per_sec),
        },
        StoreFigure {
            name: "gc_min_io_bytes_per_sec",
            help: "Configured lower bound for background Strata GC disk I/O bytes per second under foreground pressure.",
            reading: Reading::Gauge(metrics.gc_min_io_bytes_per_sec),
        },
        StoreFigure {
            name: "gc_active_io_bytes_per_sec",
            help: "Current runtime background Strata GC disk I/O budget in bytes per second.",
            reading: Reading::Gauge(metrics.gc_active_io_bytes_per_sec),
        },
        StoreFigure {
            name: "gc_in_flight_workers",
            help: "Current number of background Strata GC workers running an admitted attempt.",
            reading: Reading::Gauge(metrics.gc_in_flight_workers),
        },
        StoreFigure {
            name: "gc_admitted_total",
            help: "Total background Strata GC attempts admitted by the runtime concurrency tuner.",
            reading: Reading::Counter(metrics.gc_admitted_total),
        },
        StoreFigure {
            name: "gc_run_failures_total",
            help: "Total admitted background Strata GC attempts that ended in an error.",
            reading: Reading::Counter(metrics.gc_run_failures_total),
        },
        StoreFigure {
            name: "gc_run_failures_by_reason_total",
            help: "Total admitted background Strata GC attempts that ended in an error, classified by bounded reason.",
            reading: Reading::Labelled { label: "reason", detail: None, tallies: &metrics.gc_run_failures_by_reason_total },
        },
        StoreFigure {
            name: "gc_consecutive_run_failures",
            help: "Consecutive failed background Strata GC attempts since the last success; alert when this keeps growing.",
            reading: Reading::Gauge(metrics.gc_consecutive_run_failures),
        },
        StoreFigure {
            name: "gc_skipped_by_tuner_total",
            help: "Total background Strata GC attempts skipped because the runtime concurrency limit was full.",
            reading: Reading::Counter(metrics.gc_skipped_by_tuner_total),
        },
        StoreFigure {
            name: "gc_tuner_increases_total",
            help: "Total times the Strata GC runtime tuner increased active worker concurrency.",
            reading: Reading::Counter(metrics.gc_tuner_increases_total),
        },
        StoreFigure {
            name: "gc_tuner_decreases_total",
            help: "Total times the Strata GC runtime tuner decreased active worker concurrency.",
            reading: Reading::Counter(metrics.gc_tuner_decreases_total),
        },
        StoreFigure {
            name: "gc_tuner_health_state",
            help: "Current Strata GC tuner health state: 0 healthy, 1 pressured, 2 cooldown.",
            reading: Reading::Gauge(metrics.gc_tuner_health_state),
        },
    ]
}

fn push_worker_figures<'a>(figures: &mut Vec<StoreFigure<'a>>, metrics: &'a StrataStoreMetrics)
    ensures
        final(figures)@ == old(figures)@ + worker_figures(metrics),
{
    let ghost before = figures@;
    figures.push(
        StoreFigure {
            name: "gc_configured_workers",
            help: "Configured upper bound for background Strata GC workers.",
            reading: Reading::Gauge(metrics.gc_configured_workers),
        },
    );
    figures.push(
        StoreFigure {
            name: "gc_active_worker_limit",
            help: "Current runtime limit for background Strata GC workers admitted concurrently.",
            reading: Reading::Gauge(metrics.gc_active_worker_limit),
        },
    );
    figures.push(
        StoreFigure {
            name: "gc_configured_io_bytes_per_sec",
            help: "Configured healthy upper bound for background Strata GC disk I/O bytes per second.",
            reading: Reading::Gauge(metrics.gc_configured_io_bytes_per_sec),
        },
    );
    figures.push(
        StoreFigure {
            name: "gc_min_io_bytes_per_sec",
            help: "Configured lower bound for background Strata GC disk I/O bytes per second under foreground pressure.",
            reading: Reading::Gauge(metrics.gc_min_io_bytes_per_sec),
        },
    );
    figures.push(
        StoreFigure {
            name: "gc_active_io_bytes_per_sec",
            help: "Current runtime background Strata GC disk I/O budget in bytes per second.",
            reading: Reading::Gauge(metrics.gc_active_io_bytes_per_sec),
        },
    );
    figures.push(
        StoreFigure {
            name: "gc_in_flight_workers",
            help: "Current number of background Strata GC workers running an admitted attempt.",
            reading: Reading::Gauge(metrics.gc_in_flight_workers),
        },
    );
    figures.push(
        StoreFigure {
            name: "gc_admitted_total",
            help: "Total background Strata GC attempts admitted by the runtime concurrency tuner.",
            reading: Reading::Counter(metrics.gc_admitted_total),
        },
    );
    figures.push(
        StoreFigure {
            name: "gc_run_failures_total",
            help: "Total admitted background Strata GC attempts that ended in an error.",
            reading: Reading::Counter(metrics.gc_run_failures_total),
        },
    );
    figures.push(
        StoreFigure {
            name: "gc_run_failures_by_reason_total",
            help: "Total admitted background Strata GC attempts that ended in an error, classified by bounded reason.",
            reading: Reading::Labelled { label: "reason", detail: None, tallies: &metrics.gc_run_failures_by_reason_total },
        },
    );
    figures.push(
        StoreFigure {
            name: "gc_consecutive_run_failures",
            help: "Consecutive failed background Strata GC attempts since the last success; alert when this keeps growing.",
            reading: Reading::Gauge(metrics.gc_consecutive_run_failures),
        },
    );
    figures.push(
        StoreFigure {
            name: "gc_skipped_by_tuner_total",
            help: "Total background Strata GC attempts skipped because the runtime concurrency limit was full.",
            reading: Reading::Counter(metrics.gc_skipped_by_tuner_total),
        },
    );
    figures.push(
        StoreFigure {
            name: "gc_tuner_increases_total",
            help: "Total times the Strata GC runtime tuner increased active worker concurrency.",
            reading: Reading::Counter(metrics.gc_tuner_increases_total),
        },
    );
    figures.push(
        StoreFigure {
            name: "gc_tuner_decreases_total",
            help: "Total times the Strata GC runtime tuner decreased active worker concurrency.",
            reading: Reading::Counter(metrics.gc_tuner_decreases_total),
        },
    );
    figures.push(
        StoreFigure {
            name: "gc_tuner_health_state",
            help: "Current Strata GC tuner health state: 0 healthy, 1 pressured, 2 cooldown.",
            reading: Reading::Gauge(metrics.gc_tuner_health_state),
        },
    );
    assert(figures@ =~= before + worker_figures(metrics));
}

/// Every figure of a store.
pub open spec fn all_figures<'a>(metrics: &'a StrataStoreMetrics) -> Seq<StoreFigure<'a>> {
    write_figures(metrics) + durability_figures(metrics) + read_figures(metrics)
        + compaction_figures(metrics) + range_figures(metrics) + segment_figures(metrics)
        + garbage_figures(metrics) + sealing_figures(metrics) + recovery_figures(metrics)
        + worker_figures(metrics)
}

impl StrataStoreMetrics {
    /// Every figure, in the order in which it is shown.
    pub fn figures<'a>(&'a self) -> (figures: Vec<StoreFigure<'a>>)
        ensures
            figures@ == all_figures(self),
    {
        let mut figures: Vec<StoreFigure<'a>> = Vec::new();
        push_write_figures(&mut figures, self);
        push_durability_figures(&mut figures, self);
        push_read_figures(&mut figures, self);
        push_compaction_figures(&mut figures, self);
        push_range_figures(&mut figures, self);
        push_segment_figures(&mut figures, self);
        push_garbage_figures(&mut figures, self);
        push_sealing_figures(&mut figures, self);
        push_recovery_figures(&mut figures, self);
        push_worker_figures(&mut figures, self);
        assert(figures@ =~= all_figures(self));
        figures
    }
}

} // verus!
