//! What the store counts.

use std::collections::BTreeSet;

use strata::batch::StoreSyncProfile;
use strata::figures::{commit_group_bounds, Reading, Scale};
use strata::gc::publish::{GcKnownDelta, SegmentGcSummary};
use strata::maintenance::compaction::MainCompactionKind;
use strata::metrics::{
    apply_gauge_delta, lsn_from_i64, metric_name, pending_lsn_count, to_i64, PutMetric,
    StrataStoreMetrics, Tally,
};

const MILLI: u128 = 1_000_000;

fn metrics() -> StrataStoreMetrics {
    StrataStoreMetrics::new("test".to_owned())
}

fn reading<'a>(metrics: &'a StrataStoreMetrics, name: &str) -> Reading<'a> {
    metrics
        .figures()
        .into_iter()
        .find(|figure| metric_name(figure.name) == name)
        .unwrap_or_else(|| panic!("missing metric {name}"))
        .reading
}

fn metric_value(metrics: &StrataStoreMetrics, name: &str) -> f64 {
    match reading(metrics, name) {
        Reading::Counter(value) => value as f64,
        Reading::Gauge(value) => value as f64,
        other => panic!("{name} shows {other:?}"),
    }
}

fn metric_value_with_labels(
    metrics: &StrataStoreMetrics,
    name: &str,
    labels: &[(&str, &str)],
) -> f64 {
    match reading(metrics, name) {
        Reading::Labelled { label, detail, tallies } => {
            assert_eq!(labels[0].0, label);
            assert_eq!(labels.get(1).map(|label| label.0), detail);
            tallies.get(labels[0].1, labels.get(1).map_or("", |label| label.1)).count as f64
        }
        other => panic!("{name} shows {other:?}"),
    }
}

fn histogram_value_with_labels(
    metrics: &StrataStoreMetrics,
    name: &str,
    labels: &[(&str, &str)],
) -> (u64, f64) {
    let (label, wanted) = labels[0];
    let tally = match reading(metrics, name) {
        Reading::LabelledSpans { label: shown, tallies, .. } => {
            assert_eq!(label, shown);
            tallies.get(wanted, "")
        }
        Reading::Phases(phases) => {
            assert_eq!(label, "phase");
            *phases.by_name().iter().find(|(name, _)| *name == wanted).map(|(_, tally)| tally).unwrap()
        }
        other => panic!("{name} shows {other:?}"),
    };
    (tally.count, tally.sum as f64 / 1e9)
}

#[test]
fn sync_phase_histograms_record_each_phase_and_residual() {
    let mut metrics = metrics();
    let profile = StoreSyncProfile {
        capture: MILLI,
        segment_file_sync: 2 * MILLI,
        wal_sync: 3 * MILLI,
        completion_queue_wait: 4 * MILLI,
        relocation_lock_wait: 5 * MILLI,
        published_lsn_compute: 6 * MILLI,
        index_batch_commit: 7 * MILLI,
        state_update: 8 * MILLI,
        wal_reclaim: 9 * MILLI,
        ..StoreSyncProfile::default()
    };

    metrics.record_sync_phases(&profile, 50 * MILLI);

    for (phase, expected_seconds) in [
        ("capture", 0.001),
        ("segment_files", 0.002),
        ("wal", 0.003),
        ("completion_queue", 0.004),
        ("relocation_lock", 0.005),
        ("metadata_build", 0.006),
        ("index_sync_commit", 0.007),
        ("state_update", 0.008),
        ("wal_reclaim", 0.009),
        ("unattributed", 0.005),
    ] {
        let (count, sum) = histogram_value_with_labels(
            &metrics,
            "strata_store_sync_phase_duration_seconds",
            &[("phase", phase)],
        );
        assert_eq!(count, 1, "phase {phase}");
        assert!(
            (sum - expected_seconds).abs() < f64::EPSILON,
            "phase {phase}"
        );
    }
}

#[test]
fn wal_reclaim_phase_histograms_record_background_work() {
    let mut metrics = metrics();

    metrics.record_wal_reclaim_phase("materialize", 7 * MILLI);

    let (count, sum) = histogram_value_with_labels(
        &metrics,
        "strata_store_wal_reclaim_phase_duration_seconds",
        &[("phase", "materialize")],
    );
    assert_eq!(count, 1);
    assert!((sum - 0.007).abs() < f64::EPSILON);
}

#[test]
fn gc_run_outcomes_count_failures_and_reset_consecutive_on_success() {
    let mut metrics = metrics();

    metrics.record_gc_run_failure("io");
    metrics.record_gc_run_failure("source_not_sealed");
    assert_eq!(metric_value(&metrics, "strata_store_gc_run_failures_total"), 2.0);
    for reason in ["io", "source_not_sealed"] {
        assert_eq!(
            metric_value_with_labels(
                &metrics,
                "strata_store_gc_run_failures_by_reason_total",
                &[("reason", reason)],
            ),
            1.0
        );
    }
    assert_eq!(metric_value(&metrics, "strata_store_gc_consecutive_run_failures"), 2.0);

    metrics.record_gc_run_success();
    assert_eq!(metric_value(&metrics, "strata_store_gc_run_failures_total"), 2.0);
    assert_eq!(metric_value(&metrics, "strata_store_gc_consecutive_run_failures"), 0.0);
}

#[test]
fn gc_strategy_metrics_separate_attempts_and_actual_byte_attribution() {
    let mut metrics = metrics();

    metrics.record_gc_strategy_selected("l0_compaction", "move_live_bytes");
    metrics.record_gc_strategy_selected("l0_compaction", "move_live_bytes");
    metrics.record_gc_strategy_completed("l0_compaction", "move_live_bytes");
    metrics.record_gc_output_published("l0_compaction", 40);
    metrics.record_gc_source_deleted("l0_compaction", 100, 40);

    let labels = &[("strategy", "l0_compaction"), ("action", "move_live_bytes")];
    assert_eq!(
        metric_value_with_labels(&metrics, "strata_store_gc_strategy_selected_total", labels),
        2.0
    );
    assert_eq!(
        metric_value_with_labels(&metrics, "strata_store_gc_strategy_completed_total", labels),
        1.0
    );
    for (name, expected) in [
        ("strata_store_gc_strategy_output_bytes_total", 40.0),
        ("strata_store_gc_strategy_source_deleted_bytes_total", 100.0),
        ("strata_store_gc_strategy_reclaimed_bytes_total", 60.0),
    ] {
        assert_eq!(
            metric_value_with_labels(&metrics, name, &[("strategy", "l0_compaction")]),
            expected
        );
    }
}

#[test]
fn relocation_metrics_record_lookup_outcomes_and_compaction_work() {
    let mut metrics = metrics();

    metrics.record_relocation_lookup(Ok(true), MILLI);
    metrics.record_relocation_lookup(Ok(false), MILLI);
    metrics.record_relocation_lookup(Err(()), MILLI);
    metrics.record_relocation_cache_lookup(true);
    metrics.record_relocation_cache_lookup(false);
    metrics.record_main_compaction(MainCompactionKind::Full, 120, 4, 2_000, 900, 2 * MILLI);
    metrics.record_main_compaction(MainCompactionKind::Minor, 140, 0, 0, 0, 0);
    metrics.record_main_compaction(MainCompactionKind::Minor, 130, 0, 0, 0, 0);
    metrics.record_relocation_compaction(10, 3, 1_000, 400, 3 * MILLI);

    for result in ["hit", "miss", "error"] {
        assert_eq!(
            metric_value_with_labels(
                &metrics,
                "strata_store_relocation_lookups_total",
                &[("result", result)],
            ),
            1.0
        );
    }
    for result in ["hit", "miss"] {
        assert_eq!(
            metric_value_with_labels(
                &metrics,
                "strata_store_relocation_cache_requests_total",
                &[("result", result)],
            ),
            1.0
        );
    }
    for (name, expected) in [
        ("strata_store_main_compaction_healed_references_total", 4.0),
        ("strata_store_main_compaction_input_bytes_total", 2_000.0),
        ("strata_store_main_compaction_output_bytes_total", 900.0),
        ("strata_store_main_minor_compaction_lsn", 140.0),
        ("strata_store_main_full_compaction_lsn", 120.0),
        ("strata_store_relocation_compaction_entries_examined_total", 10.0),
        ("strata_store_relocation_compaction_entries_dropped_total", 3.0),
        ("strata_store_relocation_compaction_input_bytes_total", 1_000.0),
        ("strata_store_relocation_compaction_output_bytes_total", 400.0),
    ] {
        assert_eq!(metric_value(&metrics, name), expected, "{name}");
    }
}

#[test]
fn every_figure_has_a_name_of_its_own() {
    let metrics = metrics();
    let figures = metrics.figures();
    assert_eq!(figures.len(), 109);
    let names = figures.iter().map(|figure| figure.name).collect::<BTreeSet<_>>();
    assert_eq!(names.len(), figures.len());
    assert!(figures.iter().all(|figure| !figure.help.is_empty()));
}

#[test]
fn scales_rise() {
    for (scale, count) in [(Scale::Operation, 20), (Scale::Sync, 23), (Scale::Compaction, 14)] {
        let bounds = scale.bounds();
        assert_eq!(bounds.len(), count);
        assert!(bounds.windows(2).all(|pair| pair[0] < pair[1]));
    }
    assert_eq!(commit_group_bounds(), [1, 2, 4, 8, 16]);
}

#[test]
fn names_carry_the_stores_prefix() {
    assert_eq!(metric_name("put_calls_total"), "strata_store_put_calls_total");
}

#[test]
fn gauges_show_what_fits() {
    assert_eq!(to_i64(7), 7);
    assert_eq!(to_i64(u64::MAX), i64::MAX);
    assert_eq!(lsn_from_i64(-1), 0);
    assert_eq!(lsn_from_i64(9), 9);
    assert_eq!(pending_lsn_count(10, 7), 2);
    assert_eq!(apply_gauge_delta(5, -3), 2);
    assert_eq!(apply_gauge_delta(5, -9), 0);
}

#[test]
fn puts_count_bytes_only_on_success() {
    let mut metrics = metrics();
    metrics.record_put(Ok(PutMetric { payload_bytes: 10, record_bytes: 14 }), 3);
    metrics.record_put(Err(()), 4);
    assert_eq!(metrics.put_calls_total, 2);
    assert_eq!(metrics.put_errors_total, 1);
    assert_eq!(metrics.put_payload_bytes_total, 10);
    assert_eq!(metrics.put_record_bytes_total, 14);
    assert_eq!(metrics.put_duration_seconds, Tally { count: 2, sum: 7 });
}

#[test]
fn known_garbage_is_conserved() {
    let mut metrics = metrics();
    let summary = SegmentGcSummary {
        total_bytes: 100,
        live_bytes: 60,
        retired_bytes: 30,
        expired_bytes: 10,
        live_ref_count: 3,
        unknown_lifetime_bytes: 0,
        unknown_lifetime_ref_count: 0,
    };
    let before = metrics.clone();
    metrics.apply_gc_known_delta(GcKnownDelta {
        total_bytes: 100,
        live_bytes: 60,
        retired_bytes: 30,
        expired_bytes: 10,
        live_ref_count: 3,
    });
    assert_eq!(metrics.gc_known_total_bytes, 100);
    assert_eq!(metrics.gc_known_live_bytes, 60);
    metrics.remove_gc_known_summary(&summary);
    assert_eq!(metrics.gc_known_total_bytes, before.gc_known_total_bytes);
    assert_eq!(metrics.gc_known_live_bytes, before.gc_known_live_bytes);
    assert_eq!(metrics.gc_known_retired_bytes, before.gc_known_retired_bytes);
}
