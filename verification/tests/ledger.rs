//! Every event is counted where its figure is shown.

use strata::figures::Reading;
use strata::gc::publish::SegmentGcSummary;
use strata::metrics::{metric_name, StrataStoreMetrics};

fn metrics() -> StrataStoreMetrics {
    StrataStoreMetrics::new("test".to_owned())
}

/// A counter's or a gauge's value, or how often a histogram was fed and with what sum.
fn shown(metrics: &StrataStoreMetrics, name: &str) -> (i128, u128) {
    let name = format!("strata_store_{name}");
    let figures = metrics.figures();
    let figure = figures
        .iter()
        .find(|figure| metric_name(figure.name) == name)
        .unwrap_or_else(|| panic!("missing metric {name}"));
    match figure.reading {
        Reading::Counter(value) => (i128::from(value), 0),
        Reading::Gauge(value) => (i128::from(value), 0),
        Reading::Sizes(tally) => (i128::from(tally.count), tally.sum),
        Reading::Spans { tally, .. } => (i128::from(tally.count), tally.sum),
        other => panic!("{name} shows {other:?}"),
    }
}

fn value(metrics: &StrataStoreMetrics, name: &str) -> i128 {
    shown(metrics, name).0
}

#[test]
fn the_write_path_is_counted() {
    let mut metrics = metrics();
    metrics.enqueue_write_command();
    metrics.enqueue_write_command();
    metrics.dequeue_write_command();
    assert_eq!(value(&metrics, "queued_write_commands"), 1);

    metrics.record_write_queue_send(true, 5);
    metrics.record_write_queue_send(false, 7);
    assert_eq!(shown(&metrics, "write_queue_send_duration_seconds"), (2, 12));
    assert_eq!(value(&metrics, "write_queue_send_errors_total"), 1);

    metrics.record_commit_group(3);
    metrics.record_commit_group(4);
    assert_eq!(shown(&metrics, "requests_per_commit_group"), (2, 7));

    metrics.record_delete(true, 2);
    metrics.record_delete(false, 3);
    assert_eq!(value(&metrics, "delete_calls_total"), 2);
    assert_eq!(value(&metrics, "delete_errors_total"), 1);
    assert_eq!(shown(&metrics, "delete_duration_seconds"), (2, 5));
}

#[test]
fn durability_is_counted() {
    let mut metrics = metrics();
    metrics.record_durability_wal_bytes(10);
    metrics.record_durability_wal_bytes(5);
    assert_eq!(value(&metrics, "durability_wal_bytes_total"), 15);

    metrics.set_durability_pending(7, u64::MAX, true);
    assert_eq!(value(&metrics, "durability_pending_wal_bytes"), 7);
    assert_eq!(value(&metrics, "durability_pending_segment_bytes"), i128::from(i64::MAX));
    assert_eq!(value(&metrics, "durability_publish_in_flight"), 1);
    metrics.set_durability_pending(0, 0, false);
    assert_eq!(value(&metrics, "durability_publish_in_flight"), 0);

    metrics.set_lsn_state(10, 4);
    assert_eq!(value(&metrics, "pending_lsn_count"), 5);
    metrics.set_next_lsn(12);
    assert_eq!(value(&metrics, "next_lsn"), 12);
    assert_eq!(value(&metrics, "pending_lsn_count"), 7);
    metrics.set_published_lsn(11);
    assert_eq!(value(&metrics, "published_lsn"), 11);
    assert_eq!(value(&metrics, "pending_lsn_count"), 0);
}

#[test]
fn reads_are_counted_by_outcome() {
    let mut metrics = metrics();
    for outcome in [Ok(Some(100)), Ok(Some(20)), Ok(None), Err(())] {
        metrics.record_get(outcome, 3);
        metrics.record_range_read(outcome, 4);
    }
    for outcome in [Ok(true), Ok(false), Ok(false), Err(())] {
        metrics.record_stream(outcome, 5);
    }
    for (kind, span, misses) in [("get", 3, 1), ("range_read", 4, 1), ("stream", 5, 2)] {
        assert_eq!(value(&metrics, &format!("{kind}_calls_total")), 4);
        assert_eq!(value(&metrics, &format!("{kind}_hits_total")), if misses == 2 { 1 } else { 2 });
        assert_eq!(value(&metrics, &format!("{kind}_misses_total")), misses);
        assert_eq!(value(&metrics, &format!("{kind}_errors_total")), 1);
        assert_eq!(shown(&metrics, &format!("{kind}_duration_seconds")), (4, 4 * span));
    }
    assert_eq!(value(&metrics, "get_payload_bytes_total"), 120);
    assert_eq!(value(&metrics, "range_read_payload_bytes_total"), 120);

    metrics.record_reader_cache_eviction();
    assert_eq!(value(&metrics, "reader_cache_evictions_total"), 1);
    metrics.record_segment_file_read(9);
    metrics.record_segment_file_write(8);
    assert_eq!(value(&metrics, "segment_file_bytes_read_total"), 9);
    assert_eq!(value(&metrics, "segment_file_bytes_written_total"), 8);
}

#[test]
fn segments_and_sealing_are_counted() {
    let mut metrics = metrics();
    metrics.set_active_segment(7, 300, 200);
    assert_eq!(value(&metrics, "active_segment_id"), 7);
    assert_eq!(value(&metrics, "active_segment_write_offset"), 300);
    assert_eq!(value(&metrics, "active_segment_durable_offset"), 200);
    metrics.record_orphaned_segment_bytes(2, 64);
    assert_eq!(value(&metrics, "orphaned_segment_records_total"), 2);
    assert_eq!(value(&metrics, "orphaned_segment_bytes_total"), 64);
    metrics.set_current_epoch(50);
    assert_eq!(value(&metrics, "current_epoch"), 50);
    metrics.set_unsealed_segments(3);
    assert_eq!(value(&metrics, "unsealed_segments"), 3);
    metrics.record_segment_sealed();
    metrics.record_seal_error();
    assert_eq!(value(&metrics, "sealed_segments_total"), 1);
    assert_eq!(value(&metrics, "seal_errors_total"), 1);
    metrics.start_seal_backpressure_wait();
    assert_eq!(value(&metrics, "seal_backpressure_current"), 1);
    metrics.finish_seal_backpressure_wait(11);
    assert_eq!(value(&metrics, "seal_backpressure_current"), 0);
    assert_eq!(value(&metrics, "seal_backpressure_waits_total"), 1);
    assert_eq!(shown(&metrics, "seal_backpressure_wait_duration_seconds"), (1, 11));
}

#[test]
fn recovery_is_counted() {
    let mut metrics = metrics();
    metrics.record_recovered_segment(true);
    metrics.record_recovered_segment(true);
    metrics.record_recovered_segment(false);
    metrics.record_recovered_records(5, 320);
    metrics.record_discarded_segment();
    metrics.record_rollback(42, 3);
    assert_eq!(value(&metrics, "recovery_segments_total"), 3);
    assert_eq!(value(&metrics, "recovery_complete_segments_total"), 2);
    assert_eq!(value(&metrics, "recovery_incomplete_segments_total"), 1);
    assert_eq!(value(&metrics, "recovery_records_total"), 5);
    assert_eq!(value(&metrics, "recovery_bytes_total"), 320);
    assert_eq!(value(&metrics, "recovery_discarded_segments_total"), 1);
    assert_eq!(value(&metrics, "recovery_last_rollback_from"), 42);
    assert_eq!(value(&metrics, "recovery_rollback_ops_total"), 3);
}

#[test]
fn collection_is_counted() {
    let mut metrics = metrics();
    metrics.initialize_gc_tuner(4, 1, 32, 8, 16);
    assert_eq!(value(&metrics, "gc_configured_workers"), 4);
    assert_eq!(value(&metrics, "gc_active_worker_limit"), 1);
    assert_eq!(value(&metrics, "gc_configured_io_bytes_per_sec"), 32);
    assert_eq!(value(&metrics, "gc_min_io_bytes_per_sec"), 8);
    assert_eq!(value(&metrics, "gc_active_io_bytes_per_sec"), 16);

    metrics.record_gc_admitted();
    metrics.record_gc_skipped_by_tuner();
    metrics.record_gc_tuner_increase();
    metrics.record_gc_tuner_decrease();
    metrics.set_gc_active_worker_limit(2);
    metrics.set_gc_active_io_bytes_per_sec(24);
    metrics.set_gc_in_flight_workers(1);
    metrics.set_gc_tuner_health_state(2);
    for (name, expected) in [
        ("gc_admitted_total", 1),
        ("gc_skipped_by_tuner_total", 1),
        ("gc_tuner_increases_total", 1),
        ("gc_tuner_decreases_total", 1),
        ("gc_active_worker_limit", 2),
        ("gc_active_io_bytes_per_sec", 24),
        ("gc_in_flight_workers", 1),
        ("gc_tuner_health_state", 2),
    ] {
        assert_eq!(value(&metrics, name), expected, "{name}");
    }

    metrics.set_gc_relocating_segments(2);
    metrics.add_gc_relocating_segments(3);
    metrics.remove_gc_relocating_segments(4);
    assert_eq!(value(&metrics, "gc_relocating_segments"), 1);
    metrics.remove_gc_relocating_segments(4);
    assert_eq!(value(&metrics, "gc_relocating_segments"), 0);

    metrics.initialize_gc_known(&SegmentGcSummary {
        total_bytes: 100,
        live_bytes: 60,
        retired_bytes: 30,
        expired_bytes: 10,
        live_ref_count: 6,
        unknown_lifetime_bytes: 60,
        unknown_lifetime_ref_count: 6,
    });
    assert_eq!(value(&metrics, "gc_known_total_bytes"), 100);
    assert_eq!(value(&metrics, "gc_known_live_bytes"), 60);
    assert_eq!(value(&metrics, "gc_known_retired_bytes"), 30);
    assert_eq!(value(&metrics, "gc_known_expired_bytes"), 10);
    assert_eq!(value(&metrics, "gc_known_live_ref_count"), 6);
}
