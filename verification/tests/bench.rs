//! The benchmark's configuration, model and controller.

use std::collections::BTreeSet;

use strata::bench::config::{Config, EngineKind, LifetimeMode};
use strata::bench::control::{
    assess_window, control, next_writer_count, ControlDecision, ControlWindow, ControllerDebounce,
};
use strata::bench::figures::{HarnessFigure, HarnessKind, HarnessScale};
use strata::bench::lifetimes::{
    jittered_retention, make_key, make_payload, EpochClock, LifetimeOffsetCounts,
};
use strata::bench::model::Model;
use strata::bench::options::{parse_bool, parse_duration, parse_nonzero_usize, parse_size, parse_u64};
use strata::bench::random::{mix64, splitmix64, SplitMix64, GAMMA};
use strata::bench::records::KeyRecord;
use strata::bench::space::{
    storage_file_type, storage_file_type_name, EntryKind, SpaceSnapshot, STORAGE_FILE_TYPES,
};
use strata::bench::workload::{KeyState, ReadExpectation};

const SECOND: u128 = 1_000_000_000;
const MILLI: u128 = 1_000_000;

fn parse(args: &[&str]) -> Result<Config, String> {
    Config::parse(&args.iter().map(|arg| (*arg).to_owned()).collect())
}

#[test]
fn classifies_storage_files_for_size_breakdown() {
    assert_eq!(storage_file_type("realistic/ingest/1.data"), Some(0));
    assert_eq!(storage_file_type("realistic/lsm/tables/patch-1.sst"), Some(1));
    assert_eq!(storage_file_type("realistic/relocations/tables/base-1.sst"), Some(1));
    assert_eq!(storage_file_type("realistic/index/000001.sst"), Some(2));
    assert_eq!(storage_file_type("rocksdb-blobdb/000002.blob"), Some(3));
    assert_eq!(storage_file_type("realistic/wal/1.log"), None);
}

#[test]
fn parses_minimal_configuration() {
    let config = parse(&["--engine", "blobdb", "--root", "/tmp/realistic"])
        .expect("configuration should parse");

    assert_eq!(config.engine, EngineKind::BlobDb);
    assert_eq!(config.lifetime_mode, LifetimeMode::Retention);
    assert_eq!(config.payload_size, 1 << 20);
    assert_eq!(config.sync_interval, 0);
    assert_eq!(config.controller_debounce_windows, 3);
    assert_eq!(config.rocksdb_max_subcompactions, 1);
}

/// Jitter is reproducible per key, bounded by the configured half-width, and spread across
/// it rather than clustered; zero jitter leaves the retention untouched.
#[test]
fn retention_jitter_is_bounded_reproducible_and_spread() {
    let mut config = parse(&["--engine", "strata", "--root", "/tmp/x", "--retention", "100s"])
        .expect("configuration should parse");
    assert_eq!(jittered_retention(&config, 7), 100 * SECOND);
    config.retention_jitter_percent = 50;
    let first = jittered_retention(&config, 7);
    assert_eq!(first, jittered_retention(&config, 7));
    let samples = (0..1000u64)
        .map(|id| jittered_retention(&config, id) as f64 / 1e9)
        .collect::<Vec<_>>();
    assert!(samples.iter().all(|s| (50.0..=150.0).contains(s)));
    let below = samples.iter().filter(|s| **s < 75.0).count();
    let above = samples.iter().filter(|s| **s > 125.0).count();
    assert!(
        below > 150 && above > 150,
        "jitter clustered: {below} below, {above} above"
    );
}

#[test]
fn parses_epoch_lifetime_configuration() {
    let config = parse(&[
        "--engine",
        "strata",
        "--root",
        "/tmp/realistic",
        "--lifetime-mode",
        "epoch",
        "--epoch-duration",
        "5m",
        "--future-epochs",
        "52",
        "--min-future-epoch-offset",
        "20",
        "--lifetime-seed",
        "7",
        "--strata-gc-min-epoch-copy-distance",
        "6",
    ])
    .expect("epoch lifetime configuration should parse");

    assert_eq!(config.lifetime_mode, LifetimeMode::Epoch);
    assert_eq!(config.epoch_duration, 5 * 60 * SECOND);
    assert_eq!(config.future_epochs, 52);
    assert_eq!(config.min_future_epoch_offset, 20);
    assert_eq!(config.lifetime_seed, 7);
    assert_eq!(config.strata_gc_min_epoch_copy_distance, Some(6));
    let planner = config.store_config().gc_planner_config;
    assert_eq!(planner.min_l0_rewrite_epoch_distance, Some(6));
    assert_eq!(planner.min_l0_rewrite_useful_ratio_bps, Some(6_600));
    assert_eq!(planner.min_exact_epoch_distance, Some(6));
}

#[test]
fn lifetime_assignment_is_deterministic_and_covers_future_window() {
    let config =
        parse(&["--engine", "strata", "--root", "/tmp/realistic", "--lifetime-mode", "epoch"])
            .expect("epoch lifetime configuration should parse");
    let now = 77 * SECOND;
    let clock = EpochClock { current_epoch: 10, next_transition_at: now };
    let mut counts = vec![0_u64; config.future_epochs as usize];
    for key_id in 0..10_000 {
        let assignment = clock.assignment(key_id, &config);
        assert!((1..=config.future_epochs).contains(&assignment.offset));
        assert_eq!(
            assignment.logical_end_epoch,
            clock.current_epoch + assignment.offset
        );
        assert_eq!(assignment, clock.assignment(key_id, &config));
        counts[assignment.offset as usize - 1] += 1;
    }
    assert!(counts.into_iter().all(|count| count > 0));
}

#[test]
fn lifetime_assignment_can_use_a_bounded_future_window() {
    let config = parse(&[
        "--engine",
        "blobdb",
        "--root",
        "/tmp/realistic",
        "--lifetime-mode",
        "epoch",
        "--epoch-duration",
        "216s",
        "--future-epochs",
        "50",
        "--min-future-epoch-offset",
        "20",
    ])
    .expect("fixed epoch lifetime configuration should parse");
    let now = 77 * SECOND;
    let clock = EpochClock { current_epoch: 10, next_transition_at: now };

    let mut counts = [0_u64; 31];
    for key_id in 0..10_000 {
        let assignment = clock.assignment(key_id, &config);
        assert!((20..=50).contains(&assignment.offset));
        assert_eq!(
            assignment.logical_end_epoch,
            clock.current_epoch + assignment.offset
        );
        assert_eq!(
            assignment.due_at,
            now + u128::from((assignment.offset - 1) * 216) * SECOND
        );
        counts[(assignment.offset - 20) as usize] += 1;
    }
    assert!(counts.into_iter().all(|count| count > 0));
}

#[test]
fn minimum_future_offset_must_fit_the_future_window() {
    let error = parse(&[
        "--engine",
        "blobdb",
        "--root",
        "/tmp/realistic",
        "--lifetime-mode",
        "epoch",
        "--future-epochs",
        "50",
        "--min-future-epoch-offset",
        "51",
    ])
    .expect_err("minimum offset outside the configured window should fail");

    assert!(error.contains("must not exceed --future-epochs"));
}

#[test]
fn rocksdb_max_subcompactions_parses() {
    let config = parse(&[
        "--engine",
        "blobdb",
        "--root",
        "/tmp/realistic",
        "--rocksdb-max-subcompactions",
        "4",
    ])
    .expect("max subcompactions should parse");

    assert_eq!(config.rocksdb_max_subcompactions, 4);
}

#[test]
fn controller_debounce_requires_consecutive_equal_health_windows() {
    let mut debounce = ControllerDebounce::default();

    assert!(!debounce.observe(true, 3));
    assert!(!debounce.observe(true, 3));
    assert!(!debounce.observe(false, 3));
    assert_eq!(debounce.streak_windows, 1);
    assert!(!debounce.observe(false, 3));
    assert!(debounce.observe(false, 3));

    debounce.reset_streak();
    assert!(!debounce.observe(false, 3));
    assert_eq!(debounce.streak_windows, 1);
}

#[test]
fn zero_read_rate_disables_the_read_obligation() {
    let config =
        parse(&["--engine", "strata", "--root", "/tmp/realistic", "--read-ops-per-second", "0"])
            .expect("zero read rate should parse");

    assert_eq!(config.read_ops_per_second, 0);
}

#[test]
fn fixed_put_rate_parses() {
    let config =
        parse(&["--engine", "strata", "--root", "/tmp/realistic", "--put-ops-per-second", "2000"])
            .expect("fixed put rate should parse");

    assert_eq!(config.put_ops_per_second, 2_000);
}

#[test]
fn relocation_profile_uses_synchronous_gc() {
    let config = parse(&[
        "--engine",
        "strata",
        "--root",
        "/tmp/realistic",
        "--relocation-profile-reads",
        "32",
    ])
    .expect("relocation profile should parse");

    assert_eq!(config.relocation_profile_reads, 32);
    assert!(!config.store_config().gc_workers_enabled);
    assert!(parse(&[
        "--engine",
        "blobdb",
        "--root",
        "/tmp/realistic",
        "--relocation-profile-reads",
        "32",
    ])
    .is_err());
}

#[test]
fn aimd_increases_and_decreases_writer_count() {
    assert_eq!(next_writer_count(4, true, 1, 64, 25, 25), 5);
    assert_eq!(next_writer_count(5, true, 1, 64, 25, 25), 7);
    assert_eq!(next_writer_count(8, false, 1, 64, 25, 25), 6);
    assert_eq!(next_writer_count(1, false, 1, 64, 25, 25), 1);
    assert_eq!(next_writer_count(64, true, 1, 64, 25, 25), 64);
}

#[test]
fn model_claims_only_keys_past_retention() {
    let written_at = 5 * SECOND;
    let mut model = Model::new(10);
    let ticket =
        model.push_live(KeyRecord::with_retention(make_key(7, false), written_at, 10 * SECOND));

    assert!(model.claim_due(written_at + 9 * SECOND, None).is_none());
    let claimed = model
        .claim_due(written_at + 10 * SECOND, None)
        .expect("key should become due");
    assert_eq!(ticket, claimed);
    assert_eq!(model.due_keys, 1);
    model.finish_delete(claimed);
    assert_eq!(model.deleted.len(), 1);
}

#[test]
fn model_orders_out_of_order_put_acknowledgments() {
    let written_at = 5 * SECOND;
    let mut model = Model::new(10);
    for (key, retention) in [(1, 10), (3, 30), (2, 20)] {
        model.push_live(KeyRecord::with_retention(
            make_key(key, false),
            written_at,
            retention * SECOND,
        ));
    }

    let first = model
        .claim_due(written_at + 10 * SECOND, None)
        .expect("first key should be due");
    assert_eq!(model.record(first).unwrap().key, make_key(1, false));
    assert!(model.claim_due(written_at + 19 * SECOND, None).is_none());
    let second = model
        .claim_due(written_at + 20 * SECOND, None)
        .expect("second key should be due");
    assert_eq!(model.record(second).unwrap().key, make_key(2, false));
    assert_eq!(model.live.len(), 1);
    assert_eq!(model.live_sample.len(), 1);
    assert_eq!(model.record(model.live_sample[0]).unwrap().sample_index, 0);
}

#[test]
fn native_epoch_expiry_retires_only_reached_epochs() {
    let written_at = 5 * SECOND;
    let mut model = Model::new(10);
    for (key_id, end_epoch, due_after) in [(1, 2, 10), (2, 3, 20)] {
        model.push_live(KeyRecord::with_epoch(
            make_key(key_id, false),
            written_at,
            written_at + due_after * SECOND,
            end_epoch,
        ));
    }

    let expired = model.detach_native_expirations(2);
    for ticket in &expired {
        model.mark_due(*ticket);
        model.mark_deleting(*ticket);
    }
    assert_eq!(expired.len(), 1);
    assert_eq!(
        model.state_of(*expired.first().expect("one record should expire")),
        KeyState::Deleting
    );
    assert_eq!(model.live_sample.len(), 2);
    assert_eq!(model.finish_native_expirations(&expired), 1);
    assert_eq!(model.live.len(), 1);
    assert_eq!(model.live_sample.len(), 1);
    assert_eq!(model.deleted.len(), 1);
    assert_eq!(model.due_keys, 1);
}

#[test]
fn parses_sizes_and_durations() {
    assert_eq!(parse_size("512MiB").expect("size should parse"), 512 << 20);
    assert_eq!(
        parse_duration("1.5m").expect("duration should parse"),
        90 * SECOND
    );
    assert!(parse_duration("-1s").is_err());
}

#[test]
fn sizes_take_binary_units() {
    assert_eq!(parse_size("17"), Ok(17));
    assert_eq!(parse_size(" 17 B "), Ok(17));
    for unit in ["k", "KB", "KiB"] {
        assert_eq!(parse_size(&format!("2{unit}")), Ok(2 << 10));
    }
    for unit in ["m", "MB", "mib"] {
        assert_eq!(parse_size(&format!("3 {unit}")), Ok(3 << 20));
    }
    for unit in ["G", "gb", "GiB"] {
        assert_eq!(parse_size(&format!("1{unit}")), Ok(1 << 30));
    }
    assert!(parse_size("").unwrap_err().starts_with("invalid size ''"));
    assert!(parse_size("MiB").unwrap_err().starts_with("invalid size 'MiB'"));
    assert_eq!(
        parse_size("1TiB"),
        Err("unsupported size suffix 'tib' in '1TiB'".to_owned())
    );
    assert_eq!(
        parse_size("18446744073709551615KiB"),
        Err("size '18446744073709551615KiB' overflows usize".to_owned())
    );
}

#[test]
fn durations_are_read_exactly() {
    assert_eq!(parse_duration("250ms"), Ok(250 * MILLI));
    assert_eq!(parse_duration("3"), Ok(3 * SECOND));
    assert_eq!(parse_duration("2s"), Ok(2 * SECOND));
    assert_eq!(parse_duration("0.5h"), Ok(1_800 * SECOND));
    assert_eq!(parse_duration(".25s"), Ok(250 * MILLI));
    assert_eq!(parse_duration("2 Days"), Ok(172_800 * SECOND));
    assert_eq!(parse_duration("3mins"), Ok(180 * SECOND));
    assert_eq!(
        parse_duration("1 fortnight"),
        Err("unsupported duration suffix 'fortnight' in '1 fortnight'".to_owned())
    );
    assert!(parse_duration("").is_err());
    assert!(parse_duration("s").is_err());
    assert!(parse_duration("1.2.3s").is_err());
    assert!(parse_duration("99999999999999999999999s").is_err());
}

#[test]
fn numbers_and_flags_are_checked() {
    assert_eq!(parse_u64("18446744073709551615"), Ok(u64::MAX));
    assert_eq!(
        parse_u64("18446744073709551616"),
        Err("invalid integer '18446744073709551616': number too large to fit in target type"
            .to_owned())
    );
    assert_eq!(
        parse_u64(""),
        Err("invalid integer '': cannot parse integer from empty string".to_owned())
    );
    assert_eq!(
        parse_u64("1x"),
        Err("invalid integer '1x': invalid digit found in string".to_owned())
    );
    assert_eq!(parse_nonzero_usize("3"), Ok(3));
    assert_eq!(parse_nonzero_usize("0"), Err("value must be non-zero, got '0'".to_owned()));
    assert_eq!(parse_bool("true"), Ok(true));
    assert_eq!(parse_bool("false"), Ok(false));
    assert_eq!(parse_bool("no"), Err("expected true or false, got 'no'".to_owned()));
}

#[test]
fn command_lines_are_read_in_order() {
    // The last occurrence of a flag wins.
    let config = parse(&["--engine", "strata", "--root", "/a", "--root", "/b"]).unwrap();
    assert_eq!(config.root_dir, "/b");
    // The first mistake is reported, whatever comes after it.
    let first = parse(&["--engine", "neither", "--nonsense", "1"]).unwrap_err();
    assert_eq!(first, parse(&["--engine", "neither"]).unwrap_err());
    assert!(parse(&["--nonsense", "1"]).unwrap_err().contains("--nonsense"));
    assert!(parse(&["--engine"]).unwrap_err().contains("--engine"));
    assert!(parse(&["--root", "/a"]).is_err());
    assert!(parse(&["--engine", "strata"]).is_err());
}

#[test]
fn configurations_are_validated() {
    let refused = |engine: &str, extra: &[&str], message: &str| {
        let mut args = vec!["--engine", engine, "--root", "/tmp/x"];
        args.extend_from_slice(extra);
        assert_eq!(parse(&args).err().as_deref(), Some(message));
    };
    for flag in [
        "--duration",
        "--read-p99-slo",
        "--delete-lag-slo",
        "--control-interval",
        "--space-sample-interval",
    ] {
        refused("strata", &[flag, "0s"], &format!("{flag} must be non-zero"));
    }
    refused(
        "strata",
        &["--retention-jitter-percent", "101"],
        "--retention-jitter-percent must not exceed 100",
    );
    for (flag, value, message) in [
        ("--epoch-duration", "0s", "--epoch-duration must be non-zero in epoch lifetime mode"),
        ("--future-epochs", "0", "--future-epochs must be non-zero in epoch lifetime mode"),
        ("--future-epochs", "10001", "--future-epochs must not exceed 10000"),
        (
            "--min-future-epoch-offset",
            "0",
            "--min-future-epoch-offset must be non-zero in epoch lifetime mode",
        ),
        (
            "--min-future-epoch-offset",
            "53",
            "--min-future-epoch-offset must not exceed --future-epochs",
        ),
    ] {
        refused("strata", &["--lifetime-mode", "epoch", flag, value], message);
        // Under retention these settings say nothing.
        assert!(parse(&["--engine", "strata", "--root", "/tmp/x", flag, value]).is_ok());
    }
    for (flag, value, message) in [
        ("--payload-size", "0", "--payload-size must be non-zero"),
        ("--segment-max-bytes", "0", "--segment-max-bytes must be non-zero"),
        ("--max-unsealed-segments", "1", "--max-unsealed-segments must be at least 2"),
        (
            "--initial-write-workers",
            "65",
            "write worker counts must satisfy min <= initial <= max",
        ),
        ("--min-write-workers", "2", "write worker counts must satisfy min <= initial <= max"),
        ("--writer-increase-percent", "0", "--writer-increase-percent must be non-zero"),
        (
            "--writer-decrease-percent",
            "100",
            "--writer-decrease-percent must be between 1 and 99",
        ),
        (
            "--rocksdb-blob-file-size",
            "0",
            "RocksDB blob and write-buffer sizes must be non-zero",
        ),
        (
            "--rocksdb-max-write-buffer-number",
            "1",
            "--rocksdb-max-write-buffer-number must be between 2 and i32::MAX",
        ),
        (
            "--rocksdb-max-background-flushes",
            "536870912",
            "--rocksdb-max-background-flushes must not exceed i32::MAX / 4",
        ),
        (
            "--rocksdb-max-subcompactions",
            "4294967296",
            "--rocksdb-max-subcompactions must not exceed u32::MAX",
        ),
        (
            "--rocksdb-low-pri-threads",
            "2147483648",
            "RocksDB background thread counts must not exceed i32::MAX",
        ),
    ] {
        refused("strata", &[flag, value], message);
    }
    for (flag, value) in [
        ("--relocation-profile-reads", "1"),
        ("--strata-gc-min-epoch-copy-distance", "1"),
        ("--strata-gc-workers", "1"),
        ("--strata-lsm-partitions", "2"),
        ("--strata-memtable-max-age", "1s"),
        ("--strata-gc-max-copy-bytes-per-plan", "1"),
        ("--strata-relocation-writeback", "4"),
    ] {
        refused("blobdb", &[flag, value], &format!("{flag} requires --engine strata"));
    }
    refused(
        "strata",
        &["--relocation-profile-reads", "1", "--relocation-profile-timeout", "0s"],
        "--relocation-profile-timeout must be non-zero",
    );
}

#[test]
fn names_of_engines_and_modes_round_trip() {
    for engine in [EngineKind::Strata, EngineKind::BlobDb] {
        assert_eq!(EngineKind::parse(engine.as_str()), Ok(engine));
    }
    for mode in [LifetimeMode::Retention, LifetimeMode::Epoch] {
        assert_eq!(LifetimeMode::parse(mode.as_str()), Ok(mode));
    }
    assert!(EngineKind::parse("leveldb").is_err());
    assert!(LifetimeMode::parse("forever").is_err());
}

#[test]
fn generators_repeat_and_seeds_part() {
    // The reference output of the generator for seed 1234567.
    let mut rng = SplitMix64::new(1_234_567);
    assert_eq!(rng.next_u64(), 6_457_827_717_110_365_317);
    assert_eq!(rng.next_u64(), 3_203_168_211_198_807_973);
    assert_eq!(splitmix64(5), mix64(5u64.wrapping_add(GAMMA)));
    let mut other = SplitMix64::new(7);
    let mut same = SplitMix64::new(7);
    assert_eq!(other.next_u64(), same.next_u64());
    assert_ne!(SplitMix64::new(8).next_u64(), SplitMix64::new(9).next_u64());
}

#[test]
fn keys_and_payloads_have_their_shape() {
    assert_ne!(make_key(7, false), make_key(8, false));
    assert_ne!(make_key(7, true), make_key(8, true));
    assert_ne!(make_key(7, true), make_key(7, false));
    assert!(make_key(7, false).ends_with(b"7"));
    assert_eq!(make_payload(0).len(), 0);
    let payload = make_payload(1000);
    assert_eq!(payload.len(), 1000);
    assert_eq!(payload, make_payload(1000));
}

#[test]
fn offsets_are_counted_once_each() {
    let mut counts = LifetimeOffsetCounts::new(3);
    counts.record(1);
    counts.record(3);
    counts.record(3);
    // Outside the window nothing is counted.
    counts.record(0);
    counts.record(4);
    assert_eq!(counts.snapshot(), vec![1, 0, 2]);
}

#[test]
fn load_follows_health() {
    let mut config = parse(&["--engine", "strata", "--root", "/tmp/x"]).unwrap();
    config.controller_debounce_windows = 2;
    config.min_write_workers = 1;
    config.max_write_workers = 8;
    let mut debounce = ControllerDebounce::default();
    assert_eq!(
        control(&mut debounce, true, 4, &config),
        ControlDecision { streak_windows: Some(1), writers: None }
    );
    let second = control(&mut debounce, true, 4, &config);
    assert_eq!(second.writers, Some(5));
    // A decision starts a new streak.
    assert_eq!(control(&mut debounce, true, 5, &config).writers, None);
    // A change of health starts one too.
    assert_eq!(control(&mut debounce, false, 5, &config).writers, None);
    assert_eq!(control(&mut debounce, false, 5, &config).writers, Some(3));
}

#[test]
fn windows_are_judged_by_their_ninety_ninth_percentile() {
    let mut window = ControlWindow::default();
    assert_eq!(window.p99(), 0);
    for micros in 1..=100u128 {
        window.record_read(micros * 1_000);
    }
    assert_eq!(window.p99(), 99_000);
    let healthy = assess_window(&window, false, window.p99(), 99_000, 0);
    assert!(healthy.healthy());
    assert!(assess_window(&window, false, window.p99(), 98_999, 0).high_read_latency);
    assert!(!assess_window(&window, true, 0, 1, 0).healthy());
    assert!(assess_window(&window, false, 0, 1, 1).overdue_deletes);
    window.correctness_errors = 1;
    assert!(!assess_window(&window, false, 0, 1, 0).healthy());
}

#[test]
fn file_kinds_are_named() {
    let names = (0..STORAGE_FILE_TYPES).map(storage_file_type_name).collect::<Vec<_>>();
    assert_eq!(names, ["segment", "strata_lsm_table", "rocksdb_sst", "rocksdb_blob"]);
}

#[test]
fn space_is_summed_by_kind() {
    let mut space = SpaceSnapshot::default();
    space.add_entry("realistic/ingest", EntryKind::Directory, 4096, 8);
    space.add_entry("realistic/ingest/1.data", EntryKind::File, 1000, 2);
    space.add_entry("realistic/index/000001.sst", EntryKind::File, 50, 1);
    space.add_entry("realistic/link", EntryKind::Other, 9, 1);
    space.set_filesystem(70, 100);
    assert_eq!(space.segment_bytes, 1000);
    assert_eq!(space.rocksdb_sst_bytes, 50);
    assert_eq!(space.strata_lsm_table_bytes, 0);
    assert_eq!(space.files, 2);
    assert_eq!(space.apparent_bytes, 4096 + 1000 + 50 + 9);
    assert_eq!(space.allocated_bytes, (8 + 2 + 1 + 1) * 512);
    assert_eq!((space.filesystem_available_bytes, space.filesystem_total_bytes), (70, 100));
}

#[test]
fn reads_aim_at_the_preferred_kind() {
    let mut model = Model::new(4);
    let mut rng = SplitMix64::new(1);
    assert!(model.sample(false, &mut rng).is_none());
    let gone = model.push_live(KeyRecord::with_retention(make_key(1, false), 0, SECOND));
    let kept = model.push_live(KeyRecord::with_retention(make_key(2, false), 0, 9 * SECOND));
    let claimed = model.claim_due(SECOND, None).unwrap();
    assert_eq!(claimed, gone);
    model.finish_delete(claimed);
    assert_eq!(model.sample(true, &mut rng), Some((gone, ReadExpectation::Deleted)));
    assert_eq!(model.sample(false, &mut rng), Some((kept, ReadExpectation::Live)));
    let snapshot = model.snapshot(3 * SECOND);
    assert_eq!(snapshot.live_keys, 1);
    assert_eq!(snapshot.deleted_sample_keys, 1);
    assert_eq!(snapshot.deleting_keys, 0);
    assert_eq!(snapshot.oldest_live_age, 3 * SECOND);
}

#[test]
fn the_backlog_counts_due_and_overdue_keys() {
    let mut model = Model::new(4);
    for (key, retention) in [(1, 1), (2, 5), (3, 50)] {
        model.push_live(KeyRecord::with_retention(make_key(key, false), 0, retention * SECOND));
    }
    let backlog = model.refresh_delete_backlog(7 * SECOND, None, 3 * SECOND);
    assert_eq!(backlog.due_keys, 2);
    assert_eq!(backlog.matured_overdue_keys, 1);
    assert_eq!(backlog.oldest_lag, 6 * SECOND);
}

#[test]
fn old_deleted_keys_are_forgotten() {
    let mut model = Model::new(2);
    for key in 0..4 {
        model.push_live(KeyRecord::with_retention(make_key(key, false), 0, SECOND));
    }
    let mut finished = Vec::new();
    while let Some(ticket) = model.claim_due(SECOND, None) {
        model.finish_delete(ticket);
        finished.push(ticket);
    }
    assert_eq!(finished.len(), 4);
    assert_eq!(model.deleted.iter().copied().collect::<Vec<_>>(), &finished[2..]);
    assert!(model.record(finished[0]).is_none());
}

#[test]
fn a_reset_starts_the_streak_again() {
    let windows = [true, true, false, false, false, true];
    for before in [&[][..], &[true; 5], &[false; 9], &[true, false, true]] {
        let mut reset = ControllerDebounce::default();
        for healthy in before {
            reset.observe(*healthy, 3);
        }
        reset.reset_streak();
        let mut fresh = ControllerDebounce::default();
        for healthy in windows {
            assert_eq!(reset.observe(healthy, 3), fresh.observe(healthy, 3));
            assert_eq!(reset, fresh);
        }
    }
}

#[test]
fn obligations_are_named_with_what_became_of_them() {
    let window = ControlWindow { put_errors: 1, ..ControlWindow::default() };
    let report = assess_window(&window, true, 5, 5, 0);
    assert_eq!(
        report.obligations(),
        [
            ("low_read_rate", true),
            ("high_read_latency", false),
            ("overdue_deletes", false),
            ("read_errors", false),
            ("correctness_errors", false),
            ("put_errors", true),
            ("delete_errors", false),
        ]
    );
}

#[test]
fn figures_of_the_benchmark_have_names_of_their_own() {
    let figures = [
        HarnessFigure::OperationAttempts,
        HarnessFigure::OperationSuccesses,
        HarnessFigure::OperationErrors,
        HarnessFigure::OperationDuration,
        HarnessFigure::PutPayloadBytes,
        HarnessFigure::RetiredPayloadBytes,
        HarnessFigure::EpochAdvances,
        HarnessFigure::NativeExpirations,
        HarnessFigure::ReadOutcomes,
        HarnessFigure::CorrectnessErrors,
        HarnessFigure::DeleteDue,
        HarnessFigure::DeleteTimely,
        HarnessFigure::DeleteLate,
        HarnessFigure::DeleteLag,
        HarnessFigure::LiveKeys,
        HarnessFigure::DeletedSampleKeys,
        HarnessFigure::LogicalLiveBytes,
        HarnessFigure::ActiveWriteWorkers,
        HarnessFigure::TargetPutOpsPerSecond,
        HarnessFigure::ClientLoadActive,
        HarnessFigure::ControllerHealthy,
        HarnessFigure::ControllerUnhealthy,
        HarnessFigure::ControllerDebounceStreakWindows,
        HarnessFigure::ControllerReadP99Seconds,
        HarnessFigure::ControllerReadOpsPerSecond,
        HarnessFigure::OverdueDeleteKeys,
        HarnessFigure::OldestOverdueSeconds,
        HarnessFigure::DirectoryApparentBytes,
        HarnessFigure::DirectoryAllocatedBytes,
        HarnessFigure::DirectoryFiles,
        HarnessFigure::StorageFileApparentBytes,
        HarnessFigure::StrataExactEpochBytes,
        HarnessFigure::StrataSpilloverBytes,
        HarnessFigure::StrataEpochDirectories,
        HarnessFigure::FilesystemAvailableBytes,
        HarnessFigure::FilesystemTotalBytes,
        HarnessFigure::SpaceAmplification,
        HarnessFigure::SpaceSampleErrors,
        HarnessFigure::BlobTotalBytes,
        HarnessFigure::BlobGarbageBytes,
        HarnessFigure::BlobFileBytesRead,
        HarnessFigure::BlobFileBytesWritten,
        HarnessFigure::BlobGcBytesRelocated,
        HarnessFigure::RocksdbWalBytesWritten,
    ];
    let names = figures.iter().map(|figure| figure.exported_name()).collect::<BTreeSet<_>>();
    assert_eq!(names.len(), figures.len());
    for figure in figures {
        let collector = figure.collector();
        assert_eq!(
            figure.exported_name(),
            format!("strata_realistic_bench_{}", collector.name)
        );
        assert!(collector.help.ends_with('.'));
    }
    let duration = HarnessFigure::OperationDuration.collector();
    assert_eq!(duration.label, Some("operation"));
    assert_eq!(duration.kind, HarnessKind::Spans { scale: HarnessScale::Operation });
    let lag = HarnessFigure::DeleteLag.collector();
    assert_eq!(lag.label, None);
    assert_eq!(lag.kind, HarnessKind::Spans { scale: HarnessScale::DeleteLag });
    let unhealthy = HarnessFigure::ControllerUnhealthy.collector();
    assert_eq!((unhealthy.kind, unhealthy.label), (HarnessKind::Gauge, Some("reason")));
    assert_eq!(HarnessFigure::SpaceAmplification.collector().kind, HarnessKind::Measure);
    assert_eq!(HarnessFigure::SpaceAmplification.collector().name, "space_amplification_ratio");
    assert_eq!(HarnessFigure::PutPayloadBytes.collector().kind, HarnessKind::Counter);
}

#[test]
fn spans_of_the_benchmark_are_told_apart_in_seconds() {
    let seconds = |scale: HarnessScale| {
        let bounds = scale.bounds();
        bounds.into_iter().map(|bound| bound as f64 / 1e9).collect::<Vec<_>>()
    };
    assert_eq!(
        seconds(HarnessScale::Operation),
        [
            0.000_01, 0.000_025, 0.000_05, 0.000_1, 0.000_25, 0.000_5, 0.001, 0.002, 0.005, 0.01,
            0.02, 0.05, 0.1, 0.25, 0.5, 1.0, 2.0, 5.0, 10.0, 30.0, 60.0,
        ]
    );
    assert_eq!(
        seconds(HarnessScale::DeleteLag),
        [
            0.001, 0.005, 0.01, 0.05, 0.1, 0.5, 1.0, 2.0, 5.0, 10.0, 30.0, 60.0, 120.0, 300.0,
            600.0,
        ]
    );
}

#[test]
fn shares_are_checked_where_they_are_given() {
    let base = ["--engine", "blobdb", "--root", "/tmp/realistic"];
    for flag in ["--read-deleted-percent", "--read-attainment-percent", "--delete-timely-percent"] {
        let with = |value: &str| parse(&[&base[..], &[flag, value]].concat());
        assert_eq!(with("abc").unwrap_err(), "invalid percentage 'abc': invalid float literal");
        assert_eq!(
            with("").unwrap_err(),
            "invalid percentage '': cannot parse float from empty string"
        );
        assert_eq!(
            with("100.5").unwrap_err(),
            "percentage must be between 0 and 100, got '100.5'"
        );
        assert_eq!(with("nan").unwrap_err(), "percentage must be between 0 and 100, got 'nan'");
        assert!(with("99.5").is_ok());
    }
    for flag in ["--rocksdb-blob-gc-age-cutoff", "--rocksdb-blob-gc-force-threshold"] {
        let with = |value: &str| parse(&[&base[..], &[flag, value]].concat());
        assert_eq!(with("x").unwrap_err(), "invalid fraction 'x': invalid float literal");
        assert_eq!(with("-0.1").unwrap_err(), "fraction must be between 0 and 1, got '-0.1'");
        assert_eq!(with("1.1").unwrap_err(), "fraction must be between 0 and 1, got '1.1'");
        assert!(with("1e-1").is_ok());
    }
    // The first option that cannot be read is the one that is named.
    assert_eq!(
        parse(&["--read-deleted-percent", "abc", "--no-such-option"]).unwrap_err(),
        "invalid percentage 'abc': invalid float literal"
    );
    let config = parse(&[&base[..], &["--read-deleted-percent", "25.5"]].concat()).unwrap();
    assert_eq!(config.read_deleted_percent.as_deref(), Some("25.5"));
}

#[test]
fn a_key_that_is_live_already_is_only_sampled() {
    let mut model = Model::new(4);
    let record = || KeyRecord::with_retention(make_key(1, false), 0, SECOND);
    let first = model.push_live(record());
    let second = model.push_live(record());
    assert_eq!(model.snapshot(0).live_keys, 1);
    assert_eq!(model.live_sample, [first, second]);
    // Another time makes another live key.
    model.push_live(KeyRecord::with_retention(make_key(1, false), 0, 2 * SECOND));
    assert_eq!(model.snapshot(0).live_keys, 2);
}

#[test]
fn one_record_of_a_key_counts_as_being_deleted() {
    let mut model = Model::new(4);
    let first = model.push_live(KeyRecord::with_retention(make_key(1, false), 0, SECOND));
    let second = model.push_live(KeyRecord::with_retention(make_key(1, false), 0, 2 * SECOND));
    let other = model.push_live(KeyRecord::with_retention(make_key(2, false), 0, 3 * SECOND));
    for ticket in [first, second, other] {
        assert_eq!(model.claim_due(9 * SECOND, None), Some(ticket));
    }
    assert_eq!(model.deleting, [second, other]);
    model.finish_delete(first);
    assert_eq!(model.deleting, [other]);
    model.finish_delete(second);
    assert_eq!(model.deleting, [other]);
    assert_eq!(model.snapshot(0).deleted_sample_keys, 2);
}
