//! What the benchmark's threads decide, and what a run reports.

use strata::bench::config::{Config, EngineKind, LifetimeMode};
use strata::bench::http::{is_metrics_request, write_reply_head};
use strata::bench::latency::{whole_micros, Latency};
use strata::bench::lifetimes::EpochClock;
use strata::bench::model::{DeleteBacklog, ModelSnapshot};
use strata::bench::profile::{
    delete_only_planner, drain_step, healing_step, path_verified, profile_keys, AfterAttempt,
    DrainStep, GcAttempt, HealingStep, MovedKey, PassCounts, ReadPass, RelocationMoves,
};
use strata::bench::scorecard::{
    judge_run, report_result, report_settings, summarize_offsets, Figure, Line, OffsetSummary,
    RunResult, RunTotals,
};
use strata::bench::space::SpaceSnapshot;
use strata::bench::workload::{
    clock_after, elapsed_since, epoch_step, judge_read, plan_workers, prefers_deleted,
    put_interval, reader_rng, root_step, schedule_put, score_delete, sighted, starting_clock,
    time_after, wait_step, EpochStep, FatalState, KeyState, ReadExpectation, ReadOutcome, ReaderPace,
    ReaderStep, RootStep, Sight, WaitStep,
};

const SECOND: u128 = 1_000_000_000;
const MILLI: u128 = 1_000_000;

fn config(extra: &[&str]) -> Config {
    let mut args = vec!["--engine", "strata", "--root", "/tmp/x"];
    args.extend_from_slice(extra);
    Config::parse(&args.iter().map(|arg| (*arg).to_owned()).collect()).unwrap()
}

#[test]
fn waits_are_cut_into_naps() {
    assert_eq!(wait_step(true, 0, SECOND), WaitStep::Stopped);
    assert_eq!(wait_step(false, SECOND, SECOND), WaitStep::Over);
    assert_eq!(wait_step(false, 0, SECOND), WaitStep::Sleep { span: 100 * MILLI });
    assert_eq!(wait_step(false, 0, MILLI), WaitStep::Sleep { span: MILLI });
    assert_eq!(time_after(5, 7), 12);
    assert_eq!(time_after(5, u128::MAX), 5);
    assert_eq!(elapsed_since(7, 5), 2);
    assert_eq!(elapsed_since(5, 7), 0);
}

#[test]
fn runs_start_in_a_fresh_directory() {
    assert_eq!(root_step(false, false, false), RootStep::Create);
    assert_eq!(root_step(true, false, false), RootStep::NotADirectory);
    assert_eq!(root_step(true, true, true), RootStep::NotEmpty);
    assert_eq!(root_step(true, true, false), RootStep::Use);
}

#[test]
fn puts_share_one_schedule() {
    assert_eq!(put_interval(0), None);
    assert_eq!(put_interval(2_000), Some(500_000));
    assert_eq!(put_interval(u64::MAX), Some(1));
    let mut next = 10;
    assert_eq!(schedule_put(&mut next, 4, 100), 10);
    assert_eq!(next, 110);
    // What was missed is not made up for.
    assert_eq!(schedule_put(&mut next, 500, 100), 500);
    assert_eq!(next, 600);
}

#[test]
fn readers_divide_the_rate() {
    let mut pace = ReaderPace::begin(1_000, 4, 1, 0);
    assert_eq!((pace.interval, pace.next_operation_at), (4_000_000, MILLI));
    assert_eq!(pace.step(0), ReaderStep::Sleep { span: MILLI });
    assert_eq!(pace.step(MILLI), ReaderStep::Read);
    assert_eq!(pace.next_operation_at, 5 * MILLI);
    assert_eq!(pace.step(SECOND), ReaderStep::Read);
    assert_eq!(pace.next_operation_at, SECOND);
    assert_eq!(ReaderPace::begin(1, 1, 9, 0).step(0), ReaderStep::Sleep { span: 50 * MILLI });
    assert_ne!(reader_rng(0).next_u64(), reader_rng(1).next_u64());
    assert!(prefers_deleted(14_999, 5_000));
    assert!(!prefers_deleted(15_000, 5_000));
}

#[test]
fn only_wrong_answers_are_errors() {
    let live = ReadExpectation::Live;
    let deleted = ReadExpectation::Deleted;
    let value = |intact| Sight::Value { intact };
    for (expectation, sight, state, outcome, correct, label) in [
        (live, value(true), KeyState::Live, ReadOutcome::LiveHit, true, "live_hit"),
        (
            live,
            value(false),
            KeyState::Live,
            ReadOutcome::LivePayloadMismatch,
            false,
            "live_payload_mismatch",
        ),
        (
            live,
            Sight::Nothing,
            KeyState::Live,
            ReadOutcome::LiveKeyMissing,
            false,
            "live_key_missing",
        ),
        (live, Sight::Nothing, KeyState::Deleting, ReadOutcome::DeleteRace, true, "delete_race"),
        (
            deleted,
            Sight::Nothing,
            KeyState::Deleted,
            ReadOutcome::DeletedMiss,
            true,
            "deleted_miss",
        ),
        (
            deleted,
            value(true),
            KeyState::Deleted,
            ReadOutcome::DeletedKeyVisible,
            false,
            "deleted_key_visible",
        ),
    ] {
        let judged = judge_read(expectation, sight, state);
        assert_eq!(judged, outcome);
        assert_eq!(judged.is_correct(), correct);
        assert_eq!(judged.label(), label);
    }
    assert_eq!((live.operation(), deleted.operation()), ("read_live", "read_deleted"));
}

#[test]
fn deletes_are_scored_by_their_lag() {
    let score = score_delete(15, 10, 5);
    assert_eq!((score.lag, score.timely), (5, true));
    assert!(!score_delete(16, 10, 5).timely);
    assert_eq!(score_delete(5, 10, 0).lag, 0);
}

#[test]
fn epochs_advance_when_due() {
    let clock = EpochClock { current_epoch: 3, next_transition_at: 100 };
    assert_eq!(epoch_step(&clock, 99, false, EngineKind::Strata), EpochStep::Wait);
    assert_eq!(epoch_step(&clock, 100, true, EngineKind::Strata), EpochStep::Wait);
    assert_eq!(
        epoch_step(&clock, 100, false, EngineKind::Strata),
        EpochStep::Advance { epoch: 4, detach: true }
    );
    assert_eq!(
        epoch_step(&clock, 100, false, EngineKind::BlobDb),
        EpochStep::Advance { epoch: 4, detach: false }
    );
    let last = EpochClock { current_epoch: u64::MAX, next_transition_at: 0 };
    assert_eq!(epoch_step(&last, 1, false, EngineKind::Strata), EpochStep::Overflow);
    assert_eq!(
        clock_after(&clock, 4, 50, 130),
        EpochClock { current_epoch: 4, next_transition_at: 150 }
    );
    assert_eq!(
        starting_clock(LifetimeMode::Epoch, Some(9), 10, 50),
        EpochClock { current_epoch: 9, next_transition_at: 60 }
    );
    assert_eq!(starting_clock(LifetimeMode::Retention, Some(9), 10, 50).current_epoch, 1);
}

#[test]
fn every_key_is_retired_by_someone() {
    let retention = plan_workers(&config(&[]));
    assert_eq!((retention.deleters, retention.epoch_advancer, retention.syncer), (4, false, false));
    assert_eq!((retention.writers, retention.active_writers, retention.readers), (64, 1, 4));
    let epoch = plan_workers(&config(&[
        "--lifetime-mode",
        "epoch",
        "--put-ops-per-second",
        "10",
        "--read-ops-per-second",
        "0",
        "--sync-interval",
        "1s",
    ]));
    assert_eq!((epoch.deleters, epoch.epoch_advancer, epoch.syncer), (0, true, true));
    assert_eq!((epoch.active_writers, epoch.readers), (64, 0));
}

#[test]
fn the_first_failure_is_kept() {
    let mut fatal = FatalState::default();
    assert!(fatal.message.is_none());
    fatal.set("first".to_owned());
    fatal.set("second".to_owned());
    assert_eq!(fatal.message.as_deref(), Some("first"));
}

#[test]
fn quantiles_are_bucket_bounds() {
    let mut latency = Latency::default();
    assert_eq!(latency.quantile(99), 0);
    for micros in [5u128, 20, 20, 900] {
        latency.record(micros * 1_000);
    }
    assert_eq!((latency.count, latency.sum_micros), (4, 945));
    assert_eq!(latency.quantile(25), 10_000);
    assert_eq!(latency.quantile(50), 25_000);
    assert_eq!(latency.quantile(75), 25_000);
    assert_eq!(latency.quantile(99), MILLI);
    assert_eq!(whole_micros(1_999), 1);
    assert_eq!(whole_micros(u128::MAX), u64::MAX);
}

fn moved(key: u8, source: u64) -> MovedKey {
    MovedKey { key: vec![key], source }
}

#[test]
fn the_profile_moves_each_key_once() {
    let mut moves = RelocationMoves::begin();
    assert!(moves.wants_more(2, 0, 10));
    assert!(!moves.wants_more(2, 10, 10));
    assert_eq!(
        moves.attempted(GcAttempt::Ran { moved: vec![moved(2, 7), moved(1, 8), moved(2, 9)] }),
        AfterAttempt::SyncAndFlush
    );
    assert_eq!((moves.moved.len(), moves.move_batches), (2, 1));
    assert_eq!(moves.attempted(GcAttempt::Ran { moved: vec![] }), AfterAttempt::Pause);
    for _ in 0..9 {
        assert_eq!(moves.attempted(GcAttempt::Nothing), AfterAttempt::LongPause);
    }
    assert_eq!(moves.attempted(GcAttempt::Nothing), AfterAttempt::GiveUp);
    assert!(moves.wants_more(2, 0, 10));
    for _ in 0..8 {
        moves.flushed(true);
    }
    moves.flushed(false);
    assert_eq!(moves.flushed_batches, 8);
    assert!(!moves.wants_more(2, 0, 10));
    assert!(!moves.sources_deleted(2, &vec![7]));
    assert!(moves.sources_deleted(1, &vec![7]));
    assert!(moves.sources_deleted(2, &vec![8, 7]));
    // Keys come out in order, and only those whose source is gone.
    assert_eq!(profile_keys(moves.moved.clone(), &vec![7, 8], 5), vec![vec![1], vec![2]]);
    assert_eq!(profile_keys(moves.moved.clone(), &vec![7, 8], 1), vec![vec![2]]);
    assert_eq!(profile_keys(moves.moved, &vec![8], 5), vec![vec![1]]);
}

#[test]
fn profile_phases_end() {
    assert_eq!(drain_step(false, 0, 0, 9), DrainStep::NoSegments);
    assert_eq!(drain_step(true, 0, 0, 9), DrainStep::Proceed);
    assert_eq!(drain_step(true, 1, 9, 9), DrainStep::TimedOut);
    assert_eq!(drain_step(true, 1, 0, 9), DrainStep::Wait);
    assert_eq!(healing_step(5, 5, 0, 0, 9), HealingStep::Done);
    assert_eq!(healing_step(5, 5, 1, 0, 9), HealingStep::Wait);
    assert_eq!(healing_step(4, 5, 0, 9, 9), HealingStep::TimedOut);
    assert_eq!(delete_only_planner().max_copy_bytes_per_plan, Some(0));
}

#[test]
fn passes_take_their_path() {
    let counts = |lookup_hits, cache_hits, cache_misses| PassCounts {
        lookup_hits,
        lookup_misses: 0,
        lookup_errors: 0,
        cache_hits,
        cache_misses,
    };
    assert!(path_verified(ReadPass::Cold, counts(5, 0, 5), 5));
    assert!(path_verified(ReadPass::BlockWarm, counts(5, 0, 5), 5));
    assert!(path_verified(ReadPass::CacheWarm, counts(0, 5, 0), 5));
    assert!(path_verified(ReadPass::Healed, counts(0, 0, 0), 5));
    assert!(!path_verified(ReadPass::Healed, counts(1, 0, 0), 5));
    let names = [ReadPass::Cold, ReadPass::BlockWarm, ReadPass::CacheWarm, ReadPass::Healed];
    assert_eq!(
        names.map(|pass| pass.name()),
        ["cold", "block_warm", "cache_warm", "healed"]
    );
}

fn totals() -> RunTotals {
    RunTotals {
        elapsed: 10 * SECOND,
        puts: 100,
        put_bytes: 1_000,
        deletes: 40,
        live_reads: 70,
        deleted_reads: 30,
        retired_bytes: 400,
        delete_due: 45,
        delete_timely: 38,
        delete_late: 2,
        native_expirations: 0,
        epoch_advances: 0,
        correctness_errors: 0,
        put_p50: MILLI,
        put_p99: 2 * MILLI,
        read_p50: MILLI,
        read_p99: 100 * MILLI,
        delete_p50: MILLI,
        delete_p99: MILLI,
        delete_lag_p99: MILLI,
        blob_file_bytes_read: 0,
        blob_file_bytes_written: 0,
        blob_gc_bytes_relocated: 0,
    }
}

const MODEL: ModelSnapshot = ModelSnapshot {
    live_keys: 60,
    deleting_keys: 5,
    deleted_sample_keys: 40,
    oldest_live_age: SECOND,
};

const BACKLOG: DeleteBacklog = DeleteBacklog { due_keys: 5, matured_overdue_keys: 3, oldest_lag: 1 };

#[test]
fn broken_obligations_disqualify() {
    let config = config(&["--payload-size", "10"]);
    let judge = |totals: &RunTotals, failed, reads, deletes| {
        judge_run(&config, totals, &MODEL, &BACKLOG, failed, reads, deletes)
    };
    let verdict = judge(&totals(), false, true, true);
    assert!(verdict.qualified);
    assert_eq!((verdict.reads, verdict.delete_obligations), (100, 43));
    assert_eq!(verdict.logical_live_bytes, 600);
    assert!(!judge(&totals(), true, true, true).qualified);
    assert!(!judge(&totals(), false, false, true).qualified);
    assert!(!judge(&totals(), false, true, false).qualified);
    let wrong = RunTotals { correctness_errors: 1, ..totals() };
    assert!(!judge(&wrong, false, true, true).qualified);
    let slow = RunTotals { read_p99: 100 * MILLI + 1, ..totals() };
    assert!(!judge(&slow, false, true, true).qualified);
}

#[test]
fn offsets_are_summed_up() {
    assert_eq!(
        summarize_offsets(&vec![3, 1, 2]),
        OffsetSummary { total: 6, least: 1, most: 3 }
    );
    assert_eq!(summarize_offsets(&vec![]), OffsetSummary { total: 0, least: 0, most: 0 });
}

fn names(lines: &[Line]) -> Vec<&'static str> {
    lines.iter().map(|line| line.name).collect()
}

#[test]
fn reports_name_their_figures() {
    let retention = report_settings(&config(&[]));
    assert!(matches!(retention[0].figure, Figure::Name("strata")));
    assert_eq!(&names(&retention)[..4], ["engine", "root", "duration_seconds", "lifetime_mode"]);
    assert!(names(&retention).contains(&"retention_seconds"));
    let epoch = report_settings(&config(&["--lifetime-mode", "epoch"]));
    assert!(names(&epoch).contains(&"epoch_duration_seconds"));
    assert!(!names(&epoch).contains(&"retention_seconds"));

    let settings = config(&[]);
    let verdict = judge_run(&settings, &totals(), &MODEL, &BACKLOG, false, true, true);
    let result = RunResult {
        totals: totals(),
        verdict,
        fatal_words: "none".to_owned(),
        model: MODEL,
        backlog: BACKLOG,
        terminal_space: SpaceSnapshot::default(),
        grace_space: SpaceSnapshot::default(),
        epochs: None,
    };
    let lines = report_result(&settings, &result);
    let qualified = lines.iter().find(|line| line.name == "qualified").unwrap();
    assert!(matches!(qualified.figure, Figure::Flag(true)));
}

#[test]
fn the_metrics_endpoint_answers_one_path() {
    assert!(is_metrics_request(&b"GET /metrics HTTP/1.1\r\n".to_vec()));
    assert!(!is_metrics_request(&b"GET /metric HTTP/1.1\r\n".to_vec()));
    assert!(!is_metrics_request(&b"GET /".to_vec()));
    assert_eq!(
        write_reply_head("200 OK", "text/plain", 12),
        "HTTP/1.1 200 OK\r\nContent-Type: text/plain\r\nContent-Length: 12\r\nConnection: close\r\n\r\n"
    );
}

#[test]
fn reads_are_held_against_the_payload() {
    let payload = vec![1, 2, 3];
    assert_eq!(sighted(&None, &payload), Sight::Nothing);
    assert_eq!(sighted(&Some(vec![1, 2, 3]), &payload), Sight::Value { intact: true });
    assert_eq!(sighted(&Some(vec![1, 2, 4]), &payload), Sight::Value { intact: false });
    assert_eq!(sighted(&Some(vec![1, 2]), &payload), Sight::Value { intact: false });
}

#[test]
fn deletions_are_awaited_until_the_deadline() {
    let mut moves = RelocationMoves::begin();
    moves.moved = vec![
        MovedKey { key: vec![1], source: 4 },
        MovedKey { key: vec![2], source: 5 },
        MovedKey { key: vec![3], source: 6 },
    ];
    assert!(moves.awaits_deletions(3, &vec![4, 5], 0, 10));
    assert!(!moves.awaits_deletions(2, &vec![4, 5], 0, 10));
    assert!(!moves.awaits_deletions(3, &vec![4, 5, 6], 0, 10));
    assert!(!moves.awaits_deletions(3, &vec![], 10, 10));
}
