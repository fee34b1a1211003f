//! What a crash leaves behind, and what recovery keeps of it.

use std::collections::{BTreeMap, BTreeSet};

use strata::config::StrataRecoveryPolicy;
use strata::gc::publish::SegmentGcSummary;
use strata::maintenance::pass::ShardCleanupJob;
use strata::recovery::{
    active_segment_state, apply_recovered_segment_prefix, discard_unsealed_segment, min_lsn,
    persist_recovered_segment_prefix, publish_recovered_store_checkpoint,
    reconcile_orphan_ingest_segment_files, recover_store_wal_prefix, recover_unsealed_segment,
    requested_lsn, rollback_operations_from, truncate_unsealed_segment_from_lsn, BaselineChange,
    LogRecovery, PersistPlan, RecoveryError, RecoveryStep, ScannedPrefix, ScannedRecord,
    SegmentRecovery, SegmentRecoveryDriver, StoreCheckpoint, WalPosition,
};
use strata::segments::{SegmentFileState, SegmentState};
use strata::types::{ShardInfo, ShardKey, ShardState};

const LENIENT: StrataRecoveryPolicy = StrataRecoveryPolicy::PointInTime;
const STRICT: StrataRecoveryPolicy = StrataRecoveryPolicy::AbsoluteConsistency;

fn segment(write_offset: u64, durable_offset: u64) -> SegmentState {
    active_segment_state("ingest/1.data".to_owned(), 1, write_offset, durable_offset)
}

fn scanned(offset: u64, lsn: u64) -> ScannedRecord {
    ScannedRecord { offset, len: 10, lsn }
}

fn prefix(valid_len: u64, file_len: u64) -> Option<ScannedPrefix> {
    Some(ScannedPrefix {
        valid_len,
        file_len,
        records: (0..valid_len / 10).map(|i| scanned(i * 10, 100 + i)).collect(),
    })
}

#[test]
fn orphans_are_removed_or_refused() {
    let indexed = BTreeSet::from([1, 3]);
    let files = vec![1, 4, 3, 2];
    assert_eq!(
        reconcile_orphan_ingest_segment_files(LENIENT, &files, &indexed),
        Ok(vec![4, 2])
    );
    assert_eq!(
        reconcile_orphan_ingest_segment_files(STRICT, &files, &indexed),
        Err(RecoveryError::OrphanSegmentFile { segment_id: 4 })
    );
    assert_eq!(
        reconcile_orphan_ingest_segment_files(STRICT, &vec![3, 1], &indexed),
        Ok(vec![])
    );
}

#[test]
fn an_intact_segment_is_kept_whole() {
    let recovered =
        recover_unsealed_segment(STRICT, 1, &Some(segment(30, 20)), &prefix(30, 30), 200);
    assert_eq!(
        recovered,
        Ok((
            RecoveryStep::Keep {
                write_offset: 30,
                persist: PersistPlan { truncate: false, sync: true, durable_offset: 30 },
            },
            SegmentRecovery { is_complete: true, rollback_from: None },
        ))
    );
}

#[test]
fn a_short_segment_keeps_its_intact_prefix() {
    let row = Some(segment(30, 10));
    let (step, recovery) =
        recover_unsealed_segment(LENIENT, 1, &row, &prefix(20, 27), 200).unwrap();
    assert_eq!(
        step,
        RecoveryStep::Keep {
            write_offset: 20,
            persist: PersistPlan { truncate: true, sync: true, durable_offset: 20 },
        }
    );
    // The last surviving record has LSN 101.
    assert_eq!(recovery, SegmentRecovery { is_complete: false, rollback_from: Some(102) });
    assert_eq!(
        recover_unsealed_segment(STRICT, 1, &row, &prefix(20, 27), 200),
        Err(RecoveryError::RecoveryInconsistent {
            segment_id: 1,
            expected_write_offset: 30,
            recovered_write_offset: 20,
        })
    );
}

#[test]
fn uncommitted_bytes_are_cut_off() {
    let (step, recovery) =
        recover_unsealed_segment(LENIENT, 1, &Some(segment(20, 20)), &prefix(30, 30), 200)
            .unwrap();
    assert_eq!(
        step,
        RecoveryStep::Keep {
            write_offset: 20,
            persist: PersistPlan { truncate: true, sync: true, durable_offset: 20 },
        }
    );
    assert!(recovery.is_complete);
}

#[test]
fn a_missing_file_is_discarded_unless_it_was_durable() {
    let mut row = segment(30, 0);
    row.min_lsn = Some(77);
    assert_eq!(
        recover_unsealed_segment(LENIENT, 1, &Some(row.clone()), &None, 200),
        Ok((
            RecoveryStep::Discard,
            SegmentRecovery { is_complete: false, rollback_from: Some(77) },
        ))
    );
    row.durable_offset = 10;
    assert_eq!(
        recover_unsealed_segment(LENIENT, 1, &Some(row), &None, 200),
        Err(RecoveryError::RecoveryInconsistent {
            segment_id: 1,
            expected_write_offset: 30,
            recovered_write_offset: 0,
        })
    );
    assert_eq!(
        recover_unsealed_segment(STRICT, 1, &None, &None, 200).map(|(step, _)| step),
        Ok(RecoveryStep::Nothing)
    );
}

#[test]
fn a_short_segment_poisons_the_rest() {
    let mut driver = SegmentRecoveryDriver::begin();
    driver.recovered(SegmentRecovery { is_complete: true, rollback_from: None });
    assert!(!driver.discard_later_segments);
    driver.recovered(SegmentRecovery { is_complete: false, rollback_from: Some(40) });
    assert!(driver.discard_later_segments);
    driver.discarded(Some(50));
    assert_eq!(driver.rollback_from, Some(40));
    driver.discarded(Some(30));
    driver.discarded(None);
    assert_eq!(driver.rollback_from, Some(30));
    assert_eq!(min_lsn(None, Some(3)), Some(3));
    assert_eq!(min_lsn(Some(3), Some(2)), Some(2));
    assert_eq!(min_lsn(None, None), None);
}

#[test]
fn durable_bytes_never_vanish() {
    assert_eq!(
        persist_recovered_segment_prefix(30, 30, 30),
        PersistPlan { truncate: false, sync: false, durable_offset: 30 }
    );
    assert_eq!(
        persist_recovered_segment_prefix(40, 30, 20),
        PersistPlan { truncate: true, sync: true, durable_offset: 30 }
    );
}

#[test]
fn rows_are_rebuilt_from_surviving_records() {
    let mut existing = segment(90, 90);
    existing.volume_id = 4;
    existing.min_lsn = Some(1);
    existing.max_lsn = Some(999);
    let records = vec![scanned(0, 103), scanned(10, 101), scanned(20, 105)];
    let recovered = apply_recovered_segment_prefix(
        1,
        "ingest/1.data".to_owned(),
        &Some(existing.clone()),
        20,
        20,
        &records,
        10,
    )
    .unwrap();
    assert_eq!(recovered.records, 2);
    assert_eq!(recovered.state.volume_id, 4);
    assert_eq!((recovered.state.min_lsn, recovered.state.max_lsn), (Some(101), Some(103)));
    assert_eq!(recovered.baseline, BaselineChange::Extend { bytes: 10, records: 1 });

    // What GC had counted is partly gone: counting starts over.
    let reset = apply_recovered_segment_prefix(
        1,
        "ingest/1.data".to_owned(),
        &Some(existing),
        20,
        20,
        &records,
        30,
    )
    .unwrap();
    assert_eq!(
        reset.baseline,
        BaselineChange::Reset(SegmentGcSummary {
            total_bytes: 20,
            live_bytes: 20,
            retired_bytes: 0,
            expired_bytes: 0,
            live_ref_count: 2,
            unknown_lifetime_bytes: 20,
            unknown_lifetime_ref_count: 2,
        })
    );
}

#[test]
fn damaged_baselines_are_refused() {
    let apply = |records: Vec<ScannedRecord>, accounted| {
        apply_recovered_segment_prefix(1, String::new(), &None, 20, 20, &records, accounted)
            .err()
            .unwrap()
    };
    let split = apply(vec![scanned(0, 1), scanned(10, 2)], 15);
    assert_eq!(
        split,
        RecoveryError::BaselineSplitsRecord { segment_id: 1, baseline_bytes: 15, offset: 10 }
    );
    assert_eq!(split.fault().as_deref(), Some("segment 1 GC baseline 15 splits record at 10"));
    let overflow = apply(vec![ScannedRecord { offset: u64::MAX, len: 1, lsn: 1 }], 0);
    assert_eq!(overflow, RecoveryError::RangeOverflow);
    assert_eq!(overflow.fault(), None);
}

#[test]
fn discarded_segments_are_marked_deleted() {
    let mut existing = segment(30, 0);
    existing.volume_id = 2;
    let row = discard_unsealed_segment(1, "new".to_owned(), &Some(existing));
    assert_eq!(row.state, SegmentFileState::Deleted);
    assert_eq!((row.volume_id, row.path.as_str()), (2, "ingest/1.data"));
    assert_eq!((row.write_offset, row.durable_offset), (0, 0));
    let fresh = discard_unsealed_segment(1, "new".to_owned(), &None);
    assert_eq!(fresh.path, "new");
}

#[test]
fn the_logs_tail_is_kept_or_rolled_back_to_what_was_published() {
    assert_eq!(requested_lsn(0), None);
    assert_eq!(requested_lsn(1), None);
    assert_eq!(requested_lsn(9), Some(8));
    assert_eq!(recover_store_wal_prefix(LENIENT, true, Some(8), 5, true), LogRecovery::Keep);
    assert_eq!(recover_store_wal_prefix(STRICT, false, Some(8), 5, true), LogRecovery::Fail);
    assert_eq!(recover_store_wal_prefix(LENIENT, false, None, 0, false), LogRecovery::Fail);
    assert_eq!(recover_store_wal_prefix(LENIENT, false, Some(5), 5, true), LogRecovery::Fail);
    assert_eq!(
        recover_store_wal_prefix(LENIENT, false, Some(8), 5, true),
        LogRecovery::FallBack { target: Some(5), reset_checkpoint: false, rollback_from: 6 }
    );
    assert_eq!(
        recover_store_wal_prefix(LENIENT, false, Some(8), 0, true),
        LogRecovery::FallBack { target: None, reset_checkpoint: true, rollback_from: 1 }
    );
}

#[test]
fn rolled_back_records_are_truncated() {
    let file = ScannedPrefix {
        valid_len: 30,
        file_len: 30,
        records: vec![scanned(0, 7), scanned(10, 8), scanned(20, 9)],
    };
    assert_eq!(truncate_unsealed_segment_from_lsn(30, &file, 10), None);
    assert_eq!(
        truncate_unsealed_segment_from_lsn(30, &file, 8),
        Some((10, PersistPlan { truncate: true, sync: true, durable_offset: 10 }))
    );
}

#[test]
fn rollback_erases_exactly_the_tail() {
    let kept = ShardKey { id: 1, generation: 1 };
    let reopened = ShardKey { id: 2, generation: 3 };
    let superseded = ShardKey { id: 3, generation: 1 };
    let jobs = vec![
        ShardCleanupJob { shard: kept, drop_lsn: 4 },
        ShardCleanupJob { shard: reopened, drop_lsn: 10 },
        ShardCleanupJob { shard: superseded, drop_lsn: 12 },
    ];
    let infos = BTreeMap::from([
        (1, ShardInfo { current_generation: 1, state: ShardState::Dropped }),
        (2, ShardInfo { current_generation: 3, state: ShardState::Dropped }),
        (3, ShardInfo::active(2)),
    ]);
    let plan =
        rollback_operations_from(10, &vec![(0, 1), (5, 2), (11, 3)], &jobs, &infos).unwrap();
    assert_eq!(plan.removed_epoch_changes, vec![11]);
    assert_eq!(plan.removed_drops, vec![reopened, superseded]);
    assert_eq!(plan.restored_shards, vec![reopened]);
    assert_eq!(plan.current_epoch, 2);
    assert_eq!(plan.next_lsn, 10);
    assert_eq!(plan.rolled_back_ops, 3);
    assert_eq!(
        rollback_operations_from(10, &vec![(11, 3)], &jobs, &infos).err(),
        Some(RecoveryError::EpochNotInitialized)
    );
}

#[test]
fn the_recovered_state_is_published() {
    let position = WalPosition { file_id: 2, offset: 30 };
    assert_eq!(
        publish_recovered_store_checkpoint(10, 9, position, &segment(30, 30)),
        Ok((
            9,
            StoreCheckpoint {
                wal_position: position,
                active_segment_id: 1,
                active_segment_offset: 30,
            },
        ))
    );
    let error =
        publish_recovered_store_checkpoint(10, 12, position, &segment(30, 30)).unwrap_err();
    assert_eq!(
        error,
        RecoveryError::PublishedBeyondRecovered { published_lsn: 12, recovered_lsn: 9 }
    );
    assert_eq!(
        error.fault().as_deref(),
        Some("published LSN 12 follows recovered LSN 9")
    );
}
