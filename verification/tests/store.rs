//! Reads, batches, configuration and the halt state of a store.

use strata::batch::{
    rollover_rows, BatchError, BatchOp, BatchWriteResult, LsmMutation, PreparedBatchOp,
    ProfileRequest, StoreSyncProfile, StoreWriteProfile, StrataBatch,
};
use strata::blob_lsm::codec::{
    BlobLifetime, BlobMutation, BlobState, BlobVersion, FormatError,
};
use strata::blob_lsm::garbage::BlobKey;
use strata::blob_lsm::merge::StoredValue;
use strata::config::{
    join_path, SealedSegmentIntegrityPolicy, StrataRecoveryPolicy, StrataStoreConfig,
};
use strata::gc::tuner::GcConcurrencyConfig;
use strata::halt::StoreHalt;
use strata::keys::is_key_before;
use strata::num::{div_ceil_u128, saturating_mul_u128, saturating_mul_u64};
use strata::read::{
    check_record_key, first_upkeep, live_record_ref_once, readable_shard_key,
    resolve_blob_version, second_upkeep, segment_state_for_read, segment_state_is_readable,
    LiveRecordRef, ReadAttempt, ReadError, ReadOptions, ReadStep, SegmentSight, Upkeep,
};
use strata::segments::{PlacementClass, SegmentFileState, SegmentOwner, SegmentState};
use strata::shard_map::ShardMap;
use strata::text::{decimal_text, parse_number, to_lower_case, trim, NumberError};
use strata::types::{BlobLifecycle, RecordRef, ShardInfo, ShardKey, ShardState};

fn shard(id: u32, generation: u64) -> ShardKey {
    ShardKey { id, generation }
}

fn record(segment_id: u64, offset: u64, len: u64) -> RecordRef {
    RecordRef { segment_id, offset, len }
}

fn key(bytes: &[u8]) -> BlobKey {
    BlobKey::new(bytes.to_vec())
}

fn row(owner: SegmentOwner, state: SegmentFileState) -> Option<SegmentState> {
    Some(SegmentState {
        owner,
        segment_id: 1,
        volume_id: 0,
        path: "ingest/1.data".to_owned(),
        placement_class: PlacementClass::Ingest,
        state,
        write_offset: 0,
        durable_offset: 0,
        min_lsn: None,
        max_lsn: None,
        sealed_before_lsn: None,
        sealed_len: None,
        sealed_sha256: None,
    })
}

fn state_row() -> StoredValue {
    let mut state = BlobState::new();
    state.versions.insert(
        shard(1, 1),
        BlobVersion { lsn: 7, write_epoch: 2, record_ref: record(3, 40, 9) },
    );
    state.lifetime = Some(BlobLifetime {
        lsn: 8,
        lifecycle: BlobLifecycle { logical_end_epoch: 5, extension_count: 1 },
    });
    StoredValue::Inline(state.encode().unwrap())
}

#[test]
fn rows_resolve_to_their_readable_payload() {
    let resolved = resolve_blob_version(&Some(state_row()), shard(1, 1), &key(b"k"), 4).unwrap().unwrap();
    assert_eq!(resolved.record_ref, record(3, 40, 9));
    assert_eq!((resolved.head_lsn, resolved.generation, resolved.payload_lsn), (7, 7, 7));
    assert_eq!(
        resolved.lifecycle,
        Some(BlobLifecycle { logical_end_epoch: 5, extension_count: 1 })
    );
    // The lifetime has ended, the shard holds nothing, there is no row.
    assert_eq!(resolve_blob_version(&Some(state_row()), shard(1, 1), &key(b"k"), 5).unwrap(), None);
    assert_eq!(resolve_blob_version(&Some(state_row()), shard(1, 2), &key(b"k"), 4).unwrap(), None);
    assert_eq!(resolve_blob_version(&None, shard(1, 1), &key(b"k"), 4).unwrap(), None);
}

#[test]
fn unreadable_rows_are_reported() {
    let blob = StoredValue::Blob { metadata: vec![], record_ref: record(1, 1, 1) };
    assert_eq!(
        resolve_blob_version(&Some(blob), shard(1, 1), &key(b"k"), 1).unwrap_err(),
        ReadError::SegmentBackedState { key: key(b"k") }
    );
    assert_eq!(
        resolve_blob_version(&Some(StoredValue::Inline(vec![])), shard(1, 1), &key(b"k"), 1)
            .unwrap_err(),
        ReadError::Format(FormatError::Truncated)
    );
}

#[test]
fn shards_are_readable_while_active() {
    assert_eq!(readable_shard_key(4, Some(ShardInfo::active(2))), Ok(shard(4, 2)));
    assert_eq!(readable_shard_key(4, None), Err(ReadError::ShardNotFound { shard_id: 4 }));
    let dropped = ShardInfo { current_generation: 2, state: ShardState::Dropped };
    assert_eq!(
        readable_shard_key(4, Some(dropped)),
        Err(ReadError::ShardUnavailable {
            shard_id: 4,
            generation: 2,
            current_generation: 2,
            state: ShardState::Dropped,
        })
    );
}

#[test]
fn reads_stay_in_their_shard() {
    let mine = shard(1, 1);
    let look = |owner, state| segment_state_for_read(&row(owner, state), mine);
    assert_eq!(look(SegmentOwner::Store, SegmentFileState::Open), SegmentSight::Readable);
    assert_eq!(look(SegmentOwner::Shard(mine), SegmentFileState::Sealed), SegmentSight::Readable);
    assert_eq!(
        look(SegmentOwner::Shard(shard(1, 2)), SegmentFileState::Sealed),
        SegmentSight::Absent
    );
    assert_eq!(look(SegmentOwner::Store, SegmentFileState::Deleted), SegmentSight::Deleted);
    assert_eq!(segment_state_for_read(&None, mine), SegmentSight::Absent);
    assert!(segment_state_is_readable(SegmentFileState::GcRelocating));
    assert!(!segment_state_is_readable(SegmentFileState::Deleted));
}

#[test]
fn relocated_records_are_found_where_they_went() {
    let at = record(1, 0, 9);
    let to = record(2, 64, 9);
    let find = |seen, relocation, there| live_record_ref_once(Some(at), seen, relocation, there);
    assert_eq!(
        find(SegmentSight::Readable, None, SegmentSight::Absent),
        Ok(LiveRecordRef::Readable(at))
    );
    assert_eq!(
        find(SegmentSight::Absent, Some(to), SegmentSight::Readable),
        Ok(LiveRecordRef::Missing)
    );
    assert_eq!(
        find(SegmentSight::Deleted, Some(to), SegmentSight::Readable),
        Ok(LiveRecordRef::Readable(to))
    );
    assert_eq!(
        find(SegmentSight::Deleted, Some(to), SegmentSight::Deleted),
        Ok(LiveRecordRef::Deleted(to))
    );
    assert_eq!(
        find(SegmentSight::Deleted, None, SegmentSight::Absent),
        Ok(LiveRecordRef::Deleted(at))
    );
    assert_eq!(
        find(SegmentSight::Deleted, Some(at), SegmentSight::Absent),
        Ok(LiveRecordRef::Deleted(at))
    );
    let error = find(SegmentSight::Deleted, Some(record(2, 64, 8)), SegmentSight::Readable)
        .unwrap_err();
    assert_eq!(error, ReadError::RelocationChangesLength { from: 9, to: 8 });
    assert_eq!(
        error.fault().as_deref(),
        Some("relocation changes record length from 9 to 8")
    );
    assert_eq!(ReadError::SegmentBackedState { key: key(b"k") }.fault(), None);
    assert_eq!(
        live_record_ref_once(None, SegmentSight::Readable, None, SegmentSight::Absent),
        Ok(LiveRecordRef::Missing)
    );
}

#[test]
fn reads_retry_at_most_once() {
    let gone = LiveRecordRef::Deleted(record(1, 0, 9));
    let mut attempt = ReadAttempt::begin();
    assert_eq!(attempt.resolved(gone), ReadStep::Again);
    assert_eq!(attempt.resolved(gone), ReadStep::Absent);

    let mut attempt = ReadAttempt::begin();
    assert_eq!(
        attempt.resolved(LiveRecordRef::Readable(record(1, 0, 9))),
        ReadStep::Read(record(1, 0, 9))
    );
    // Only a file that is gone, and known to be deleted, is worth another attempt.
    assert_eq!(attempt.failed(true, Some(SegmentFileState::Sealed)), ReadStep::Fail);
    assert_eq!(attempt.failed(true, None), ReadStep::Fail);
    assert_eq!(attempt.failed(false, Some(SegmentFileState::Deleted)), ReadStep::Fail);
    assert_eq!(attempt.failed(true, Some(SegmentFileState::Deleted)), ReadStep::Again);
    assert_eq!(attempt.failed(true, Some(SegmentFileState::Deleted)), ReadStep::Fail);
    assert_eq!(attempt.resolved(LiveRecordRef::Missing), ReadStep::Absent);
}

#[test]
fn records_answer_only_under_their_own_key() {
    assert_eq!(check_record_key(&key(b"ab"), key(b"ab")), Ok(()));
    for other in [&b"ac"[..], b"abc", b"a", b""] {
        assert_eq!(
            check_record_key(&key(b"ab"), key(other)),
            Err(ReadError::KeyMismatch { requested: key(b"ab"), found: key(other) })
        );
    }
}

#[test]
fn checksums_are_verified_by_default() {
    assert!(ReadOptions::default().verify_checksum);
    assert!(ReadOptions::verify_checksums().verify_checksum);
    assert!(!ReadOptions::skip_checksum_verification().verify_checksum);
}

#[test]
fn batches_keep_their_order() {
    let mut batch = StrataBatch::new();
    batch
        .put(1, key(b"a"), vec![9])
        .set_blob_lifetime(key(b"a"), 4)
        .tombstone(1, key(b"b"));
    batch.increment_epoch();
    assert_eq!(batch.ops.len(), 4);
    assert!(matches!(&batch.ops[0], BatchOp::Put { shard_id: 1, payload, .. } if payload == &[9]));
    assert!(matches!(batch.ops[1], BatchOp::SetBlobLifetime { logical_end_epoch: 4, .. }));
    assert!(matches!(batch.ops[2], BatchOp::Tombstone { shard_id: 1, .. }));
    assert!(matches!(batch.ops[3], BatchOp::IncrementEpoch));
}

#[test]
fn write_results_name_lsns_and_epochs() {
    let result = BatchWriteResult {
        op_lsns: vec![5, 6, 7],
        op_epochs: vec![None, Some(3), None],
    };
    assert_eq!(result.clone(), result);
    assert_eq!(
        BatchWriteResult::default(),
        BatchWriteResult { op_lsns: vec![], op_epochs: vec![] }
    );
    assert_eq!(result.op_lsns(), &vec![5, 6, 7]);
    assert_eq!(result.op_epochs(), &vec![None, Some(3), None]);
    assert_eq!((result.first_lsn(), result.last_lsn()), (Some(5), Some(7)));
    assert_eq!(result.last_epoch(), Some(3));
    assert_eq!(result.epoch_for_op(1), Some(3));
    assert_eq!(result.epoch_for_op(2), None);
    assert_eq!(result.epoch_for_op(9), None);
    let empty = BatchWriteResult { op_lsns: vec![], op_epochs: vec![] };
    assert_eq!((empty.first_lsn(), empty.last_lsn(), empty.last_epoch()), (None, None, None));
}

#[test]
fn operations_route_to_their_partition() {
    let put = |record_ref| PreparedBatchOp::Put {
        shard: shard(1, 2),
        key: key(b"k"),
        payload: vec![1],
        lsn: 11,
        current_epoch: 3,
        record_ref,
        record_bytes: 20,
    };
    match put(Some(record(4, 0, 20))).blob_mutation(6) {
        Ok(Some(LsmMutation::PutBlob { partition, key, metadata, record_ref })) => {
            assert_eq!((partition, key), (6, b"k".to_vec()));
            assert_eq!(metadata, BlobMutation::encode_put_metadata(shard(1, 2), 3));
            assert_eq!(record_ref, record(4, 0, 20));
        }
        other => panic!("unexpected mutation {other:?}"),
    }
    let error = put(None).blob_mutation(6).unwrap_err();
    assert_eq!(error, BatchError::MissingRecordRef { lsn: 11 });
    assert_eq!(
        error.fault().as_deref(),
        Some("payload segment reference is missing at LSN 11")
    );
    let tombstone = PreparedBatchOp::Tombstone { shard: shard(1, 2), key: key(b"k"), lsn: 12 };
    assert_eq!(tombstone.lsn(), 12);
    match tombstone.blob_mutation(0) {
        Ok(Some(LsmMutation::Put { value, .. })) => assert_eq!(
            value,
            BlobMutation::Tombstone { shard: shard(1, 2) }.encode_inline().unwrap()
        ),
        other => panic!("unexpected mutation {other:?}"),
    }
    let epoch = PreparedBatchOp::EpochChange { lsn: 13, epoch: 4 };
    assert!(matches!(epoch.blob_mutation(0), Ok(None)));
}

#[test]
fn rollovers_say_where_the_old_segment_ends() {
    let mut old = row(SegmentOwner::Store, SegmentFileState::Sealing).unwrap();
    let error = rollover_rows(old.clone(), 2).err().unwrap();
    assert_eq!(error, BatchError::MissingSealedBeforeLsn { segment_id: 1 });
    assert_eq!(
        error.fault().as_deref(),
        Some("rollover from segment 1 has no sealed-before LSN")
    );
    old.sealed_before_lsn = Some(30);
    let rows = rollover_rows(old.clone(), 2).unwrap();
    assert_eq!(rows.old_segment_state, old);
    assert_eq!((rows.new_segment_id, rows.published_at_lsn), (2, 30));
}

#[test]
fn profiles_measure_the_wait_in_the_queue() {
    assert_eq!(ProfileRequest::disabled().queue_wait(9), None);
    assert_eq!(ProfileRequest::enabled(4).queue_wait(9), Some(5));
    assert_eq!(ProfileRequest::enabled(9).queue_wait(4), Some(0));
    assert_eq!(ProfileRequest::disabled().begin_write(9), None);
    assert_eq!(ProfileRequest::disabled().begin_sync(9), None);
    assert_eq!(
        ProfileRequest::enabled(4).begin_write(9),
        Some(StoreWriteProfile { queue_wait: 5, ..StoreWriteProfile::default() })
    );
    assert_eq!(
        ProfileRequest::enabled(4).begin_sync(9),
        Some(StoreSyncProfile { queue_wait: 5, ..StoreSyncProfile::default() })
    );
}

#[test]
fn configurations_start_from_production_defaults() {
    let config = StrataStoreConfig::new("/data".to_owned(), "blobs".to_owned());
    assert_eq!(config.segment_max_bytes, 1 << 30);
    assert_eq!(config.recovery_policy, StrataRecoveryPolicy::PointInTime);
    assert_eq!(
        config.sealed_segment_integrity_policy,
        SealedSegmentIntegrityPolicy::MetadataOnly
    );
    assert!(config.gc_workers_enabled);
    assert_eq!(config.namespace_dir(), "/data/blobs");
    assert_eq!(config.ingest_dir(), "/data/blobs/ingest");
    assert_eq!(config.standalone_index_dir(), "/data/blobs/index");
    assert_eq!(config.relocation_dir(), "/data/blobs/relocations");
    assert_eq!(config.garbage_log_dir(), "/data/blobs/garbage-log");
    assert_eq!(config.index_cf_prefix(), "strata/blobs");
    let bounds = GcConcurrencyConfig::from_store_config(&config);
    assert_eq!(bounds.max_workers, 1);
    assert_eq!(bounds.max_io_bytes_per_sec, 32 << 20);
    assert_eq!(bounds.min_io_bytes_per_sec, 4 << 20);
}

#[test]
fn paths_are_joined_once() {
    assert_eq!(join_path("/data/", "x"), "/data/x");
    assert_eq!(join_path("", "x"), "x");
    assert_eq!(join_path("/data", "/x"), "/x");
}

#[test]
fn the_first_failure_halts_the_store() {
    let mut halt = StoreHalt::new(5);
    assert!(halt.check().is_ok());
    assert!(!halt.publish_lsn(5));
    assert!(halt.publish_lsn(9));
    assert!(!halt.publish_lsn(7));
    assert_eq!(halt.progress.published_lsn, 9);
    assert!(halt.halt("first".to_owned()));
    assert!(!halt.halt("second".to_owned()));
    assert_eq!(halt.check().unwrap_err().reason, "first");
    assert!(StoreHalt::default().check().is_ok());
}

#[test]
fn shards_are_kept_in_order() {
    let mut map: ShardMap<u64> = ShardMap::new();
    assert!(map.is_empty());
    assert_eq!(map.insert(shard(2, 1), 21), None);
    assert_eq!(map.insert(shard(1, 9), 19), None);
    assert_eq!(map.insert(shard(2, 1), 22), Some(21));
    assert_eq!(map.len(), 2);
    assert_eq!((map.shard_at(0), *map.value_at(0)), (shard(1, 9), 19));
    assert_eq!(map.get(&shard(2, 1)), Some(&22));
    assert_eq!(map.remove(&shard(1, 9)), Some(19));
    assert_eq!(map.remove(&shard(1, 9)), None);
    map.clear();
    assert!(map.is_empty());
    assert!(shard(1, 9).before(&shard(2, 0)));
    assert!(!shard(2, 1).before(&shard(2, 1)));
}

#[test]
fn keys_are_ordered_as_bytes() {
    assert!(is_key_before(&b"a".to_vec(), &b"ab".to_vec()));
    assert!(is_key_before(&b"ab".to_vec(), &b"b".to_vec()));
    assert!(!is_key_before(&b"b".to_vec(), &b"b".to_vec()));
    assert!(!is_key_before(&b"b".to_vec(), &vec![]));
}

#[test]
fn decimals_round_trip() {
    for value in [0, 7, 10, 255, u64::MAX] {
        assert_eq!(decimal_text(value), value.to_string());
        assert_eq!(parse_number(&decimal_text(value), u64::MAX), Ok(value));
    }
    assert_eq!(parse_number("+7", 9), Ok(7));
    assert_eq!(parse_number("10", 9), Err(NumberError::TooLarge));
    assert_eq!(parse_number("", 9), Err(NumberError::Empty));
    assert_eq!(parse_number("+", 9), Err(NumberError::InvalidDigit));
    assert_eq!(parse_number("-1", 9), Err(NumberError::InvalidDigit));
    assert_eq!(trim(" \t a b\n"), "a b");
    assert_eq!(to_lower_case("MiB"), "mib");
}

#[test]
fn arithmetic_saturates() {
    assert_eq!(saturating_mul_u64(3, 4), 12);
    assert_eq!(saturating_mul_u64(u64::MAX, 2), u64::MAX);
    assert_eq!(saturating_mul_u128(u128::MAX, 3), u128::MAX);
    assert_eq!(div_ceil_u128(7, 2), 4);
    assert_eq!(div_ceil_u128(8, 2), 4);
}

#[test]
fn caches_follow_what_reads_see() {
    let at = record(1, 0, 9);
    assert_eq!(first_upkeep(at, SegmentSight::Readable), Upkeep::Nothing);
    assert_eq!(first_upkeep(at, SegmentSight::Absent), Upkeep::Evict(at));
    assert_eq!(first_upkeep(at, SegmentSight::Deleted), Upkeep::Evict(at));
    assert_eq!(second_upkeep(at, SegmentSight::Readable, false), Upkeep::Remember(at));
    assert_eq!(second_upkeep(at, SegmentSight::Readable, true), Upkeep::Nothing);
    assert_eq!(second_upkeep(at, SegmentSight::Absent, true), Upkeep::Evict(at));
    assert_eq!(second_upkeep(at, SegmentSight::Deleted, false), Upkeep::Evict(at));
}
