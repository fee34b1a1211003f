//! Blob states: wire formats, merging, and pruning against a snapshot.

use std::collections::BTreeMap;

use strata::blob_lsm::codec::{
    BlobLifetime, BlobMutation, BlobMutationWithLSN, BlobState, BlobVersion, FormatError,
};
use strata::blob_lsm::garbage::{BlobKey, GarbageRecord};
use strata::blob_lsm::merge::{BlobMerge, MergeError, StoredValue};
use strata::blob_lsm::snapshot::BlobCompactionSnapshot;
use strata::shard_map::ShardMap;
use strata::types::{
    BlobLifecycle, Epoch, GarbageEvent, RecordRef, ShardInfo, ShardKey, ShardState, StrataLsn,
};

fn shard(id: u32, generation: u64) -> ShardKey {
    ShardKey { id, generation }
}

fn record(segment_id: u64, offset: u64) -> RecordRef {
    RecordRef { segment_id, offset, len: 100 }
}

fn version(lsn: StrataLsn, record_ref: RecordRef) -> BlobVersion {
    BlobVersion { lsn, write_epoch: 5, record_ref }
}

fn lifetime(lsn: StrataLsn, logical_end_epoch: Epoch) -> Option<BlobLifetime> {
    Some(BlobLifetime {
        lsn,
        lifecycle: BlobLifecycle { logical_end_epoch, extension_count: 0 },
    })
}

fn state_of(versions: &[(ShardKey, BlobVersion)], lifetime: Option<BlobLifetime>) -> BlobState {
    let mut state = BlobState::new();
    for (shard, version) in versions {
        state.versions.insert(*shard, *version);
    }
    state.lifetime = lifetime;
    state
}

fn empty_snapshot() -> BlobCompactionSnapshot {
    BlobCompactionSnapshot {
        materialized_through_lsn: 0,
        emit_garbage_from_lsn: 0,
        epoch_changes: Vec::new(),
        shard_infos: BTreeMap::new(),
        shard_drop_lsns: ShardMap::new(),
        reclaimed_shard_segments: BTreeMap::new(),
    }
}

fn drop_lsns(entries: &[(ShardKey, StrataLsn)]) -> ShardMap<StrataLsn> {
    let mut lsns = ShardMap::new();
    for (shard, lsn) in entries {
        lsns.insert(*shard, *lsn);
    }
    lsns
}

fn key() -> BlobKey {
    BlobKey::new(b"blob".to_vec())
}

fn put_patch(shard: ShardKey, write_epoch: Epoch, record_ref: RecordRef) -> StoredValue {
    StoredValue::Blob {
        metadata: BlobMutation::encode_put_metadata(shard, write_epoch),
        record_ref,
    }
}

fn inline_patch(mutation: BlobMutation) -> StoredValue {
    StoredValue::Inline(mutation.encode_inline().unwrap())
}

fn merge(patches: Vec<(StrataLsn, StoredValue)>) -> (BlobState, Vec<GarbageRecord>) {
    let (state, garbage) =
        BlobMerge::new(empty_snapshot()).merge(&key(), None, &patches).unwrap();
    (state.unwrap(), garbage)
}

fn compact_state(
    state: &BlobState,
    snapshot: BlobCompactionSnapshot,
) -> (Option<BlobState>, Vec<GarbageRecord>) {
    let base = StoredValue::Inline(state.encode().unwrap());
    BlobMerge::new(snapshot).merge(&key(), Some(&base), &Vec::new()).unwrap()
}

#[test]
fn mutation_codecs_round_trip() {
    let record_ref = record(7, 8);
    let put = BlobMutation::decode_put_metadata(
        &BlobMutation::encode_put_metadata(shard(1, 2), 3),
        record_ref,
    )
    .unwrap();
    assert_eq!(put, BlobMutation::Put { shard: shard(1, 2), write_epoch: 3, record_ref });
    assert!(put.encode_inline().is_err());

    let inline_mutations = [
        BlobMutation::SetLifetime { logical_end_epoch: 9, current_epoch: 4 },
        BlobMutation::Tombstone { shard: shard(5, 6) },
        BlobMutation::Relocate { shard: shard(5, 6), payload_lsn: 7, to: record(9, 11) },
    ];
    for mutation in inline_mutations {
        assert_eq!(
            BlobMutationWithLSN::decode_inline(10, &mutation.encode_inline().unwrap()).unwrap(),
            vec![BlobMutationWithLSN { lsn: 10, mutation }]
        );
    }

    let batch = vec![
        BlobMutationWithLSN { lsn: 3, mutation: put },
        BlobMutationWithLSN {
            lsn: 4,
            mutation: BlobMutation::Relocate {
                shard: shard(1, 2),
                payload_lsn: 3,
                to: record(9, 11),
            },
        },
    ];
    assert_eq!(
        BlobMutationWithLSN::decode_inline(4, &BlobMutationWithLSN::encode_batch(&batch).unwrap())
            .unwrap(),
        batch
    );
}

#[test]
fn materialized_state_codec_round_trips() {
    let state = state_of(
        &[(
            shard(1, 2),
            BlobVersion { lsn: 3, write_epoch: 5, record_ref: record(6, 7) },
        )],
        Some(BlobLifetime {
            lsn: 8,
            lifecycle: BlobLifecycle { logical_end_epoch: 10, extension_count: 11 },
        }),
    );
    assert_eq!(BlobState::decode(&state.encode().unwrap()).unwrap(), state);
}

#[test]
fn merge_keeps_one_version_per_shard_and_retires_overwrites() {
    let first = record(1, 10);
    let other = record(2, 20);
    let replacement = record(3, 30);
    let shard_a = shard(1, 1);
    let shard_b = shard(1, 2);
    let patches = vec![
        (1, put_patch(shard_a, 5, first)),
        (2, put_patch(shard_b, 5, other)),
        (3, put_patch(shard_a, 6, replacement)),
    ];

    let (state, garbage) = merge(patches);

    assert_eq!(state.resolve(shard_a, 6).unwrap().0.record_ref, replacement);
    assert_eq!(state.resolve(shard_b, 6).unwrap().0.record_ref, other);
    assert_eq!(garbage.len(), 1);
    assert_eq!(garbage[0].event, GarbageEvent::Retired { record: first });
    assert_eq!(garbage[0].lsn, 3);
}

#[test]
fn tombstone_only_retires_its_shard() {
    let shard_a = shard(1, 1);
    let shard_b = shard(2, 1);
    let record_a = record(1, 10);
    let record_b = record(2, 20);
    let patches = vec![
        (1, put_patch(shard_a, 5, record_a)),
        (2, put_patch(shard_b, 5, record_b)),
        (3, inline_patch(BlobMutation::Tombstone { shard: shard_a })),
    ];

    let (state, garbage) = merge(patches);

    assert!(state.resolve(shard_a, 5).is_none());
    assert_eq!(state.resolve(shard_b, 5).unwrap().0.record_ref, record_b);
    assert_eq!(garbage.len(), 1);
    assert_eq!(garbage[0].event, GarbageEvent::Retired { record: record_a });
    assert_eq!(garbage[0].lsn, 3);
}

#[test]
fn lifetime_expiry_and_tombstone_match_store_visibility() {
    let shard = shard(1, 1);
    let first = record(1, 10);
    let after_expiry = record(2, 20);
    let patches = vec![
        (1, put_patch(shard, 5, first)),
        (
            2,
            inline_patch(BlobMutation::SetLifetime { logical_end_epoch: 10, current_epoch: 5 }),
        ),
        (
            3,
            inline_patch(BlobMutation::SetLifetime { logical_end_epoch: 20, current_epoch: 10 }),
        ),
        (4, put_patch(shard, 10, after_expiry)),
    ];
    let (state, garbage) = merge(patches.clone());

    let (version, lifecycle) = state.resolve(shard, 10).unwrap();
    assert_eq!(version.record_ref, after_expiry);
    assert_eq!(lifecycle.unwrap().logical_end_epoch, 20);
    assert!(
        garbage
            .iter()
            .any(|record| record.event == GarbageEvent::Expired { record: first })
    );
    assert!(garbage.iter().any(|record| {
        record.event
            == GarbageEvent::SetLifecycle {
                record: after_expiry,
                lifecycle: Some(BlobLifecycle { logical_end_epoch: 20, extension_count: 0 }),
            }
    }));

    let tombstone = (5, inline_patch(BlobMutation::Tombstone { shard }));
    let mut all = patches;
    all.push(tombstone);
    let (state, garbage) = merge(all);
    assert!(state.resolve(shard, 10).is_none());
    assert!(
        garbage
            .iter()
            .any(|record| record.event == GarbageEvent::Retired { record: after_expiry })
    );
}

#[test]
fn snapshot_compaction_waits_for_the_materialized_epoch_frontier() {
    let shard = shard(1, 1);
    let record = record(7, 10);
    let state = state_of(&[(shard, version(2, record))], lifetime(1, 10));
    let epoch_changes = vec![(0, 5), (4, 10)];

    // LSN 3 may still contain a pre-expiry extension in a memtable. The index knows that
    // epoch 10 was reached at LSN 4, but an SST-only compaction is complete only through LSN 2.
    let (before_extension, garbage) = compact_state(
        &state,
        BlobCompactionSnapshot {
            materialized_through_lsn: 2,
            emit_garbage_from_lsn: 0,
            epoch_changes: epoch_changes.clone(),
            ..empty_snapshot()
        },
    );
    assert_eq!(before_extension.unwrap().versions.get(&shard).unwrap().record_ref, record);
    assert!(garbage.is_empty());

    let base = StoredValue::Inline(state.encode().unwrap());
    let extension =
        inline_patch(BlobMutation::SetLifetime { logical_end_epoch: 20, current_epoch: 9 });
    let merge = BlobMerge::new(BlobCompactionSnapshot {
        materialized_through_lsn: 4,
        emit_garbage_from_lsn: 0,
        epoch_changes,
        ..empty_snapshot()
    });
    let (state, garbage) = merge.merge(&key(), Some(&base), &vec![(3, extension)]).unwrap();
    let state = state.unwrap();

    assert_eq!(state.resolve(shard, 10).unwrap().0.record_ref, record);
    assert_eq!(state.resolve(shard, 10).unwrap().1.unwrap().logical_end_epoch, 20);
    assert!(
        garbage
            .iter()
            .all(|record| !matches!(record.event, GarbageEvent::Expired { .. }))
    );
}

#[test]
fn snapshot_compaction_expires_versions_at_the_first_reaching_epoch() {
    let shard = shard(1, 1);
    let record = record(7, 10);
    let state = state_of(&[(shard, version(3, record))], lifetime(4, 10));
    let snapshot = BlobCompactionSnapshot {
        materialized_through_lsn: 20,
        emit_garbage_from_lsn: 8,
        epoch_changes: vec![(0, 5), (9, 8), (12, 10), (18, 11)],
        shard_infos: BTreeMap::from([(1, ShardInfo::active(1))]),
        ..empty_snapshot()
    };

    let (state, garbage) = compact_state(&state, snapshot);

    assert!(state.unwrap().versions.is_empty());
    assert_eq!(garbage.len(), 1);
    assert_eq!(garbage[0].lsn, 12);
    assert_eq!(garbage[0].event, GarbageEvent::Expired { record });
}

#[test]
fn snapshot_compaction_silently_prunes_legacy_global_expiry() {
    let shard = shard(1, 1);
    let record = record(7, 10);
    let state = state_of(&[(shard, version(3, record))], lifetime(4, 10));
    let snapshot = BlobCompactionSnapshot {
        materialized_through_lsn: 20,
        emit_garbage_from_lsn: 13,
        epoch_changes: vec![(0, 5), (12, 10)],
        shard_infos: BTreeMap::from([(1, ShardInfo::active(1))]),
        ..empty_snapshot()
    };

    let (state, garbage) = compact_state(&state, snapshot);

    assert!(state.unwrap().versions.is_empty());
    assert!(garbage.is_empty());
}

#[test]
fn snapshot_compaction_retires_mixed_refs_but_silently_prunes_bulk_reclaimed_refs() {
    let dropped = shard(1, 4);
    let mixed = record(7, 10);
    let owned = record(8, 20);
    let second_dropped = shard(2, 4);
    let state = state_of(
        &[(dropped, version(3, mixed)), (second_dropped, version(4, owned))],
        None,
    );
    let gone = ShardInfo { current_generation: 4, state: ShardState::Dropped };
    let snapshot = BlobCompactionSnapshot {
        materialized_through_lsn: 20,
        emit_garbage_from_lsn: 8,
        shard_infos: BTreeMap::from([(1, gone), (2, gone)]),
        shard_drop_lsns: drop_lsns(&[(dropped, 11), (second_dropped, 12)]),
        reclaimed_shard_segments: BTreeMap::from([(owned.segment_id, second_dropped)]),
        ..empty_snapshot()
    };

    let (state, garbage) = compact_state(&state, snapshot);

    assert!(state.is_none());
    assert_eq!(garbage.len(), 1);
    assert_eq!(garbage[0].lsn, 11);
    assert_eq!(garbage[0].event, GarbageEvent::Retired { record: mixed });
}

#[test]
fn snapshot_compaction_silently_prunes_shards_owned_by_the_pre_cutover_path() {
    let pre_cutover_drop = shard(1, 4);
    let legacy_without_job = shard(2, 3);
    let state = state_of(
        &[
            (pre_cutover_drop, version(3, record(7, 10))),
            (legacy_without_job, version(4, record(8, 20))),
        ],
        None,
    );
    let snapshot = BlobCompactionSnapshot {
        materialized_through_lsn: 20,
        emit_garbage_from_lsn: 12,
        shard_infos: BTreeMap::from([
            (1, ShardInfo { current_generation: 4, state: ShardState::Dropped }),
            (2, ShardInfo::active(4)),
        ]),
        shard_drop_lsns: drop_lsns(&[(pre_cutover_drop, 11)]),
        ..empty_snapshot()
    };

    let (state, garbage) = compact_state(&state, snapshot);

    assert!(state.is_none());
    assert!(garbage.is_empty());
}

#[test]
fn wire_bytes_are_stable() {
    assert_eq!(
        BlobMutation::encode_put_metadata(shard(1, 2), 3),
        vec![3, 1, 1, 0, 0, 0, 2, 0, 0, 0, 0, 0, 0, 0, 3, 0, 0, 0, 0, 0, 0, 0]
    );
    assert_eq!(
        BlobMutation::Tombstone { shard: shard(1, 2) }.encode_inline().unwrap(),
        vec![3, 3, 1, 0, 0, 0, 2, 0, 0, 0, 0, 0, 0, 0]
    );
}

#[test]
fn damaged_mutations_are_refused() {
    let bytes = BlobMutation::Tombstone { shard: shard(1, 2) }.encode_inline().unwrap();
    let decode = |bytes: &[u8]| BlobMutationWithLSN::decode_inline(9, bytes).unwrap_err();

    let mut other_version = bytes.clone();
    other_version[0] = 9;
    assert_eq!(decode(&other_version), FormatError::UnsupportedVersion { version: 9 });
    assert_eq!(decode(&bytes[..bytes.len() - 1]), FormatError::Truncated);
    let mut longer = bytes.clone();
    longer.push(0);
    assert_eq!(decode(&longer), FormatError::TrailingBytes);
    let mut unknown = bytes.clone();
    unknown[1] = 77;
    assert_eq!(decode(&unknown), FormatError::UnknownMutationTag { tag: 77 });
    let mut put = bytes.clone();
    put[1] = 1;
    assert_eq!(decode(&put), FormatError::PutNotInline);
    assert_eq!(
        BlobMutation::decode_put_metadata(&bytes, record(1, 1)).unwrap_err(),
        FormatError::ExpectedPutTag { tag: 3 }
    );
}

#[test]
fn damaged_batches_are_refused() {
    let tombstone =
        |lsn| BlobMutationWithLSN { lsn, mutation: BlobMutation::Tombstone { shard: shard(1, 2) } };
    let ordered = BlobMutationWithLSN::encode_batch(&vec![tombstone(3), tombstone(4)]).unwrap();
    assert_eq!(
        BlobMutationWithLSN::decode_inline(3, &ordered).unwrap_err(),
        FormatError::BatchEmptyOrBeyondOuterLsn
    );
    let empty = BlobMutationWithLSN::encode_batch(&Vec::new()).unwrap();
    assert_eq!(
        BlobMutationWithLSN::decode_inline(3, &empty).unwrap_err(),
        FormatError::BatchEmptyOrBeyondOuterLsn
    );
    let disordered =
        BlobMutationWithLSN::encode_batch(&vec![tombstone(4), tombstone(4)]).unwrap();
    assert_eq!(
        BlobMutationWithLSN::decode_inline(9, &disordered).unwrap_err(),
        FormatError::LsnsNotIncreasing
    );
    // Version, batch tag and count come first, then the first mutation's LSN and its tag.
    let mut unknown = BlobMutationWithLSN::encode_batch(&vec![tombstone(3)]).unwrap();
    unknown[1 + 1 + 4 + 8] = 99;
    assert_eq!(
        BlobMutationWithLSN::decode_inline(9, &unknown).unwrap_err(),
        FormatError::UnknownBatchedTag { tag: 99 }
    );
}

#[test]
fn damaged_states_are_refused() {
    let state = state_of(&[(shard(1, 2), version(3, record(6, 7)))], lifetime(8, 10));
    let bytes = state.encode().unwrap();
    assert_eq!(
        BlobState::decode(&bytes[..bytes.len() - 1]).unwrap_err(),
        FormatError::Truncated
    );
    let mut longer = bytes.clone();
    longer.push(1);
    assert_eq!(BlobState::decode(&longer).unwrap_err(), FormatError::TrailingBytes);
    let without = state_of(&[], None).encode().unwrap();
    let mut marked = without.clone();
    let last = marked.len() - 1;
    marked[last] = 7;
    assert_eq!(
        BlobState::decode(&marked).unwrap_err(),
        FormatError::InvalidLifetimeMarker { marker: 7 }
    );
}

#[test]
fn a_state_names_each_shard_once() {
    let state = state_of(
        &[
            (shard(1, 2), version(3, record(6, 7))),
            (shard(1, 3), version(4, record(6, 8))),
        ],
        None,
    );
    let mut bytes = state.encode().unwrap();
    // Version and count, then per shard: shard, LSN, epoch and record; the lifetime marker ends it.
    let head = 1 + 4;
    let entry = 12 + 8 + 8 + 24;
    assert_eq!(bytes.len(), head + 2 * entry + 1);
    // The second shard's generation becomes that of the first.
    bytes[head + entry + 4] = 2;
    assert_eq!(BlobState::decode(&bytes).unwrap_err(), FormatError::DuplicateShard);
}

#[test]
fn format_errors_have_words() {
    assert_eq!(
        FormatError::UnsupportedVersion { version: 9 }.message(),
        "invalid Store blob encoding: unsupported version 9"
    );
    assert_eq!(
        FormatError::PutNotInline.message(),
        "invalid Store blob encoding: Put must be segment-backed"
    );
    assert_eq!(
        FormatError::InvalidLifetimeMarker { marker: 7 }.message(),
        "invalid Store blob encoding: invalid lifetime marker 7"
    );
}

#[test]
fn a_relocation_moves_exactly_the_payload_it_names() {
    let shard = shard(1, 1);
    let first = record(1, 10);
    let moved = record(9, 90);
    let relocate = |payload_lsn, to| {
        inline_patch(BlobMutation::Relocate { shard, payload_lsn, to })
    };
    let (state, garbage) =
        merge(vec![(1, put_patch(shard, 5, first)), (2, relocate(1, moved))]);
    assert_eq!(state.resolve(shard, 5).unwrap().0.record_ref, moved);
    assert_eq!(state.resolve(shard, 5).unwrap().0.lsn, 1);
    assert!(garbage.iter().all(|record| !matches!(record.event, GarbageEvent::Expired { .. })));

    let (state, _) = merge(vec![(1, put_patch(shard, 5, first)), (2, relocate(7, moved))]);
    assert_eq!(state.resolve(shard, 5).unwrap().0.record_ref, first);

    let longer = RecordRef { len: 101, ..moved };
    let refused = BlobMerge::new(empty_snapshot()).merge(
        &key(),
        None,
        &vec![(1, put_patch(shard, 5, first)), (2, relocate(1, longer))],
    );
    assert_eq!(refused.unwrap_err(), MergeError::RelocationChangedLength);

    let mut state = state_of(&[(shard, version(1, first))], None);
    let mut reported = Vec::new();
    let change = BlobMutationWithLSN {
        lsn: 2,
        mutation: BlobMutation::Relocate { shard, payload_lsn: 1, to: longer },
    };
    let refused = state.apply(&key(), change, &mut reported).unwrap_err();
    assert_eq!(
        refused.message(),
        "invalid Store blob encoding: relocation changed the payload length"
    );
    assert_eq!(state.resolve(shard, 5).unwrap().0.record_ref, first);
    assert!(reported.is_empty());
}

#[test]
fn a_base_row_is_always_inline() {
    let base = put_patch(shard(1, 1), 5, record(1, 10));
    assert_eq!(
        BlobMerge::new(empty_snapshot()).merge(&key(), Some(&base), &Vec::new()).unwrap_err(),
        MergeError::BaseNotInline
    );
    let broken = StoredValue::Inline(vec![3]);
    assert_eq!(
        BlobMerge::new(empty_snapshot()).merge(&key(), Some(&broken), &Vec::new()).unwrap_err(),
        MergeError::Format { error: FormatError::Truncated }
    );
}

#[test]
fn expiry_books_every_byte_it_takes_away() {
    let shard = shard(1, 1);
    let state = state_of(&[(shard, version(3, record(7, 10)))], lifetime(4, 10));
    let (_, garbage) = compact_state(
        &state,
        BlobCompactionSnapshot {
            materialized_through_lsn: 20,
            epoch_changes: vec![(0, 5), (12, 10)],
            ..empty_snapshot()
        },
    );
    assert_eq!(garbage.len(), 1);
    let delta = &garbage[0].summary_delta;
    assert_eq!(delta.total_bytes, 0);
    assert_eq!(delta.live_bytes, -100);
    assert_eq!(delta.expired_bytes, 100);
    assert_eq!(delta.retired_bytes, 0);
    assert_eq!(delta.live_ref_count, -1);
    assert_eq!(garbage[0].key.segment_id, 7);
}

#[test]
fn no_part_of_a_state_is_a_state() {
    let state = state_of(
        &[(shard(1, 2), version(3, record(6, 7))), (shard(2, 1), version(4, record(8, 9)))],
        lifetime(8, 10),
    );
    let bytes = state.encode().unwrap();
    assert_eq!(BlobState::decode(&bytes).unwrap(), state);
    for kept in 0..bytes.len() {
        assert!(BlobState::decode(&bytes[..kept]).is_err(), "{kept} bytes read as a state");
    }
}
