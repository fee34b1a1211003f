//! What reads and batches promise, case by case.

use vstd::prelude::*;

use crate::batch;
use crate::batch::{LsmMutation, PreparedBatchOp, ProfileRequest};
use crate::blob_lsm::codec;
use crate::blob_lsm::codec::{BlobMutation, FormatError};
use crate::blob_lsm::merge::StoredValue;
use crate::read;
use crate::read::{LiveRecordRef, ReadError, ReadStep, RowFault, SegmentSight};
use crate::segments::{SegmentFileState, SegmentOwner, SegmentState};
use crate::types::{Epoch, RecordRef, ShardKey};

verus! {

// Finding a version.

/// A key without a row has no version, and a row that points into a segment, or that does not
/// decode, is a fault. Otherwise the version is the one that the stored state shows the shard in that
/// epoch, with its place, its lifetime and the LSN of its write.
pub proof fn law_a_row_tells_its_version(row: StoredValue, shard: ShardKey, epoch: Epoch)
    ensures
        read::resolution(None, shard, epoch) matches Ok(None),
        row is Blob ==> read::resolution(Some(row), shard, epoch) == Err::<
            Option<read::ResolvedBlobVersion>,
            RowFault,
        >(RowFault::SegmentBacked),
        row matches StoredValue::Inline(bytes) ==> {
            let found = read::resolution(Some(row), shard, epoch);
            match codec::parse_state(bytes@) {
                Err(error) => found matches Err(RowFault::Format(fault)) && fault == error,
                Ok(state) => match state.resolved(shard, epoch) {
                    None => found matches Ok(None),
                    Some((version, lifecycle)) => found matches Ok(Some(seen)) && seen.record_ref
                        == version.record_ref && seen.payload_lsn == version.lsn && seen.head_lsn
                        == version.lsn && seen.generation == version.lsn && seen.lifecycle
                        == lifecycle,
                },
            }
        },
{
}

/// What a fault is told as: a row that points into a segment by its key, one that does not decode by
/// what is wrong with it.
pub proof fn law_faults_are_told_as_they_are(
    error: ReadError,
    key: Seq<u8>,
    fault: FormatError,
)
    ensures
        error.tells(key, RowFault::SegmentBacked) <==> (error matches ReadError::SegmentBackedState {
            key: named,
        } && named@ == key),
        error.tells(key, RowFault::Format(fault)) <==> (error matches ReadError::Format(told) && told
            == fault),
{
}

// Finding a record.

/// A shard reads the store's segments and its own, until they are deleted; other shards' segments
/// are not there for it.
pub proof fn law_shards_see_shared_and_own_segments(row: SegmentState, shard: ShardKey)
    ensures
        read::sight(None, shard) == SegmentSight::Absent,
        ({
            let its_own = row.owner == SegmentOwner::Store || row.owner == SegmentOwner::Shard(
                shard,
            );
            let seen = read::sight(Some(row), shard);
            &&& !its_own ==> seen == SegmentSight::Absent
            &&& its_own && row.state == SegmentFileState::Deleted ==> seen == SegmentSight::Deleted
            &&& its_own && row.state != SegmentFileState::Deleted ==> seen
                == SegmentSight::Readable
        }),
{
}

/// A record in a readable segment is read where it is, whatever relocations say. One in a segment
/// that is not there is missing.
pub proof fn law_readable_records_are_read_in_place(
    at: RecordRef,
    relocation: Option<RecordRef>,
    there: SegmentSight,
)
    ensures
        read::live_record(None, SegmentSight::Readable, relocation, there) == Ok::<
            LiveRecordRef,
            ReadError,
        >(LiveRecordRef::Missing),
        read::live_record(None, SegmentSight::Absent, relocation, there) == Ok::<
            LiveRecordRef,
            ReadError,
        >(LiveRecordRef::Missing),
        read::live_record(None, SegmentSight::Deleted, relocation, there) == Ok::<
            LiveRecordRef,
            ReadError,
        >(LiveRecordRef::Missing),
        read::live_record(Some(at), SegmentSight::Readable, relocation, there) == Ok::<
            LiveRecordRef,
            ReadError,
        >(LiveRecordRef::Readable(at)),
        read::live_record(Some(at), SegmentSight::Absent, relocation, there) == Ok::<
            LiveRecordRef,
            ReadError,
        >(LiveRecordRef::Missing),
{
}

/// A record in a deleted segment is read where a relocation put it. Without one, or with one that
/// leads nowhere else, it is deleted; one that changes the length is a fault.
pub proof fn law_relocated_records_are_followed(
    at: RecordRef,
    to: RecordRef,
    there: SegmentSight,
)
    ensures
        read::live_record(Some(at), SegmentSight::Deleted, None, there) == Ok::<
            LiveRecordRef,
            ReadError,
        >(LiveRecordRef::Deleted(at)),
        ({
            let found = read::live_record(Some(at), SegmentSight::Deleted, Some(to), there);
            &&& to.len != at.len ==> found == Err::<LiveRecordRef, ReadError>(
                ReadError::RelocationChangesLength { from: at.len, to: to.len },
            )
            &&& to == at ==> found == Ok::<LiveRecordRef, ReadError>(LiveRecordRef::Deleted(at))
            &&& to.len == at.len && to != at ==> match there {
                SegmentSight::Readable => found == Ok::<LiveRecordRef, ReadError>(
                    LiveRecordRef::Readable(to),
                ),
                SegmentSight::Absent => found == Ok::<LiveRecordRef, ReadError>(
                    LiveRecordRef::Missing,
                ),
                SegmentSight::Deleted => found == Ok::<LiveRecordRef, ReadError>(
                    LiveRecordRef::Deleted(to),
                ),
            }
        }),
{
}

/// A found record is read and a missing one is absent, whether or not a retry was used. A deleted
/// one is looked up again once, and is absent the second time.
pub proof fn law_deleted_records_are_looked_up_again(retry_used: bool, at: RecordRef)
    ensures
        read::after_resolving(retry_used, LiveRecordRef::Readable(at)) == (
            ReadStep::Read(at),
            retry_used,
        ),
        read::after_resolving(retry_used, LiveRecordRef::Missing) == (ReadStep::Absent, retry_used),
        read::after_resolving(false, LiveRecordRef::Deleted(at)) == (ReadStep::Again, true),
        read::after_resolving(true, LiveRecordRef::Deleted(at)) == (ReadStep::Absent, true),
        read::after_failing(false, true) == (ReadStep::Again, true),
        read::after_failing(true, true) == (ReadStep::Fail, true),
        read::after_failing(retry_used, false) == (ReadStep::Fail, retry_used),
{
}

// Batches.

/// The last epoch of a batch is that of its last operation that changed the epoch.
pub proof fn law_the_last_epoch_change_counts(epochs: Seq<Option<Epoch>>)
    ensures
        match batch::final_epoch(epochs) {
            None => forall|i: int| 0 <= i < epochs.len() ==> #[trigger] epochs[i] is None,
            Some(epoch) => exists|at: int|
                0 <= at < epochs.len() && #[trigger] epochs[at] == Some(epoch) && forall|i: int|
                    at < i < epochs.len() ==> #[trigger] epochs[i] is None,
        },
    decreases epochs.len(),
{
    if epochs.len() > 0 {
        let init = epochs.drop_last();
        let last = epochs.len() - 1;
        assert(epochs[last] == epochs.last());
        if epochs.last() is None {
            law_the_last_epoch_change_counts(init);
            assert forall|i: int| 0 <= i < init.len() implies #[trigger] epochs[i] == init[i] by {}
            if let Some(epoch) = batch::final_epoch(init) {
                let at = choose|at: int|
                    0 <= at < init.len() && #[trigger] init[at] == Some(epoch) && forall|i: int|
                        at < i < init.len() ==> #[trigger] init[i] is None;
                assert(epochs[at] == Some(epoch));
            }
        }
    }
}

/// A profiled command waited from when it was queued until it was taken up, never a negative time;
/// one that is not profiled has no wait.
pub proof fn law_waits_are_measured_from_the_queue(request: ProfileRequest, started: u128)
    ensures
        !request.enabled ==> request.spec_queue_wait(started) is None,
        request.enabled && request.enqueued_at is None ==> request.spec_queue_wait(started)
            == Some(0u128),
        request.enabled ==> (request.enqueued_at matches Some(queued) ==> (request.spec_queue_wait(
            started,
        ) matches Some(wait) && (if started >= queued {
            wait == started - queued
        } else {
            wait == 0
        }))),
{
}

/// Each operation is routed as what it is: a put points at its record and tells its shard and epoch,
/// a lifetime and a tombstone are stored as they are, under the operation's own key; a change of the
/// epoch is not stored under a key.
pub proof fn law_operations_are_routed_as_what_they_are(
    op: PreparedBatchOp,
    partition: u32,
    mutation: Option<LsmMutation>,
)
    requires
        op.routes_to(partition, mutation),
    ensures
        op is EpochChange <==> mutation is None,
        op matches PreparedBatchOp::Put { shard, key, current_epoch, record_ref, .. } ==> (
        mutation matches Some(
            LsmMutation::PutBlob { partition: into, key: under, metadata, record_ref: place },
        ) && into == partition && under@ == key@ && record_ref == Some(place) && metadata@
            == codec::put_metadata_bytes(shard, current_epoch)),
        op matches PreparedBatchOp::Lifecycle { key, logical_end_epoch, current_epoch, .. } ==> (
        mutation matches Some(LsmMutation::Put { partition: into, key: under, value }) && into
            == partition && under@ == key@ && value@ == codec::inline_bytes(
            BlobMutation::SetLifetime { logical_end_epoch, current_epoch },
        )),
        op matches PreparedBatchOp::Tombstone { shard, key, .. } ==> (mutation matches Some(
            LsmMutation::Put { partition: into, key: under, value },
        ) && into == partition && under@ == key@ && value@ == codec::inline_bytes(
            BlobMutation::Tombstone { shard },
        )),
{
}

} // verus!
