//! The write protocol: batches, their results, and the mutations that a prepared batch routes to
//! the LSM. Spans of time are in nanoseconds.

use vstd::prelude::*;

use crate::blob_lsm::codec;
use crate::blob_lsm::codec::{BlobMutation, FormatError};
use crate::blob_lsm::garbage::BlobKey;
use crate::num;
use crate::segments::SegmentState;
use crate::text;
use crate::text::{decimal_text, joined};
use crate::types::{Epoch, RecordRef, SegmentId, ShardId, ShardKey, StrataLsn};

verus! {

/// One operation of a batch.
#[derive(Debug)]
pub enum BatchOp {
    Put { shard_id: ShardId, key: BlobKey, payload: Vec<u8> },
    SetBlobLifetime { key: BlobKey, logical_end_epoch: Epoch },
    Tombstone { shard_id: ShardId, key: BlobKey },
    IncrementEpoch,
}

/// Operations that are submitted as one writer command, so that no other write comes between them.
#[derive(Debug)]
pub struct StrataBatch {
    pub ops: Vec<BatchOp>,
}

impl StrataBatch {
    pub fn new() -> (batch: StrataBatch)
        ensures
            batch.ops@.len() == 0,
    {
        StrataBatch { ops: Vec::new() }
    }

    /// Adds a payload write; more can be added to what it returns.
    pub fn put(&mut self, shard_id: ShardId, key: BlobKey, payload: Vec<u8>) -> (batch: &mut Self)
        ensures
            batch.ops@ == old(self).ops@.push(BatchOp::Put { shard_id, key, payload }),
            *final(self) == *final(batch),
    {
        self.ops.push(BatchOp::Put { shard_id, key, payload });
        self
    }

    /// Adds a lifetime update.
    pub fn set_blob_lifetime(&mut self, key: BlobKey, logical_end_epoch: Epoch) -> (batch: &mut Self)
        ensures
            batch.ops@ == old(self).ops@.push(BatchOp::SetBlobLifetime { key, logical_end_epoch }),
            *final(self) == *final(batch),
    {
        self.ops.push(BatchOp::SetBlobLifetime { key, logical_end_epoch });
        self
    }

    /// Adds a tombstone for one shard.
    pub fn tombstone(&mut self, shard_id: ShardId, key: BlobKey) -> (batch: &mut Self)
        ensures
            batch.ops@ == old(self).ops@.push(BatchOp::Tombstone { shard_id, key }),
            *final(self) == *final(batch),
    {
        self.ops.push(BatchOp::Tombstone { shard_id, key });
        self
    }

    /// Adds an epoch increment.
    pub fn increment_epoch(&mut self) -> (batch: &mut Self)
        ensures
            batch.ops@ == old(self).ops@.push(BatchOp::IncrementEpoch),
            *final(self) == *final(batch),
    {
        self.ops.push(BatchOp::IncrementEpoch);
        self
    }
}

/// What a batch was given, operation by operation.
#[derive(Debug, PartialEq, Eq)]
pub struct BatchWriteResult {
    pub op_lsns: Vec<StrataLsn>,
    /// Epochs that operations advanced to; nothing for those that advance none.
    pub op_epochs: Vec<Option<Epoch>>,
}

impl Clone for BatchWriteResult {
    fn clone(&self) -> (result: BatchWriteResult)
        ensures
            result.op_lsns@ == self.op_lsns@,
            result.op_epochs@ == self.op_epochs@,
    {
        let op_lsns: Vec<StrataLsn> = self.op_lsns.clone();
        let op_epochs: Vec<Option<Epoch>> = self.op_epochs.clone();
        assert(op_lsns@ =~= self.op_lsns@);
        assert(op_epochs@ =~= self.op_epochs@);
        BatchWriteResult { op_lsns, op_epochs }
    }
}

impl Default for BatchWriteResult {
    fn default() -> (result: BatchWriteResult)
        ensures
            result.op_lsns@.len() == 0,
            result.op_epochs@.len() == 0,
    {
        BatchWriteResult { op_lsns: Vec::new(), op_epochs: Vec::new() }
    }
}

/// The last epoch in the list.
pub open spec fn final_epoch(epochs: Seq<Option<Epoch>>) -> Option<Epoch>
    decreases epochs.len(),
{
    if epochs.len() == 0 {
        None
    } else if epochs.last() is Some {
        epochs.last()
    } else {
        final_epoch(epochs.drop_last())
    }
}

impl BatchWriteResult {
    /// LSNs in the order of the submitted operations.
    pub fn op_lsns(&self) -> (lsns: &Vec<StrataLsn>)
        ensures
            lsns@ == self.op_lsns@,
    {
        &self.op_lsns
    }

    /// Epochs in the order of the submitted operations.
    pub fn op_epochs(&self) -> (epochs: &Vec<Option<Epoch>>)
        ensures
            epochs@ == self.op_epochs@,
    {
        &self.op_epochs
    }

    /// The epoch that one operation advanced to.
    pub fn epoch_for_op(&self, index: usize) -> (epoch: Option<Epoch>)
        ensures
            epoch == (if index < self.op_epochs@.len() {
                self.op_epochs@[index as int]
            } else {
                None
            }),
    {
        if index < self.op_epochs.len() {
            self.op_epochs[index]
        } else {
            None
        }
    }

    pub fn first_lsn(&self) -> (lsn: Option<StrataLsn>)
        ensures
            lsn == (if self.op_lsns@.len() > 0 {
                Some(self.op_lsns@[0])
            } else {
                None
            }),
    {
        if self.op_lsns.len() > 0 {
            Some(self.op_lsns[0])
        } else {
            None
        }
    }

    pub fn last_lsn(&self) -> (lsn: Option<StrataLsn>)
        ensures
            lsn == (if self.op_lsns@.len() > 0 {
                Some(self.op_lsns@.last())
            } else {
                None
            }),
    {
        if self.op_lsns.len() > 0 {
            Some(self.op_lsns[self.op_lsns.len() - 1])
        } else {
            None
        }
    }

    /// The epoch that the batch ended in, where it advanced one.
    pub fn last_epoch(&self) -> (epoch: Option<Epoch>)
        ensures
            epoch == final_epoch(self.op_epochs@),
    {
        let mut i: usize = self.op_epochs.len();
        assert(self.op_epochs@.take(i as int) =~= self.op_epochs@);
        while i > 0
            invariant
                i <= self.op_epochs@.len(),
                final_epoch(self.op_epochs@) == final_epoch(self.op_epochs@.take(i as int)),
            decreases i,
        {
            assert(self.op_epochs@.take(i as int).drop_last() =~= self.op_epochs@.take(i - 1));
            if self.op_epochs[i - 1].is_some() {
                return self.op_epochs[i - 1];
            }
            i = i - 1;
        }
        None
    }
}

/// Where the time of one write went.
#[derive(Clone, Copy, Debug, Default, PartialEq, Eq, Structural)]
pub struct StoreWriteProfile {
    /// Blocked in the client-side bounded queue.
    pub queue_send: u128,
    /// From submission until the writer starts the command, without `queue_send`.
    pub queue_wait: u128,
    pub prepare_batch: u128,
    pub segment_capacity: u128,
    pub segment_append: u128,
    pub index_batch_commit: u128,
    pub response_send: u128,
    pub writer_total: u128,
}

/// Where the time of one sync went.
#[derive(Clone, Copy, Debug, Default, PartialEq, Eq, Structural)]
pub struct StoreSyncProfile {
    /// Blocked in the client-side bounded queue.
    pub queue_send: u128,
    /// From submission until the writer starts the command, without `queue_send`.
    pub queue_wait: u128,
    /// Capturing what is to be synced.
    pub capture: u128,
    pub segment_sync: u128,
    pub segment_file_sync: u128,
    pub wal_sync: u128,
    pub completion_queue_wait: u128,
    pub relocation_lock_wait: u128,
    /// Assembling segment rows, the published LSN and the batch.
    pub published_lsn_compute: u128,
    /// Committing the batch durably.
    pub index_batch_commit: u128,
    pub state_update: u128,
    pub wal_reclaim: u128,
    pub response_send: u128,
    pub writer_total: u128,
}

/// Receives the profiles of writes and syncs.
pub trait StoreProfileSink: Send + Sync {
    fn record_write(&self, profile: StoreWriteProfile);

    fn record_sync(&self, profile: StoreSyncProfile);
}

/// Whether, and since when, a command is profiled.
#[derive(Clone, Copy, Debug, PartialEq, Eq, Structural)]
pub struct ProfileRequest {
    pub enabled: bool,
    pub enqueued_at: Option<u128>,
}

impl ProfileRequest {
    pub open spec fn spec_queue_wait(self, started: u128) -> Option<u128> {
        if !self.enabled {
            None
        } else {
            match self.enqueued_at {
                None => Some(0),
                Some(enqueued) => Some(num::at_least(started - enqueued, 0) as u128),
            }
        }
    }

    /// A command that is not profiled.
    pub fn disabled() -> (request: ProfileRequest)
        ensures
            !request.enabled,
            request.enqueued_at is None,
    {
        ProfileRequest { enabled: false, enqueued_at: None }
    }

    /// A command that is profiled from now on.
    pub fn enabled(now: u128) -> (request: ProfileRequest)
        ensures
            request.enabled,
            request.enqueued_at == Some(now),
    {
        ProfileRequest { enabled: true, enqueued_at: Some(now) }
    }

    /// How long the command waited until the writer started it.
    pub fn queue_wait(&self, started: u128) -> (wait: Option<u128>)
        ensures
            wait == self.spec_queue_wait(started),
    {
        if !self.enabled {
            return None;
        }
        match self.enqueued_at {
            None => Some(0),
            Some(enqueued) => if started > enqueued {
                Some(started - enqueued)
            } else {
                Some(0)
            },
        }
    }

    /// Begins the profile of a write, where one is asked for: so far it only waited.
    pub fn begin_write(&self, started: u128) -> (profile: Option<StoreWriteProfile>)
        ensures
            profile == (match self.spec_queue_wait(started) {
                None => None,
                Some(queue_wait) => Some(
                    StoreWriteProfile {
                        queue_send: 0,
                        queue_wait,
                        prepare_batch: 0,
                        segment_capacity: 0,
                        segment_append: 0,
                        index_batch_commit: 0,
                        response_send: 0,
                        writer_total: 0,
                    },
                ),
            }),
    {
        match self.queue_wait(started) {
            None => None,
            Some(queue_wait) => Some(
                StoreWriteProfile {
                    queue_send: 0,
                    queue_wait,
                    prepare_batch: 0,
                    segment_capacity: 0,
                    segment_append: 0,
                    index_batch_commit: 0,
                    response_send: 0,
                    writer_total: 0,
                },
            ),
        }
    }
    /// Begins the profile of a sync, where one is asked for: so far it only waited.
    pub fn begin_sync(&self, started: u128) -> (profile: Option<StoreSyncProfile>)
        ensures
            profile == (match self.spec_queue_wait(started) {
                None => None,
                Some(queue_wait) => Some(
                    StoreSyncProfile {
                        queue_send: 0,
                        queue_wait,
                        capture: 0,
                        segment_sync: 0,
                        segment_file_sync: 0,
                        wal_sync: 0,
                        completion_queue_wait: 0,
                        relocation_lock_wait: 0,
                        published_lsn_compute: 0,
                        index_batch_commit: 0,
                        state_update: 0,
                        wal_reclaim: 0,
                        response_send: 0,
                        writer_total: 0,
                    },
                ),
            }),
    {
        match self.queue_wait(started) {
            None => None,
            Some(queue_wait) => Some(
                StoreSyncProfile {
                    queue_send: 0,
                    queue_wait,
                    capture: 0,
                    segment_sync: 0,
                    segment_file_sync: 0,
                    wal_sync: 0,
                    completion_queue_wait: 0,
                    relocation_lock_wait: 0,
                    published_lsn_compute: 0,
                    index_batch_commit: 0,
                    state_update: 0,
                    wal_reclaim: 0,
                    response_send: 0,
                    writer_total: 0,
                },
            ),
        }
    }
}

/// One operation of a batch that has its LSN.
#[derive(Debug)]
pub enum PreparedBatchOp {
    Put {
        shard: ShardKey,
        key: BlobKey,
        payload: Vec<u8>,
        lsn: StrataLsn,
        current_epoch: Epoch,
        record_ref: Option<RecordRef>,
        record_bytes: u64,
    },
    Lifecycle { key: BlobKey, lsn: StrataLsn, logical_end_epoch: Epoch, current_epoch: Epoch },
    Tombstone { shard: ShardKey, key: BlobKey, lsn: StrataLsn },
    EpochChange { lsn: StrataLsn, epoch: Epoch },
}

/// A mutation of one LSM partition.
#[derive(Debug)]
pub enum LsmMutation {
    PutBlob { partition: u32, key: Vec<u8>, metadata: Vec<u8>, record_ref: RecordRef },
    Put { partition: u32, key: Vec<u8>, value: Vec<u8> },
}

/// Why a batch cannot be routed.
#[derive(Clone, Copy, Debug, PartialEq, Eq, Structural)]
pub enum BatchError {
    /// The payload was not written to a segment.
    MissingRecordRef { lsn: StrataLsn },
    Format(FormatError),
    /// The rolled segment does not say which LSNs it ends before.
    MissingSealedBeforeLsn { segment_id: SegmentId },
}

impl BatchError {
    pub open spec fn words(self) -> Option<Seq<char>> {
        match self {
            BatchError::MissingRecordRef { lsn } => Some(
                "payload segment reference is missing at LSN "@ + text::decimal(lsn as int),
            ),
            BatchError::Format(_) => None,
            BatchError::MissingSealedBeforeLsn { segment_id } => Some(
                "rollover from segment "@ + text::decimal(segment_id as int)
                    + " has no sealed-before LSN"@,
            ),
        }
    }

    /// What invariant is violated, in words.
    pub fn fault(&self) -> (words: Option<String>)
        ensures
            match words {
                Some(words) => self.words() == Some(words@),
                None => self.words() is None,
            },
    {
        match self {
            BatchError::MissingRecordRef { lsn } => Some(
                joined(
                    "payload segment reference is missing at LSN ",
                    decimal_text(*lsn).as_str(),
                ),
            ),
            BatchError::Format(_) => None,
            BatchError::MissingSealedBeforeLsn { segment_id } => {
                let head: String = joined(
                    "rollover from segment ",
                    decimal_text(*segment_id).as_str(),
                );
                Some(joined(head.as_str(), " has no sealed-before LSN"))
            },
        }
    }
}

impl PreparedBatchOp {
    pub open spec fn spec_lsn(&self) -> StrataLsn {
        match self {
            PreparedBatchOp::Put { lsn, .. } => *lsn,
            PreparedBatchOp::Lifecycle { lsn, .. } => *lsn,
            PreparedBatchOp::Tombstone { lsn, .. } => *lsn,
            PreparedBatchOp::EpochChange { lsn, .. } => *lsn,
        }
    }

    pub fn lsn(&self) -> (lsn: StrataLsn)
        ensures
            lsn == self.spec_lsn(),
    {
        match self {
            PreparedBatchOp::Put { lsn, .. } => *lsn,
            PreparedBatchOp::Lifecycle { lsn, .. } => *lsn,
            PreparedBatchOp::Tombstone { lsn, .. } => *lsn,
            PreparedBatchOp::EpochChange { lsn, .. } => *lsn,
        }
    }

    /// What the operation does to the blob LSM.
    pub open spec fn routes_to(&self, partition: u32, mutation: Option<LsmMutation>) -> bool {
        match (*self, mutation) {
            (
                PreparedBatchOp::Put { shard, key, current_epoch, record_ref, .. },
                Some(
                    LsmMutation::PutBlob {
                        partition: p,
                        key: k,
                        metadata,
                        record_ref: place,
                    },
                ),
            ) => {
                &&& p == partition
                &&& k@ == key@
                &&& metadata@ == codec::put_metadata_bytes(shard, current_epoch)
                &&& record_ref == Some(place)
            },
            (
                PreparedBatchOp::Lifecycle { key, logical_end_epoch, current_epoch, .. },
                Some(LsmMutation::Put { partition: p, key: k, value }),
            ) => {
                &&& p == partition
                &&& k@ == key@
                &&& value@ == codec::inline_bytes(
                    BlobMutation::SetLifetime { logical_end_epoch, current_epoch },
                )
            },
            (
                PreparedBatchOp::Tombstone { shard, key, .. },
                Some(LsmMutation::Put { partition: p, key: k, value }),
            ) => {
                &&& p == partition
                &&& k@ == key@
                &&& value@ == codec::inline_bytes(BlobMutation::Tombstone { shard })
            },
            (PreparedBatchOp::EpochChange { .. }, None) => true,
            _ => false,
        }
    }

    /// The mutation that the operation routes to its key's partition; an epoch change has none.
    pub fn blob_mutation(&self, partition: u32) -> (mutation: Result<
        Option<LsmMutation>,
        BatchError,
    >)
        ensures
            match mutation {
                Ok(mutation) => self.routes_to(partition, mutation),
                Err(error) => *self matches PreparedBatchOp::Put { record_ref: None, lsn, .. }
                    && error == (BatchError::MissingRecordRef { lsn }),
            },
    {
        match self {
            PreparedBatchOp::Put { shard, key, current_epoch, record_ref, lsn, .. } => {
                let place: RecordRef = match record_ref {
                    Some(place) => *place,
                    None => return Err(BatchError::MissingRecordRef { lsn: *lsn }),
                };
                Ok(
                    Some(
                        LsmMutation::PutBlob {
                            partition,
                            key: key.copy().bytes,
                            metadata: BlobMutation::encode_put_metadata(*shard, *current_epoch),
                            record_ref: place,
                        },
                    ),
                )
            },
            PreparedBatchOp::Lifecycle { key, logical_end_epoch, current_epoch, .. } => {
                let mutation = BlobMutation::SetLifetime {
                    logical_end_epoch: *logical_end_epoch,
                    current_epoch: *current_epoch,
                };
                match mutation.encode_inline() {
                    Ok(value) => Ok(
                        Some(LsmMutation::Put { partition, key: key.copy().bytes, value }),
                    ),
                    Err(error) => Err(BatchError::Format(error)),
                }
            },
            PreparedBatchOp::Tombstone { shard, key, .. } => {
                let mutation = BlobMutation::Tombstone { shard: *shard };
                match mutation.encode_inline() {
                    Ok(value) => Ok(
                        Some(LsmMutation::Put { partition, key: key.copy().bytes, value }),
                    ),
                    Err(error) => Err(BatchError::Format(error)),
                }
            },
            PreparedBatchOp::EpochChange { .. } => Ok(None),
        }
    }
}

/// Rows that a rollover adds to the batch which first publishes later state.
#[derive(Debug)]
pub struct RolloverRows {
    /// Row of the segment that was rolled.
    pub old_segment_state: SegmentState,
    pub new_segment_id: SegmentId,
    /// LSN that the new segment counts as published at.
    pub published_at_lsn: StrataLsn,
}

/// The rows of a pending rollover: the rolled segment's, and the new segment's publication marker.
pub fn rollover_rows(old_segment_state: SegmentState, new_segment_id: SegmentId) -> (rows: Result<
    RolloverRows,
    BatchError,
>)
    ensures
        match rows {
            Ok(rows) => rows.old_segment_state == old_segment_state && rows.new_segment_id
                == new_segment_id && old_segment_state.sealed_before_lsn == Some(
                rows.published_at_lsn,
            ),
            Err(error) => old_segment_state.sealed_before_lsn is None && error == (
            BatchError::MissingSealedBeforeLsn { segment_id: old_segment_state.segment_id }),
        },
{
    match old_segment_state.sealed_before_lsn {
        Some(published_at_lsn) => Ok(
            RolloverRows { old_segment_state, new_segment_id, published_at_lsn },
        ),
        None => Err(
            BatchError::MissingSealedBeforeLsn { segment_id: old_segment_state.segment_id },
        ),
    }
}

} // verus!
