//! Segment rows: what the index keeps of each segment file.

use vstd::prelude::*;

use crate::types::{Epoch, SegmentId, ShardKey, StrataLsn};

verus! {

/// Where a segment file stands in its life.
#[derive(Clone, Copy, Debug, PartialEq, Eq, Structural)]
pub enum SegmentFileState {
    /// Receives records.
    Open,
    /// Rolled over, not yet durable as a whole.
    Sealing,
    /// Complete and immutable.
    Sealed,
    /// Written by GC, not yet referenced.
    PendingGcOutput,
    /// Its live records were published elsewhere; waits for deletion.
    GcRelocating,
    /// Gone, or about to be unlinked.
    Deleted,
}

/// Whose records a segment holds.
#[derive(Clone, Copy, Debug, PartialEq, Eq, Structural)]
pub enum SegmentOwner {
    /// Records of any shard, as they arrived.
    Store,
    /// Records of one shard generation.
    Shard(ShardKey),
}

impl SegmentOwner {
    pub open spec fn spec_shard(self) -> Option<ShardKey> {
        match self {
            SegmentOwner::Store => None,
            SegmentOwner::Shard(shard) => Some(shard),
        }
    }

    /// The shard generation that owns the segment, where one does.
    pub fn shard(&self) -> (shard: Option<ShardKey>)
        ensures
            shard == self.spec_shard(),
    {
        match self {
            SegmentOwner::Store => None,
            SegmentOwner::Shard(shard) => Some(*shard),
        }
    }
}

/// Which records a segment is meant for.
#[derive(Clone, Copy, Debug, PartialEq, Eq, Structural)]
pub enum PlacementClass {
    /// As they arrived.
    Ingest,
    /// Those that end at one epoch.
    ExactEpoch(Epoch),
    /// Those that fit nowhere else.
    Spillover,
}

/// Index row of one segment.
#[derive(Clone, Debug, PartialEq, Eq)]
pub struct SegmentState {
    pub owner: SegmentOwner,
    pub segment_id: SegmentId,
    pub volume_id: u32,
    /// Path below the namespace directory.
    pub path: String,
    pub placement_class: PlacementClass,
    pub state: SegmentFileState,
    /// End of the committed records.
    pub write_offset: u64,
    /// End of the records that survive a crash.
    pub durable_offset: u64,
    pub min_lsn: Option<StrataLsn>,
    pub max_lsn: Option<StrataLsn>,
    pub sealed_before_lsn: Option<StrataLsn>,
    pub sealed_len: Option<u64>,
    pub sealed_sha256: Option<[u8; 32]>,
}

impl SegmentState {
    /// Another row that says the same.
    pub fn copy(&self) -> (row: SegmentState)
        ensures
            row == *self,
    {
        SegmentState {
            owner: self.owner,
            segment_id: self.segment_id,
            volume_id: self.volume_id,
            path: self.path.clone(),
            placement_class: self.placement_class,
            state: self.state,
            write_offset: self.write_offset,
            durable_offset: self.durable_offset,
            min_lsn: self.min_lsn,
            max_lsn: self.max_lsn,
            sealed_before_lsn: self.sealed_before_lsn,
            sealed_len: self.sealed_len,
            sealed_sha256: self.sealed_sha256,
        }
    }
}

} // verus!
