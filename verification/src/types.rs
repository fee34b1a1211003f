//! Identifiers and records shared by the store's modules.

use vstd::prelude::*;

verus! {

/// Log sequence number: the position of one operation in the store's total order.
pub type StrataLsn = u64;

/// Logical epoch. Lifetimes end at epochs.
pub type Epoch = u64;

/// Identifier of one append-only segment file.
pub type SegmentId = u64;

/// Identifier of one shard.
pub type ShardId = u32;

/// One generation of one shard.
#[derive(Clone, Copy, Debug, PartialEq, Eq, Structural)]
pub struct ShardKey {
    pub id: ShardId,
    pub generation: u64,
}

impl ShardKey {
    /// Shards are ordered by identifier, then by generation.
    pub open spec fn spec_before(self, other: ShardKey) -> bool {
        self.id < other.id || (self.id == other.id && self.generation < other.generation)
    }

    pub fn before(&self, other: &ShardKey) -> (result: bool)
        ensures
            result == self.spec_before(*other),
    {
        self.id < other.id || (self.id == other.id && self.generation < other.generation)
    }
}

/// Where the bytes of one record lie.
#[derive(Clone, Copy, Debug, PartialEq, Eq, Structural)]
pub struct RecordRef {
    pub segment_id: SegmentId,
    pub offset: u64,
    pub len: u64,
}

/// How long a blob lives, and how often that was extended.
#[derive(Clone, Copy, Debug, PartialEq, Eq, Structural)]
pub struct BlobLifecycle {
    pub logical_end_epoch: Epoch,
    pub extension_count: u32,
}

/// What happened to one record's bytes.
#[derive(Clone, Copy, Debug, PartialEq, Eq, Structural)]
pub enum GarbageEvent {
    /// Overwritten, deleted or fenced.
    Retired { record: RecordRef },
    /// Its lifetime ended.
    Expired { record: RecordRef },
    /// Still live, with a new lifecycle.
    SetLifecycle { record: RecordRef, lifecycle: Option<BlobLifecycle> },
}

impl GarbageEvent {
    pub open spec fn spec_record(self) -> RecordRef {
        match self {
            GarbageEvent::Retired { record } => record,
            GarbageEvent::Expired { record } => record,
            GarbageEvent::SetLifecycle { record, .. } => record,
        }
    }

    /// The record that the event is about.
    pub fn record(&self) -> (result: RecordRef)
        ensures
            result == self.spec_record(),
    {
        match self {
            GarbageEvent::Retired { record } => *record,
            GarbageEvent::Expired { record } => *record,
            GarbageEvent::SetLifecycle { record, .. } => *record,
        }
    }
}

/// Whether a shard's current generation still accepts operations.
#[derive(Clone, Copy, Debug, PartialEq, Eq, Structural)]
pub enum ShardState {
    Active,
    Dropped,
}

/// Registry row of one shard.
#[derive(Clone, Copy, Debug, PartialEq, Eq, Structural)]
pub struct ShardInfo {
    pub current_generation: u64,
    pub state: ShardState,
}

impl ShardInfo {
    /// An active shard at `generation`.
    pub fn active(generation: u64) -> (info: ShardInfo)
        ensures
            info.current_generation == generation,
            info.state == ShardState::Active,
    {
        ShardInfo { current_generation: generation, state: ShardState::Active }
    }
}

} // verus!
