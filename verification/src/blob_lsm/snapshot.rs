//! Global compaction facts captured once per blob-LSM compaction.

use std::collections::BTreeMap;

use vstd::prelude::*;

use crate::shard_map::ShardMap;
use crate::types::{Epoch, SegmentId, ShardId, ShardInfo, ShardKey, ShardState, StrataLsn};

verus! {

/// Durable global facts captured once before one blob-LSM compaction.
///
/// Merging never looks up an individual blob. Epoch transitions, shard generation fences and
/// bulk-reclaimed shard segments are all resolved from this snapshot.
#[derive(Clone, Debug)]
pub struct BlobCompactionSnapshot {
    /// Complete manifest frontier bounding every global fact this compaction may apply.
    pub materialized_through_lsn: StrataLsn,
    pub emit_garbage_from_lsn: StrataLsn,
    /// Epoch transitions, oldest first.
    pub epoch_changes: Vec<(StrataLsn, Epoch)>,
    pub shard_infos: BTreeMap<ShardId, ShardInfo>,
    pub shard_drop_lsns: ShardMap<StrataLsn>,
    pub reclaimed_shard_segments: BTreeMap<SegmentId, ShardKey>,
}

/// What a [`BlobCompactionSnapshot`] says.
#[verifier::ext_equal]
pub struct SnapshotView {
    pub materialized_through_lsn: StrataLsn,
    pub emit_garbage_from_lsn: StrataLsn,
    pub epoch_changes: Seq<(StrataLsn, Epoch)>,
    pub shard_infos: Map<ShardId, ShardInfo>,
    pub shard_drop_lsns: Map<ShardKey, StrataLsn>,
    pub reclaimed_shard_segments: Map<SegmentId, ShardKey>,
}

impl View for BlobCompactionSnapshot {
    type V = SnapshotView;

    open spec fn view(&self) -> SnapshotView {
        SnapshotView {
            materialized_through_lsn: self.materialized_through_lsn,
            emit_garbage_from_lsn: self.emit_garbage_from_lsn,
            epoch_changes: self.epoch_changes@,
            shard_infos: self.shard_infos@,
            shard_drop_lsns: self.shard_drop_lsns@,
            reclaimed_shard_segments: self.reclaimed_shard_segments@,
        }
    }
}

/// One global transition that terminally ends blob versions.
#[derive(Clone, Copy, Debug, PartialEq, Eq, Structural)]
pub struct TerminalTransition {
    pub lsn: StrataLsn,
    pub emit_garbage: bool,
}

/// The place of the first transition that reaches `end`, or the number of transitions where none
/// does.
pub open spec fn first_reaching(changes: Seq<(StrataLsn, Epoch)>, end: Epoch) -> nat
    decreases changes.len(),
{
    if changes.len() == 0 || changes[0].1 >= end {
        0
    } else {
        1 + first_reaching(changes.skip(1), end)
    }
}

pub proof fn lemma_first_reaching(changes: Seq<(StrataLsn, Epoch)>, end: Epoch)
    ensures
        first_reaching(changes, end) <= changes.len(),
        forall|i: int| 0 <= i < first_reaching(changes, end) ==> (#[trigger] changes[i]).1 < end,
        first_reaching(changes, end) < changes.len() ==> changes[first_reaching(
            changes,
            end,
        ) as int].1 >= end,
    decreases changes.len(),
{
    if changes.len() > 0 && changes[0].1 < end {
        let rest = changes.skip(1);
        lemma_first_reaching(rest, end);
        assert forall|i: int| 0 <= i < first_reaching(changes, end) implies (
        #[trigger] changes[i]).1 < end by {
            if i > 0 {
                assert(rest[i - 1] == changes[i]);
            }
        }
    }
}

impl SnapshotView {
    /// Whether a transition at `lsn` is reported to the garbage log.
    pub open spec fn transition(self, lsn: StrataLsn) -> TerminalTransition {
        TerminalTransition { lsn, emit_garbage: lsn >= self.emit_garbage_from_lsn }
    }

    /// The transition that ends lifetimes which end at `end`: the first that reaches it, once the
    /// frontier covers it.
    pub open spec fn expiry(self, end: Epoch) -> Option<TerminalTransition> {
        let at = first_reaching(self.epoch_changes, end);
        if at >= self.epoch_changes.len() {
            None
        } else {
            let lsn = self.epoch_changes[at as int].0;
            if lsn > self.materialized_through_lsn {
                None
            } else {
                Some(self.transition(lsn))
            }
        }
    }

    /// Whether the registry knows a later generation of the shard, or knows this one as dropped.
    pub open spec fn obsolete(self, shard: ShardKey) -> bool {
        self.shard_infos.dom().contains(shard.id) && {
            let info = self.shard_infos[shard.id];
            shard.generation < info.current_generation || (shard.generation
                == info.current_generation && info.state == ShardState::Dropped)
        }
    }

    /// The transition that retires every version of a shard generation.
    ///
    /// A drop with a recorded LSN counts once the frontier covers it. An obsolete generation
    /// without one was accounted for earlier and leaves silently.
    pub open spec fn shard_retirement(self, shard: ShardKey) -> Option<TerminalTransition> {
        if self.shard_drop_lsns.dom().contains(shard) {
            let drop_lsn = self.shard_drop_lsns[shard];
            if drop_lsn > self.materialized_through_lsn {
                None
            } else {
                Some(self.transition(drop_lsn))
            }
        } else if self.obsolete(shard) {
            Some(TerminalTransition { lsn: self.materialized_through_lsn, emit_garbage: false })
        } else {
            None
        }
    }

    /// Whether the segment was reclaimed as a whole when its owner, this shard, was dropped.
    pub open spec fn bulk_reclaimed(self, segment_id: SegmentId, shard: ShardKey) -> bool {
        self.reclaimed_shard_segments.dom().contains(segment_id)
            && self.reclaimed_shard_segments[segment_id] == shard
    }
}

impl BlobCompactionSnapshot {
    pub open spec fn wf(&self) -> bool {
        self.shard_drop_lsns.wf()
    }

    /// A snapshot that ends no version.
    pub fn new() -> (snapshot: BlobCompactionSnapshot)
        ensures
            snapshot.wf(),
            snapshot@ == (SnapshotView {
                materialized_through_lsn: 0,
                emit_garbage_from_lsn: 0,
                epoch_changes: Seq::empty(),
                shard_infos: Map::empty(),
                shard_drop_lsns: Map::empty(),
                reclaimed_shard_segments: Map::empty(),
            }),
    {
        BlobCompactionSnapshot {
            materialized_through_lsn: 0,
            emit_garbage_from_lsn: 0,
            epoch_changes: Vec::new(),
            shard_infos: BTreeMap::new(),
            shard_drop_lsns: ShardMap::new(),
            reclaimed_shard_segments: BTreeMap::new(),
        }
    }

    /// The transition that ends lifetimes which end at `logical_end_epoch`.
    pub fn expiry(&self, logical_end_epoch: Epoch) -> (result: Option<TerminalTransition>)
        ensures
            result == self@.expiry(logical_end_epoch),
    {
        let mut i: usize = 0;
        assert(self.epoch_changes@.skip(0) =~= self.epoch_changes@);
        while i < self.epoch_changes.len() && self.epoch_changes[i].1 < logical_end_epoch
            invariant
                i <= self.epoch_changes@.len(),
                first_reaching(self.epoch_changes@, logical_end_epoch) == i + first_reaching(
                    self.epoch_changes@.skip(i as int),
                    logical_end_epoch,
                ),
            decreases self.epoch_changes@.len() - i,
        {
            assert(self.epoch_changes@.skip(i as int).skip(1) =~= self.epoch_changes@.skip(i + 1));
            i = i + 1;
        }
        if i >= self.epoch_changes.len() {
            return None;
        }
        let lsn: u64 = self.epoch_changes[i].0;
        if lsn > self.materialized_through_lsn {
            return None;
        }
        Some(TerminalTransition { lsn, emit_garbage: lsn >= self.emit_garbage_from_lsn })
    }

    /// The transition that retires every version of a shard generation.
    pub fn shard_retirement(&self, shard: ShardKey) -> (result: Option<TerminalTransition>)
        requires
            self.wf(),
        ensures
            result == self@.shard_retirement(shard),
    {
        if let Some(drop_lsn) = self.shard_drop_lsns.get(&shard) {
            if *drop_lsn > self.materialized_through_lsn {
                return None;
            }
            return Some(
                TerminalTransition {
                    lsn: *drop_lsn,
                    emit_garbage: *drop_lsn >= self.emit_garbage_from_lsn,
                },
            );
        }
        let obsolete: bool = match self.shard_infos.get(&shard.id) {
            Some(info) => shard.generation < info.current_generation || (shard.generation
                == info.current_generation && info.state == ShardState::Dropped),
            None => false,
        };
        if obsolete {
            Some(TerminalTransition { lsn: self.materialized_through_lsn, emit_garbage: false })
        } else {
            None
        }
    }

    /// Whether the segment was reclaimed as a whole when its owner, this shard, was dropped.
    pub fn bulk_reclaimed(&self, segment_id: SegmentId, shard: ShardKey) -> (result: bool)
        ensures
            result == self@.bulk_reclaimed(segment_id, shard),
    {
        match self.reclaimed_shard_segments.get(&segment_id) {
            Some(owner) => *owner == shard,
            None => false,
        }
    }
}

impl Default for BlobCompactionSnapshot {
    fn default() -> (snapshot: BlobCompactionSnapshot)
        ensures
            snapshot.wf(),
            snapshot@ == (SnapshotView {
                materialized_through_lsn: 0,
                emit_garbage_from_lsn: 0,
                epoch_changes: Seq::empty(),
                shard_infos: Map::empty(),
                shard_drop_lsns: Map::empty(),
                reclaimed_shard_segments: Map::empty(),
            }),
    {
        BlobCompactionSnapshot::new()
    }
}

} // verus!
