//! What surrounds the merge of one compaction pass: the facts it is given, the tables it replaces
//! and the stamp that its outputs carry.

use std::collections::BTreeMap;

use vstd::prelude::*;

use super::compaction;
use super::compaction::{CompactionPlan, MainCompactionKind};
use super::tables;
use super::tables::{joined_tables, table_bytes, TableMeta};
use crate::blob_lsm::snapshot::{BlobCompactionSnapshot, SnapshotView};
use crate::segments::{SegmentFileState, SegmentState};
use crate::shard_map::ShardMap;
use crate::types::{Epoch, SegmentId, ShardId, ShardInfo, ShardKey, StrataLsn};

verus! {

/// A dropped shard generation whose bytes are still to be reclaimed.
#[derive(Clone, Copy, Debug, PartialEq, Eq, Structural)]
pub struct ShardCleanupJob {
    pub shard: ShardKey,
    pub drop_lsn: StrataLsn,
}

/// When each shard generation was dropped.
pub open spec fn drop_lsns(jobs: Seq<ShardCleanupJob>) -> Map<ShardKey, StrataLsn>
    decreases jobs.len(),
{
    if jobs.len() == 0 {
        Map::empty()
    } else {
        drop_lsns(jobs.drop_last()).insert(jobs.last().shard, jobs.last().drop_lsn)
    }
}

/// The deleted segments that belonged to one shard generation.
pub open spec fn reclaimed_segments(segments: Seq<SegmentState>) -> Map<SegmentId, ShardKey>
    decreases segments.len(),
{
    if segments.len() == 0 {
        Map::empty()
    } else {
        let earlier = reclaimed_segments(segments.drop_last());
        let last = segments.last();
        match last.owner.spec_shard() {
            Some(shard) => if last.state == SegmentFileState::Deleted {
                earlier.insert(last.segment_id, shard)
            } else {
                earlier
            },
            None => earlier,
        }
    }
}

/// The facts that a pass may apply. A tier merge sees epoch transitions only.
pub open spec fn facts_of_pass(
    plan: CompactionPlan,
    shard_infos: Map<ShardId, ShardInfo>,
    jobs: Seq<ShardCleanupJob>,
    segments: Seq<SegmentState>,
) -> SnapshotView {
    let minor = plan.kind == MainCompactionKind::Minor;
    SnapshotView {
        materialized_through_lsn: plan.bound,
        emit_garbage_from_lsn: plan.emit_garbage_from_lsn,
        epoch_changes: plan.epoch_changes@,
        shard_infos: if minor {
            Map::empty()
        } else {
            shard_infos
        },
        shard_drop_lsns: if minor {
            Map::empty()
        } else {
            drop_lsns(jobs)
        },
        reclaimed_shard_segments: if minor {
            Map::empty()
        } else {
            reclaimed_segments(segments)
        },
    }
}

fn drop_lsns_of(jobs: &Vec<ShardCleanupJob>) -> (dropped: ShardMap<StrataLsn>)
    ensures
        dropped.wf(),
        dropped@ == drop_lsns(jobs@),
{
    let mut dropped: ShardMap<u64> = ShardMap::new();
    let mut i: usize = 0;
    while i < jobs.len()
        invariant
            i <= jobs@.len(),
            dropped.wf(),
            dropped@ == drop_lsns(jobs@.take(i as int)),
        decreases jobs@.len() - i,
    {
        assert(jobs@.take(i + 1).drop_last() =~= jobs@.take(i as int));
        let job: ShardCleanupJob = jobs[i];
        dropped.insert(job.shard, job.drop_lsn);
        i = i + 1;
    }
    assert(jobs@.take(i as int) =~= jobs@);
    dropped
}

fn reclaimed_segments_of(segments: &Vec<SegmentState>) -> (reclaimed: BTreeMap<SegmentId, ShardKey>)
    ensures
        reclaimed@ == reclaimed_segments(segments@),
{
    let mut reclaimed: BTreeMap<u64, ShardKey> = BTreeMap::new();
    let mut i: usize = 0;
    while i < segments.len()
        invariant
            i <= segments@.len(),
            reclaimed@ == reclaimed_segments(segments@.take(i as int)),
        decreases segments@.len() - i,
    {
        assert(segments@.take(i + 1).drop_last() =~= segments@.take(i as int));
        let segment: &SegmentState = &segments[i];
        if let Some(shard) = segment.owner.shard() {
            if segment.state == SegmentFileState::Deleted {
                reclaimed.insert(segment.segment_id, shard);
            }
        }
        i = i + 1;
    }
    assert(segments@.take(i as int) =~= segments@);
    reclaimed
}

fn copy_changes(changes: &Vec<(StrataLsn, Epoch)>) -> (copied: Vec<(StrataLsn, Epoch)>)
    ensures
        copied@ == changes@,
{
    let mut copied: Vec<(u64, u64)> = Vec::new();
    let mut i: usize = 0;
    while i < changes.len()
        invariant
            i <= changes@.len(),
            copied@ == changes@.take(i as int),
        decreases changes@.len() - i,
    {
        copied.push(changes[i]);
        i = i + 1;
        assert(copied@ =~= changes@.take(i as int));
    }
    assert(changes@.take(i as int) =~= changes@);
    copied
}

/// Gathers the global facts that the merge of a pass applies.
///
/// A full pass and a sweep rewrite base rows, so they also see which shard generations are dropped
/// and which of their segments are already gone.
pub fn snapshot_for_pass(
    plan: &CompactionPlan,
    shard_infos: BTreeMap<ShardId, ShardInfo>,
    jobs: &Vec<ShardCleanupJob>,
    segments: &Vec<SegmentState>,
) -> (snapshot: BlobCompactionSnapshot)
    ensures
        snapshot.wf(),
        snapshot@ == facts_of_pass(*plan, shard_infos@, jobs@, segments@),
{
    let mut snapshot: BlobCompactionSnapshot = BlobCompactionSnapshot::new();
    snapshot.materialized_through_lsn = plan.bound;
    snapshot.emit_garbage_from_lsn = plan.emit_garbage_from_lsn;
    snapshot.epoch_changes = copy_changes(&plan.epoch_changes);
    if plan.kind != MainCompactionKind::Minor {
        snapshot.shard_infos = shard_infos;
        snapshot.shard_drop_lsns = drop_lsns_of(jobs);
        snapshot.reclaimed_shard_segments = reclaimed_segments_of(segments);
    }
    snapshot
}

/// How far a pass reads relocations in order to heal references; a tier merge heals nothing.
pub fn relocation_scan_limit(kind: MainCompactionKind, last_relocation: Option<StrataLsn>) -> (limit:
    Option<StrataLsn>)
    ensures
        limit == (if kind == MainCompactionKind::Minor || last_relocation == Some(0u64) {
            None
        } else {
            last_relocation
        }),
{
    if kind == MainCompactionKind::Minor {
        return None;
    }
    match last_relocation {
        Some(lsn) => if lsn == 0 {
            None
        } else {
            Some(lsn)
        },
        None => None,
    }
}

/// The tables that a pass makes obsolete: a tier merge replaces patches, the others also bases.
pub fn replaced_tables(
    kind: MainCompactionKind,
    base: &Vec<TableMeta>,
    patches: &Vec<TableMeta>,
) -> (replaced: Vec<TableMeta>)
    ensures
        replaced@ == (if kind == MainCompactionKind::Minor {
            patches@
        } else {
            base@ + patches@
        }),
{
    let none: Vec<TableMeta> = Vec::new();
    if kind == MainCompactionKind::Minor {
        joined_tables(&none, patches)
    } else {
        joined_tables(base, patches)
    }
}

/// Bytes that a pass wrote.
pub fn written_bytes(base: &Vec<TableMeta>, patches: &Vec<TableMeta>) -> (bytes: u64)
    requires
        tables::total_bytes(base@) + tables::total_bytes(patches@) <= u64::MAX,
    ensures
        bytes == tables::total_bytes(base@) + tables::total_bytes(patches@),
{
    table_bytes(base) + table_bytes(patches)
}

/// The table, stamped as having seen every transition through `bound`.
pub open spec fn stamped(table: TableMeta, bound: StrataLsn) -> TableMeta {
    TableMeta { merge_applied_through_lsn: Some(bound), ..table }
}

/// Stamps the bases that a pass wrote with the LSN that bounded its merge.
pub fn stamp_bases(bases: &mut Vec<TableMeta>, bound: StrataLsn)
    ensures
        final(bases)@ == old(bases)@.map_values(|table: TableMeta| stamped(table, bound)),
{
    let ghost before = bases@;
    let mut i: usize = 0;
    while i < bases.len()
        invariant
            i <= bases@.len(),
            bases@.len() == before.len(),
            forall|k: int| 0 <= k < i ==> bases@[k] == stamped(before[k], bound),
            forall|k: int| i <= k < before.len() ==> bases@[k] == before[k],
        decreases bases@.len() - i,
    {
        let mut table: TableMeta = bases[i];
        table.merge_applied_through_lsn = Some(bound);
        bases.set(i, table);
        i = i + 1;
    }
    assert(bases@ =~= before.map_values(|table: TableMeta| stamped(table, bound)));
}

proof fn lemma_last_transition(changes: Seq<(StrataLsn, Epoch)>, bound: StrataLsn)
    ensures
        compaction::last_transition(changes, bound) <= bound,
    decreases changes.len(),
{
    if changes.len() > 0 {
        lemma_last_transition(changes.drop_last(), bound);
    }
}

/// What a sweep wrote needs no further sweep for the transition that it was credited for: stamped
/// bases are never the stale ones.
pub proof fn law_swept_bases_are_fresh(
    view: compaction::PartitionView,
    swept: TableMeta,
    output: TableMeta,
)
    ensures
        compaction::applied_through(
            stamped(output, view.bound_of(compaction::PassShape::Sweep(swept))),
        ) >= view.sweep_target(),
{
    lemma_last_transition(view.transitions(), view.sweep_bound());
}

} // verus!
