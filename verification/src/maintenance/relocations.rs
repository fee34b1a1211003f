//! Relocation-LSM compaction: which partitions are under pressure, and what a pass over one reads.

use vstd::prelude::*;

use super::tables;
use super::tables::{joined_tables, table_bytes, TableMeta};
use super::tiers;
use super::tiers::{
    relocation_compaction_shape, select_relocation_patch_tier, RelocationCompactionShape,
};
use crate::num;
use crate::segments::{SegmentFileState, SegmentState};
use crate::types::{SegmentId, StrataLsn};

verus! {

/// Tables of one relocation partition.
#[derive(Clone, Debug)]
pub struct RelocationPartition {
    pub partition: u32,
    /// In manifest order.
    pub patches: Vec<TableMeta>,
    pub base: Vec<TableMeta>,
}

/// The partitions that need a pass, each with its shape.
pub open spec fn pressured(partitions: Seq<RelocationPartition>) -> Seq<
    (u32, RelocationCompactionShape),
>
    decreases partitions.len(),
{
    if partitions.len() == 0 {
        Seq::empty()
    } else {
        let earlier = pressured(partitions.drop_last());
        let last = partitions.last();
        match tiers::relocation_shape(last.patches@, last.base@) {
            Some(shape) => earlier.push((last.partition, shape)),
            None => earlier,
        }
    }
}

/// The partitions that need a pass, each with its shape.
pub fn pressured_partitions(partitions: &Vec<RelocationPartition>) -> (due: Vec<
    (u32, RelocationCompactionShape),
>)
    ensures
        due@ == pressured(partitions@),
{
    let mut due: Vec<(u32, RelocationCompactionShape)> = Vec::new();
    let mut i: usize = 0;
    while i < partitions.len()
        invariant
            i <= partitions@.len(),
            due@ == pressured(partitions@.take(i as int)),
        decreases partitions@.len() - i,
    {
        assert(partitions@.take(i + 1).drop_last() =~= partitions@.take(i as int));
        let tables: &RelocationPartition = &partitions[i];
        if let Some(shape) = relocation_compaction_shape(&tables.patches, &tables.base) {
            due.push((tables.partition, shape));
        }
        i = i + 1;
    }
    assert(partitions@.take(i as int) =~= partitions@);
    due
}

/// The segments that are gone, in row order.
pub open spec fn deleted(segments: Seq<SegmentState>) -> Seq<SegmentId>
    decreases segments.len(),
{
    if segments.len() == 0 {
        Seq::empty()
    } else {
        let earlier = deleted(segments.drop_last());
        if segments.last().state == SegmentFileState::Deleted {
            earlier.push(segments.last().segment_id)
        } else {
            earlier
        }
    }
}

/// The segments that are gone: relocations into them are dead weight.
pub fn deleted_segments(segments: &Vec<SegmentState>) -> (gone: Vec<SegmentId>)
    ensures
        gone@ == deleted(segments@),
{
    let mut gone: Vec<u64> = Vec::new();
    let mut i: usize = 0;
    while i < segments.len()
        invariant
            i <= segments@.len(),
            gone@ == deleted(segments@.take(i as int)),
        decreases segments@.len() - i,
    {
        assert(segments@.take(i + 1).drop_last() =~= segments@.take(i as int));
        if segments[i].state == SegmentFileState::Deleted {
            gone.push(segments[i].segment_id);
        }
        i = i + 1;
    }
    assert(segments@.take(i as int) =~= segments@);
    gone
}

/// What one relocation pass reads, and which destinations it retires.
#[derive(Clone, Debug, PartialEq, Eq)]
pub enum RelocationPass {
    /// Merge these patches into one; no entry is retired.
    Merge { tier: Vec<TableMeta> },
    /// Fold the seed's overlap component into the base and drop entries into these segments.
    Fold { seed: TableMeta, dead_segments: Vec<SegmentId> },
}

/// Plans one relocation pass over one partition, or finds nothing to do.
pub fn plan_relocation_pass(
    shape: RelocationCompactionShape,
    patches: &Vec<TableMeta>,
    segments: &Vec<SegmentState>,
) -> (pass: Option<RelocationPass>)
    ensures
        match (shape, pass) {
            (RelocationCompactionShape::Partial, None) => tiers::relocation_tier(patches@).len()
                == 0,
            (RelocationCompactionShape::Partial, Some(RelocationPass::Merge { tier })) => tier@
                == tiers::relocation_tier(patches@) && tier@.len() > 0,
            (RelocationCompactionShape::Full, None) => patches@.len() == 0,
            (
                RelocationCompactionShape::Full,
                Some(RelocationPass::Fold { seed, dead_segments }),
            ) => patches@.len() > 0 && seed == patches@[0] && dead_segments@ == deleted(segments@),
            _ => false,
        },
{
    match shape {
        RelocationCompactionShape::Partial => {
            let tier: Vec<TableMeta> = select_relocation_patch_tier(patches);
            if tier.len() == 0 {
                None
            } else {
                Some(RelocationPass::Merge { tier })
            }
        },
        RelocationCompactionShape::Full => {
            if patches.len() == 0 {
                None
            } else {
                Some(
                    RelocationPass::Fold {
                        seed: patches[0],
                        dead_segments: deleted_segments(segments),
                    },
                )
            }
        },
    }
}

/// The tables that a relocation pass makes obsolete: a partial pass replaces patches only, a full
/// one also bases.
pub fn replaced_by_pass(
    shape: RelocationCompactionShape,
    base: &Vec<TableMeta>,
    patches: &Vec<TableMeta>,
) -> (replaced: Vec<TableMeta>)
    ensures
        replaced@ == (match shape {
            RelocationCompactionShape::Partial => patches@,
            RelocationCompactionShape::Full => base@ + patches@,
        }),
{
    let none: Vec<TableMeta> = Vec::new();
    match shape {
        RelocationCompactionShape::Partial => joined_tables(&none, patches),
        RelocationCompactionShape::Full => joined_tables(base, patches),
    }
}

/// Bytes that a relocation pass wrote, cut off at what 64 bits can hold.
pub fn bytes_of_outputs(add_base: &Vec<TableMeta>, add_patches: &Vec<TableMeta>) -> (bytes: u64)
    ensures
        bytes == tables::total_bytes(add_base@ + add_patches@),
{
    table_bytes(&joined_tables(add_base, add_patches))
}

/// The durable relocation frontier after a round of passes. A pass publishes its manifest with a
/// synced batch, which covers the activations that were sampled before the round.
pub fn frontier_after_passes(
    durable: StrataLsn,
    sampled: StrataLsn,
    compacted: bool,
) -> (frontier: StrataLsn)
    ensures
        frontier == (if compacted {
            num::at_least(durable as int, sampled as int)
        } else {
            durable as int
        }),
{
    if compacted {
        num::max_u64(durable, sampled)
    } else {
        durable
    }
}

proof fn lemma_deleted_member(segments: Seq<SegmentState>, id: SegmentId)
    ensures
        deleted(segments).contains(id) <==> exists|i: int|
            0 <= i < segments.len() && (#[trigger] segments[i]).segment_id == id
                && segments[i].state == SegmentFileState::Deleted,
    decreases segments.len(),
{
    if segments.len() > 0 {
        let init = segments.drop_last();
        let earlier = deleted(init);
        let all = deleted(segments);
        lemma_deleted_member(init, id);
        if all.contains(id) {
            let k = choose|k: int| 0 <= k < all.len() && all[k] == id;
            if k < earlier.len() {
                assert(earlier[k] == id);
                let i = choose|i: int|
                    0 <= i < init.len() && (#[trigger] init[i]).segment_id == id && init[i].state
                        == SegmentFileState::Deleted;
                assert(segments[i].segment_id == id);
            } else {
                assert(segments[segments.len() - 1].segment_id == id);
            }
        }
        if exists|i: int|
            0 <= i < segments.len() && (#[trigger] segments[i]).segment_id == id
                && segments[i].state == SegmentFileState::Deleted {
            let i = choose|i: int|
                0 <= i < segments.len() && (#[trigger] segments[i]).segment_id == id
                    && segments[i].state == SegmentFileState::Deleted;
            if i < init.len() {
                assert(init[i].segment_id == id);
                let k = choose|k: int| 0 <= k < earlier.len() && earlier[k] == id;
                assert(all[k] == id);
            } else {
                assert(all[earlier.len() as int] == id);
            }
        }
    }
}

/// A full pass retires the relocations into a segment exactly where the segment's row says that it
/// is gone.
pub proof fn law_only_deleted_destinations_are_retired(segments: Seq<SegmentState>, id: SegmentId)
    ensures
        deleted(segments).contains(id) <==> exists|i: int|
            0 <= i < segments.len() && (#[trigger] segments[i]).segment_id == id
                && segments[i].state == SegmentFileState::Deleted,
{
    lemma_deleted_member(segments, id);
}

} // verus!
