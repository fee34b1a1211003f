//! What a compaction pass promises: its inputs, its reach, its shape and its facts.

use vstd::prelude::*;

use super::compaction;
use super::compaction::{CompactionPlan, MainCompactionKind, PartitionView, PassShape};
use super::frontier;
use super::frontier::GarbageLogPosition;
use super::pass;
use super::pass::ShardCleanupJob;
use super::relocations;
use super::relocations::RelocationPartition;
use super::tables;
use super::tables::TableMeta;
use super::tiers;
use crate::segments::{SegmentFileState, SegmentOwner, SegmentState};
use crate::types::{Epoch, SegmentId, ShardId, ShardInfo, ShardKey, StrataLsn};

verus! {

// Tables.

/// The bytes of tables are the sum of their lengths, as far as it fits.
pub proof fn law_table_bytes_add_up(some: Seq<TableMeta>, table: TableMeta)
    ensures
        tables::total_bytes(Seq::empty()) == 0,
        ({
            let before = tables::total_bytes(some) as int;
            let after = tables::total_bytes(some.push(table)) as int;
            &&& before + table.file_len <= u64::MAX && before < u64::MAX ==> after == before
                + table.file_len
            &&& before + table.file_len > u64::MAX ==> after == u64::MAX
            &&& before == u64::MAX ==> after == u64::MAX
        }),
{
    assert(some.push(table).drop_last() =~= some);
}

/// The oldest LSN of tables is the least first LSN of any.
pub proof fn law_the_oldest_lsn_is_the_least(some: Seq<TableMeta>)
    ensures
        match tables::oldest_row(some) {
            None => forall|i: int| 0 <= i < some.len() ==> (#[trigger] some[i]).min_lsn is None,
            Some(oldest) => (forall|i: int|
                0 <= i < some.len() ==> ((#[trigger] some[i]).min_lsn matches Some(lsn) ==> oldest
                    <= lsn)) && exists|i: int|
                0 <= i < some.len() && (#[trigger] some[i]).min_lsn == Some(oldest),
        },
    decreases some.len(),
{
    if some.len() > 0 {
        let init = some.drop_last();
        law_the_oldest_lsn_is_the_least(init);
        assert forall|i: int| 0 <= i < init.len() implies #[trigger] some[i] == init[i] by {}
        assert(some[some.len() - 1] == some.last());
        if let Some(oldest) = tables::oldest_row(init) {
            let i = choose|i: int|
                0 <= i < init.len() && (#[trigger] init[i]).min_lsn == Some(oldest);
            assert(some[i] == init[i]);
        }
    }
}

/// The newest LSN of tables is the greatest last LSN of any, and zero without any.
pub proof fn law_the_newest_lsn_is_the_greatest(some: Seq<TableMeta>)
    ensures
        forall|i: int|
            0 <= i < some.len() ==> ((#[trigger] some[i]).max_lsn matches Some(lsn) ==> lsn
                <= tables::newest_row(some)),
        tables::newest_row(some) == 0 || exists|i: int|
            0 <= i < some.len() && (#[trigger] some[i]).max_lsn == Some(tables::newest_row(some)),
    decreases some.len(),
{
    if some.len() > 0 {
        let init = some.drop_last();
        law_the_newest_lsn_is_the_greatest(init);
        assert forall|i: int| 0 <= i < init.len() implies #[trigger] some[i] == init[i] by {}
        assert(some[some.len() - 1] == some.last());
        if tables::newest_row(init) != 0 {
            let i = choose|i: int|
                0 <= i < init.len() && (#[trigger] init[i]).max_lsn == Some(
                    tables::newest_row(init),
                );
            assert(some[i] == init[i]);
        }
    }
}

/// What a pass does not read holds its reach back to right before the oldest unread row; nothing
/// else does.
pub proof fn law_the_reach_ends_before_unread_rows(frontier: StrataLsn, unread: Seq<TableMeta>)
    ensures
        ({
            let reach = tables::below_unread(frontier, unread);
            &&& reach <= frontier
            &&& forall|i: int|
                0 <= i < unread.len() ==> ((#[trigger] unread[i]).min_lsn matches Some(lsn) ==> (lsn
                    > 0 ==> reach < lsn))
            &&& reach == frontier || reach == 0 || exists|i: int|
                0 <= i < unread.len() && (#[trigger] unread[i]).min_lsn == Some((reach + 1) as u64)
            &&& (forall|i: int|
                0 <= i < unread.len() ==> ((#[trigger] unread[i]).min_lsn matches Some(lsn) ==> lsn
                    > frontier)) ==> reach == frontier
        }),
{
    law_the_oldest_lsn_is_the_least(unread);
}

/// Tables beyond an LSN are those that hold a newer row, tables up to it all others, both in their
/// order.
pub proof fn law_an_lsn_parts_the_tables(some: Seq<TableMeta>, lsn: StrataLsn)
    ensures
        tables::newer_than(some, lsn) == some.filter(
            |table: TableMeta| table.max_lsn is Some && table.max_lsn->Some_0 > lsn,
        ),
        compaction::up_to(some, lsn) == some.filter(
            |table: TableMeta| table.max_lsn is None || table.max_lsn->Some_0 <= lsn,
        ),
    decreases some.len(),
{
    reveal(Seq::filter);
    if some.len() > 0 {
        law_an_lsn_parts_the_tables(some.drop_last(), lsn);
    }
}

// A pass.

/// Transitions apply up to the frontier, in their order.
pub proof fn law_transitions_apply_up_to_the_frontier(
    changes: Seq<(StrataLsn, Epoch)>,
    frontier: StrataLsn,
)
    ensures
        compaction::applicable(changes, frontier) == changes.filter(
            |change: (StrataLsn, Epoch)| change.0 <= frontier,
        ),
    decreases changes.len(),
{
    reveal(Seq::filter);
    if changes.len() > 0 {
        law_transitions_apply_up_to_the_frontier(changes.drop_last(), frontier);
    }
}

/// A sweep aims at the last listed transition that lies within its bound.
pub proof fn law_sweeps_aim_at_the_last_transition(
    changes: Seq<(StrataLsn, Epoch)>,
    bound: StrataLsn,
)
    ensures
        ({
            let target = compaction::last_transition(changes, bound);
            ||| target == 0 && forall|i: int|
                0 <= i < changes.len() ==> (#[trigger] changes[i]).0 > bound
            ||| exists|at: int|
                0 <= at < changes.len() && (#[trigger] changes[at]).0 == target && target <= bound
                    && forall|i: int|
                    at < i < changes.len() ==> (#[trigger] changes[i]).0 > bound
        }),
    decreases changes.len(),
{
    if changes.len() > 0 {
        let init = changes.drop_last();
        let last = changes.len() - 1;
        assert(changes[last] == changes.last());
        if changes.last().0 > bound {
            law_sweeps_aim_at_the_last_transition(init, bound);
            assert forall|i: int| 0 <= i < init.len() implies #[trigger] changes[i] == init[i] by {}
            let target = compaction::last_transition(init, bound);
            if exists|at: int|
                0 <= at < init.len() && (#[trigger] init[at]).0 == target && target <= bound
                    && forall|i: int| at < i < init.len() ==> (#[trigger] init[i]).0 > bound {
                let at = choose|at: int|
                    0 <= at < init.len() && (#[trigger] init[at]).0 == target && target <= bound
                        && forall|i: int| at < i < init.len() ==> (#[trigger] init[i]).0 > bound;
                assert(changes[at].0 == target);
            }
        }
    }
}

/// A pass reaches what is published, held back by patches with unpublished rows, and applies global
/// facts no further than they were materialized.
pub proof fn law_a_pass_reaches_what_is_published(view: PartitionView)
    ensures
        view.compact_through() <= view.published_lsn,
        forall|i: int|
            0 <= i < view.patches@.len() ==> ((#[trigger] view.patches@[i]).max_lsn matches Some(
                newest,
            ) ==> (newest > view.published_lsn ==> (view.patches@[i].min_lsn matches Some(lsn)
                ==> (lsn > 0 ==> view.compact_through() < lsn)))),
        (forall|i: int|
            0 <= i < view.patches@.len() ==> ((#[trigger] view.patches@[i]).max_lsn matches Some(
                newest,
            ) ==> newest <= view.published_lsn)) ==> view.compact_through() == view.published_lsn,
        view.frontier() <= view.compact_through(),
        view.materialized_through is None ==> view.frontier() == 0,
        view.materialized_through matches Some(lsn) ==> view.frontier() <= lsn && (view.frontier()
            == lsn || view.frontier() == view.compact_through()),
{
    let newer = tables::newer_than(view.patches@, view.published_lsn);
    law_the_reach_ends_before_unread_rows(view.published_lsn, newer);
    lemma_newer(view.patches@, view.published_lsn);
    if forall|i: int|
        0 <= i < view.patches@.len() ==> ((#[trigger] view.patches@[i]).max_lsn matches Some(newest)
            ==> newest <= view.published_lsn) {
        assert(newer.len() == 0) by {
            if newer.len() > 0 {
                assert(newer.contains(newer[0]));
                let k = choose|k: int| 0 <= k < view.patches@.len() && view.patches@[k] == newer[0];
                assert(view.patches@[k].max_lsn is Some);
            }
        }
    }
    assert forall|i: int| 0 <= i < view.patches@.len() implies ((
    #[trigger] view.patches@[i]).max_lsn matches Some(newest) ==> (newest > view.published_lsn ==> (
    view.patches@[i].min_lsn matches Some(lsn) ==> (lsn > 0 ==> view.compact_through() < lsn)))) by {
        if view.patches@[i].max_lsn is Some && view.patches@[i].max_lsn->Some_0
            > view.published_lsn {
            assert(newer.contains(view.patches@[i]));
            let k = choose|k: int| 0 <= k < newer.len() && newer[k] == view.patches@[i];
            assert(newer[k].min_lsn == view.patches@[i].min_lsn);
        }
    }
}

proof fn lemma_newer(some: Seq<TableMeta>, lsn: StrataLsn)
    ensures
        forall|table: TableMeta| #[trigger]
            tables::newer_than(some, lsn).contains(table) ==> some.contains(table)
                && table.max_lsn is Some && table.max_lsn->Some_0 > lsn,
        forall|i: int|
            0 <= i < some.len() && (#[trigger] some[i]).max_lsn is Some && some[i].max_lsn->Some_0
                > lsn ==> tables::newer_than(some, lsn).contains(some[i]),
    decreases some.len(),
{
    if some.len() > 0 {
        let init = some.drop_last();
        let earlier = tables::newer_than(init, lsn);
        let all = tables::newer_than(some, lsn);
        lemma_newer(init, lsn);
        assert(some[some.len() - 1] == some.last());
        assert forall|table: TableMeta| #[trigger] all.contains(table) implies some.contains(table)
            && table.max_lsn is Some && table.max_lsn->Some_0 > lsn by {
            let k = all.index_of(table);
            if k < earlier.len() {
                assert(earlier[k] == table);
                assert(earlier.contains(table));
                let i = init.index_of(table);
                assert(some[i] == table);
            }
        }
        assert forall|i: int|
            0 <= i < some.len() && (#[trigger] some[i]).max_lsn is Some && some[i].max_lsn->Some_0
                > lsn implies all.contains(some[i]) by {
            if i < init.len() {
                assert(init[i] == some[i]);
                let k = earlier.index_of(some[i]);
                assert(all[k] == some[i]);
            } else {
                assert(all[earlier.len() as int] == some[i]);
            }
        }
    }
}

/// A partition's patches go into the base once they are large enough; else a tier is merged where
/// there is one. Only a forced pass goes on: it folds a small partition, and else sweeps one base if
/// the partition has a credit for it.
pub proof fn law_shapes_follow_the_pressure(
    view: PartitionView,
    credits: Map<u32, (StrataLsn, usize)>,
    partition: u32,
    floor: u64,
    force: bool,
)
    ensures
        ({
            let shape = view.shape(credits, partition, floor, force);
            let patches = view.durable();
            let tier = tiers::blob_tier(patches);
            let bytes = tables::total_bytes(patches) as int;
            let base_bytes = tables::total_bytes(view.base@) as int;
            let large = patches.len() > 0 && bytes >= floor && bytes >= base_bytes / 10;
            let small = patches.len() > 0 && base_bytes + bytes < floor;
            let swept = compaction::swept_table(
                credits,
                partition,
                view.sweep_target(),
                view.base@,
            );
            &&& large ==> shape == PassShape::Full(compaction::oldest_patch(patches))
            &&& !large && tier.len() > 0 ==> shape == PassShape::Tier(tier)
            &&& !large && tier.len() == 0 && !force ==> shape is Nothing
            &&& !large && tier.len() == 0 && force && small ==> shape == PassShape::Full(
                compaction::oldest_patch(patches),
            )
            &&& !large && tier.len() == 0 && force && !small ==> match swept {
                Some(table) => shape == PassShape::Sweep(table),
                None => shape is Nothing,
            }
            &&& view.asks_for_sweep(floor, force) <==> !large && tier.len() == 0 && force && !small
        }),
{
}

/// A full pass applies facts up to the frontier. A tier merge stays below every patch with newer
/// rows than it reads, a sweep below every live patch.
pub proof fn law_bounds_stay_below_what_is_not_read(
    view: PartitionView,
    tier: Seq<TableMeta>,
    table: TableMeta,
)
    ensures
        view.bound_of(PassShape::Nothing) == 0,
        view.bound_of(PassShape::Full(table)) == view.frontier(),
        view.bound_of(PassShape::Sweep(table)) == tables::below_unread(
            view.frontier(),
            view.patches@,
        ),
        view.bound_of(PassShape::Tier(tier)) == tables::below_unread(
            view.frontier(),
            tables::newer_than(view.patches@, tables::newest_row(tier)),
        ),
{
}

/// A plan carries its shape's kind, and reads, reaches and applies what its partition's view says.
pub proof fn law_plans_follow_their_view(
    plan: CompactionPlan,
    view: PartitionView,
    shape: PassShape,
)
    requires
        plan.follows(view, shape),
    ensures
        shape is Tier <==> plan.kind == MainCompactionKind::Minor,
        shape is Sweep <==> plan.kind == MainCompactionKind::Sweep,
        plan.spec_shape() == shape,
        plan.patches@ == compaction::up_to(view.patches@, view.compact_through()),
        plan.bound == view.bound_of(shape),
        plan.compact_through_lsn == view.compact_through(),
        plan.epoch_changes@ == compaction::applicable(view.epoch_changes@, view.frontier()),
        view.emit_garbage_from_lsn == Some(plan.emit_garbage_from_lsn),
        shape matches PassShape::Full(seed) ==> plan.seed == Some(seed),
        shape !is Full ==> plan.seed is None,
{
}

/// Bytes are folded from the patch with the least first LSN; of several, from the first listed.
pub proof fn law_the_oldest_patch_comes_first(patches: Seq<TableMeta>, at: int)
    requires
        validated_at(patches),
        0 <= at < patches.len(),
    ensures
        compaction::oldest_patch(patches).min_lsn matches Some(least) && (
        patches[at].min_lsn matches Some(lsn) && least <= lsn),
        exists|k: int|
            0 <= k < patches.len() && #[trigger] patches[k] == compaction::oldest_patch(patches)
                && forall|i: int|
                0 <= i < k ==> (#[trigger] patches[i]).min_lsn->Some_0
                    > patches[k].min_lsn->Some_0,
    decreases patches.len(),
{
    let init = patches.drop_last();
    let last = patches.len() - 1;
    assert(patches[last] == patches.last());
    assert forall|i: int| 0 <= i < init.len() implies #[trigger] patches[i] == init[i] by {}
    assert(patches[last].min_lsn is Some);
    if patches.len() > 1 {
        assert(validated_at(init));
        law_the_oldest_patch_comes_first(init, 0);
        if at < last {
            law_the_oldest_patch_comes_first(init, at);
        }
        let oldest = compaction::oldest_patch(init);
        let k = choose|k: int|
            0 <= k < init.len() && #[trigger] init[k] == oldest && forall|i: int|
                0 <= i < k ==> (#[trigger] init[i]).min_lsn->Some_0 > init[k].min_lsn->Some_0;
        assert(patches[k] == oldest);
        if patches.last().min_lsn->Some_0 < oldest.min_lsn->Some_0 {
            assert forall|i: int| 0 <= i < last implies (#[trigger] patches[i]).min_lsn->Some_0
                > patches[last].min_lsn->Some_0 by {
                law_the_oldest_patch_comes_first(init, i);
            }
        }
    }
}

/// Every patch has a first LSN.
pub open spec fn validated_at(patches: Seq<TableMeta>) -> bool {
    forall|i: int| 0 <= i < patches.len() ==> (#[trigger] patches[i]).min_lsn is Some
}

/// Sweeps take the base that global facts were applied to least far, of several the first listed,
/// and none that already is as far as the target.
pub proof fn law_the_stalest_base_comes_first(base: Seq<TableMeta>, target: StrataLsn)
    ensures
        match compaction::stalest(base, target) {
            None => forall|i: int|
                0 <= i < base.len() ==> (
                #[trigger] base[i]).merge_applied_through_lsn is Some && base[i].merge_applied_through_lsn->Some_0
                    >= target || target == 0,
            Some(table) => exists|k: int|
                0 <= k < base.len() && #[trigger] base[k] == table && compaction::applied_through(
                    table,
                ) < target && (forall|i: int|
                    0 <= i < base.len() ==> compaction::applied_through(#[trigger] base[i])
                        >= compaction::applied_through(table)) && forall|i: int|
                    0 <= i < k ==> compaction::applied_through(#[trigger] base[i])
                        > compaction::applied_through(table),
        },
        forall|table: TableMeta|
            #![trigger compaction::applied_through(table)]
            compaction::applied_through(table) == (match table.merge_applied_through_lsn {
                Some(lsn) => lsn,
                None => 0,
            }),
    decreases base.len(),
{
    if base.len() > 0 {
        let init = base.drop_last();
        let last = base.len() - 1;
        law_the_stalest_base_comes_first(init, target);
        assert(base[last] == base.last());
        assert forall|i: int| 0 <= i < init.len() implies #[trigger] base[i] == init[i] by {}
        match compaction::stalest(init, target) {
            None => {
                if compaction::applied_through(base.last()) < target {
                    assert forall|i: int| 0 <= i < last implies compaction::applied_through(
                        #[trigger] base[i],
                    ) > compaction::applied_through(base.last()) by {
                        assert(init[i].merge_applied_through_lsn is Some || target == 0);
                    }
                }
            },
            Some(table) => {
                let k = choose|k: int|
                    0 <= k < init.len() && #[trigger] init[k] == table
                        && compaction::applied_through(table) < target && (forall|i: int|
                        0 <= i < init.len() ==> compaction::applied_through(#[trigger] init[i])
                            >= compaction::applied_through(table)) && forall|i: int|
                        0 <= i < k ==> compaction::applied_through(#[trigger] init[i])
                            > compaction::applied_through(table);
                assert(base[k] == table);
            },
        }
    }
}

/// A partition earns one sweep with each newer target and spends it on the first stale base; without
/// a target, a credit or a stale base there is no sweep, and the partition's credit alone changes.
pub proof fn law_a_newer_target_earns_one_sweep(
    credits: Map<u32, (StrataLsn, usize)>,
    partition: u32,
    target: StrataLsn,
    base: Seq<TableMeta>,
)
    ensures
        ({
            let had: (StrataLsn, usize) = if credits.dom().contains(partition) {
                credits[partition]
            } else {
                (0, 0)
            };
            let stale = compaction::stalest(base, target);
            let swept = compaction::swept_table(credits, partition, target, base);
            let after = compaction::credits_after(credits, partition, target, base);
            let newer = target > had.0;
            let left: int = if newer {
                1
            } else {
                had.1 as int
            };
            let spent: int = if stale is Some && left > 0 {
                1
            } else {
                0
            };
            &&& target == 0 ==> swept is None && after == credits
            &&& target > 0 && left > 0 ==> swept == stale
            &&& target > 0 && left == 0 ==> swept is None
            &&& target > 0 ==> after.dom() == credits.dom().insert(partition) && after[partition].0
                == (if newer {
                target
            } else {
                had.0
            }) && after[partition].1 == left - spent
            &&& target > 0 ==> forall|other: u32|
                other != partition && credits.dom().contains(other) ==> #[trigger] after[other]
                    == credits[other]
        }),
{
}

// Facts of a pass.

/// A dropped shard's LSN is that of its last listed job; a shard without a job was not dropped.
pub proof fn law_the_last_job_tells_the_drop(
    jobs: Seq<ShardCleanupJob>,
    job: ShardCleanupJob,
    shard: ShardKey,
)
    ensures
        pass::drop_lsns(Seq::empty()) == Map::<ShardKey, StrataLsn>::empty(),
        ({
            let before = pass::drop_lsns(jobs);
            let after = pass::drop_lsns(jobs.push(job));
            &&& shard == job.shard ==> after.dom().contains(shard) && after[shard] == job.drop_lsn
            &&& shard != job.shard ==> (after.dom().contains(shard) <==> before.dom().contains(
                shard,
            ))
            &&& shard != job.shard && before.dom().contains(shard) ==> after[shard]
                == before[shard]
        }),
{
    assert(jobs.push(job).drop_last() =~= jobs);
}

/// A segment counts as reclaimed where its row says that it is deleted and belongs to a shard.
pub proof fn law_deleted_segments_of_shards_are_reclaimed(
    segments: Seq<SegmentState>,
    row: SegmentState,
    segment_id: SegmentId,
)
    ensures
        pass::reclaimed_segments(Seq::empty()) == Map::<SegmentId, ShardKey>::empty(),
        ({
            let before = pass::reclaimed_segments(segments);
            let after = pass::reclaimed_segments(segments.push(row));
            &&& row.state != SegmentFileState::Deleted || row.owner == SegmentOwner::Store ==> after
                == before
            &&& row.state == SegmentFileState::Deleted ==> (row.owner matches SegmentOwner::Shard(
                shard,
            ) ==> after.dom().contains(row.segment_id) && after[row.segment_id] == shard)
            &&& segment_id != row.segment_id ==> (after.dom().contains(segment_id)
                <==> before.dom().contains(segment_id))
            &&& segment_id != row.segment_id && before.dom().contains(segment_id)
                ==> after[segment_id] == before[segment_id]
        }),
{
    assert(segments.push(row).drop_last() =~= segments);
}

/// Every pass knows its bound, its cutover and its transitions. A tier merge knows nothing of shards;
/// any other pass knows all of them.
pub proof fn law_tier_merges_know_no_shards(
    plan: CompactionPlan,
    infos: Map<ShardId, ShardInfo>,
    jobs: Seq<ShardCleanupJob>,
    segments: Seq<SegmentState>,
)
    ensures
        ({
            let facts = pass::facts_of_pass(plan, infos, jobs, segments);
            &&& facts.materialized_through_lsn == plan.bound
            &&& facts.emit_garbage_from_lsn == plan.emit_garbage_from_lsn
            &&& facts.epoch_changes == plan.epoch_changes@
            &&& plan.kind == MainCompactionKind::Minor ==> facts.shard_infos == Map::<
                ShardId,
                ShardInfo,
            >::empty() && facts.shard_drop_lsns == Map::<ShardKey, StrataLsn>::empty()
                && facts.reclaimed_shard_segments == Map::<SegmentId, ShardKey>::empty()
            &&& plan.kind != MainCompactionKind::Minor ==> facts.shard_infos == infos
                && facts.shard_drop_lsns == pass::drop_lsns(jobs)
                && facts.reclaimed_shard_segments == pass::reclaimed_segments(segments)
        }),
{
}

/// An output's stamp says how far facts were applied to it, and changes nothing else.
pub proof fn law_stamps_tell_how_far(table: TableMeta, bound: StrataLsn)
    ensures
        ({
            let after = pass::stamped(table, bound);
            &&& after.merge_applied_through_lsn == Some(bound)
            &&& after.id == table.id && after.file_len == table.file_len
            &&& after.min_lsn == table.min_lsn && after.max_lsn == table.max_lsn
        }),
{
}

// Relocations and logs.

/// Partitions are due in their order, each with the shape that its own pressure asks for; one
/// without pressure is not.
pub proof fn law_pressured_partitions_are_due(
    partitions: Seq<RelocationPartition>,
    next: RelocationPartition,
)
    ensures
        relocations::pressured(Seq::empty()).len() == 0,
        match tiers::relocation_shape(next.patches@, next.base@) {
            None => relocations::pressured(partitions.push(next)) == relocations::pressured(
                partitions,
            ),
            Some(shape) => relocations::pressured(partitions.push(next)) == relocations::pressured(
                partitions,
            ).push((next.partition, shape)),
        },
{
    assert(partitions.push(next).drop_last() =~= partitions);
}

/// Deleted segments are listed in the order of their rows.
pub proof fn law_deleted_segments_are_listed_in_order(
    segments: Seq<SegmentState>,
    row: SegmentState,
)
    ensures
        relocations::deleted(Seq::empty()).len() == 0,
        row.state == SegmentFileState::Deleted ==> relocations::deleted(segments.push(row))
            == relocations::deleted(segments).push(row.segment_id),
        row.state != SegmentFileState::Deleted ==> relocations::deleted(segments.push(row))
            == relocations::deleted(segments),
{
    assert(segments.push(row).drop_last() =~= segments);
}

/// A frontier moves to a later LSN, and to no other.
pub proof fn law_frontiers_move_forward(current: StrataLsn, candidate: StrataLsn)
    ensures
        candidate > current ==> frontier::advance(current, candidate) == Some(candidate),
        candidate <= current ==> frontier::advance(current, candidate) is None,
{
}

/// What is left to read of a log lies between the cursor and the head; in another file it is all of
/// it.
pub proof fn law_the_backlog_lies_ahead_of_the_cursor(
    head: GarbageLogPosition,
    cursor: GarbageLogPosition,
)
    ensures
        head.log_id != cursor.log_id ==> frontier::backlog(head, cursor) == head.offset,
        head.log_id == cursor.log_id && cursor.offset <= head.offset ==> cursor.offset
            + frontier::backlog(head, cursor) == head.offset,
        head.log_id == cursor.log_id && cursor.offset > head.offset ==> frontier::backlog(
            head,
            cursor,
        ) == 0,
{
}

} // verus!
