//! What the choice of compaction inputs promises, over the lengths and LSNs of the tables.

use vstd::prelude::*;

use super::tables;
use super::tables::TableMeta;
use super::tiers;
use super::tiers::RelocationCompactionShape;
use crate::num;

verus! {

// Order of patches.

/// Patches come in the order of their first LSN, among equals of their last LSN, among equals of
/// their identifier; a patch without an LSN comes before one with any.
pub proof fn law_patches_come_in_lsn_order(a: TableMeta, b: TableMeta)
    ensures
        a.min_lsn is None && b.min_lsn is Some ==> tiers::before(a, b) && !tiers::before(b, a),
        a.min_lsn matches Some(x) ==> (b.min_lsn matches Some(y) ==> (x < y ==> tiers::before(a, b)
            && !tiers::before(b, a))),
        a.min_lsn == b.min_lsn && a.max_lsn is None && b.max_lsn is Some ==> tiers::before(a, b)
            && !tiers::before(b, a),
        a.min_lsn == b.min_lsn ==> (a.max_lsn matches Some(x) ==> (b.max_lsn matches Some(y) ==> (x
            < y ==> tiers::before(a, b) && !tiers::before(b, a)))),
        a.min_lsn == b.min_lsn && a.max_lsn == b.max_lsn && a.id < b.id ==> tiers::before(a, b)
            && !tiers::before(b, a),
        a.min_lsn == b.min_lsn && a.max_lsn == b.max_lsn && a.id == b.id ==> !tiers::before(a, b),
{
}

// Relocation tiers.

/// One byte stands for an empty table.
pub open spec fn weight(len: u64) -> int {
    if len == 0 {
        1
    } else {
        len as int
    }
}

/// The tier's limit is four times the length of a patch than which no patch of the partition is
/// shorter; an empty one counts as one byte.
pub proof fn law_the_limit_is_four_times_the_shortest(patches: Seq<TableMeta>)
    requires
        patches.len() > 0,
    ensures
        exists|k: int|
            0 <= k < patches.len() && (forall|j: int|
                0 <= j < patches.len() ==> (#[trigger] patches[j]).file_len
                    >= patches[k].file_len) && (if 4 * weight((#[trigger] patches[k]).file_len)
                <= u64::MAX {
                tiers::relocation_reach(patches) == 4 * weight(patches[k].file_len)
            } else {
                tiers::relocation_reach(patches) == u64::MAX
            }),
{
    lemma_shortest(patches);
    let k = choose|k: int|
        0 <= k < patches.len() && (#[trigger] patches[k]).file_len == tiers::smallest_len(patches);
    assert(patches[k].file_len == tiers::smallest_len(patches));
}

proof fn lemma_shortest(patches: Seq<TableMeta>)
    ensures
        forall|j: int|
            0 <= j < patches.len() ==> (#[trigger] patches[j]).file_len >= tiers::smallest_len(
                patches,
            ),
        patches.len() > 0 ==> exists|k: int|
            0 <= k < patches.len() && (#[trigger] patches[k]).file_len == tiers::smallest_len(
                patches,
            ),
    decreases patches.len(),
{
    if patches.len() > 0 {
        let init = patches.drop_last();
        lemma_shortest(init);
        assert forall|j: int| 0 <= j < init.len() implies #[trigger] patches[j] == init[j] by {}
        assert(patches[patches.len() - 1] == patches.last());
        if init.len() > 0 {
            let k = choose|k: int|
                0 <= k < init.len() && (#[trigger] init[k]).file_len == tiers::smallest_len(init);
            assert(patches[k] == init[k]);
        }
    }
}

/// No patch of a relocation tier is more than four times as long as any patch of the partition.
pub proof fn law_a_tier_is_within_four_times_of_every_patch(
    patches: Seq<TableMeta>,
    at: int,
    other: int,
)
    requires
        0 <= at < tiers::relocation_tier(patches).len(),
        0 <= other < patches.len(),
    ensures
        patches.contains(tiers::relocation_tier(patches)[at]),
        tiers::relocation_tier(patches)[at].file_len <= 4 * weight(patches[other].file_len),
{
    tiers::law_relocation_tier_is_comparable(patches, at);
    law_the_limit_is_four_times_the_shortest(patches);
}

/// A relocation tier is the first sixteen patches, in the order of the manifest, that are not longer
/// than four times the shortest; where fewer than two are, there is no tier.
pub proof fn law_a_tier_takes_every_short_patch(patches: Seq<TableMeta>)
    ensures
        ({
            let limit = tiers::relocation_reach(patches);
            let short = patches.filter(|patch: TableMeta| patch.file_len <= limit);
            let tier = tiers::relocation_tier(patches);
            &&& short.len() < 2 ==> tier.len() == 0
            &&& 2 <= short.len() <= 16 ==> tier == short
            &&& short.len() > 16 ==> tier == short.take(16)
        }),
{
    let limit = tiers::relocation_reach(patches);
    lemma_short(patches, limit);
    let short = tiers::up_to_size(patches, limit);
    assert(short.take(short.len() as int) =~= short);
}

proof fn lemma_short(patches: Seq<TableMeta>, limit: int)
    ensures
        tiers::up_to_size(patches, limit) == patches.filter(
            |patch: TableMeta| patch.file_len <= limit,
        ),
    decreases patches.len(),
{
    reveal(Seq::filter);
    if patches.len() > 0 {
        lemma_short(patches.drop_last(), limit);
    }
}

/// A relocation partition without patches is left alone. Its patches go into the base once they
/// reach sixty-four MiB and a quarter of the base; below that they are merged among themselves once
/// there are eight of them or they reach sixty-four MiB.
pub proof fn law_relocation_pressure(patches: Seq<TableMeta>, base: Seq<TableMeta>)
    ensures
        ({
            let shape = tiers::relocation_shape(patches, base);
            let bytes = tables::total_bytes(patches) as int;
            let quarter = tables::total_bytes(base) as int / 4;
            let mib_64: int = 67_108_864;
            &&& patches.len() == 0 ==> shape is None
            &&& patches.len() > 0 && bytes >= mib_64 && bytes >= quarter ==> shape == Some(
                RelocationCompactionShape::Full,
            )
            &&& patches.len() > 0 && bytes >= mib_64 && bytes < quarter ==> shape == Some(
                RelocationCompactionShape::Partial,
            )
            &&& patches.len() >= 8 && bytes < mib_64 ==> shape == Some(
                RelocationCompactionShape::Partial,
            )
            &&& patches.len() < 8 && bytes < mib_64 ==> shape is None
        }),
{
}

/// Passes are counted by their shape.
pub proof fn law_passes_are_counted_by_shape()
    ensures
        RelocationCompactionShape::Partial.spec_metric_label() == "partial"@,
        RelocationCompactionShape::Full.spec_metric_label() == "full"@,
{
}

/// A blob partition's patches go into its base once they reach a tenth of it and the floor.
pub proof fn law_a_full_pass_waits_for_a_tenth(base: Seq<TableMeta>, floor: u64, bytes: int)
    ensures
        bytes >= tiers::full_threshold(base, floor) <==> bytes >= floor && bytes
            >= tables::total_bytes(base) as int / 10,
{
}

// Blob tiers.

/// Neither table is more than four times as long as the other; an empty one counts as one byte.
pub open spec fn alike(a: TableMeta, b: TableMeta) -> bool {
    weight(a.file_len) <= 4 * weight(b.file_len) && weight(b.file_len) <= 4 * weight(a.file_len)
}

/// Every two tables are alike.
pub open spec fn all_alike(tables: Seq<TableMeta>) -> bool {
    forall|i: int, j: int|
        0 <= i < tables.len() && 0 <= j < tables.len() ==> alike(
            #[trigger] tables[i],
            #[trigger] tables[j],
        )
}

proof fn lemma_alike(ordered: Seq<TableMeta>, to: int)
    requires
        0 <= to <= ordered.len(),
    ensures
        tiers::comparable(ordered, 0, to) <==> all_alike(ordered.take(to)),
{
    let part = ordered.take(to);
    if tiers::comparable(ordered, 0, to) {
        assert forall|i: int, j: int| 0 <= i < part.len() && 0 <= j < part.len() implies alike(
            #[trigger] part[i],
            #[trigger] part[j],
        ) by {
            assert(part[i] == ordered[i] && part[j] == ordered[j]);
            assert(tiers::size_of(ordered[i]) <= tiers::tier_reach(tiers::size_of(ordered[j])));
            assert(tiers::size_of(ordered[j]) <= tiers::tier_reach(tiers::size_of(ordered[i])));
        }
    }
    if all_alike(part) {
        assert forall|i: int, j: int| 0 <= i < to && 0 <= j < to implies tiers::size_of(
            #[trigger] ordered[i],
        ) <= tiers::tier_reach(tiers::size_of(#[trigger] ordered[j])) by {
            assert(alike(part[i], part[j]));
        }
    }
}

/// The oldest patches, as many as are all alike, are the tier where they are enough of them; one
/// merge reads at most sixteen. Where they are too few, they are passed over, and the tier is sought
/// among the patches behind them.
pub proof fn law_the_oldest_alike_patches_are_merged(
    ordered: Seq<TableMeta>,
    run: int,
    fanout: int,
)
    requires
        0 < run <= ordered.len(),
        2 <= fanout <= 16,
        all_alike(ordered.take(run)),
        run < ordered.len() ==> !all_alike(ordered.take(run + 1)),
    ensures
        run < fanout ==> tiers::first_run(ordered, 0, fanout) == tiers::first_run(
            ordered.skip(run),
            0,
            fanout,
        ),
        fanout <= run <= 16 ==> tiers::first_run(ordered, 0, fanout) == ordered.take(run),
        run > 16 ==> tiers::first_run(ordered, 0, fanout) == ordered.take(16),
{
    assert(tiers::comparable(ordered, 0, 1));
    tiers::lemma_run_end(ordered, 0, 1);
    let end = tiers::run_end(ordered, 0, 1);
    lemma_alike(ordered, end);
    lemma_alike(ordered, run);
    if run < ordered.len() {
        lemma_alike(ordered, run + 1);
    }
    if end < run {
        lemma_alike(ordered, end + 1);
        assert(tiers::comparable(ordered, 0, end + 1));
    }
    if end > run {
        assert(tiers::comparable(ordered, 0, run + 1));
    }
    assert(end == run);
    if run < fanout {
        lemma_run_behind(ordered, run, run, fanout);
    }
}

proof fn lemma_run_behind(ordered: Seq<TableMeta>, cut: int, start: int, fanout: int)
    requires
        0 <= cut <= start <= ordered.len(),
        2 <= fanout,
    ensures
        tiers::first_run(ordered, start, fanout) == tiers::first_run(
            ordered.skip(cut),
            start - cut,
            fanout,
        ),
    decreases ordered.len() - start,
{
    let rest = ordered.skip(cut);
    if start < ordered.len() {
        lemma_end_behind(ordered, cut, start, start + 1);
        let end = tiers::run_end(ordered, start, start + 1);
        assert(tiers::comparable(ordered, start, start + 1));
        tiers::lemma_run_end(ordered, start, start + 1);
        if end - start < fanout {
            lemma_run_behind(ordered, cut, end, fanout);
        } else {
            let to = num::at_most(end, start + 16);
            assert(ordered.subrange(start, to) =~= rest.subrange(start - cut, to - cut));
        }
    }
}

proof fn lemma_end_behind(ordered: Seq<TableMeta>, cut: int, start: int, upto: int)
    requires
        0 <= cut <= start < upto <= ordered.len(),
    ensures
        tiers::run_end(ordered.skip(cut), start - cut, upto - cut) == tiers::run_end(
            ordered,
            start,
            upto,
        ) - cut,
    decreases ordered.len() - upto,
{
    let rest = ordered.skip(cut);
    if upto < ordered.len() {
        assert(tiers::comparable(rest, start - cut, upto - cut + 1) == tiers::comparable(
            ordered,
            start,
            upto + 1,
        )) by {
            if tiers::comparable(rest, start - cut, upto - cut + 1) {
                assert forall|i: int, j: int|
                    start <= i < upto + 1 && start <= j < upto + 1 implies tiers::size_of(
                    #[trigger] ordered[i],
                ) <= tiers::tier_reach(tiers::size_of(#[trigger] ordered[j])) by {
                    assert(rest[i - cut] == ordered[i] && rest[j - cut] == ordered[j]);
                }
            }
            if tiers::comparable(ordered, start, upto + 1) {
                assert forall|i: int, j: int|
                    start - cut <= i < upto - cut + 1 && start - cut <= j < upto - cut
                        + 1 implies tiers::size_of(#[trigger] rest[i]) <= tiers::tier_reach(
                    tiers::size_of(#[trigger] rest[j]),
                ) by {
                    assert(rest[i] == ordered[i + cut] && rest[j] == ordered[j + cut]);
                }
            }
        }
        if tiers::comparable(ordered, start, upto + 1) {
            lemma_end_behind(ordered, cut, start, upto + 1);
        }
    }
}

/// A blob tier is sought among all patches in LSN order, for runs of four; from thirty-two patches
/// on, for pairs. Without patches there is none.
pub proof fn law_crowded_partitions_merge_pairs(patches: Seq<TableMeta>)
    ensures
        tiers::blob_tier(Seq::empty()).len() == 0,
        tiers::first_run(Seq::empty(), 0, 2).len() == 0,
        tiers::first_run(Seq::empty(), 0, 4).len() == 0,
        patches.len() < 32 ==> tiers::blob_tier(patches) == tiers::first_run(
            tiers::in_lsn_order(patches),
            0,
            4,
        ),
        patches.len() >= 32 ==> tiers::blob_tier(patches) == tiers::first_run(
            tiers::in_lsn_order(patches),
            0,
            2,
        ),
{
}

} // verus!
