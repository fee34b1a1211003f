//! Choosing what to compact: full passes, size tiers and sweeps.

use vstd::prelude::*;

use super::tables;
use super::tables::{table_bytes, TableMeta};
use crate::num;
use crate::num::{max_u64, saturating_mul_u64};

verus! {

/// Patch count at which a relocation partition is under pressure.
pub const LSM_COMPACTION_PATCH_COUNT: usize = 8;

/// Patch bytes at which a relocation partition is under pressure.
pub const LSM_COMPACTION_PATCH_BYTES: u64 = 67_108_864;

/// A blob partition's patches go into the base once they reach this fraction of it.
pub const LSM_FULL_COMPACTION_BASE_DIVISOR: u64 = 10;

/// Patches of one tier differ in size by at most this factor.
pub const LSM_PATCH_TIER_SIZE_RATIO: u64 = 4;

/// Patches that make a tier worth merging.
pub const LSM_PATCH_TIER_FANOUT: usize = 4;

/// Most patches that one tier merge reads.
pub const LSM_PATCH_TIER_MAX_INPUTS: usize = 16;

/// Patch count at which any adjacent pair is worth merging.
pub const LSM_PATCH_TIER_MAX_PATCHES: usize = 32;

/// A relocation partition's patches go into the base once they reach this fraction of it.
pub const RELOCATION_FULL_COMPACTION_BASE_DIVISOR: u64 = 4;

/// A relocation patch joins a tier when it is at most this many times the smallest.
pub const RELOCATION_PATCH_TIER_SIZE_RATIO: u64 = 4;

/// Most relocation patches that one tier merge reads.
pub const RELOCATION_PATCH_TIER_MAX_INPUTS: usize = 16;

/// How one blob-LSM compaction pass rewrites a partition.
#[derive(Clone, Debug, PartialEq, Eq)]
pub enum BlobCompactionShape {
    /// Merge one run of consecutive, comparably sized patches into one patch; the base is not read.
    Tier(Vec<TableMeta>),
    /// Fold the oldest durable patch's overlap component into fresh base tables.
    Full,
    /// Re-read one cold base by itself to apply the global transitions it has not seen.
    Sweep(TableMeta),
}

/// How one relocation-LSM compaction pass rewrites a partition.
#[derive(Clone, Copy, Debug, PartialEq, Eq, Structural)]
pub enum RelocationCompactionShape {
    /// Merge one size tier of patches among themselves; base tables are neither read nor
    /// rewritten, and no entry is retired.
    Partial,
    /// Fold the oldest patch's overlap component into fresh base tables and retire entries whose
    /// destination segment is gone.
    Full,
}

impl RelocationCompactionShape {
    pub open spec fn spec_metric_label(self) -> Seq<char> {
        match self {
            RelocationCompactionShape::Partial => "partial"@,
            RelocationCompactionShape::Full => "full"@,
        }
    }

    /// The label that passes of this shape are counted under.
    pub fn metric_label(self) -> (label: &'static str)
        ensures
            label@ == self.spec_metric_label(),
    {
        match self {
            RelocationCompactionShape::Partial => "partial",
            RelocationCompactionShape::Full => "full",
        }
    }
}

// Order of patches.

/// `None` comes before every LSN.
pub open spec fn lsn_rank(lsn: Option<u64>) -> int {
    match lsn {
        None => -1,
        Some(value) => value as int,
    }
}

/// Patches are ordered by first LSN, then last LSN, then identifier.
pub open spec fn before(a: TableMeta, b: TableMeta) -> bool {
    ||| lsn_rank(a.min_lsn) < lsn_rank(b.min_lsn)
    ||| a.min_lsn == b.min_lsn && lsn_rank(a.max_lsn) < lsn_rank(b.max_lsn)
    ||| a.min_lsn == b.min_lsn && a.max_lsn == b.max_lsn && a.id < b.id
}

fn rank_before(a: Option<u64>, b: Option<u64>) -> (result: bool)
    ensures
        result == (lsn_rank(a) < lsn_rank(b)),
{
    match (a, b) {
        (_, None) => false,
        (None, Some(_)) => true,
        (Some(x), Some(y)) => x < y,
    }
}

fn is_before(a: &TableMeta, b: &TableMeta) -> (result: bool)
    ensures
        result == before(*a, *b),
{
    if rank_before(a.min_lsn, b.min_lsn) {
        return true;
    }
    if rank_before(b.min_lsn, a.min_lsn) {
        return false;
    }
    if rank_before(a.max_lsn, b.max_lsn) {
        return true;
    }
    if rank_before(b.max_lsn, a.max_lsn) {
        return false;
    }
    a.id < b.id
}

/// The number of leading patches that do not come after `patch`.
pub open spec fn place_of(ordered: Seq<TableMeta>, patch: TableMeta) -> nat
    decreases ordered.len(),
{
    if ordered.len() == 0 || before(patch, ordered[0]) {
        0
    } else {
        1 + place_of(ordered.skip(1), patch)
    }
}

/// The patches in order, each behind those that do not come after it.
pub open spec fn in_lsn_order(patches: Seq<TableMeta>) -> Seq<TableMeta>
    decreases patches.len(),
{
    if patches.len() == 0 {
        Seq::empty()
    } else {
        let earlier = in_lsn_order(patches.drop_last());
        earlier.insert(place_of(earlier, patches.last()) as int, patches.last())
    }
}

pub open spec fn is_ordered(patches: Seq<TableMeta>) -> bool {
    forall|i: int, j: int|
        0 <= i < j < patches.len() ==> !before(#[trigger] patches[j], #[trigger] patches[i])
}

proof fn lemma_place_of(ordered: Seq<TableMeta>, patch: TableMeta)
    ensures
        place_of(ordered, patch) <= ordered.len(),
        forall|i: int| 0 <= i < place_of(ordered, patch) ==> !before(patch, #[trigger] ordered[i]),
        place_of(ordered, patch) < ordered.len() ==> before(
            patch,
            ordered[place_of(ordered, patch) as int],
        ),
    decreases ordered.len(),
{
    if ordered.len() > 0 && !before(patch, ordered[0]) {
        let rest = ordered.skip(1);
        lemma_place_of(rest, patch);
        assert forall|i: int| 0 <= i < place_of(ordered, patch) implies !before(
            patch,
            #[trigger] ordered[i],
        ) by {
            if i > 0 {
                assert(rest[i - 1] == ordered[i]);
            }
        }
    }
}

/// Ordering patches sorts them and neither loses nor invents one.
pub proof fn law_lsn_order_is_a_sort(patches: Seq<TableMeta>)
    ensures
        is_ordered(in_lsn_order(patches)),
        in_lsn_order(patches).to_multiset() =~= patches.to_multiset(),
        in_lsn_order(patches).len() == patches.len(),
    decreases patches.len(),
{
    broadcast use vstd::seq_lib::group_to_multiset_ensures;

    if patches.len() > 0 {
        let init = patches.drop_last();
        let last = patches.last();
        law_lsn_order_is_a_sort(init);
        let earlier = in_lsn_order(init);
        lemma_place_of(earlier, last);
        let at = place_of(earlier, last) as int;
        let all = earlier.insert(at, last);
        assert forall|i: int, j: int| 0 <= i < j < all.len() implies !before(
            #[trigger] all[j],
            #[trigger] all[i],
        ) by {
            let i0 = if i < at { i } else { i - 1 };
            let j0 = if j < at { j } else { j - 1 };
            if i != at && j != at {
                assert(!before(earlier[j0], earlier[i0]));
            } else if i == at {
                assert(before(last, earlier[at]));
                if at < j0 {
                    assert(!before(earlier[j0], earlier[at]));
                }
            } else {
                assert(!before(last, earlier[i0]));
            }
        }
        assert(all.to_multiset() =~= earlier.to_multiset().insert(last));
        assert(patches =~= init.push(last));
        assert(patches.to_multiset() =~= init.to_multiset().insert(last));
    } else {
        assert(in_lsn_order(patches) =~= patches);
    }
}

fn sorted_by_lsn(patches: &Vec<TableMeta>) -> (ordered: Vec<TableMeta>)
    ensures
        ordered@ == in_lsn_order(patches@),
{
    let mut ordered: Vec<TableMeta> = Vec::new();
    let mut i: usize = 0;
    while i < patches.len()
        invariant
            i <= patches@.len(),
            ordered@ == in_lsn_order(patches@.take(i as int)),
        decreases patches@.len() - i,
    {
        let patch: TableMeta = patches[i];
        let mut at: usize = 0;
        assert(ordered@.skip(0) =~= ordered@);
        while at < ordered.len() && !is_before(&patch, &ordered[at])
            invariant
                at <= ordered@.len(),
                place_of(ordered@, patch) == at + place_of(ordered@.skip(at as int), patch),
            decreases ordered@.len() - at,
        {
            assert(ordered@.skip(at as int).skip(1) =~= ordered@.skip(at + 1));
            at = at + 1;
        }
        ordered.insert(at, patch);
        assert(patches@.take(i + 1).drop_last() =~= patches@.take(i as int));
        i = i + 1;
    }
    assert(patches@.take(i as int) =~= patches@);
    ordered
}

// Blob tiers.

/// A patch's size for comparison: an empty one counts as one byte.
pub open spec fn size_of(table: TableMeta) -> int {
    num::at_least(table.file_len as int, 1)
}

/// `size` times the ratio within a tier, cut off at what 64 bits can hold.
pub open spec fn tier_reach(size: int) -> int {
    num::at_most(size * LSM_PATCH_TIER_SIZE_RATIO, u64::MAX as int)
}

/// No patch of `from..to` is more than the tier's ratio larger than another.
pub open spec fn comparable(ordered: Seq<TableMeta>, from: int, to: int) -> bool {
    forall|i: int, j: int|
        from <= i < to && from <= j < to ==> size_of(#[trigger] ordered[i]) <= tier_reach(
            size_of(#[trigger] ordered[j]),
        )
}

/// Where the run of comparable patches from `start` ends, given that it reaches `upto`.
pub open spec fn run_end(ordered: Seq<TableMeta>, start: int, upto: int) -> int
    decreases ordered.len() - upto,
{
    if upto >= ordered.len() || !comparable(ordered, start, upto + 1) {
        upto
    } else {
        run_end(ordered, start, upto + 1)
    }
}

/// The first run from `start` on that has at least `fanout` patches, or as many of it as one merge
/// reads. Runs are maximal and do not overlap.
pub open spec fn first_run(ordered: Seq<TableMeta>, start: int, fanout: int) -> Seq<TableMeta>
    decreases ordered.len() - start,
{
    if start < 0 || start >= ordered.len() {
        Seq::empty()
    } else {
        let end = run_end(ordered, start, start + 1);
        if end - start >= fanout {
            ordered.subrange(start, num::at_most(end, start + LSM_PATCH_TIER_MAX_INPUTS))
        } else if end <= start || end > ordered.len() {
            Seq::empty()
        } else {
            first_run(ordered, end, fanout)
        }
    }
}

/// How many patches make a tier worth merging: few where the partition is crowded.
pub open spec fn fanout_for(count: int) -> int {
    if count >= LSM_PATCH_TIER_MAX_PATCHES {
        2
    } else {
        LSM_PATCH_TIER_FANOUT as int
    }
}

/// The tier of a blob partition: the oldest run of consecutive, comparable patches.
pub open spec fn blob_tier(patches: Seq<TableMeta>) -> Seq<TableMeta> {
    first_run(in_lsn_order(patches), 0, fanout_for(patches.len() as int))
}

pub proof fn lemma_run_end(ordered: Seq<TableMeta>, start: int, upto: int)
    requires
        0 <= start < upto <= ordered.len(),
        comparable(ordered, start, upto),
    ensures
        upto <= run_end(ordered, start, upto) <= ordered.len(),
        comparable(ordered, start, run_end(ordered, start, upto)),
        run_end(ordered, start, upto) < ordered.len() ==> !comparable(
            ordered,
            start,
            run_end(ordered, start, upto) + 1,
        ),
    decreases ordered.len() - upto,
{
    if upto < ordered.len() && comparable(ordered, start, upto + 1) {
        lemma_run_end(ordered, start, upto + 1);
    }
}

/// Picks the oldest run of consecutive patches, in LSN order, whose sizes lie within a constant
/// factor of each other.
///
/// The blob merge folds one key's operands in LSN order, and a lifetime change between two merged
/// puts must not be skipped over; so only LSN-adjacent patches are merged. Size tiers bound the
/// cost: each byte is rewritten once per tier level. Once a partition holds too many patches, any
/// adjacent pair qualifies, so the count stays bounded.
pub fn select_blob_patch_tier(patches: &Vec<TableMeta>) -> (tier: Vec<TableMeta>)
    ensures
        tier@ == blob_tier(patches@),
{
    let ordered: Vec<TableMeta> = sorted_by_lsn(patches);
    proof {
        law_lsn_order_is_a_sort(patches@);
    }
    let fanout: usize = if ordered.len() >= LSM_PATCH_TIER_MAX_PATCHES {
        2
    } else {
        LSM_PATCH_TIER_FANOUT
    };
    let mut start: usize = 0;
    while start < ordered.len()
        invariant
            start <= ordered@.len(),
            2 <= fanout <= 4,
            blob_tier(patches@) == first_run(ordered@, start as int, fanout as int),
        decreases ordered@.len() - start,
    {
        let mut smallest: u64 = max_u64(ordered[start].file_len, 1);
        let mut largest: u64 = smallest;
        let mut end: usize = start + 1;
        assert(comparable(ordered@, start as int, end as int));
        while end < ordered.len()
            invariant_except_break
                start < end <= ordered@.len(),
                spans(ordered@, start as int, end as int, smallest, largest),
                comparable(ordered@, start as int, end as int),
                run_end(ordered@, start as int, start + 1) == run_end(
                    ordered@,
                    start as int,
                    end as int,
                ),
            ensures
                start < end <= ordered@.len(),
                run_end(ordered@, start as int, start + 1) == end,
            decreases ordered@.len() - end,
        {
            let len: u64 = max_u64(ordered[end].file_len, 1);
            let low: u64 = if len < smallest {
                len
            } else {
                smallest
            };
            let high: u64 = max_u64(largest, len);
            proof {
                lemma_span_step(ordered@, start as int, end as int, smallest, largest, low, high);
            }
            if high > saturating_mul_u64(low, LSM_PATCH_TIER_SIZE_RATIO) {
                break;
            }
            smallest = low;
            largest = high;
            end = end + 1;
        }
        if end - start >= fanout {
            let stop: usize = if end - start > LSM_PATCH_TIER_MAX_INPUTS {
                start + LSM_PATCH_TIER_MAX_INPUTS
            } else {
                end
            };
            return copy_range(&ordered, start, stop);
        }
        start = end;
    }
    Vec::new()
}

/// `smallest` and `largest` are sizes that occur in `from..to`, and bound all of them.
spec fn spans(ordered: Seq<TableMeta>, from: int, to: int, smallest: u64, largest: u64) -> bool {
    &&& exists|i: int| from <= i < to && size_of(#[trigger] ordered[i]) == smallest
    &&& exists|i: int| from <= i < to && size_of(#[trigger] ordered[i]) == largest
    &&& forall|i: int| from <= i < to ==> smallest <= size_of(#[trigger] ordered[i]) <= largest
}

proof fn lemma_span_step(
    ordered: Seq<TableMeta>,
    from: int,
    to: int,
    smallest: u64,
    largest: u64,
    low: u64,
    high: u64,
)
    requires
        0 <= from < to < ordered.len(),
        spans(ordered, from, to, smallest, largest),
        low == num::at_most(smallest as int, size_of(ordered[to])),
        high == num::at_least(largest as int, size_of(ordered[to])),
    ensures
        spans(ordered, from, to + 1, low, high),
        comparable(ordered, from, to + 1) <==> high <= tier_reach(low as int),
{
    let a = choose|i: int| from <= i < to && size_of(#[trigger] ordered[i]) == smallest;
    let b = choose|i: int| from <= i < to && size_of(#[trigger] ordered[i]) == largest;
    let lowest = if low == smallest { a } else { to };
    let highest = if high == largest { b } else { to };
    assert(size_of(ordered[lowest]) == low);
    assert(size_of(ordered[highest]) == high);
    assert forall|i: int| from <= i < to + 1 implies low <= size_of(#[trigger] ordered[i])
        <= high by {
        if i < to {
            assert(smallest <= size_of(ordered[i]) <= largest);
        }
    }
    if comparable(ordered, from, to + 1) {
        assert(size_of(ordered[highest]) <= tier_reach(size_of(ordered[lowest])));
    }
    if high <= tier_reach(low as int) {
        assert forall|i: int, j: int| from <= i < to + 1 && from <= j < to + 1 implies size_of(
            #[trigger] ordered[i],
        ) <= tier_reach(size_of(#[trigger] ordered[j])) by {
            assert(low <= size_of(ordered[j]));
            assert(size_of(ordered[i]) <= high);
        }
    }
}

fn copy_range(tables: &Vec<TableMeta>, from: usize, to: usize) -> (part: Vec<TableMeta>)
    requires
        from <= to <= tables@.len(),
    ensures
        part@ == tables@.subrange(from as int, to as int),
{
    let mut part: Vec<TableMeta> = Vec::new();
    let mut i: usize = from;
    while i < to
        invariant
            from <= i <= to <= tables@.len(),
            part@ == tables@.subrange(from as int, i as int),
        decreases to - i,
    {
        part.push(tables[i]);
        assert(part@ =~= tables@.subrange(from as int, i + 1));
        i = i + 1;
    }
    part
}

/// The size at which a blob partition's patches go into its base.
pub open spec fn full_threshold(base: Seq<TableMeta>, patch_bytes_floor: u64) -> int {
    num::at_least(
        patch_bytes_floor as int,
        tables::total_bytes(base) as int / LSM_FULL_COMPACTION_BASE_DIVISOR as int,
    )
}

/// Decides from pressure alone whether a blob partition needs a pass, and which shape.
///
/// The patches go into the base once they reach a fraction of the base, with `patch_bytes_floor`
/// as the minimum while the base is small: base bytes written per ingested byte then stay near the
/// divisor instead of growing with the base. Below that, a run of comparable consecutive patches is
/// merged among itself when one exists.
pub fn blob_compaction_shape(
    patches: &Vec<TableMeta>,
    base: &Vec<TableMeta>,
    patch_bytes_floor: u64,
) -> (shape: Option<BlobCompactionShape>)
    ensures
        match shape {
            None => patches@.len() == 0 || (tables::total_bytes(patches@) < full_threshold(
                base@,
                patch_bytes_floor,
            ) && blob_tier(patches@).len() == 0),
            Some(BlobCompactionShape::Full) => patches@.len() > 0 && tables::total_bytes(patches@)
                >= full_threshold(base@, patch_bytes_floor),
            Some(BlobCompactionShape::Tier(tier)) => patches@.len() > 0 && tables::total_bytes(
                patches@,
            ) < full_threshold(base@, patch_bytes_floor) && tier@.len() > 0 && tier@ == blob_tier(
                patches@,
            ),
            Some(BlobCompactionShape::Sweep(_)) => false,
        },
{
    if patches.len() == 0 {
        return None;
    }
    let threshold: u64 = max_u64(
        patch_bytes_floor,
        table_bytes(base) / LSM_FULL_COMPACTION_BASE_DIVISOR,
    );
    if table_bytes(patches) >= threshold {
        return Some(BlobCompactionShape::Full);
    }
    let tier: Vec<TableMeta> = select_blob_patch_tier(patches);
    if tier.len() == 0 {
        None
    } else {
        Some(BlobCompactionShape::Tier(tier))
    }
}

// Relocation tiers.

/// The size at which a relocation partition's patches go into its base.
pub open spec fn relocation_full_threshold(base: Seq<TableMeta>) -> int {
    num::at_least(
        LSM_COMPACTION_PATCH_BYTES as int,
        tables::total_bytes(base) as int / RELOCATION_FULL_COMPACTION_BASE_DIVISOR as int,
    )
}

/// What pressure asks of a relocation partition.
pub open spec fn relocation_shape(patches: Seq<TableMeta>, base: Seq<TableMeta>) -> Option<
    RelocationCompactionShape,
> {
    if patches.len() == 0 {
        None
    } else if tables::total_bytes(patches) >= relocation_full_threshold(base) {
        Some(RelocationCompactionShape::Full)
    } else if patches.len() >= LSM_COMPACTION_PATCH_COUNT || tables::total_bytes(patches)
        >= LSM_COMPACTION_PATCH_BYTES {
        Some(RelocationCompactionShape::Partial)
    } else {
        None
    }
}

/// Decides whether a relocation partition needs a pass, and which shape.
///
/// Byte pressure relative to the base selects the full pass. Otherwise patch-count or patch-byte
/// pressure selects a tier merge, which [`select_relocation_patch_tier`] may still decline.
pub fn relocation_compaction_shape(patches: &Vec<TableMeta>, base: &Vec<TableMeta>) -> (shape:
    Option<RelocationCompactionShape>)
    ensures
        shape == relocation_shape(patches@, base@),
{
    if patches.len() == 0 {
        return None;
    }
    let patch_bytes: u64 = table_bytes(patches);
    let threshold: u64 = max_u64(
        LSM_COMPACTION_PATCH_BYTES,
        table_bytes(base) / RELOCATION_FULL_COMPACTION_BASE_DIVISOR,
    );
    if patch_bytes >= threshold {
        return Some(RelocationCompactionShape::Full);
    }
    if patches.len() >= LSM_COMPACTION_PATCH_COUNT || patch_bytes >= LSM_COMPACTION_PATCH_BYTES {
        return Some(RelocationCompactionShape::Partial);
    }
    None
}

/// The length of the smallest table; `u64::MAX` where there is none.
pub open spec fn smallest_len(patches: Seq<TableMeta>) -> u64
    decreases patches.len(),
{
    if patches.len() == 0 {
        u64::MAX
    } else {
        let earlier = smallest_len(patches.drop_last());
        if patches.last().file_len < earlier {
            patches.last().file_len
        } else {
            earlier
        }
    }
}

/// The longest that a patch of the smallest one's tier can be.
pub open spec fn relocation_reach(patches: Seq<TableMeta>) -> int {
    num::at_most(
        num::at_least(smallest_len(patches) as int, 1) * RELOCATION_PATCH_TIER_SIZE_RATIO,
        u64::MAX as int,
    )
}

/// The tables no longer than `limit`, in order.
pub open spec fn up_to_size(patches: Seq<TableMeta>, limit: int) -> Seq<TableMeta>
    decreases patches.len(),
{
    if patches.len() == 0 {
        Seq::empty()
    } else {
        let earlier = up_to_size(patches.drop_last(), limit);
        if patches.last().file_len <= limit {
            earlier.push(patches.last())
        } else {
            earlier
        }
    }
}

/// The tier of a relocation partition: the smallest patch and every patch within a constant factor
/// of it, in manifest order, as many as one merge reads. A single patch is no tier.
pub open spec fn relocation_tier(patches: Seq<TableMeta>) -> Seq<TableMeta> {
    let fitting = up_to_size(patches, relocation_reach(patches));
    let read = fitting.take(
        num::at_most(fitting.len() as int, RELOCATION_PATCH_TIER_MAX_INPUTS as int),
    );
    if read.len() < 2 {
        Seq::empty()
    } else {
        read
    }
}

/// Picks the size tier of relocation patches to merge.
///
/// Nothing is picked when fewer than two patches are comparable: merging a small patch into a much
/// larger one is exactly the rewrite that the tier avoids.
pub fn select_relocation_patch_tier(patches: &Vec<TableMeta>) -> (tier: Vec<TableMeta>)
    ensures
        tier@ == relocation_tier(patches@),
{
    let mut smallest: u64 = u64::MAX;
    let mut i: usize = 0;
    while i < patches.len()
        invariant
            i <= patches@.len(),
            smallest == smallest_len(patches@.take(i as int)),
        decreases patches@.len() - i,
    {
        assert(patches@.take(i + 1).drop_last() =~= patches@.take(i as int));
        if patches[i].file_len < smallest {
            smallest = patches[i].file_len;
        }
        i = i + 1;
    }
    assert(patches@.take(i as int) =~= patches@);
    let limit: u64 = saturating_mul_u64(max_u64(smallest, 1), RELOCATION_PATCH_TIER_SIZE_RATIO);
    let mut tier: Vec<TableMeta> = Vec::new();
    let mut j: usize = 0;
    while j < patches.len()
        invariant
            j <= patches@.len(),
            tier@ == up_to_size(patches@.take(j as int), limit as int),
        decreases patches@.len() - j,
    {
        assert(patches@.take(j + 1).drop_last() =~= patches@.take(j as int));
        if patches[j].file_len <= limit {
            tier.push(patches[j]);
        }
        j = j + 1;
    }
    assert(patches@.take(j as int) =~= patches@);
    assert(tier@.take(tier@.len() as int) =~= tier@);
    tier.truncate(RELOCATION_PATCH_TIER_MAX_INPUTS);
    if tier.len() < 2 {
        tier.clear();
    }
    tier
}

// Laws.

proof fn lemma_first_run(ordered: Seq<TableMeta>, start: int, fanout: int)
    requires
        0 <= start <= ordered.len(),
        2 <= fanout <= LSM_PATCH_TIER_MAX_INPUTS,
        first_run(ordered, start, fanout).len() > 0,
    ensures
        exists|from: int, to: int|
            #![trigger ordered.subrange(from, to)]
            start <= from < to <= ordered.len() && first_run(ordered, start, fanout)
                == ordered.subrange(from, to) && comparable(ordered, from, to) && fanout <= to - from
                <= LSM_PATCH_TIER_MAX_INPUTS,
    decreases ordered.len() - start,
{
    if start < ordered.len() {
        assert(comparable(ordered, start, start + 1));
        lemma_run_end(ordered, start, start + 1);
        let end = run_end(ordered, start, start + 1);
        if end - start >= fanout {
            let to = num::at_most(end, start + LSM_PATCH_TIER_MAX_INPUTS);
            assert(comparable(ordered, start, to));
            assert(first_run(ordered, start, fanout) == ordered.subrange(start, to));
        } else {
            lemma_first_run(ordered, end, fanout);
        }
    }
}

/// A blob tier is a stretch of consecutive patches in LSN order, with none left out in the middle.
/// Its sizes lie within the tier's ratio of each other, and it has at least as many patches as make
/// a merge worthwhile and at most as many as one merge reads.
pub proof fn law_blob_tier_is_a_comparable_stretch(patches: Seq<TableMeta>)
    requires
        blob_tier(patches).len() > 0,
    ensures
        ({
            let ordered = in_lsn_order(patches);
            exists|from: int, to: int|
                #![trigger ordered.subrange(from, to)]
                0 <= from < to <= ordered.len() && blob_tier(patches) == ordered.subrange(from, to)
                    && comparable(ordered, from, to) && fanout_for(patches.len() as int) <= to - from
                    <= LSM_PATCH_TIER_MAX_INPUTS
        }),
{
    lemma_first_run(in_lsn_order(patches), 0, fanout_for(patches.len() as int));
}

/// Every unselected patch is entirely on one side of the tier: in LSN order it comes before all of
/// the tier's patches or after all of them.
pub proof fn law_blob_tier_splits_the_rest(patches: Seq<TableMeta>, from: int, to: int, other: int)
    requires
        0 <= from < to <= patches.len(),
        blob_tier(patches) == in_lsn_order(patches).subrange(from, to),
        0 <= other < patches.len(),
        other < from || to <= other,
    ensures
        ({
            let ordered = in_lsn_order(patches);
            ||| forall|i: int| from <= i < to ==> !before(#[trigger] ordered[i], ordered[other])
            ||| forall|i: int| from <= i < to ==> !before(ordered[other], #[trigger] ordered[i])
        }),
{
    law_lsn_order_is_a_sort(patches);
}

/// A crowded partition in which two neighbours are comparable always has a tier, so the number of
/// patches stays bounded.
pub proof fn law_crowded_partition_makes_progress(patches: Seq<TableMeta>, at: int)
    requires
        patches.len() >= LSM_PATCH_TIER_MAX_PATCHES,
        0 <= at < patches.len() - 1,
        comparable(in_lsn_order(patches), at, at + 2),
    ensures
        blob_tier(patches).len() >= 2,
{
    law_lsn_order_is_a_sort(patches);
    lemma_pair_is_found(in_lsn_order(patches), 0, at);
}

proof fn lemma_pair_is_found(ordered: Seq<TableMeta>, start: int, at: int)
    requires
        0 <= start <= at < ordered.len() - 1,
        comparable(ordered, at, at + 2),
    ensures
        first_run(ordered, start, 2).len() >= 2,
    decreases ordered.len() - start,
{
    assert(comparable(ordered, start, start + 1));
    lemma_run_end(ordered, start, start + 1);
    let end = run_end(ordered, start, start + 1);
    if end - start < 2 {
        if start == at {
            assert(comparable(ordered, start, start + 2));
        }
        lemma_pair_is_found(ordered, end, at);
    }
}

proof fn lemma_up_to_size(patches: Seq<TableMeta>, limit: int)
    ensures
        forall|i: int|
            0 <= i < up_to_size(patches, limit).len() ==> (#[trigger] up_to_size(
                patches,
                limit,
            )[i]).file_len <= limit && patches.contains(up_to_size(patches, limit)[i]),
    decreases patches.len(),
{
    if patches.len() > 0 {
        lemma_up_to_size(patches.drop_last(), limit);
        let earlier = up_to_size(patches.drop_last(), limit);
        let all = up_to_size(patches, limit);
        assert forall|i: int| 0 <= i < all.len() implies (#[trigger] all[i]).file_len <= limit
            && patches.contains(all[i]) by {
            if i < earlier.len() {
                assert(all[i] == earlier[i]);
                let j = choose|j: int|
                    0 <= j < patches.drop_last().len() && patches.drop_last()[j] == earlier[i];
                assert(patches[j] == all[i]);
            } else {
                assert(patches[patches.len() - 1] == all[i]);
            }
        }
    }
}

/// A relocation tier holds two to sixteen of the partition's patches, none longer than four times
/// the smallest patch of the partition.
pub proof fn law_relocation_tier_is_comparable(patches: Seq<TableMeta>, at: int)
    requires
        0 <= at < relocation_tier(patches).len(),
    ensures
        2 <= relocation_tier(patches).len() <= RELOCATION_PATCH_TIER_MAX_INPUTS,
        patches.contains(relocation_tier(patches)[at]),
        relocation_tier(patches)[at].file_len <= relocation_reach(patches),
{
    let limit = relocation_reach(patches);
    lemma_up_to_size(patches, limit);
    let fitting = up_to_size(patches, limit);
    assert(relocation_tier(patches)[at] == fitting[at]);
}

/// A full pass of a blob partition rewrites at most so many base bytes per patch byte as the
/// divisor says, and up to one less than it for rounding.
pub proof fn law_full_pass_is_amortized(
    patches: Seq<TableMeta>,
    base: Seq<TableMeta>,
    patch_bytes_floor: u64,
)
    requires
        tables::total_bytes(patches) >= full_threshold(base, patch_bytes_floor),
    ensures
        tables::total_bytes(base) <= LSM_FULL_COMPACTION_BASE_DIVISOR * tables::total_bytes(patches)
            + LSM_FULL_COMPACTION_BASE_DIVISOR - 1,
{
}

/// Patches that stand at the same place in the LSN order are the same.
pub open spec fn told_apart(patches: Seq<TableMeta>) -> bool {
    forall|i: int, j: int|
        0 <= i < patches.len() && 0 <= j < patches.len() && !before(
            #[trigger] patches[i],
            #[trigger] patches[j],
        ) && !before(patches[j], patches[i]) ==> patches[i] == patches[j]
}

proof fn lemma_one_order(a: Seq<TableMeta>, b: Seq<TableMeta>)
    requires
        is_ordered(a),
        is_ordered(b),
        a.to_multiset() == b.to_multiset(),
        told_apart(a),
    ensures
        a == b,
    decreases a.len(),
{
    broadcast use vstd::seq_lib::group_to_multiset_ensures;

    assert(a.len() == b.len()) by {
        assert(a.to_multiset().len() == a.len());
        assert(b.to_multiset().len() == b.len());
    }
    if a.len() > 0 {
        let x = a[0];
        let y = b[0];
        assert(a.contains(x) && b.contains(y));
        assert(a.to_multiset().count(x) > 0 && b.to_multiset().count(y) > 0);
        assert(b.contains(x) && a.contains(y));
        let i = choose|i: int| 0 <= i < a.len() && a[i] == y;
        let j = choose|j: int| 0 <= j < b.len() && b[j] == x;
        assert(!before(a[i], a[0]) || i == 0);
        assert(!before(b[j], b[0]) || j == 0);
        assert(a[0] == a[i]);
        let c = a.skip(1);
        let d = b.skip(1);
        assert forall|k: int, l: int| 0 <= k < l < c.len() implies !before(
            #[trigger] c[l],
            #[trigger] c[k],
        ) by {
            assert(!before(a[l + 1], a[k + 1]));
        }
        assert forall|k: int, l: int| 0 <= k < l < d.len() implies !before(
            #[trigger] d[l],
            #[trigger] d[k],
        ) by {
            assert(!before(b[l + 1], b[k + 1]));
        }
        assert forall|k: int, l: int|
            0 <= k < c.len() && 0 <= l < c.len() && !before(#[trigger] c[k], #[trigger] c[l])
                && !before(c[l], c[k]) implies c[k] == c[l] by {
            assert(a[k + 1] == c[k] && a[l + 1] == c[l]);
        }
        assert(c =~= a.remove(0));
        assert(d =~= b.remove(0));
        assert(c.to_multiset() =~= a.to_multiset().remove(x));
        assert(d.to_multiset() =~= b.to_multiset().remove(y));
        lemma_one_order(c, d);
        assert(a =~= seq![x] + c);
        assert(b =~= seq![y] + d);
    } else {
        assert(a =~= b);
    }
}

/// The tier of the blob patches does not depend on the order in which they are listed, where no two
/// patches share their LSNs and identifier.
pub proof fn law_listing_order_does_not_matter(patches: Seq<TableMeta>, listed: Seq<TableMeta>)
    requires
        patches.to_multiset() == listed.to_multiset(),
        told_apart(patches),
    ensures
        blob_tier(patches) == blob_tier(listed),
{
    broadcast use vstd::seq_lib::group_to_multiset_ensures;

    law_lsn_order_is_a_sort(patches);
    law_lsn_order_is_a_sort(listed);
    let a = in_lsn_order(patches);
    let b = in_lsn_order(listed);
    assert forall|i: int, j: int|
        0 <= i < a.len() && 0 <= j < a.len() && !before(#[trigger] a[i], #[trigger] a[j])
            && !before(a[j], a[i]) implies a[i] == a[j] by {
        assert(a.contains(a[i]) && a.contains(a[j]));
        assert(a.to_multiset().count(a[i]) > 0 && a.to_multiset().count(a[j]) > 0);
        assert(patches.contains(a[i]) && patches.contains(a[j]));
        let k = choose|k: int| 0 <= k < patches.len() && patches[k] == a[i];
        let l = choose|l: int| 0 <= l < patches.len() && patches[l] == a[j];
        assert(!before(patches[k], patches[l]) && !before(patches[l], patches[k]));
    }
    lemma_one_order(a, b);
    assert(patches.len() == listed.len());
}

} // verus!
