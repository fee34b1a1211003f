//! One blob-LSM compaction pass: what it reads, how far it may apply global transitions, and what
//! it leaves behind.

use std::collections::BTreeMap;

use vstd::prelude::*;

use super::tables;
use super::tables::{sweep_bound, table_bytes, tier_bound, TableMeta};
use super::tiers;
use super::tiers::{blob_compaction_shape, BlobCompactionShape};
use crate::num;
use crate::types::{Epoch, StrataLsn};

verus! {

/// Cold base tables one partition re-reads each time a newer epoch transition becomes applicable
/// without reading patches.
pub const LSM_SWEEP_TABLES_PER_EPOCH: usize = 1;

// Selecting inputs.

/// Every patch says which LSNs it holds.
pub open spec fn validated(patches: Seq<TableMeta>) -> bool {
    forall|i: int|
        0 <= i < patches.len() ==> (#[trigger] patches[i]).min_lsn is Some
            && patches[i].max_lsn is Some
}

/// The tables that hold no row newer than `lsn`.
pub open spec fn up_to(tables: Seq<TableMeta>, lsn: StrataLsn) -> Seq<TableMeta>
    decreases tables.len(),
{
    if tables.len() == 0 {
        Seq::empty()
    } else {
        let earlier = up_to(tables.drop_last(), lsn);
        if tables.last().max_lsn matches Some(newest) && newest > lsn {
            earlier
        } else {
            earlier.push(tables.last())
        }
    }
}

/// How far a compaction may look: the published LSN, or just below the first patch that reaches
/// beyond it.
pub open spec fn compact_through(patches: Seq<TableMeta>, published: StrataLsn) -> StrataLsn {
    tables::below_unread(published, tables::newer_than(patches, published))
}

/// The patches that a compaction may read.
pub open spec fn durable_patches(patches: Seq<TableMeta>, published: StrataLsn) -> Seq<TableMeta> {
    up_to(patches, compact_through(patches, published))
}

/// Transitions at or below `frontier`.
pub open spec fn applicable(changes: Seq<(StrataLsn, Epoch)>, frontier: StrataLsn) -> Seq<
    (StrataLsn, Epoch),
>
    decreases changes.len(),
{
    if changes.len() == 0 {
        Seq::empty()
    } else {
        let earlier = applicable(changes.drop_last(), frontier);
        if changes.last().0 <= frontier {
            earlier.push(changes.last())
        } else {
            earlier
        }
    }
}

/// LSN of the last listed transition at or below `bound`; 0 where there is none.
pub open spec fn last_transition(changes: Seq<(StrataLsn, Epoch)>, bound: StrataLsn) -> StrataLsn
    decreases changes.len(),
{
    if changes.len() == 0 {
        0
    } else if changes.last().0 <= bound {
        changes.last().0
    } else {
        last_transition(changes.drop_last(), bound)
    }
}

/// The first patch that none of the others precedes in its oldest row.
pub open spec fn oldest_patch(patches: Seq<TableMeta>) -> TableMeta
    recommends
        patches.len() > 0,
    decreases patches.len(),
{
    if patches.len() <= 1 {
        patches[0]
    } else {
        let earlier = oldest_patch(patches.drop_last());
        if tiers::lsn_rank(patches.last().min_lsn) < tiers::lsn_rank(earlier.min_lsn) {
            patches.last()
        } else {
            earlier
        }
    }
}

fn patches_after(patches: &Vec<TableMeta>, lsn: StrataLsn) -> (newer: Vec<TableMeta>)
    ensures
        newer@ == tables::newer_than(patches@, lsn),
{
    let mut newer: Vec<TableMeta> = Vec::new();
    let mut i: usize = 0;
    while i < patches.len()
        invariant
            i <= patches@.len(),
            newer@ == tables::newer_than(patches@.take(i as int), lsn),
        decreases patches@.len() - i,
    {
        assert(patches@.take(i + 1).drop_last() =~= patches@.take(i as int));
        let patch: TableMeta = patches[i];
        if let Some(newest) = patch.max_lsn {
            if newest > lsn {
                newer.push(patch);
            }
        }
        i = i + 1;
    }
    assert(patches@.take(i as int) =~= patches@);
    newer
}

fn patches_up_to(patches: &Vec<TableMeta>, lsn: StrataLsn) -> (kept: Vec<TableMeta>)
    ensures
        kept@ == up_to(patches@, lsn),
{
    let mut kept: Vec<TableMeta> = Vec::new();
    let mut i: usize = 0;
    while i < patches.len()
        invariant
            i <= patches@.len(),
            kept@ == up_to(patches@.take(i as int), lsn),
        decreases patches@.len() - i,
    {
        assert(patches@.take(i + 1).drop_last() =~= patches@.take(i as int));
        let patch: TableMeta = patches[i];
        let newer: bool = match patch.max_lsn {
            Some(newest) => newest > lsn,
            None => false,
        };
        if !newer {
            kept.push(patch);
        }
        i = i + 1;
    }
    assert(patches@.take(i as int) =~= patches@);
    kept
}

fn changes_up_to(changes: &Vec<(StrataLsn, Epoch)>, frontier: StrataLsn) -> (kept: Vec<
    (StrataLsn, Epoch),
>)
    ensures
        kept@ == applicable(changes@, frontier),
{
    let mut kept: Vec<(u64, u64)> = Vec::new();
    let mut i: usize = 0;
    while i < changes.len()
        invariant
            i <= changes@.len(),
            kept@ == applicable(changes@.take(i as int), frontier),
        decreases changes@.len() - i,
    {
        assert(changes@.take(i + 1).drop_last() =~= changes@.take(i as int));
        let change: (u64, u64) = changes[i];
        if change.0 <= frontier {
            kept.push(change);
        }
        i = i + 1;
    }
    assert(changes@.take(i as int) =~= changes@);
    kept
}

fn transition_at(changes: &Vec<(StrataLsn, Epoch)>, bound: StrataLsn) -> (lsn: StrataLsn)
    ensures
        lsn == last_transition(changes@, bound),
{
    let mut i: usize = changes.len();
    assert(changes@.take(i as int) =~= changes@);
    while i > 0
        invariant
            i <= changes@.len(),
            last_transition(changes@, bound) == last_transition(changes@.take(i as int), bound),
        decreases i,
    {
        assert(changes@.take(i as int).drop_last() =~= changes@.take(i - 1));
        let change: (u64, u64) = changes[i - 1];
        if change.0 <= bound {
            return change.0;
        }
        i = i - 1;
    }
    0
}

fn first_patch(patches: &Vec<TableMeta>) -> (oldest: TableMeta)
    requires
        patches@.len() > 0,
        validated(patches@),
    ensures
        oldest == oldest_patch(patches@),
{
    let mut oldest: TableMeta = patches[0];
    let mut i: usize = 1;
    assert(patches@.take(1)[0] == patches@[0]);
    while i < patches.len()
        invariant
            1 <= i <= patches@.len(),
            validated(patches@),
            oldest.min_lsn is Some,
            oldest == oldest_patch(patches@.take(i as int)),
        decreases patches@.len() - i,
    {
        assert(patches@.take(i + 1).drop_last() =~= patches@.take(i as int));
        let patch: TableMeta = patches[i];
        if let (Some(a), Some(b)) = (patch.min_lsn, oldest.min_lsn) {
            if a < b {
                oldest = patch;
            }
        }
        i = i + 1;
    }
    assert(patches@.take(i as int) =~= patches@);
    oldest
}

// Sweep credits.

/// LSN through which transitions were applied to a base table.
pub open spec fn applied_through(table: TableMeta) -> StrataLsn {
    match table.merge_applied_through_lsn {
        Some(lsn) => lsn,
        None => 0,
    }
}

/// The first of the base tables that have gone longest without a re-read, among those that have
/// not seen the transition at `target`.
pub open spec fn stalest(base: Seq<TableMeta>, target: StrataLsn) -> Option<TableMeta>
    decreases base.len(),
{
    if base.len() == 0 {
        None
    } else {
        let earlier = stalest(base.drop_last(), target);
        let last = base.last();
        if applied_through(last) >= target {
            earlier
        } else {
            match earlier {
                Some(table) => if applied_through(last) < applied_through(table) {
                    Some(last)
                } else {
                    earlier
                },
                None => Some(last),
            }
        }
    }
}

fn stalest_base(base: &Vec<TableMeta>, target: StrataLsn) -> (stale: Option<TableMeta>)
    ensures
        stale == stalest(base@, target),
{
    let mut stale: Option<TableMeta> = None;
    let mut i: usize = 0;
    while i < base.len()
        invariant
            i <= base@.len(),
            stale == stalest(base@.take(i as int), target),
        decreases base@.len() - i,
    {
        assert(base@.take(i + 1).drop_last() =~= base@.take(i as int));
        let table: TableMeta = base[i];
        let applied: u64 = table.merge_applied_through_lsn.unwrap_or(0);
        if applied < target {
            match stale {
                Some(other) => {
                    if applied < other.merge_applied_through_lsn.unwrap_or(0) {
                        stale = Some(table);
                    }
                },
                None => {
                    stale = Some(table);
                },
            }
        }
        i = i + 1;
    }
    assert(base@.take(i as int) =~= base@);
    stale
}

/// Per partition: the newest transition that cold-base re-reads were credited for, and how many
/// remain of that credit.
#[derive(Clone, Debug)]
pub struct SweepCredits {
    pub credits: BTreeMap<u32, (StrataLsn, usize)>,
}

/// A partition's credit.
pub open spec fn credit_of(credits: Map<u32, (StrataLsn, usize)>, partition: u32) -> (
    StrataLsn,
    usize,
) {
    if credits.dom().contains(partition) {
        credits[partition]
    } else {
        (0, 0)
    }
}

/// The credit once the transition at `target` has been taken into account.
pub open spec fn renewed(credit: (StrataLsn, usize), target: StrataLsn) -> (StrataLsn, usize) {
    if target > credit.0 {
        (target, LSM_SWEEP_TABLES_PER_EPOCH)
    } else {
        credit
    }
}

/// The table that a credit is spent on.
pub open spec fn swept_table(
    credits: Map<u32, (StrataLsn, usize)>,
    partition: u32,
    target: StrataLsn,
    base: Seq<TableMeta>,
) -> Option<TableMeta> {
    if target == 0 || renewed(credit_of(credits, partition), target).1 == 0 {
        None
    } else {
        stalest(base, target)
    }
}

/// The credits after a sweep was asked for.
pub open spec fn credits_after(
    credits: Map<u32, (StrataLsn, usize)>,
    partition: u32,
    target: StrataLsn,
    base: Seq<TableMeta>,
) -> Map<u32, (StrataLsn, usize)> {
    let credit = renewed(credit_of(credits, partition), target);
    if target == 0 {
        credits
    } else if swept_table(credits, partition, target, base) is Some {
        credits.insert(partition, (credit.0, (credit.1 - 1) as usize))
    } else {
        credits.insert(partition, credit)
    }
}

impl View for SweepCredits {
    type V = Map<u32, (StrataLsn, usize)>;

    open spec fn view(&self) -> Map<u32, (StrataLsn, usize)> {
        self.credits@
    }
}

impl SweepCredits {
    pub fn new() -> (credits: SweepCredits)
        ensures
            credits@ == Map::<u32, (StrataLsn, usize)>::empty(),
    {
        SweepCredits { credits: BTreeMap::new() }
    }

    /// Grants one round of cold-base re-reads per partition each time a newer epoch transition
    /// becomes applicable without reading patches, and spends one on the base that has gone
    /// longest without a re-read. Bases already stamped at or past the transition need nothing.
    pub fn take_sweep_credit(
        &mut self,
        partition: u32,
        target: StrataLsn,
        base: &Vec<TableMeta>,
    ) -> (table: Option<TableMeta>)
        ensures
            table == swept_table(old(self)@, partition, target, base@),
            final(self)@ == credits_after(old(self)@, partition, target, base@),
    {
        if target == 0 {
            return None;
        }
        let mut credit: (u64, usize) = match self.credits.get(&partition) {
            Some(credit) => *credit,
            None => (0, 0),
        };
        if target > credit.0 {
            credit = (target, LSM_SWEEP_TABLES_PER_EPOCH);
        }
        if credit.1 == 0 {
            self.credits.insert(partition, credit);
            return None;
        }
        let stale: Option<TableMeta> = stalest_base(base, target);
        if stale.is_some() {
            credit = (credit.0, credit.1 - 1);
        }
        self.credits.insert(partition, credit);
        stale
    }
}

// The plan of a pass.

/// What a pass does to its partition.
#[derive(Clone, Copy, Debug, PartialEq, Eq, Structural)]
pub enum MainCompactionKind {
    /// Merges patches into one patch.
    Minor,
    /// Folds patches into the base.
    Full,
    /// Re-reads one base table.
    Sweep,
}

/// What a compaction of one partition starts from.
#[derive(Clone, Debug)]
pub struct PartitionView {
    /// Every live patch of the partition.
    pub patches: Vec<TableMeta>,
    pub base: Vec<TableMeta>,
    /// LSN through which every keyed mutation is in a table.
    pub materialized_through: Option<StrataLsn>,
    /// LSN through which every operation survives a crash.
    pub published_lsn: StrataLsn,
    /// Epoch transitions, oldest first.
    pub epoch_changes: Vec<(StrataLsn, Epoch)>,
    /// LSN from which compaction reports garbage.
    pub emit_garbage_from_lsn: Option<StrataLsn>,
}

impl PartitionView {
    pub open spec fn wf(&self) -> bool {
        validated(self.patches@)
    }

    pub open spec fn compact_through(&self) -> StrataLsn {
        compact_through(self.patches@, self.published_lsn)
    }

    /// The patches that a pass may read.
    pub open spec fn durable(&self) -> Seq<TableMeta> {
        durable_patches(self.patches@, self.published_lsn)
    }

    /// How far global transitions may be applied at all.
    pub open spec fn frontier(&self) -> StrataLsn {
        num::at_most(
            match self.materialized_through {
                Some(lsn) => lsn as int,
                None => 0,
            },
            self.compact_through() as int,
        ) as u64
    }

    pub open spec fn transitions(&self) -> Seq<(StrataLsn, Epoch)> {
        applicable(self.epoch_changes@, self.frontier())
    }

    /// Just below the oldest live patch, within the frontier.
    pub open spec fn sweep_bound(&self) -> StrataLsn {
        tables::below_unread(self.frontier(), self.patches@)
    }

    /// The newest transition that applies to the base without reading a patch.
    pub open spec fn sweep_target(&self) -> StrataLsn {
        last_transition(self.transitions(), self.sweep_bound())
    }

    /// What the pass does.
    pub open spec fn shape(
        &self,
        credits: Map<u32, (StrataLsn, usize)>,
        partition: u32,
        floor: u64,
        force: bool,
    ) -> PassShape {
        let patches = self.durable();
        let patch_bytes = tables::total_bytes(patches);
        let base_bytes = tables::total_bytes(self.base@);
        if patches.len() > 0 && patch_bytes >= tiers::full_threshold(self.base@, floor) {
            PassShape::Full(oldest_patch(patches))
        } else if tiers::blob_tier(patches).len() > 0 {
            PassShape::Tier(tiers::blob_tier(patches))
        } else if !force {
            PassShape::Nothing
        } else if patches.len() > 0 && num::at_most(base_bytes + patch_bytes, u64::MAX as int)
            < floor {
            PassShape::Full(oldest_patch(patches))
        } else {
            match swept_table(credits, partition, self.sweep_target(), self.base@) {
                Some(table) => PassShape::Sweep(table),
                None => PassShape::Nothing,
            }
        }
    }

    /// Whether pressure leaves nothing to do but to ask for a sweep.
    pub open spec fn asks_for_sweep(&self, floor: u64, force: bool) -> bool {
        let patches = self.durable();
        let patch_bytes = tables::total_bytes(patches);
        let base_bytes = tables::total_bytes(self.base@);
        &&& force
        &&& !(patches.len() > 0 && patch_bytes >= tiers::full_threshold(self.base@, floor))
        &&& tiers::blob_tier(patches).len() == 0
        &&& !(patches.len() > 0 && num::at_most(base_bytes + patch_bytes, u64::MAX as int) < floor)
    }

    /// How far the pass applies global transitions.
    pub open spec fn bound_of(&self, shape: PassShape) -> StrataLsn {
        match shape {
            PassShape::Nothing => 0,
            PassShape::Tier(tier) => tables::below_unread(
                self.frontier(),
                tables::newer_than(self.patches@, tables::newest_row(tier)),
            ),
            PassShape::Full(_) => self.frontier(),
            PassShape::Sweep(_) => self.sweep_bound(),
        }
    }
}

/// What a pass reads.
#[verifier::ext_equal]
pub enum PassShape {
    Nothing,
    /// One run of patches.
    Tier(Seq<TableMeta>),
    /// A patch and everything that overlaps it.
    Full(TableMeta),
    /// One base table.
    Sweep(TableMeta),
}

/// One compaction pass over one partition.
#[derive(Clone, Debug)]
pub struct CompactionPlan {
    pub shape: BlobCompactionShape,
    /// The patch that a full pass grows from: the oldest, so that write frontiers advance in LSN
    /// order.
    pub seed: Option<TableMeta>,
    pub kind: MainCompactionKind,
    /// The patches that the pass may read.
    pub patches: Vec<TableMeta>,
    /// LSN through which the pass applies global transitions.
    pub bound: StrataLsn,
    pub compact_through_lsn: StrataLsn,
    pub epoch_changes: Vec<(StrataLsn, Epoch)>,
    pub emit_garbage_from_lsn: StrataLsn,
}

impl CompactionPlan {
    /// What the pass reads.
    pub open spec fn spec_shape(&self) -> PassShape {
        match self.shape {
            BlobCompactionShape::Tier(tier) => PassShape::Tier(tier@),
            BlobCompactionShape::Full => match self.seed {
                Some(seed) => PassShape::Full(seed),
                None => PassShape::Nothing,
            },
            BlobCompactionShape::Sweep(table) => PassShape::Sweep(table),
        }
    }

    /// The plan is the one that `view` asks for.
    pub open spec fn follows(&self, view: PartitionView, shape: PassShape) -> bool {
        &&& self.spec_shape() == shape
        &&& self.seed is Some <==> shape is Full
        &&& self.kind == (match shape {
            PassShape::Tier(_) => MainCompactionKind::Minor,
            PassShape::Sweep(_) => MainCompactionKind::Sweep,
            _ => MainCompactionKind::Full,
        })
        &&& self.patches@ == view.durable()
        &&& self.bound == view.bound_of(shape)
        &&& self.compact_through_lsn == view.compact_through()
        &&& self.epoch_changes@ == view.transitions()
        &&& view.emit_garbage_from_lsn == Some(self.emit_garbage_from_lsn)
    }

    /// The LSN that the pass is recorded under: a sweep vouches only for its bound.
    pub fn recorded_lsn(&self) -> (lsn: StrataLsn)
        ensures
            lsn == (if self.kind == MainCompactionKind::Sweep {
                self.bound
            } else {
                self.compact_through_lsn
            }),
    {
        if self.kind == MainCompactionKind::Sweep {
            self.bound
        } else {
            self.compact_through_lsn
        }
    }
}

/// Why no pass could be planned.
#[derive(Clone, Copy, Debug, PartialEq, Eq, Structural)]
pub enum CompactionError {
    /// The index does not say from where compaction reports garbage.
    MissingGarbageCutover,
}

/// Plans one compaction pass over one partition.
///
/// Only the patches that lie fully below the published LSN are read. Pressure decides first: a full
/// pass once the patches are a fraction of the base, else a tier of comparable patches. The
/// periodic tick (`force`) adds what pressure never asks for: a partition smaller than
/// `patch_bytes_floor` is folded whole, and a cold base is re-read by itself once per newly
/// applicable epoch transition.
///
/// Every pass applies global transitions only up to the LSN below which every operand of its keys
/// is either in the pass or older than it.
pub fn plan_partition_compaction(
    credits: &mut SweepCredits,
    partition: u32,
    view: &PartitionView,
    patch_bytes_floor: u64,
    force: bool,
) -> (plan: Result<Option<CompactionPlan>, CompactionError>)
    requires
        view.wf(),
    ensures
        final(credits)@ == (if view.asks_for_sweep(patch_bytes_floor, force) {
            credits_after(old(credits)@, partition, view.sweep_target(), view.base@)
        } else {
            old(credits)@
        }),
        ({
            let shape = view.shape(old(credits)@, partition, patch_bytes_floor, force);
            match plan {
                Ok(None) => shape is Nothing,
                Ok(Some(plan)) => shape !is Nothing && plan.follows(*view, shape),
                Err(CompactionError::MissingGarbageCutover) => shape !is Nothing
                    && view.emit_garbage_from_lsn is None,
            }
        }),
{
    let newer: Vec<TableMeta> = patches_after(&view.patches, view.published_lsn);
    let compact_through_lsn: u64 = sweep_bound(view.published_lsn, &newer);
    let patches: Vec<TableMeta> = patches_up_to(&view.patches, compact_through_lsn);
    let frontier: u64 = num::min_u64(view.materialized_through.unwrap_or(0), compact_through_lsn);
    let epoch_changes: Vec<(u64, u64)> = changes_up_to(&view.epoch_changes, frontier);
    let patch_bytes: u64 = table_bytes(&patches);
    let base_bytes: u64 = table_bytes(&view.base);
    proof {
        lemma_up_to_validated(view.patches@, compact_through_lsn);
        assert(patches@ == view.durable());
        assert(frontier == view.frontier());
        assert(tiers::blob_tier(Seq::<TableMeta>::empty()).len() == 0);
        if patches@.len() == 0 {
            assert(patches@ =~= Seq::<TableMeta>::empty());
        }
    }
    let shape: BlobCompactionShape = match blob_compaction_shape(
        &patches,
        &view.base,
        patch_bytes_floor,
    ) {
        Some(shape) => shape,
        None => {
            if !force {
                return Ok(None);
            }
            if patches.len() > 0 && base_bytes.saturating_add(patch_bytes) < patch_bytes_floor {
                BlobCompactionShape::Full
            } else {
                let bound: u64 = sweep_bound(frontier, &view.patches);
                let target: u64 = transition_at(&epoch_changes, bound);
                match credits.take_sweep_credit(partition, target, &view.base) {
                    Some(table) => BlobCompactionShape::Sweep(table),
                    None => return Ok(None),
                }
            }
        },
    };
    let emit_garbage_from_lsn: u64 = match view.emit_garbage_from_lsn {
        Some(lsn) => lsn,
        None => return Err(CompactionError::MissingGarbageCutover),
    };
    let seed: Option<TableMeta>;
    let kind: MainCompactionKind;
    let bound: u64;
    match &shape {
        BlobCompactionShape::Tier(tier) => {
            seed = None;
            kind = MainCompactionKind::Minor;
            bound = tier_bound(frontier, tier, &view.patches);
        },
        BlobCompactionShape::Full => {
            seed = Some(first_patch(&patches));
            kind = MainCompactionKind::Full;
            bound = frontier;
        },
        BlobCompactionShape::Sweep(_) => {
            seed = None;
            kind = MainCompactionKind::Sweep;
            bound = sweep_bound(frontier, &view.patches);
        },
    }
    Ok(
        Some(
            CompactionPlan {
                shape,
                seed,
                kind,
                patches,
                bound,
                compact_through_lsn,
                epoch_changes,
                emit_garbage_from_lsn,
            },
        ),
    )
}

proof fn lemma_up_to_validated(patches: Seq<TableMeta>, lsn: StrataLsn)
    requires
        validated(patches),
    ensures
        validated(up_to(patches, lsn)),
    decreases patches.len(),
{
    if patches.len() > 0 {
        assert(validated(patches.drop_last())) by {
            assert forall|i: int| 0 <= i < patches.drop_last().len() implies (
            #[trigger] patches.drop_last()[i]).min_lsn is Some
                && patches.drop_last()[i].max_lsn is Some by {
                assert(patches.drop_last()[i] == patches[i]);
            }
        }
        lemma_up_to_validated(patches.drop_last(), lsn);
    }
}

// Laws.

proof fn lemma_up_to_member(tables: Seq<TableMeta>, lsn: StrataLsn, at: int)
    requires
        0 <= at < up_to(tables, lsn).len(),
    ensures
        tables.contains(up_to(tables, lsn)[at]),
        up_to(tables, lsn)[at].max_lsn matches Some(newest) ==> newest <= lsn,
    decreases tables.len(),
{
    if tables.len() > 0 {
        let init = tables.drop_last();
        if at < up_to(init, lsn).len() {
            lemma_up_to_member(init, lsn, at);
            let i = choose|i: int| 0 <= i < init.len() && init[i] == up_to(init, lsn)[at];
            assert(tables[i] == up_to(tables, lsn)[at]);
        } else {
            assert(tables[tables.len() - 1] == up_to(tables, lsn)[at]);
        }
    }
}

proof fn lemma_up_to_keeps(tables: Seq<TableMeta>, lsn: StrataLsn, at: int)
    requires
        0 <= at < tables.len(),
        tables[at].max_lsn matches Some(newest) && newest <= lsn,
    ensures
        up_to(tables, lsn).contains(tables[at]),
    decreases tables.len(),
{
    let init = tables.drop_last();
    let earlier = up_to(init, lsn);
    if at == tables.len() - 1 {
        assert(up_to(tables, lsn)[earlier.len() as int] == tables[at]);
    } else {
        lemma_up_to_keeps(init, lsn, at);
        let i = choose|i: int| 0 <= i < earlier.len() && earlier[i] == init[at];
        assert(up_to(tables, lsn)[i] == tables[at]);
    }
}

/// A pass looks no further than what is published, and every patch that it may read is a live
/// patch that lies within that reach.
pub proof fn law_passes_read_published_patches(
    live: Seq<TableMeta>,
    published: StrataLsn,
    at: int,
)
    requires
        0 <= at < durable_patches(live, published).len(),
    ensures
        compact_through(live, published) <= published,
        live.contains(durable_patches(live, published)[at]),
        durable_patches(live, published)[at].max_lsn matches Some(newest) ==> newest
            <= compact_through(live, published),
{
    lemma_up_to_member(live, compact_through(live, published), at);
}

/// Two patches hold rows of separate stretches of the log.
pub open spec fn apart(a: TableMeta, b: TableMeta) -> bool {
    match (a.min_lsn, a.max_lsn, b.min_lsn, b.max_lsn) {
        (Some(a0), Some(a1), Some(b0), Some(b1)) => a1 < b0 || b1 < a0,
        _ => false,
    }
}

/// Where patches hold separate stretches of the log, a pass reads a prefix of it: a live patch that
/// the pass does not read holds only rows beyond the pass's reach.
pub proof fn law_unread_patches_lie_beyond_the_reach(
    live: Seq<TableMeta>,
    published: StrataLsn,
    at: int,
)
    requires
        validated(live),
        forall|i: int, j: int|
            0 <= i < j < live.len() ==> apart(#[trigger] live[i], #[trigger] live[j]),
        forall|i: int|
            0 <= i < live.len() ==> 0 < (#[trigger] live[i]).min_lsn->Some_0
                <= live[i].max_lsn->Some_0,
        0 <= at < live.len(),
        !durable_patches(live, published).contains(live[at]),
    ensures
        live[at].min_lsn->Some_0 > compact_through(live, published),
{
    let reach = compact_through(live, published);
    let pending = tables::newer_than(live, published);
    assert(live[at].max_lsn is Some);
    if live[at].max_lsn->Some_0 <= reach {
        lemma_up_to_keeps(live, reach, at);
    }
    assert(live[at].max_lsn->Some_0 > reach);
    if live[at].max_lsn->Some_0 > published {
        tables::lemma_newer_than_member(live, published, at);
        let i = choose|i: int| 0 <= i < pending.len() && pending[i] == live[at];
        tables::law_sweep_stays_below_live_patches(published, pending, i);
    } else {
        tables::lemma_oldest_row(pending);
        let oldest = tables::oldest_row(pending)->Some_0;
        let i = choose|i: int|
            0 <= i < pending.len() && (#[trigger] pending[i]).min_lsn == Some(oldest);
        tables::lemma_newer_than_from(live, published, i);
        let j = choose|j: int| 0 <= j < live.len() && live[j] == pending[i];
        assert(live[j].max_lsn->Some_0 > published);
        assert(j != at);
        if j < at {
            assert(apart(live[j], live[at]));
        } else {
            assert(apart(live[at], live[j]));
        }
    }
}

/// A pass applies no transition beyond the frontier, and none that is not published; a sweep or a
/// tier merge stays below the first row of any newer patch that it leaves unread.
pub proof fn law_bounds_stay_within_the_frontier(view: PartitionView, shape: PassShape)
    ensures
        view.bound_of(shape) <= view.frontier() <= view.compact_through() <= view.published_lsn,
{
}

/// A full pass grows from a patch whose oldest row is the oldest of all.
pub proof fn law_full_passes_start_at_the_oldest_patch(patches: Seq<TableMeta>, at: int)
    requires
        0 <= at < patches.len(),
    ensures
        patches.contains(oldest_patch(patches)),
        tiers::lsn_rank(oldest_patch(patches).min_lsn) <= tiers::lsn_rank(patches[at].min_lsn),
    decreases patches.len(),
{
    if patches.len() == 1 {
        assert(patches[0] == oldest_patch(patches));
    } else {
        let init = patches.drop_last();
        let inner = if at < init.len() {
            at
        } else {
            0
        };
        law_full_passes_start_at_the_oldest_patch(init, inner);
        let i = choose|i: int| 0 <= i < init.len() && init[i] == oldest_patch(init);
        assert(patches[i] == oldest_patch(init));
        assert(patches[patches.len() - 1] == patches.last());
        if at < init.len() {
            assert(init[at] == patches[at]);
        }
    }
}

/// A partition sweeps at most one base table per transition: once a request was granted, a request
/// for the same or an older transition is declined.
pub proof fn law_one_sweep_per_transition(
    credits: Map<u32, (StrataLsn, usize)>,
    partition: u32,
    target: StrataLsn,
    base: Seq<TableMeta>,
    later_target: StrataLsn,
    later_base: Seq<TableMeta>,
)
    requires
        credit_of(credits, partition).1 <= LSM_SWEEP_TABLES_PER_EPOCH,
        swept_table(credits, partition, target, base) is Some,
        later_target <= renewed(credit_of(credits, partition), target).0,
    ensures
        swept_table(
            credits_after(credits, partition, target, base),
            partition,
            later_target,
            later_base,
        ) is None,
        credit_of(credits_after(credits, partition, target, base), partition).1
            <= LSM_SWEEP_TABLES_PER_EPOCH,
{
}

proof fn lemma_stalest(base: Seq<TableMeta>, target: StrataLsn)
    ensures
        match stalest(base, target) {
            None => forall|i: int|
                0 <= i < base.len() ==> applied_through(#[trigger] base[i]) >= target,
            Some(table) => base.contains(table) && applied_through(table) < target && forall|i: int|
                0 <= i < base.len() ==> applied_through(table) <= applied_through(
                    #[trigger] base[i],
                ),
        },
    decreases base.len(),
{
    if base.len() > 0 {
        let init = base.drop_last();
        lemma_stalest(init, target);
        assert(forall|i: int| 0 <= i < init.len() ==> init[i] == base[i]);
        match stalest(base, target) {
            None => {
                assert forall|i: int| 0 <= i < base.len() implies applied_through(
                    #[trigger] base[i],
                ) >= target by {
                    if i < init.len() {
                        assert(init[i] == base[i]);
                    }
                }
            },
            Some(table) => {
                if table == base.last() {
                    assert(base[base.len() - 1] == table);
                } else {
                    let i = choose|i: int| 0 <= i < init.len() && init[i] == table;
                    assert(base[i] == table);
                }
                assert forall|i: int| 0 <= i < base.len() implies applied_through(table)
                    <= applied_through(#[trigger] base[i]) by {
                    if i < init.len() {
                        assert(init[i] == base[i]);
                    }
                }
            },
        }
    }
}

/// A sweep re-reads a base table that has not seen the transition, and none is staler. Where every
/// base has seen the transition, nothing is swept.
pub proof fn law_sweeps_take_the_stalest_base(base: Seq<TableMeta>, target: StrataLsn, at: int)
    requires
        0 <= at < base.len(),
    ensures
        match stalest(base, target) {
            None => applied_through(base[at]) >= target,
            Some(table) => base.contains(table) && applied_through(table) < target
                && applied_through(table) <= applied_through(base[at]),
        },
{
    lemma_stalest(base, target);
}

} // verus!
