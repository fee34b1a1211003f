//! One GC publication as a whole: from revalidated copies to everything that the activating batch
//! writes.

use std::collections::BTreeMap;

use vstd::prelude::*;

use super::outputs;
use super::outputs::{
    attributed_output_bytes, gc_output_bytes_by_source, has_id, plan_gc_output_segments,
    published_output_bytes, source_segment_ids, GcError, GcPrepublishedOutputSegment,
    PlannedGcOutputSegments, SourceShare,
};
use super::publish;
use super::publish::{
    apply_gc_output_lsn_bounds, assign_gc_publish_fence, initial_gc_output_metadata,
    plan_gc_relocating_source_states, relocation_entries, relocation_garbage, GcKnownDelta,
    GcPreparedPublish, GcPublishedRecord, OutputBirth, RelocationEntry,
};
use super::reconcile;
use super::reconcile::{
    GcSkippedCopiedRecord, GcSkippedCopiedRecordKind, GcStagedCopiedRecord,
};
use crate::blob_lsm::garbage;
use crate::blob_lsm::garbage::GarbageRecord;
use crate::segments::{SegmentFileState, SegmentState};
use crate::sorting;
use crate::types::{SegmentId, StrataLsn};

verus! {

/// Everything that one activating batch writes.
#[derive(Debug)]
pub struct GcPublication {
    /// The promoted outputs.
    pub outputs: PlannedGcOutputSegments,
    /// Their rows, with the bounds of what was published into them.
    pub output_states: Vec<SegmentState>,
    pub births: Vec<OutputBirth>,
    /// Rows of the outputs that hold no survivor.
    pub deleted_states: Vec<SegmentState>,
    /// Rows that fence the sources.
    pub relocating_states: Vec<SegmentState>,
    /// What each source is charged for, once it is deleted.
    pub reclaim_rows: Vec<SourceShare>,
    pub published_records: Vec<GcPublishedRecord>,
    pub relocation_entries: Vec<RelocationEntry>,
    pub relocation_garbage: Vec<GarbageRecord>,
    pub skipped: Vec<GcSkippedCopiedRecord>,
    /// Garbage that the promoted outputs are born with.
    pub skipped_delta: GcKnownDelta,
    pub published_output_bytes: u64,
}

/// What committing a prepared publication amounts to.
#[derive(Debug)]
pub enum GcCommitPlan {
    /// Apply a metadata action.
    Metadata,
    /// Nothing survived: mark every output deleted.
    Discard { deleted_states: Vec<SegmentState>, skipped: Vec<GcSkippedCopiedRecord> },
    /// Activate the relocations.
    Publish(GcPublication),
}

/// Rows of the outputs that are not used, marked deleted.
pub open spec fn unused_rows(
    outputs: Seq<GcPrepublishedOutputSegment>,
    used: Set<SegmentId>,
) -> Seq<SegmentState>
    decreases outputs.len(),
{
    if outputs.len() == 0 {
        Seq::empty()
    } else {
        let earlier = unused_rows(outputs.drop_last(), used);
        if used.contains(outputs.last().staged_segment_id) {
            earlier
        } else {
            earlier.push(outputs.last().row(SegmentFileState::Deleted))
        }
    }
}

fn deleted_rows(outputs: &Vec<GcPrepublishedOutputSegment>, used: &Vec<SegmentId>) -> (rows: Vec<
    SegmentState,
>)
    ensures
        rows@ == unused_rows(outputs@, used@.to_set()),
{
    let mut rows: Vec<SegmentState> = Vec::new();
    let mut i: usize = 0;
    while i < outputs.len()
        invariant
            i <= outputs@.len(),
            rows@ == unused_rows(outputs@.take(i as int), used@.to_set()),
        decreases outputs@.len() - i,
    {
        assert(outputs@.take(i + 1).drop_last() =~= outputs@.take(i as int));
        if !has_id(used, outputs[i].staged_segment_id) {
            rows.push(outputs[i].deleted_state());
        }
        i = i + 1;
    }
    assert(outputs@.take(i as int) =~= outputs@);
    rows
}

fn copy_rows(rows: &Vec<SegmentState>) -> (copied: Vec<SegmentState>)
    ensures
        copied@ == rows@,
{
    let mut copied: Vec<SegmentState> = Vec::new();
    let mut i: usize = 0;
    while i < rows.len()
        invariant
            i <= rows@.len(),
            copied@ == rows@.take(i as int),
        decreases rows@.len() - i,
    {
        copied.push(rows[i].copy());
        i = i + 1;
        assert(copied@ =~= rows@.take(i as int));
    }
    assert(rows@.take(i as int) =~= rows@);
    copied
}

// Garbage at birth.

/// Bytes of the skipped records of one kind that lie in promoted outputs.
pub open spec fn promoted_garbage(
    skipped: Seq<GcSkippedCopiedRecord>,
    names: Map<SegmentId, SegmentId>,
    kind: GcSkippedCopiedRecordKind,
) -> nat
    decreases skipped.len(),
{
    if skipped.len() == 0 {
        0
    } else {
        let last = skipped.last();
        promoted_garbage(skipped.drop_last(), names, kind) + (if last.kind == kind
            && names.dom().contains(last.record.staged.segment_id) {
            last.record.staged.len as nat
        } else {
            0
        })
    }
}

/// What promoted outputs add to the store's known garbage.
pub open spec fn birth_delta(
    skipped: Seq<GcSkippedCopiedRecord>,
    names: Map<SegmentId, SegmentId>,
) -> GcKnownDelta {
    let retired = promoted_garbage(skipped, names, GcSkippedCopiedRecordKind::Retired);
    let expired = promoted_garbage(skipped, names, GcSkippedCopiedRecordKind::Expired);
    GcKnownDelta {
        total_bytes: (retired + expired) as i128,
        live_bytes: 0,
        retired_bytes: retired as i128,
        expired_bytes: expired as i128,
        live_ref_count: 0,
    }
}

proof fn lemma_garbage_grows(
    skipped: Seq<GcSkippedCopiedRecord>,
    names: Map<SegmentId, SegmentId>,
    kind: GcSkippedCopiedRecordKind,
    upto: int,
)
    requires
        0 <= upto <= skipped.len(),
    ensures
        promoted_garbage(skipped.take(upto), names, kind) <= promoted_garbage(
            skipped,
            names,
            kind,
        ),
    decreases skipped.len() - upto,
{
    if upto < skipped.len() {
        lemma_garbage_grows(skipped, names, kind, upto + 1);
        assert(skipped.take(upto + 1).drop_last() =~= skipped.take(upto));
    } else {
        assert(skipped.take(upto) =~= skipped);
    }
}

fn skipped_output_delta(
    skipped: &Vec<GcSkippedCopiedRecord>,
    names: &BTreeMap<SegmentId, SegmentId>,
) -> (delta: GcKnownDelta)
    requires
        promoted_garbage(skipped@, names@, GcSkippedCopiedRecordKind::Retired) + promoted_garbage(
            skipped@,
            names@,
            GcSkippedCopiedRecordKind::Expired,
        ) <= u64::MAX,
    ensures
        delta == birth_delta(skipped@, names@),
{
    let mut retired: u64 = 0;
    let mut expired: u64 = 0;
    let mut i: usize = 0;
    while i < skipped.len()
        invariant
            i <= skipped@.len(),
            retired == promoted_garbage(
                skipped@.take(i as int),
                names@,
                GcSkippedCopiedRecordKind::Retired,
            ),
            expired == promoted_garbage(
                skipped@.take(i as int),
                names@,
                GcSkippedCopiedRecordKind::Expired,
            ),
            promoted_garbage(skipped@, names@, GcSkippedCopiedRecordKind::Retired)
                + promoted_garbage(skipped@, names@, GcSkippedCopiedRecordKind::Expired)
                <= u64::MAX,
        decreases skipped@.len() - i,
    {
        assert(skipped@.take(i + 1).drop_last() =~= skipped@.take(i as int));
        proof {
            lemma_garbage_grows(skipped@, names@, GcSkippedCopiedRecordKind::Retired, i + 1);
            lemma_garbage_grows(skipped@, names@, GcSkippedCopiedRecordKind::Expired, i + 1);
        }
        let record: &GcSkippedCopiedRecord = &skipped[i];
        if names.contains_key(&record.record.staged.segment_id) {
            match record.kind {
                GcSkippedCopiedRecordKind::Retired => {
                    retired = retired + record.record.staged.len;
                },
                GcSkippedCopiedRecordKind::Expired => {
                    expired = expired + record.record.staged.len;
                },
            }
        }
        i = i + 1;
    }
    assert(skipped@.take(i as int) =~= skipped@);
    GcKnownDelta {
        total_bytes: retired as i128 + expired as i128,
        live_bytes: 0,
        retired_bytes: retired as i128,
        expired_bytes: expired as i128,
        live_ref_count: 0,
    }
}

// Sums.

proof fn lemma_shares_cover(
    survivors: Seq<GcStagedCopiedRecord>,
    skipped: Seq<GcSkippedCopiedRecord>,
    names: Map<SegmentId, SegmentId>,
    used: Set<SegmentId>,
)
    requires
        forall|id: SegmentId| #[trigger] names.dom().contains(id) <==> used.contains(id),
    ensures
        outputs::share_bytes(outputs::promoted_records(survivors, skipped, used))
            == reconcile::staged_bytes(survivors) + promoted_garbage(
            skipped,
            names,
            GcSkippedCopiedRecordKind::Retired,
        ) + promoted_garbage(skipped, names, GcSkippedCopiedRecordKind::Expired),
    decreases survivors.len() + skipped.len(),
{
    let shares = outputs::promoted_records(survivors, skipped, used);
    if skipped.len() > 0 {
        lemma_shares_cover(survivors, skipped.drop_last(), names, used);
        let earlier = outputs::promoted_records(survivors, skipped.drop_last(), used);
        if used.contains(skipped.last().record.staged.segment_id) {
            assert(shares.drop_last() =~= earlier);
        }
    } else if survivors.len() > 0 {
        lemma_shares_cover(survivors.drop_last(), skipped, names, used);
        assert(shares.drop_last() =~= outputs::promoted_records(
            survivors.drop_last(),
            skipped,
            used,
        ));
    }
}

proof fn lemma_live_within(
    survivors: Seq<GcStagedCopiedRecord>,
    published: Seq<GcPublishedRecord>,
    names: Map<SegmentId, SegmentId>,
    lsn: StrataLsn,
    segment_id: SegmentId,
)
    requires
        published.len() == survivors.len(),
        forall|k: int|
            0 <= k < survivors.len() ==> #[trigger] published[k] == publish::fenced(
                survivors[k],
                names,
                lsn,
            ),
    ensures
        publish::live_at_birth(published, segment_id) <= reconcile::staged_bytes(survivors),
    decreases survivors.len(),
{
    if survivors.len() > 0 {
        let init = survivors.drop_last();
        assert forall|k: int| 0 <= k < init.len() implies #[trigger] published.drop_last()[k]
            == publish::fenced(init[k], names, lsn) by {
            assert(published[k] == publish::fenced(survivors[k], names, lsn));
        }
        lemma_live_within(init, published.drop_last(), names, lsn, segment_id);
        assert(published[survivors.len() - 1] == publish::fenced(
            survivors[survivors.len() - 1],
            names,
            lsn,
        ));
    }
}

proof fn lemma_dead_within(
    skipped: Seq<GcSkippedCopiedRecord>,
    names: Map<SegmentId, SegmentId>,
    segment_id: SegmentId,
    kind: GcSkippedCopiedRecordKind,
)
    ensures
        publish::dead_at_birth(skipped, names, segment_id, kind) <= promoted_garbage(
            skipped,
            names,
            kind,
        ),
    decreases skipped.len(),
{
    if skipped.len() > 0 {
        lemma_dead_within(skipped.drop_last(), names, segment_id, kind);
    }
}

proof fn lemma_source_within(shares: Seq<SourceShare>, source: SegmentId)
    ensures
        outputs::bytes_of(shares, source) <= outputs::share_bytes(shares),
    decreases shares.len(),
{
    if shares.len() > 0 {
        lemma_source_within(shares.drop_last(), source);
    }
}

// The commit.

/// The bytes of the plan do not fit, or do not add up.
pub open spec fn bytes_fault(
    plan: PlannedGcOutputSegments,
    survivors: Seq<GcStagedCopiedRecord>,
    skipped: Seq<GcSkippedCopiedRecord>,
    error: GcError,
) -> bool {
    let published = outputs::sealed_bytes(plan.published_outputs@);
    let attributed = outputs::share_bytes(
        outputs::promoted_records(survivors, skipped, plan.used_staged_ids@.to_set()),
    );
    match error {
        GcError::RangeOverflow => published > u64::MAX || attributed > u64::MAX,
        GcError::ByteMismatch { published: p, attributed: a } => p == published && a == attributed
            && p != a,
        _ => false,
    }
}

/// Every staging file that holds a survivor was handed over.
pub open spec fn outputs_are_given(
    outputs: Seq<GcPrepublishedOutputSegment>,
    survivors: Seq<GcStagedCopiedRecord>,
) -> bool {
    forall|id: SegmentId| #[trigger]
        outputs::staged_ids(survivors).contains(id) ==> outputs::output_for(outputs, id) is Some
}

/// The least staging file that holds a survivor and was not handed over.
pub open spec fn first_missing_output(
    outputs: Seq<GcPrepublishedOutputSegment>,
    survivors: Seq<GcStagedCopiedRecord>,
    staged_segment_id: SegmentId,
) -> bool {
    &&& outputs::staged_ids(survivors).contains(staged_segment_id)
    &&& outputs::output_for(outputs, staged_segment_id) is None
    &&& forall|id: SegmentId| #[trigger]
        outputs::staged_ids(survivors).contains(id) && id < staged_segment_id
            ==> outputs::output_for(outputs, id) is Some
}

/// The outputs' bytes fit, and both totals are the same.
pub open spec fn bytes_add_up(
    plan: PlannedGcOutputSegments,
    survivors: Seq<GcStagedCopiedRecord>,
    skipped: Seq<GcSkippedCopiedRecord>,
) -> bool {
    let published = outputs::sealed_bytes(plan.published_outputs@);
    let attributed = outputs::share_bytes(
        outputs::promoted_records(survivors, skipped, plan.used_staged_ids@.to_set()),
    );
    published == attributed && published <= u64::MAX
}

/// What keeps the least source that cannot be fenced from it.
pub open spec fn first_fence_fault(
    survivors: Seq<GcStagedCopiedRecord>,
    source_rows: Seq<SegmentState>,
    error: GcError,
) -> bool {
    exists|id: SegmentId|
        outputs::source_ids(survivors).contains(id) && #[trigger] publish::fence_fault(
            source_rows,
            id,
        ) == Some(error) && forall|other: SegmentId| #[trigger]
            outputs::source_ids(survivors).contains(other) && other < id
                ==> publish::fence_fault(source_rows, other) is None
}

/// Why surviving copies cannot be published: a staging file is missing; else the bytes of the
/// outputs do not fit or do not add up; else a source cannot be fenced.
pub open spec fn publish_fault(
    prepared: GcPreparedPublish,
    source_rows: Seq<SegmentState>,
    error: GcError,
) -> bool {
    match error {
        GcError::MissingStagedOutput { staged_segment_id } => first_missing_output(
            prepared.outputs@,
            prepared.survivors@,
            staged_segment_id,
        ),
        GcError::RangeOverflow | GcError::ByteMismatch { .. } => {
            &&& outputs_are_given(prepared.outputs@, prepared.survivors@)
            &&& exists|plan: PlannedGcOutputSegments| #[trigger]
                plan.promotes(prepared.outputs@, prepared.survivors@) && bytes_fault(
                    plan,
                    prepared.survivors@,
                    prepared.skipped@,
                    error,
                )
        },
        _ => {
            &&& outputs_are_given(prepared.outputs@, prepared.survivors@)
            &&& exists|plan: PlannedGcOutputSegments| #[trigger]
                plan.promotes(prepared.outputs@, prepared.survivors@) && bytes_add_up(
                    plan,
                    prepared.survivors@,
                    prepared.skipped@,
                )
            &&& first_fence_fault(prepared.survivors@, source_rows, error)
        },
    }
}

impl GcPublication {
    /// The publication is what the prepared copies ask for.
    pub open spec fn publishes(
        &self,
        prepared: GcPreparedPublish,
        source_rows: Seq<SegmentState>,
        publish_lsn: StrataLsn,
    ) -> bool {
        let names = self.outputs.staged_to_final_segment_id@;
        let used = self.outputs.used_staged_ids@.to_set();
        let shares = outputs::promoted_records(prepared.survivors@, prepared.skipped@, used);
        &&& self.outputs.promotes(prepared.outputs@, prepared.survivors@)
        &&& self.published_output_bytes == outputs::sealed_bytes(self.outputs.published_outputs@)
        &&& self.published_output_bytes == outputs::share_bytes(shares)
        &&& outputs::is_attribution(self.reclaim_rows@, shares)
        &&& self.output_states@.len() == self.outputs.segment_states@.len()
        &&& forall|k: int|
            0 <= k < self.output_states@.len() ==> #[trigger] self.output_states@[k]
                == publish::bounded(self.outputs.segment_states@[k], self.published_records@)
        &&& self.births@.len() == self.output_states@.len()
        &&& forall|k: int|
            0 <= k < self.births@.len() ==> publish::is_birth_summary(
                (#[trigger] self.births@[k]).summary,
                self.output_states@[k],
                self.published_records@,
                prepared.skipped@,
                names,
            ) && garbage::records_view(self.births@[k].garbage@) == publish::birth_garbage(
                prepared.skipped@,
                names,
                self.output_states@[k].segment_id,
            )
        &&& self.deleted_states@ == unused_rows(prepared.outputs@, used)
        &&& self.fences(prepared.survivors@, source_rows)
        &&& self.published_records@.len() == prepared.survivors@.len()
        &&& forall|k: int|
            0 <= k < self.published_records@.len() ==> #[trigger] self.published_records@[k]
                == publish::fenced(prepared.survivors@[k], names, publish_lsn)
        &&& self.relocation_entries@.len() == self.published_records@.len()
        &&& forall|k: int|
            0 <= k < self.relocation_entries@.len() ==> publish::is_entry_of(
                #[trigger] self.relocation_entries@[k],
                self.published_records@[k],
            )
        &&& sorting::is_ordered(self.relocation_garbage@)
        &&& garbage::records_view(self.relocation_garbage@).to_multiset() == publish::retirements(
            self.published_records@,
        ).to_multiset()
        &&& self.skipped@ == prepared.skipped@
        &&& self.skipped_delta == birth_delta(prepared.skipped@, names)
    }

    /// Every source of a survivor is fenced, in ascending order.
    pub open spec fn fences(
        &self,
        survivors: Seq<GcStagedCopiedRecord>,
        source_rows: Seq<SegmentState>,
    ) -> bool {
        exists|ids: Seq<SegmentId>| #[trigger]
            outputs::ascending(ids) && ids.to_set() == outputs::source_ids(survivors)
                && self.relocating_states@.len() == ids.len() && forall|k: int|
                0 <= k < ids.len() ==> publish::fence_fault(source_rows, #[trigger] ids[k]) is None
                    && self.relocating_states@[k] == publish::fencing_row(source_rows, ids[k])
    }
}

/// Some flag is up.
pub open spec fn any(flags: Seq<bool>) -> bool {
    exists|i: int| 0 <= i < flags.len() && #[trigger] flags[i]
}

fn any_flag(flags: &Vec<bool>) -> (result: bool)
    ensures
        result == any(flags@),
{
    let mut i: usize = 0;
    while i < flags.len()
        invariant
            i <= flags@.len(),
            forall|k: int| 0 <= k < i ==> !(#[trigger] flags@[k]),
        decreases flags@.len() - i,
    {
        if flags[i] {
            assert(flags@[i as int]);
            return true;
        }
        i = i + 1;
    }
    false
}

/// Decides everything that the activating batch writes.
///
/// `obsolete` says of each survivor whether its shard generation is fenced by now: drops are not
/// blocked by revalidation, so one may have happened since. `source_rows` are the rows of the
/// survivors' sources, and `publish_lsn` is the durable frontier that the
/// relocations count as published at.
///
/// A metadata action comes without outputs and copies. Where nothing survived, every output is
/// marked deleted. Otherwise the bytes of the promoted outputs are totalled twice, directly and by
/// source; where the totals differ, the plan is inconsistent and nothing is published. Where
/// several things are wrong, a missing staging file is told first, then the bytes, then the least
/// source that cannot be fenced.
pub fn plan_gc_commit(
    prepared: GcPreparedPublish,
    obsolete: &Vec<bool>,
    source_rows: &Vec<SegmentState>,
    publish_lsn: StrataLsn,
) -> (plan: Result<GcCommitPlan, GcError>)
    ensures
        match plan {
            Ok(GcCommitPlan::Metadata) => prepared.action.spec_is_metadata()
                && prepared.outputs@.len() == 0 && prepared.survivors@.len() == 0,
            Ok(GcCommitPlan::Discard { deleted_states, skipped }) => {
                &&& !prepared.action.spec_is_metadata()
                &&& !any(obsolete@)
                &&& prepared.survivors@.len() == 0
                &&& deleted_states@ == unused_rows(prepared.outputs@, Set::empty())
                &&& skipped@ == prepared.skipped@
            },
            Ok(GcCommitPlan::Publish(publication)) => {
                &&& !prepared.action.spec_is_metadata()
                &&& !any(obsolete@)
                &&& prepared.survivors@.len() > 0
                &&& publication.publishes(prepared, source_rows@, publish_lsn)
            },
            Err(GcError::MetadataActionWithCopies) => prepared.action.spec_is_metadata() && (
            prepared.outputs@.len() > 0 || prepared.survivors@.len() > 0),
            Err(GcError::ObsoleteGeneration) => !prepared.action.spec_is_metadata() && any(
                obsolete@,
            ),
            Err(error) => !prepared.action.spec_is_metadata() && !any(obsolete@)
                && prepared.survivors@.len() > 0 && publish_fault(prepared, source_rows@, error),
        },
{
    if prepared.action.is_metadata() {
        if prepared.outputs.len() > 0 || prepared.survivors.len() > 0 {
            return Err(GcError::MetadataActionWithCopies);
        }
        return Ok(GcCommitPlan::Metadata);
    }
    if any_flag(obsolete) {
        return Err(GcError::ObsoleteGeneration);
    }
    if prepared.survivors.len() == 0 {
        let none: Vec<u64> = Vec::new();
        assert(none@.to_set() =~= Set::<u64>::empty());
        return Ok(
            GcCommitPlan::Discard {
                deleted_states: deleted_rows(&prepared.outputs, &none),
                skipped: prepared.skipped,
            },
        );
    }
    let ghost before = prepared;
    let planned: PlannedGcOutputSegments = plan_gc_output_segments(
        &prepared.outputs,
        &prepared.survivors,
    )?;
    let ghost names = planned.staged_to_final_segment_id@;
    let ghost used = planned.used_staged_ids@.to_set();
    let ghost shares = outputs::promoted_records(before.survivors@, before.skipped@, used);
    proof {
        assert(planned.promotes(before.outputs@, before.survivors@));
        assert forall|id: SegmentId| #[trigger] names.dom().contains(id) <==> used.contains(id) by {
            let list = planned.used_staged_ids@;
            if used.contains(id) {
                let k = choose|k: int| 0 <= k < list.len() && list[k] == id;
                assert(list[k] == id);
            }
        }
        lemma_shares_cover(before.survivors@, before.skipped@, names, used);
        assert forall|id: SegmentId| #[trigger]
            outputs::staged_ids(before.survivors@).contains(id) implies outputs::output_for(
            before.outputs@,
            id,
        ) is Some by {
            let list = planned.used_staged_ids@;
            assert(used.contains(id));
            let k = choose|k: int| 0 <= k < list.len() && list[k] == id;
            assert(outputs::output_for(before.outputs@, list[k]) is Some);
        }
    }
    let published_bytes: u64 = published_output_bytes(&planned.published_outputs)?;
    let reclaim_rows: Vec<SourceShare> = match gc_output_bytes_by_source(
        &prepared.survivors,
        &prepared.skipped,
        &planned.used_staged_ids,
    ) {
        Ok(rows) => rows,
        Err(error) => {
            proof {
                let source = choose|source: SegmentId|
                    outputs::sources_of(shares).contains(source) && #[trigger] outputs::bytes_of(
                        shares,
                        source,
                    ) > u64::MAX;
                lemma_source_within(shares, source);
                assert(bytes_fault(planned, before.survivors@, before.skipped@, error));
            }
            return Err(error);
        },
    };
    proof {
        outputs::law_attribution_is_complete(reclaim_rows@, shares);
    }
    let attributed: u64 = attributed_output_bytes(&reclaim_rows)?;
    if attributed != published_bytes {
        let error = GcError::ByteMismatch { published: published_bytes, attributed };
        assert(bytes_fault(planned, before.survivors@, before.skipped@, error));
        return Err(error);
    }
    let ids: Vec<u64> = source_segment_ids(&prepared.survivors);
    let relocating_states: Vec<SegmentState> = match plan_gc_relocating_source_states(
        &ids,
        source_rows,
    ) {
        Ok(states) => states,
        Err(error) => {
            proof {
                let k = choose|k: int|
                    0 <= k < ids@.len() && publish::fence_fault(
                        source_rows@,
                        #[trigger] ids@[k],
                    ) == Some(error) && forall|j: int|
                        0 <= j < k ==> publish::fence_fault(source_rows@, #[trigger] ids@[j])
                            is None;
                assert(ids@.to_set().contains(ids@[k]));
                assert forall|other: SegmentId| #[trigger]
                    outputs::source_ids(before.survivors@).contains(other) && other
                        < ids@[k] implies publish::fence_fault(source_rows@, other) is None by {
                    assert(ids@.to_set().contains(other));
                    let j = choose|j: int| 0 <= j < ids@.len() && ids@[j] == other;
                    if j >= k {
                        assert(ids@[j] >= ids@[k]);
                    }
                    assert(publish::fence_fault(source_rows@, ids@[j]) is None);
                }
                assert(bytes_add_up(planned, before.survivors@, before.skipped@));
            }
            return Err(error);
        },
    };
    let published_records: Vec<GcPublishedRecord> = match assign_gc_publish_fence(
        publish_lsn,
        prepared.survivors,
        &planned.staged_to_final_segment_id,
    ) {
        Ok(records) => records,
        Err(error) => {
            proof {
                let k = choose|k: int|
                    0 <= k < before.survivors@.len() && error == (GcError::MissingStagedOutput {
                        staged_segment_id: (#[trigger] before.survivors@[k]).staged.segment_id,
                    }) && !names.dom().contains(before.survivors@[k].staged.segment_id);
                lemma_staged_id(before.survivors@, k);
                assert(used.contains(before.survivors@[k].staged.segment_id));
            }
            return Err(error);
        },
    };
    let mut output_states: Vec<SegmentState> = copy_rows(&planned.segment_states);
    apply_gc_output_lsn_bounds(&mut output_states, &published_records);
    let entries: Vec<RelocationEntry> = relocation_entries(&published_records);
    let garbage_records: Vec<GarbageRecord> = relocation_garbage(&published_records);
    let births: Vec<OutputBirth> = match initial_gc_output_metadata(
        &output_states,
        &published_records,
        &prepared.skipped,
        &planned.staged_to_final_segment_id,
    ) {
        Ok(births) => births,
        Err(error) => {
            proof {
                let k = choose|k: int|
                    0 <= k < output_states@.len() && publish::birth_overflows(
                        #[trigger] output_states@[k],
                        published_records@,
                        before.skipped@,
                        names,
                    );
                let id = output_states@[k].segment_id;
                lemma_live_within(
                    before.survivors@,
                    published_records@,
                    names,
                    publish_lsn,
                    id,
                );
                lemma_dead_within(before.skipped@, names, id, GcSkippedCopiedRecordKind::Retired);
                lemma_dead_within(before.skipped@, names, id, GcSkippedCopiedRecordKind::Expired);
            }
            return Err(error);
        },
    };
    let skipped_delta: GcKnownDelta = skipped_output_delta(
        &prepared.skipped,
        &planned.staged_to_final_segment_id,
    );
    let deleted_states: Vec<SegmentState> = deleted_rows(
        &prepared.outputs,
        &planned.used_staged_ids,
    );
    let publication = GcPublication {
        outputs: planned,
        output_states,
        births,
        deleted_states,
        relocating_states,
        reclaim_rows,
        published_records,
        relocation_entries: entries,
        relocation_garbage: garbage_records,
        skipped: prepared.skipped,
        skipped_delta,
        published_output_bytes: published_bytes,
    };
    proof {
        assert(outputs::ascending(ids@));
        assert(publication.fences(before.survivors@, source_rows@));
    }
    Ok(GcCommitPlan::Publish(publication))
}

pub proof fn lemma_staged_id(records: Seq<GcStagedCopiedRecord>, at: int)
    requires
        0 <= at < records.len(),
    ensures
        outputs::staged_ids(records).contains(records[at].staged.segment_id),
    decreases records.len(),
{
    if at < records.len() - 1 {
        lemma_staged_id(records.drop_last(), at);
        assert(records.drop_last()[at] == records[at]);
    }
}

// Laws.

/// Every output is settled by its publication: it is promoted, or its row is marked deleted.
pub proof fn law_every_output_is_settled(
    outputs: Seq<GcPrepublishedOutputSegment>,
    used: Set<SegmentId>,
    at: int,
)
    requires
        0 <= at < outputs.len(),
    ensures
        used.contains(outputs[at].staged_segment_id) || unused_rows(outputs, used).contains(
            outputs[at].row(SegmentFileState::Deleted),
        ),
    decreases outputs.len(),
{
    let init = outputs.drop_last();
    let earlier = unused_rows(init, used);
    let all = unused_rows(outputs, used);
    if at == outputs.len() - 1 {
        if !used.contains(outputs[at].staged_segment_id) {
            assert(all[earlier.len() as int] == outputs[at].row(SegmentFileState::Deleted));
        }
    } else {
        law_every_output_is_settled(init, used, at);
        assert(init[at] == outputs[at]);
        if !used.contains(outputs[at].staged_segment_id) {
            let k = choose|k: int|
                0 <= k < earlier.len() && earlier[k] == init[at].row(SegmentFileState::Deleted);
            assert(all[k] == outputs[at].row(SegmentFileState::Deleted));
        }
    }
}

proof fn lemma_source_id(records: Seq<GcStagedCopiedRecord>, at: int)
    requires
        0 <= at < records.len(),
    ensures
        outputs::source_ids(records).contains(records[at].source.from.segment_id),
    decreases records.len(),
{
    if at < records.len() - 1 {
        lemma_source_id(records.drop_last(), at);
        assert(records.drop_last()[at] == records[at]);
    }
}

proof fn lemma_share_source(
    survivors: Seq<GcStagedCopiedRecord>,
    skipped: Seq<GcSkippedCopiedRecord>,
    used: Set<SegmentId>,
    at: int,
)
    requires
        0 <= at < survivors.len(),
    ensures
        outputs::sources_of(outputs::promoted_records(survivors, skipped, used)).contains(
            survivors[at].source.from.segment_id,
        ),
    decreases survivors.len() + skipped.len(),
{
    let shares = outputs::promoted_records(survivors, skipped, used);
    if skipped.len() > 0 {
        lemma_share_source(survivors, skipped.drop_last(), used, at);
        if used.contains(skipped.last().record.staged.segment_id) {
            assert(shares.drop_last() =~= outputs::promoted_records(
                survivors,
                skipped.drop_last(),
                used,
            ));
        }
    } else {
        assert(shares.drop_last() =~= outputs::promoted_records(
            survivors.drop_last(),
            skipped,
            used,
        ));
        if at < survivors.len() - 1 {
            lemma_share_source(survivors.drop_last(), skipped, used, at);
            assert(survivors.drop_last()[at] == survivors[at]);
        } else {
            assert(shares.last().source_segment_id == survivors[at].source.from.segment_id);
        }
    }
}

/// A relocation is never published without its source: the batch that publishes a record also
/// fences the record's source segment, and says what the source is charged for.
pub proof fn law_sources_are_fenced_with_their_relocations(
    publication: GcPublication,
    prepared: GcPreparedPublish,
    source_rows: Seq<SegmentState>,
    publish_lsn: StrataLsn,
    at: int,
)
    requires
        publication.publishes(prepared, source_rows, publish_lsn),
        0 <= at < publication.published_records@.len(),
    ensures
        ({
            let source = publication.published_records@[at].source.from.segment_id;
            &&& exists|k: int|
                0 <= k < publication.relocating_states@.len()
                    && #[trigger] publication.relocating_states@[k] == publish::fencing_row(
                    source_rows,
                    source,
                )
            &&& exists|k: int|
                0 <= k < publication.reclaim_rows@.len() && (
                #[trigger] publication.reclaim_rows@[k]).source_segment_id == source
        }),
{
    let survivors = prepared.survivors@;
    let source = survivors[at].source.from.segment_id;
    let used = publication.outputs.used_staged_ids@.to_set();
    assert(publication.published_records@[at].source == survivors[at].source);
    lemma_source_id(survivors, at);
    let ids = choose|ids: Seq<SegmentId>| #[trigger]
        outputs::ascending(ids) && ids.to_set() == outputs::source_ids(survivors)
            && publication.relocating_states@.len() == ids.len() && forall|k: int|
            0 <= k < ids.len() ==> publish::fence_fault(source_rows, #[trigger] ids[k]) is None
                && publication.relocating_states@[k] == publish::fencing_row(source_rows, ids[k]);
    assert(ids.to_set().contains(source));
    let k = choose|k: int| 0 <= k < ids.len() && ids[k] == source;
    assert(publication.relocating_states@[k] == publish::fencing_row(source_rows, ids[k]));
    lemma_share_source(survivors, prepared.skipped@, used, at);
}

proof fn lemma_span_is_fence(
    published: Seq<GcPublishedRecord>,
    lsn: StrataLsn,
    segment_id: SegmentId,
)
    requires
        forall|k: int| 0 <= k < published.len() ==> (#[trigger] published[k]).publish_lsn == lsn,
    ensures
        publish::lsn_span(published, segment_id) == (if exists|k: int|
            0 <= k < published.len() && (#[trigger] published[k]).to.segment_id == segment_id {
            Some((lsn, lsn))
        } else {
            None
        }),
    decreases published.len(),
{
    if published.len() > 0 {
        let init = published.drop_last();
        assert forall|k: int| 0 <= k < init.len() implies (#[trigger] init[k]).publish_lsn
            == lsn by {
            assert(init[k] == published[k]);
        }
        lemma_span_is_fence(init, lsn, segment_id);
        let last = published[published.len() - 1];
        assert(last.publish_lsn == lsn);
        if exists|k: int| 0 <= k < init.len() && (#[trigger] init[k]).to.segment_id == segment_id {
            let k = choose|k: int|
                0 <= k < init.len() && (#[trigger] init[k]).to.segment_id == segment_id;
            assert(published[k].to.segment_id == segment_id);
        } else if last.to.segment_id != segment_id {
            assert forall|k: int| 0 <= k < published.len() implies (
            #[trigger] published[k]).to.segment_id != segment_id by {
                if k < init.len() {
                    assert(init[k] == published[k]);
                }
            }
        }
    }
}

proof fn lemma_staged_member(records: Seq<GcStagedCopiedRecord>, id: SegmentId) -> (at: int)
    requires
        outputs::staged_ids(records).contains(id),
    ensures
        0 <= at < records.len(),
        records[at].staged.segment_id == id,
    decreases records.len(),
{
    if records.last().staged.segment_id == id {
        records.len() - 1
    } else {
        lemma_staged_member(records.drop_last(), id)
    }
}

/// A promoted output's bounds are the fence: every record in it counts as published at the durable
/// frontier, and none is ordered by its place in the batch.
pub proof fn law_outputs_are_bounded_by_the_fence(
    publication: GcPublication,
    prepared: GcPreparedPublish,
    source_rows: Seq<SegmentState>,
    publish_lsn: StrataLsn,
    at: int,
)
    requires
        publication.publishes(prepared, source_rows, publish_lsn),
        0 <= at < publication.output_states@.len(),
    ensures
        publication.output_states@[at].min_lsn == Some(publish_lsn),
        publication.output_states@[at].max_lsn == Some(publish_lsn),
        publication.output_states@[at].state == SegmentFileState::Sealed,
{
    let plan = publication.outputs;
    let used = plan.used_staged_ids@;
    let published = publication.published_records@;
    let names = plan.staged_to_final_segment_id@;
    let id = used[at];
    assert(used.to_set().contains(id));
    let k = lemma_staged_member(prepared.survivors@, id);
    assert(published[k] == publish::fenced(prepared.survivors@[k], names, publish_lsn));
    let output = outputs::output_for(prepared.outputs@, used[at])->Some_0;
    assert(plan.segment_states@[at] == prepared.outputs@[output].row(SegmentFileState::Sealed));
    assert(names[used[at]] == prepared.outputs@[output].segment_id);
    assert forall|j: int| 0 <= j < published.len() implies (#[trigger] published[j]).publish_lsn
        == publish_lsn by {
        assert(published[j] == publish::fenced(prepared.survivors@[j], names, publish_lsn));
    }
    let row = plan.segment_states@[at];
    lemma_span_is_fence(published, publish_lsn, row.segment_id);
    assert(published[k].to.segment_id == row.segment_id);
    assert(publication.output_states@[at] == publish::bounded(row, published));
}

} // verus!
