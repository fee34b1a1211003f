//! The end of a source segment, and the other actions that move no bytes.

use vstd::prelude::*;

use super::outputs::GcError;
use super::publish::{GcAction, SegmentGcSummary};
use crate::segments::{PlacementClass, SegmentFileState, SegmentState};
use crate::text;
use crate::types::{Epoch, SegmentId, StrataLsn};

verus! {

/// Whether the relocations that replaced a source survive a crash.
pub open spec fn activation_durable(
    activation_lsn: Option<StrataLsn>,
    durable_relocation_lsn: StrataLsn,
) -> bool {
    match activation_lsn {
        Some(lsn) => lsn <= durable_relocation_lsn,
        None => false,
    }
}

/// Whether a relocated source may go: the relocation table that published its replacements must be
/// durable. Without a record of which one that is, durability cannot be shown.
pub fn relocation_activation_is_durable(
    activation_lsn: Option<StrataLsn>,
    durable_relocation_lsn: StrataLsn,
) -> (result: bool)
    ensures
        result == activation_durable(activation_lsn, durable_relocation_lsn),
{
    match activation_lsn {
        Some(lsn) => lsn <= durable_relocation_lsn,
        None => false,
    }
}

/// Records that keep a segment from being deleted.
pub open spec fn gating_refs(
    clock_expiry_epoch: Option<Epoch>,
    summary: SegmentGcSummary,
    live_after_epoch: u64,
) -> u64 {
    match clock_expiry_epoch {
        Some(_) => live_after_epoch,
        None => summary.live_ref_count,
    }
}

/// Records that keep a segment from being deleted: those that outlive the clock's expiry epoch
/// where one is known, else all that the summary counts as live.
pub fn gated_live_refs(
    clock_expiry_epoch: Option<Epoch>,
    summary: &SegmentGcSummary,
    live_after_epoch: u64,
) -> (count: u64)
    ensures
        count == (match clock_expiry_epoch {
            Some(_) => live_after_epoch,
            None => summary.live_ref_count,
        }),
{
    match clock_expiry_epoch {
        Some(_) => live_after_epoch,
        None => summary.live_ref_count,
    }
}

/// What is known of one segment that is to be deleted.
#[derive(Debug)]
pub struct DeletionEvidence {
    pub segment_id: SegmentId,
    pub row: Option<SegmentState>,
    pub summary: SegmentGcSummary,
    /// The epoch through which the clock may judge lifetimes, where it is known. It only advances,
    /// and is read before the summary.
    pub clock_expiry_epoch: Option<Epoch>,
    /// Records that the summary counts as live beyond that epoch.
    pub live_after_epoch: u64,
    /// The relocation activation that the source waits for.
    pub activation_lsn: Option<StrataLsn>,
    /// A live snapshot could still read the segment.
    pub snapshot_protects: bool,
}

/// What becomes of one segment that is to be deleted.
pub enum DeletionStep {
    /// Its row already says deleted: finish the unlinking.
    Unlink,
    /// Mark it deleted, then unlink it.
    Delete,
    /// Leave it for a later round.
    Wait,
    /// The plan is at fault.
    Fault(GcError),
}

impl DeletionEvidence {
    /// Records that keep the segment from being deleted.
    pub open spec fn live_refs(self) -> u64 {
        gating_refs(self.clock_expiry_epoch, self.summary, self.live_after_epoch)
    }
}

/// What becomes of one segment that is to be deleted.
pub open spec fn deletion_step(
    evidence: DeletionEvidence,
    durable_relocation_lsn: StrataLsn,
) -> DeletionStep {
    let segment_id = evidence.segment_id;
    match evidence.row {
        None => DeletionStep::Fault(GcError::MissingSourceSegment { segment_id }),
        Some(row) => if row.state == SegmentFileState::Deleted {
            DeletionStep::Unlink
        } else if row.state != SegmentFileState::Sealed && row.state
            != SegmentFileState::GcRelocating {
            DeletionStep::Fault(
                GcError::SourceSegmentNotSealed { segment_id, state: row.state },
            )
        } else if evidence.live_refs() != 0 {
            DeletionStep::Fault(
                GcError::SourceSegmentNotEmpty {
                    segment_id,
                    live_ref_count: evidence.live_refs(),
                },
            )
        } else if row.state == SegmentFileState::GcRelocating && !activation_durable(
            evidence.activation_lsn,
            durable_relocation_lsn,
        ) {
            DeletionStep::Wait
        } else if evidence.snapshot_protects {
            DeletionStep::Wait
        } else {
            DeletionStep::Delete
        },
    }
}

/// The row, marked deleted.
pub open spec fn deleted_row(evidence: DeletionEvidence) -> SegmentState {
    SegmentState { state: SegmentFileState::Deleted, ..evidence.row->Some_0 }
}

/// Rows that are newly marked deleted.
pub open spec fn rows_to_commit(evidence: Seq<DeletionEvidence>, durable: StrataLsn) -> Seq<
    SegmentState,
>
    decreases evidence.len(),
{
    if evidence.len() == 0 {
        Seq::empty()
    } else {
        let earlier = rows_to_commit(evidence.drop_last(), durable);
        if deletion_step(evidence.last(), durable) is Delete {
            earlier.push(deleted_row(evidence.last()))
        } else {
            earlier
        }
    }
}

/// Rows whose files are unlinked.
pub open spec fn rows_to_unlink(evidence: Seq<DeletionEvidence>, durable: StrataLsn) -> Seq<
    SegmentState,
>
    decreases evidence.len(),
{
    if evidence.len() == 0 {
        Seq::empty()
    } else {
        let earlier = rows_to_unlink(evidence.drop_last(), durable);
        match deletion_step(evidence.last(), durable) {
            DeletionStep::Delete => earlier.push(deleted_row(evidence.last())),
            DeletionStep::Unlink => earlier.push(evidence.last().row->Some_0),
            _ => earlier,
        }
    }
}

/// Summaries that leave the store's totals.
pub open spec fn summaries_to_remove(evidence: Seq<DeletionEvidence>, durable: StrataLsn) -> Seq<
    SegmentGcSummary,
>
    decreases evidence.len(),
{
    if evidence.len() == 0 {
        Seq::empty()
    } else {
        let earlier = summaries_to_remove(evidence.drop_last(), durable);
        if deletion_step(evidence.last(), durable) is Delete {
            earlier.push(evidence.last().summary)
        } else {
            earlier
        }
    }
}

/// Relocating segments among the newly deleted.
pub open spec fn relocating_deleted(evidence: Seq<DeletionEvidence>, durable: StrataLsn) -> nat
    decreases evidence.len(),
{
    if evidence.len() == 0 {
        0
    } else {
        relocating_deleted(evidence.drop_last(), durable) + (if deletion_step(
            evidence.last(),
            durable,
        ) is Delete && evidence.last().row->Some_0.state == SegmentFileState::GcRelocating {
            1nat
        } else {
            0
        })
    }
}

/// A round of deletions.
#[derive(Debug)]
pub struct DeletionPlan {
    /// Rows to commit before anything is unlinked.
    pub states_to_commit: Vec<SegmentState>,
    /// Segments to evict from readers and to unlink.
    pub states_to_unlink: Vec<SegmentState>,
    pub summaries_to_remove: Vec<SegmentGcSummary>,
    pub relocating_segments_to_remove: usize,
}

/// Plans the deletion of segments that hold nothing live.
///
/// A segment must exist, be sealed or relocating, and have no live record. A relocating one also
/// waits until the relocations that replaced it are durable, and any one waits while a live
/// snapshot could read it. A segment whose row already says deleted skips all that: an earlier
/// round was cut off before the unlinking.
pub fn plan_gc_deletions(
    evidence: &Vec<DeletionEvidence>,
    durable_relocation_lsn: StrataLsn,
) -> (plan: Result<DeletionPlan, GcError>)
    ensures
        match plan {
            Ok(plan) => {
                &&& forall|k: int|
                    0 <= k < evidence@.len() ==> deletion_step(
                        #[trigger] evidence@[k],
                        durable_relocation_lsn,
                    ) !is Fault
                &&& plan.states_to_commit@ == rows_to_commit(evidence@, durable_relocation_lsn)
                &&& plan.states_to_unlink@ == rows_to_unlink(evidence@, durable_relocation_lsn)
                &&& plan.summaries_to_remove@ == summaries_to_remove(
                    evidence@,
                    durable_relocation_lsn,
                )
                &&& plan.relocating_segments_to_remove == relocating_deleted(
                    evidence@,
                    durable_relocation_lsn,
                )
            },
            Err(error) => exists|k: int|
                0 <= k < evidence@.len() && deletion_step(
                    #[trigger] evidence@[k],
                    durable_relocation_lsn,
                ) == DeletionStep::Fault(error) && forall|j: int|
                    0 <= j < k ==> deletion_step(#[trigger] evidence@[j], durable_relocation_lsn)
                        !is Fault,
        },
{
    let mut plan = DeletionPlan {
        states_to_commit: Vec::new(),
        states_to_unlink: Vec::new(),
        summaries_to_remove: Vec::new(),
        relocating_segments_to_remove: 0,
    };
    let mut i: usize = 0;
    while i < evidence.len()
        invariant
            i <= evidence@.len(),
            forall|k: int|
                0 <= k < i ==> deletion_step(#[trigger] evidence@[k], durable_relocation_lsn)
                    !is Fault,
            plan.states_to_commit@ == rows_to_commit(
                evidence@.take(i as int),
                durable_relocation_lsn,
            ),
            plan.states_to_unlink@ == rows_to_unlink(
                evidence@.take(i as int),
                durable_relocation_lsn,
            ),
            plan.summaries_to_remove@ == summaries_to_remove(
                evidence@.take(i as int),
                durable_relocation_lsn,
            ),
            plan.relocating_segments_to_remove == relocating_deleted(
                evidence@.take(i as int),
                durable_relocation_lsn,
            ),
            plan.relocating_segments_to_remove <= i,
        decreases evidence@.len() - i,
    {
        assert(evidence@.take(i + 1).drop_last() =~= evidence@.take(i as int));
        let one: &DeletionEvidence = &evidence[i];
        assert(*one == evidence@[i as int]);
        let row: &SegmentState = match &one.row {
            Some(row) => row,
            None => {
                return Err(GcError::MissingSourceSegment { segment_id: one.segment_id });
            },
        };
        if row.state == SegmentFileState::Deleted {
            plan.states_to_unlink.push(row.copy());
            i = i + 1;
            continue;
        }
        if row.state != SegmentFileState::Sealed && row.state != SegmentFileState::GcRelocating {
            return Err(
                GcError::SourceSegmentNotSealed { segment_id: one.segment_id, state: row.state },
            );
        }
        let live_ref_count: u64 = gated_live_refs(
            one.clock_expiry_epoch,
            &one.summary,
            one.live_after_epoch,
        );
        if live_ref_count != 0 {
            return Err(
                GcError::SourceSegmentNotEmpty { segment_id: one.segment_id, live_ref_count },
            );
        }
        let relocating: bool = row.state == SegmentFileState::GcRelocating;
        let waits: bool = (relocating && !relocation_activation_is_durable(
            one.activation_lsn,
            durable_relocation_lsn,
        )) || one.snapshot_protects;
        if !waits {
            if relocating {
                plan.relocating_segments_to_remove = plan.relocating_segments_to_remove + 1;
            }
            let mut state: SegmentState = row.copy();
            state.state = SegmentFileState::Deleted;
            plan.summaries_to_remove.push(one.summary);
            plan.states_to_commit.push(state.copy());
            plan.states_to_unlink.push(state);
        }
        i = i + 1;
    }
    assert(evidence@.take(i as int) =~= evidence@);
    Ok(plan)
}

/// The strategy that a deletion is counted under: the one that relocated the source's bytes, or the
/// deleting plan's own where none were.
pub open spec fn reclaim_label(
    strategy: Option<Seq<char>>,
    output_bytes: u64,
    fallback: Seq<char>,
) -> Seq<char> {
    match strategy {
        Some(label) => label,
        None => if output_bytes == 0 {
            fallback
        } else {
            "unknown"@
        },
    }
}

/// The strategy that a deletion is counted under.
pub fn reclaim_strategy(strategy: &Option<String>, output_bytes: u64, fallback: &str) -> (label:
    String)
    ensures
        label@ == reclaim_label(
            match strategy {
                Some(label) => Some(label@),
                None => None,
            },
            output_bytes,
            fallback@,
        ),
{
    match strategy {
        Some(label) => label.clone(),
        None => if output_bytes == 0 {
            fallback.to_owned()
        } else {
            "unknown".to_owned()
        },
    }
}

/// What a metadata action comes to.
#[derive(Debug, PartialEq, Eq)]
pub enum MetadataStep {
    Delete { segment_ids: Vec<SegmentId> },
    Reclassify { segment_id: SegmentId, placement_class: PlacementClass },
}

/// Dispatches the plans that move no bytes. A copy action here is as invalid as a metadata action
/// that comes with copies.
pub fn apply_gc_metadata_action(action: &GcAction) -> (step: Result<MetadataStep, GcError>)
    ensures
        match (*action, step) {
            (
                GcAction::DeleteSegment { segment_id },
                Ok(MetadataStep::Delete { segment_ids }),
            ) => segment_ids@ == seq![segment_id],
            (
                GcAction::DeleteSegments { segment_ids: asked },
                Ok(MetadataStep::Delete { segment_ids }),
            ) => segment_ids@ == asked@,
            (
                GcAction::ReclassifySegment { segment_id: asked, placement_class: class },
                Ok(MetadataStep::Reclassify { segment_id, placement_class }),
            ) => segment_id == asked && placement_class == class,
            (_, Err(error)) => error == GcError::CopyActionWithoutCopies
                && !action.spec_is_metadata(),
            _ => false,
        },
{
    match action {
        GcAction::DeleteSegment { segment_id } => {
            let mut segment_ids: Vec<u64> = Vec::new();
            segment_ids.push(*segment_id);
            assert(segment_ids@ =~= seq![*segment_id]);
            Ok(MetadataStep::Delete { segment_ids })
        },
        GcAction::DeleteSegments { segment_ids } => {
            let copied: Vec<u64> = segment_ids.clone();
            assert(copied@ =~= segment_ids@);
            Ok(MetadataStep::Delete { segment_ids: copied })
        },
        GcAction::ReclassifySegment { segment_id, placement_class } => Ok(
            MetadataStep::Reclassify {
                segment_id: *segment_id,
                placement_class: *placement_class,
            },
        ),
        _ => Err(GcError::CopyActionWithoutCopies),
    }
}

/// Relabels a sealed segment without moving a byte. A matching label needs no row.
pub fn reclassify_gc_segment(
    segment_id: SegmentId,
    row: Option<&SegmentState>,
    placement_class: PlacementClass,
) -> (change: Result<Option<SegmentState>, GcError>)
    ensures
        match (row, change) {
            (None, Err(error)) => error == (GcError::MissingSourceSegment { segment_id }),
            (Some(row), Err(error)) => row.state != SegmentFileState::Sealed && error == (
            GcError::SourceSegmentNotSealed { segment_id, state: row.state }),
            (Some(row), Ok(None)) => row.state == SegmentFileState::Sealed && row.placement_class
                == placement_class,
            (Some(row), Ok(Some(change))) => row.state == SegmentFileState::Sealed
                && row.placement_class != placement_class && change == (SegmentState {
                placement_class,
                ..*row
            }),
            (None, Ok(_)) => false,
        },
{
    let row: &SegmentState = match row {
        Some(row) => row,
        None => return Err(GcError::MissingSourceSegment { segment_id }),
    };
    if row.state != SegmentFileState::Sealed {
        return Err(GcError::SourceSegmentNotSealed { segment_id, state: row.state });
    }
    if row.placement_class == placement_class {
        return Ok(None);
    }
    let mut change: SegmentState = row.copy();
    change.placement_class = placement_class;
    Ok(Some(change))
}

/// Where a publication failed.
#[derive(Clone, Copy, Debug, PartialEq, Eq, Structural)]
pub enum GcPublishCommitError {
    /// Nothing was activated: the attempt can be repeated.
    BeforeIndexBatch,
    /// The durable and the in-memory view may no longer agree.
    IndexCommit,
}

/// What a failed publication leads to.
#[derive(Debug, PartialEq, Eq)]
pub enum PublishFailure {
    /// Unlink the tables that nothing refers to.
    RemoveOrphanTables,
    /// Halt the store.
    Halt { reason: String },
}

/// What a failed publication leads to.
pub fn publish_failure(stage: GcPublishCommitError, error: &str) -> (failure: PublishFailure)
    ensures
        match (stage, failure) {
            (GcPublishCommitError::BeforeIndexBatch, PublishFailure::RemoveOrphanTables) => true,
            (GcPublishCommitError::IndexCommit, PublishFailure::Halt { reason }) => reason@
                == "fatal GC relocation activation error: "@ + error@,
            _ => false,
        },
{
    match stage {
        GcPublishCommitError::BeforeIndexBatch => PublishFailure::RemoveOrphanTables,
        GcPublishCommitError::IndexCommit => PublishFailure::Halt {
            reason: text::joined("fatal GC relocation activation error: ", error),
        },
    }
}

// Laws.

/// Deletion is safe: a segment is newly marked deleted only where it held nothing live, no live
/// snapshot could read it, and the relocations of a relocated source are durable.
pub proof fn law_deleted_segments_are_unreachable(
    evidence: DeletionEvidence,
    durable_relocation_lsn: StrataLsn,
)
    requires
        deletion_step(evidence, durable_relocation_lsn) is Delete,
    ensures
        evidence.row matches Some(row) && (row.state == SegmentFileState::Sealed || (row.state
            == SegmentFileState::GcRelocating && activation_durable(
            evidence.activation_lsn,
            durable_relocation_lsn,
        ))),
        evidence.live_refs() == 0,
        !evidence.snapshot_protects,
{
}

/// Deleting again finishes what was cut off: once a segment's row says deleted, a later round
/// neither fails nor counts it again, but unlinks it.
pub proof fn law_deletion_can_be_repeated(
    evidence: DeletionEvidence,
    durable_relocation_lsn: StrataLsn,
    later: DeletionEvidence,
    later_durable: StrataLsn,
)
    requires
        deletion_step(evidence, durable_relocation_lsn) is Delete,
        later.row == Some(deleted_row(evidence)),
    ensures
        deletion_step(later, later_durable) is Unlink,
        rows_to_commit(seq![later], later_durable).len() == 0,
        rows_to_unlink(seq![later], later_durable) =~= seq![deleted_row(evidence)],
        relocating_deleted(seq![later], later_durable) == 0,
{
    let one = seq![later];
    assert(one.drop_last() =~= Seq::<DeletionEvidence>::empty());
    assert(rows_to_commit(one.drop_last(), later_durable).len() == 0);
    assert(rows_to_unlink(one.drop_last(), later_durable) =~= Seq::<SegmentState>::empty());
    assert(relocating_deleted(one.drop_last(), later_durable) == 0);
    assert(one.last() == later);
}

/// The frontier only unlocks deletions: what is deleted at one frontier is deleted at any later one.
pub proof fn law_durability_only_unlocks(
    evidence: DeletionEvidence,
    durable_relocation_lsn: StrataLsn,
    later: StrataLsn,
)
    requires
        durable_relocation_lsn <= later,
        deletion_step(evidence, durable_relocation_lsn) is Delete,
    ensures
        deletion_step(evidence, later) is Delete,
{
}

} // verus!
