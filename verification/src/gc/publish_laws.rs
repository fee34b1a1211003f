//! What a GC publication promises of each record, each output and each source.

use vstd::prelude::*;

use super::commit;
use super::commit::GcPublication;
use super::outputs;
use super::outputs::{
    GcError, GcPrepublishedOutputSegment, GcPublishedOutputSegment, PlannedGcOutputSegments,
    SourceShare,
};
use super::publish;
use super::publish::{GcPreparedPublish, GcPublishedRecord, SegmentGcSummary};
use super::reconcile;
use super::reconcile::{
    CopyEvidence, GcCopyRecord, GcSkippedCopiedRecord, GcSkippedCopiedRecordKind, GcStagedCopiedRecord,
    OverlayRecordState,
};
use crate::blob_lsm::garbage;
use crate::blob_lsm::garbage::{GarbageRecord, GarbageRecordView};
use crate::keys;
use crate::segments::{SegmentFileState, SegmentOwner, SegmentState};
use crate::sorting::Precedes;
use crate::types::{GarbageEvent, RecordRef, SegmentId, StrataLsn};

verus! {

// Revalidation.

/// A copy is skipped as retired where its shard generation is obsolete or a newer write replaced
/// it, as expired where its lifetime ended, and survives otherwise, with what is known by now of how
/// long it lives.
pub proof fn law_only_current_copies_survive(record: GcStagedCopiedRecord, evidence: CopyEvidence)
    ensures
        ({
            let kept = reconcile::survivors(seq![record], seq![evidence]);
            let dropped = reconcile::skipped(seq![record], seq![evidence]);
            let obsolete = evidence.generation_obsolete;
            &&& obsolete ==> kept.len() == 0 && dropped.len() == 1 && dropped[0].kind
                == GcSkippedCopiedRecordKind::Retired && dropped[0].record == record
            &&& !obsolete && evidence.overlay is Retired ==> kept.len() == 0 && dropped.len() == 1
                && dropped[0].kind == GcSkippedCopiedRecordKind::Retired && dropped[0].record
                == record
            &&& !obsolete && evidence.overlay is Expired ==> kept.len() == 0 && dropped.len() == 1
                && dropped[0].kind == GcSkippedCopiedRecordKind::Expired && dropped[0].record
                == record
            &&& !obsolete ==> (evidence.overlay matches OverlayRecordState::CopyEligible {
                lifecycle,
            } ==> dropped.len() == 0 && kept.len() == 1 && kept[0].staged == record.staged
                && kept[0].source.from == record.source.from && kept[0].source.key
                == record.source.key && kept[0].source.shard == record.source.shard
                && kept[0].source.payload_lsn == record.source.payload_lsn
                && kept[0].source.lifecycle == lifecycle)
        }),
{
    let one = seq![record];
    let known = seq![evidence];
    assert(one.drop_last() =~= Seq::empty());
    assert(reconcile::survivors(one.drop_last(), known) =~= Seq::empty());
    assert(reconcile::skipped(one.drop_last(), known) =~= Seq::empty());
}

/// Each copy is judged by its own evidence, in order.
pub proof fn law_copies_are_judged_one_by_one(
    records: Seq<GcStagedCopiedRecord>,
    evidence: Seq<CopyEvidence>,
    record: GcStagedCopiedRecord,
    known: CopyEvidence,
)
    requires
        records.len() == evidence.len(),
    ensures
        reconcile::survivors(records.push(record), evidence.push(known)) == reconcile::survivors(
            records,
            evidence,
        ) + reconcile::survivors(seq![record], seq![known]),
        reconcile::skipped(records.push(record), evidence.push(known)) == reconcile::skipped(
            records,
            evidence,
        ) + reconcile::skipped(seq![record], seq![known]),
{
    let more = records.push(record);
    let all = evidence.push(known);
    assert(more.drop_last() =~= records);
    lemma_evidence_behind(records, evidence, known);
    let one = seq![record];
    let only = seq![known];
    assert(one.drop_last() =~= Seq::empty());
    assert(reconcile::survivors(one.drop_last(), only) =~= Seq::empty());
    assert(reconcile::skipped(one.drop_last(), only) =~= Seq::empty());
    assert(reconcile::survivors(more, all) =~= reconcile::survivors(records, evidence)
        + reconcile::survivors(one, only));
    assert(reconcile::skipped(more, all) =~= reconcile::skipped(records, evidence)
        + reconcile::skipped(one, only));
}

proof fn lemma_evidence_behind(
    records: Seq<GcStagedCopiedRecord>,
    evidence: Seq<CopyEvidence>,
    known: CopyEvidence,
)
    requires
        records.len() <= evidence.len(),
    ensures
        reconcile::survivors(records, evidence.push(known)) == reconcile::survivors(
            records,
            evidence,
        ),
        reconcile::skipped(records, evidence.push(known)) == reconcile::skipped(records, evidence),
    decreases records.len(),
{
    if records.len() > 0 {
        lemma_evidence_behind(records.drop_last(), evidence, known);
        assert(evidence.push(known)[records.len() - 1] == evidence[records.len() - 1]);
    }
}

// Records.

/// A survivor is published where it was staged: at the same offset, with the same length, in the
/// output that its staging file became. Readers are sent there from the record that was copied, and
/// the copied record is retired at the fence.
pub proof fn law_survivors_are_published_where_they_were_staged(
    publication: GcPublication,
    prepared: GcPreparedPublish,
    source_rows: Seq<SegmentState>,
    publish_lsn: StrataLsn,
    at: int,
)
    requires
        publication.publishes(prepared, source_rows, publish_lsn),
        0 <= at < prepared.survivors@.len(),
    ensures
        ({
            let survivor = prepared.survivors@[at];
            let names = publication.outputs.staged_to_final_segment_id@;
            let record = publication.published_records@[at];
            let entry = publication.relocation_entries@[at];
            &&& publication.published_records@.len() == prepared.survivors@.len()
            &&& publication.relocation_entries@.len() == prepared.survivors@.len()
            &&& record.to.offset == survivor.staged.offset
            &&& record.to.len == survivor.staged.len
            &&& names.dom().contains(survivor.staged.segment_id)
            &&& record.to.segment_id == names[survivor.staged.segment_id]
            &&& record.source == survivor.source
            &&& record.publish_lsn == publish_lsn
            &&& entry.to == (RecordRef {
                segment_id: names[survivor.staged.segment_id],
                offset: survivor.staged.offset,
                len: survivor.staged.len,
            })
            &&& entry.key@ == survivor.source.key@
            &&& entry.shard == survivor.source.shard
            &&& entry.payload_lsn == survivor.source.payload_lsn
            &&& entry.publish_lsn == publish_lsn
        }),
{
    let survivor = prepared.survivors@[at];
    let names = publication.outputs.staged_to_final_segment_id@;
    let used = publication.outputs.used_staged_ids@;
    assert(publication.published_records@[at] == publish::fenced(survivor, names, publish_lsn));
    assert(publish::is_entry_of(
        publication.relocation_entries@[at],
        publication.published_records@[at],
    ));
    lemma_listed(prepared.survivors@, at);
    assert(used.to_set().contains(survivor.staged.segment_id));
    assert(used.contains(survivor.staged.segment_id));
    let k = used.index_of(survivor.staged.segment_id);
    assert(used[k] == survivor.staged.segment_id);
    assert(names.dom().contains(used[k]));
}

proof fn lemma_listed(survivors: Seq<GcStagedCopiedRecord>, at: int)
    requires
        0 <= at < survivors.len(),
    ensures
        outputs::staged_ids(survivors).contains(survivors[at].staged.segment_id),
        outputs::source_ids(survivors).contains(survivors[at].source.from.segment_id),
    decreases survivors.len(),
{
    if at < survivors.len() - 1 {
        lemma_listed(survivors.drop_last(), at);
        assert(survivors.drop_last()[at] == survivors[at]);
    }
}

/// Records that were staged in disjoint ranges of one output are published in disjoint ranges of
/// one segment.
pub proof fn law_disjoint_copies_stay_disjoint(
    publication: GcPublication,
    prepared: GcPreparedPublish,
    source_rows: Seq<SegmentState>,
    publish_lsn: StrataLsn,
    first: int,
    second: int,
)
    requires
        publication.publishes(prepared, source_rows, publish_lsn),
        0 <= first < prepared.survivors@.len(),
        0 <= second < prepared.survivors@.len(),
        ({
            let a = prepared.survivors@[first].staged;
            let b = prepared.survivors@[second].staged;
            a.segment_id == b.segment_id && a.offset + a.len <= b.offset
        }),
    ensures
        ({
            let a = publication.relocation_entries@[first].to;
            let b = publication.relocation_entries@[second].to;
            a.segment_id == b.segment_id && a.offset + a.len <= b.offset
        }),
{
    law_survivors_are_published_where_they_were_staged(
        publication,
        prepared,
        source_rows,
        publish_lsn,
        first,
    );
    law_survivors_are_published_where_they_were_staged(
        publication,
        prepared,
        source_rows,
        publish_lsn,
        second,
    );
}

/// The fence stamps one record: the destination is the staged place under the output's name, and
/// what is known of the copied record stays.
pub proof fn law_the_fence_changes_only_the_segment(
    record: GcStagedCopiedRecord,
    names: Map<SegmentId, SegmentId>,
    publish_lsn: StrataLsn,
)
    ensures
        ({
            let published = publish::fenced(record, names, publish_lsn);
            &&& published.to.offset == record.staged.offset
            &&& published.to.len == record.staged.len
            &&& published.to.segment_id == names[record.staged.segment_id]
            &&& published.source == record.source
            &&& published.publish_lsn == publish_lsn
        }),
{
}

/// Every copied record that was relocated is reported as retired at the fence, at the place that it
/// was copied from; nothing else is reported.
pub proof fn law_copied_records_are_retired(
    publication: GcPublication,
    prepared: GcPreparedPublish,
    source_rows: Seq<SegmentState>,
    publish_lsn: StrataLsn,
    at: int,
)
    requires
        publication.publishes(prepared, source_rows, publish_lsn),
        0 <= at < prepared.survivors@.len(),
    ensures
        publication.relocation_garbage@.len() == prepared.survivors@.len(),
        exists|k: int|
            0 <= k < publication.relocation_garbage@.len() && ({
                let report = (#[trigger] publication.relocation_garbage@[k])@;
                let source = prepared.survivors@[at].source;
                &&& report.event == (GarbageEvent::Retired { record: source.from })
                &&& report.lsn == publish_lsn
                &&& report.blob_key == source.key@
                &&& report.segment_id == source.from.segment_id
            }),
{
    broadcast use vstd::seq_lib::group_to_multiset_ensures;

    let reports = garbage::records_view(publication.relocation_garbage@);
    let expected = publish::retirements(publication.published_records@);
    let names = publication.outputs.staged_to_final_segment_id@;
    assert(publication.published_records@[at] == publish::fenced(
        prepared.survivors@[at],
        names,
        publish_lsn,
    ));
    reports.to_multiset_ensures();
    expected.to_multiset_ensures();
    assert(expected.contains(expected[at]));
    assert(reports.to_multiset().count(expected[at]) > 0);
    assert(reports.contains(expected[at]));
    let k = reports.index_of(expected[at]);
    assert(reports[k] == publication.relocation_garbage@[k]@);
}

// Sources.

/// A source can be fenced exactly where its row is there and says that the segment is sealed. Where
/// segments have one row each, that row decides.
pub proof fn law_only_sealed_sources_are_fenced(
    rows: Seq<SegmentState>,
    segment_id: SegmentId,
    at: int,
)
    requires
        forall|i: int, j: int|
            0 <= i < j < rows.len() ==> (#[trigger] rows[i]).segment_id
                != (#[trigger] rows[j]).segment_id,
    ensures
        (forall|i: int| 0 <= i < rows.len() ==> (#[trigger] rows[i]).segment_id != segment_id)
            ==> publish::fence_fault(rows, segment_id) == Some(
            GcError::MissingSourceSegment { segment_id },
        ),
        0 <= at < rows.len() && rows[at].segment_id == segment_id ==> {
            let fenced = publish::fencing_row(rows, segment_id);
            &&& rows[at].state == SegmentFileState::Sealed ==> publish::fence_fault(
                rows,
                segment_id,
            ) is None
            &&& rows[at].state != SegmentFileState::Sealed ==> publish::fence_fault(
                rows,
                segment_id,
            ) == Some(GcError::SourceSegmentNotSealed { segment_id, state: rows[at].state })
            &&& fenced.state == SegmentFileState::GcRelocating
            &&& fenced == (SegmentState { state: fenced.state, ..rows[at] })
        },
{
    lemma_row(rows, segment_id, at);
}

proof fn lemma_row(rows: Seq<SegmentState>, segment_id: SegmentId, at: int)
    requires
        forall|i: int, j: int|
            0 <= i < j < rows.len() ==> (#[trigger] rows[i]).segment_id
                != (#[trigger] rows[j]).segment_id,
    ensures
        (forall|i: int| 0 <= i < rows.len() ==> (#[trigger] rows[i]).segment_id != segment_id)
            ==> publish::row_of(rows, segment_id) is None,
        0 <= at < rows.len() && rows[at].segment_id == segment_id ==> publish::row_of(
            rows,
            segment_id,
        ) == Some(rows[at]),
    decreases rows.len(),
{
    if rows.len() > 0 {
        let rest = rows.skip(1);
        assert forall|i: int, j: int| 0 <= i < j < rest.len() implies (#[trigger] rest[i]).segment_id
            != (#[trigger] rest[j]).segment_id by {
            assert(rest[i] == rows[i + 1] && rest[j] == rows[j + 1]);
        }
        lemma_row(rest, segment_id, at - 1);
        if forall|i: int| 0 <= i < rows.len() ==> (#[trigger] rows[i]).segment_id != segment_id {
            assert forall|i: int| 0 <= i < rest.len() implies (#[trigger] rest[i]).segment_id
                != segment_id by {
                assert(rest[i] == rows[i + 1]);
            }
            assert(rows[0].segment_id != segment_id);
        }
        if 0 < at < rows.len() && rows[at].segment_id == segment_id {
            assert(rows[0].segment_id != rows[at].segment_id);
            assert(rest[at - 1] == rows[at]);
        }
    }
}

/// Only the sources of survivors are fenced, each once, in ascending order.
pub proof fn law_only_sources_of_survivors_are_fenced(
    publication: GcPublication,
    prepared: GcPreparedPublish,
    source_rows: Seq<SegmentState>,
    publish_lsn: StrataLsn,
    at: int,
)
    requires
        publication.publishes(prepared, source_rows, publish_lsn),
        0 <= at < publication.relocating_states@.len(),
    ensures
        exists|k: int|
            0 <= k < prepared.survivors@.len() && publish::fence_fault(
                source_rows,
                (#[trigger] prepared.survivors@[k]).source.from.segment_id,
            ) is None && publication.relocating_states@[at] == publish::fencing_row(
                source_rows,
                prepared.survivors@[k].source.from.segment_id,
            ),
{
    let survivors = prepared.survivors@;
    let ids = choose|ids: Seq<SegmentId>| #[trigger]
        outputs::ascending(ids) && ids.to_set() == outputs::source_ids(survivors)
            && publication.relocating_states@.len() == ids.len() && forall|k: int|
            0 <= k < ids.len() ==> publish::fence_fault(source_rows, #[trigger] ids[k]) is None
                && publication.relocating_states@[k] == publish::fencing_row(source_rows, ids[k]);
    assert(ids.to_set().contains(ids[at]));
    lemma_source(survivors, ids[at]);
}

proof fn lemma_source(survivors: Seq<GcStagedCopiedRecord>, id: SegmentId)
    requires
        outputs::source_ids(survivors).contains(id),
    ensures
        exists|k: int|
            0 <= k < survivors.len() && (#[trigger] survivors[k]).source.from.segment_id == id,
    decreases survivors.len(),
{
    let last = survivors.len() - 1;
    if survivors[last].source.from.segment_id != id {
        lemma_source(survivors.drop_last(), id);
        let k = choose|k: int|
            0 <= k < survivors.drop_last().len() && (
            #[trigger] survivors.drop_last()[k]).source.from.segment_id == id;
        assert(survivors[k].source.from.segment_id == id);
    }
}

// Outputs.

/// An output that holds a survivor is sealed under its lasting identifier, in its shard's
/// possession, with its length and digest. One that holds none is marked deleted, and no other row
/// is.
pub proof fn law_outputs_become_segments(
    output: GcPrepublishedOutputSegment,
    state: SegmentFileState,
)
    ensures
        ({
            let row = output.row(state);
            &&& row.segment_id == output.segment_id
            &&& row.owner == SegmentOwner::Shard(output.shard)
            &&& row.path == output.relative_path
            &&& row.placement_class == output.placement_class
            &&& row.state == state
            &&& row.write_offset == output.sealed_len && row.durable_offset == output.sealed_len
            &&& row.sealed_len == Some(output.sealed_len)
            &&& row.sealed_sha256 == Some(output.sealed_sha256)
            &&& row.min_lsn is None && row.max_lsn is None && row.sealed_before_lsn is None
            &&& row.volume_id == 0
        }),
        ({
            let published = output.as_published();
            &&& published.staged_segment_id == output.staged_segment_id
            &&& published.segment_id == output.segment_id
            &&& published.shard == output.shard
            &&& published.path == output.path
            &&& published.placement_class == output.placement_class
            &&& published.sealed_len == output.sealed_len
        }),
{
}

/// A row is marked deleted only for an output that holds no survivor.
pub proof fn law_only_unused_outputs_are_deleted(
    given: Seq<GcPrepublishedOutputSegment>,
    used: Set<SegmentId>,
    at: int,
)
    requires
        0 <= at < commit::unused_rows(given, used).len(),
    ensures
        exists|k: int|
            0 <= k < given.len() && !used.contains((#[trigger] given[k]).staged_segment_id)
                && commit::unused_rows(given, used)[at] == given[k].row(SegmentFileState::Deleted),
    decreases given.len(),
{
    let init = given.drop_last();
    let earlier = commit::unused_rows(init, used);
    if at < earlier.len() {
        law_only_unused_outputs_are_deleted(init, used, at);
        let k = choose|k: int|
            0 <= k < init.len() && !used.contains((#[trigger] init[k]).staged_segment_id)
                && earlier[at] == init[k].row(SegmentFileState::Deleted);
        assert(given[k] == init[k]);
    } else {
        assert(given[given.len() - 1] == given.last());
    }
}

/// The staging files that count as used are those that hold a survivor, and each becomes the
/// segment that its output was given as.
pub proof fn law_used_outputs_are_promoted(
    plan: PlannedGcOutputSegments,
    given: Seq<GcPrepublishedOutputSegment>,
    survivors: Seq<GcStagedCopiedRecord>,
    at: int,
)
    requires
        plan.promotes(given, survivors),
        forall|i: int, j: int|
            0 <= i < j < given.len() ==> (#[trigger] given[i]).staged_segment_id
                != (#[trigger] given[j]).staged_segment_id,
        0 <= at < given.len(),
    ensures
        ({
            let id = given[at].staged_segment_id;
            let names = plan.staged_to_final_segment_id@;
            let holds = exists|k: int|
                0 <= k < survivors.len() && (#[trigger] survivors[k]).staged.segment_id == id;
            &&& names.dom().contains(id) <==> holds
            &&& holds ==> names[id] == given[at].segment_id && plan.published_outputs@.contains(
                given[at].as_published(),
            ) && plan.segment_states@.contains(given[at].row(SegmentFileState::Sealed))
        }),
{
    let id = given[at].staged_segment_id;
    let used = plan.used_staged_ids@;
    let names = plan.staged_to_final_segment_id@;
    lemma_output_at(given, at);
    lemma_staged(survivors, id);
    assert(used.to_set().contains(id) <==> used.contains(id));
    if outputs::staged_ids(survivors).contains(id) {
        let k = used.index_of(id);
        assert(used[k] == id);
        assert(names.dom().contains(used[k]));
        assert(plan.published_outputs@[k] == given[at].as_published());
        assert(plan.segment_states@[k] == given[at].row(SegmentFileState::Sealed));
    } else if names.dom().contains(id) {
        let k = choose|k: int| 0 <= k < used.len() && used[k] == id;
        assert(used.contains(used[k]));
    }
}

proof fn lemma_output_at(given: Seq<GcPrepublishedOutputSegment>, at: int)
    requires
        0 <= at < given.len(),
        forall|i: int, j: int|
            0 <= i < j < given.len() ==> (#[trigger] given[i]).staged_segment_id
                != (#[trigger] given[j]).staged_segment_id,
    ensures
        outputs::output_for(given, given[at].staged_segment_id) == Some(at),
    decreases given.len(),
{
    if at < given.len() - 1 {
        let init = given.drop_last();
        assert forall|i: int, j: int| 0 <= i < j < init.len() implies (
        #[trigger] init[i]).staged_segment_id != (#[trigger] init[j]).staged_segment_id by {
            assert(init[i] == given[i] && init[j] == given[j]);
        }
        lemma_output_at(init, at);
        assert(init[at] == given[at]);
        assert(given[at].staged_segment_id != given[given.len() - 1].staged_segment_id);
    }
}

proof fn lemma_staged(survivors: Seq<GcStagedCopiedRecord>, id: SegmentId)
    ensures
        outputs::staged_ids(survivors).contains(id) <==> exists|k: int|
            0 <= k < survivors.len() && (#[trigger] survivors[k]).staged.segment_id == id,
    decreases survivors.len(),
{
    if survivors.len() > 0 {
        let init = survivors.drop_last();
        lemma_staged(init, id);
        assert(survivors[survivors.len() - 1] == survivors.last());
        if outputs::staged_ids(init).contains(id) {
            let k = choose|k: int|
                0 <= k < init.len() && (#[trigger] init[k]).staged.segment_id == id;
            assert(survivors[k].staged.segment_id == id);
        }
        if exists|k: int|
            0 <= k < survivors.len() && (#[trigger] survivors[k]).staged.segment_id == id {
            let k = choose|k: int|
                0 <= k < survivors.len() && (#[trigger] survivors[k]).staged.segment_id == id;
            if k < init.len() {
                assert(init[k].staged.segment_id == id);
            }
        }
    }
}

/// An output's bounds are the least and the greatest LSN of what was published into it; without
/// any, the row stays.
pub proof fn law_bounds_are_least_and_greatest(
    row: SegmentState,
    published: Seq<GcPublishedRecord>,
    at: int,
)
    ensures
        ({
            let bounded = publish::bounded(row, published);
            let within = 0 <= at < published.len() && published[at].to.segment_id
                == row.segment_id;
            &&& within ==> (bounded.min_lsn matches Some(least) && least
                <= published[at].publish_lsn)
            &&& within ==> (bounded.max_lsn matches Some(greatest) && published[at].publish_lsn
                <= greatest)
            &&& bounded != row ==> exists|i: int, j: int|
                0 <= i < published.len() && 0 <= j < published.len() && (
                #[trigger] published[i]).to.segment_id == row.segment_id && (
                #[trigger] published[j]).to.segment_id == row.segment_id && bounded.min_lsn == Some(
                    published[i].publish_lsn,
                ) && bounded.max_lsn == Some(published[j].publish_lsn)
            &&& bounded == (SegmentState {
                min_lsn: bounded.min_lsn,
                max_lsn: bounded.max_lsn,
                ..row
            })
        }),
{
    lemma_span(published, row.segment_id);
}

proof fn lemma_span(published: Seq<GcPublishedRecord>, segment_id: SegmentId)
    ensures
        match publish::lsn_span(published, segment_id) {
            None => forall|k: int|
                0 <= k < published.len() ==> (#[trigger] published[k]).to.segment_id != segment_id,
            Some((least, greatest)) => {
                &&& forall|k: int|
                    0 <= k < published.len() && (#[trigger] published[k]).to.segment_id
                        == segment_id ==> least <= published[k].publish_lsn <= greatest
                &&& exists|i: int|
                    0 <= i < published.len() && (#[trigger] published[i]).to.segment_id
                        == segment_id && published[i].publish_lsn == least
                &&& exists|j: int|
                    0 <= j < published.len() && (#[trigger] published[j]).to.segment_id
                        == segment_id && published[j].publish_lsn == greatest
            },
        },
    decreases published.len(),
{
    if published.len() > 0 {
        let init = published.drop_last();
        let last = published.len() - 1;
        lemma_span(init, segment_id);
        assert forall|k: int| 0 <= k < init.len() implies #[trigger] published[k] == init[k] by {}
        if let Some((least, greatest)) = publish::lsn_span(init, segment_id) {
            let i = choose|i: int|
                0 <= i < init.len() && (#[trigger] init[i]).to.segment_id == segment_id
                    && init[i].publish_lsn == least;
            let j = choose|j: int|
                0 <= j < init.len() && (#[trigger] init[j]).to.segment_id == segment_id
                    && init[j].publish_lsn == greatest;
            assert(published[i] == init[i] && published[j] == init[j]);
        }
        assert(published[last] == published.last());
    }
}

/// What an output is born with is counted record by record: a published record adds its length to
/// the live bytes of its own output only, a skipped one to the retired or the expired bytes of the
/// output that it was staged in.
pub proof fn law_births_are_counted_record_by_record(
    published: Seq<GcPublishedRecord>,
    record: GcPublishedRecord,
    skipped: Seq<GcSkippedCopiedRecord>,
    lost: GcSkippedCopiedRecord,
    names: Map<SegmentId, SegmentId>,
    segment_id: SegmentId,
)
    ensures
        ({
            let here = record.to.segment_id == segment_id;
            let there = names.dom().contains(lost.record.staged.segment_id)
                && names[lost.record.staged.segment_id] == segment_id;
            let live = |records: Seq<GcPublishedRecord>| publish::live_at_birth(records, segment_id);
            let refs = |records: Seq<GcPublishedRecord>| publish::refs_at_birth(records, segment_id);
            let retired = |records: Seq<GcSkippedCopiedRecord>|
                publish::dead_at_birth(
                    records,
                    names,
                    segment_id,
                    GcSkippedCopiedRecordKind::Retired,
                );
            let expired = |records: Seq<GcSkippedCopiedRecord>|
                publish::dead_at_birth(
                    records,
                    names,
                    segment_id,
                    GcSkippedCopiedRecordKind::Expired,
                );
            let len = lost.record.staged.len as int;
            &&& live(Seq::empty()) == 0 && refs(Seq::empty()) == 0 && retired(Seq::empty()) == 0
                && expired(Seq::empty()) == 0
            &&& live(published.push(record)) - live(published) == (if here {
                record.to.len as int
            } else {
                0
            })
            &&& refs(published.push(record)) - refs(published) == (if here {
                1int
            } else {
                0
            })
            &&& retired(skipped.push(lost)) - retired(skipped) == (if there && lost.kind
                == GcSkippedCopiedRecordKind::Retired {
                len
            } else {
                0
            })
            &&& expired(skipped.push(lost)) - expired(skipped) == (if there && lost.kind
                == GcSkippedCopiedRecordKind::Expired {
                len
            } else {
                0
            })
        }),
{
    assert(published.push(record).drop_last() =~= published);
    assert(skipped.push(lost).drop_last() =~= skipped);
}

/// An output has no summary at birth only where a sum of bytes exceeds what a summary can count.
pub proof fn law_births_are_summed_up_if_they_fit(
    summary: SegmentGcSummary,
    row: SegmentState,
    published: Seq<GcPublishedRecord>,
    skipped: Seq<GcSkippedCopiedRecord>,
    names: Map<SegmentId, SegmentId>,
)
    ensures
        ({
            let id = row.segment_id;
            let live = publish::live_at_birth(published, id);
            let retired = publish::dead_at_birth(
                skipped,
                names,
                id,
                GcSkippedCopiedRecordKind::Retired,
            );
            let expired = publish::dead_at_birth(
                skipped,
                names,
                id,
                GcSkippedCopiedRecordKind::Expired,
            );
            &&& publish::is_birth_summary(summary, row, published, skipped, names)
                ==> !publish::birth_overflows(row, published, skipped, names)
            &&& live <= u64::MAX && retired <= u64::MAX && expired <= u64::MAX
                ==> !publish::birth_overflows(row, published, skipped, names)
        }),
{
}

/// An output's garbage log opens with one terminal event for each skipped record that lies in it,
/// at the place that the record was staged at.
pub proof fn law_skipped_copies_are_garbage_at_birth(
    skipped: Seq<GcSkippedCopiedRecord>,
    lost: GcSkippedCopiedRecord,
    names: Map<SegmentId, SegmentId>,
    segment_id: SegmentId,
)
    ensures
        ({
            let before = publish::birth_garbage(skipped, names, segment_id);
            let after = publish::birth_garbage(skipped.push(lost), names, segment_id);
            let there = names.dom().contains(lost.record.staged.segment_id)
                && names[lost.record.staged.segment_id] == segment_id;
            let place = RecordRef {
                segment_id,
                offset: lost.record.staged.offset,
                len: lost.record.staged.len,
            };
            &&& publish::birth_garbage(Seq::empty(), names, segment_id) == Seq::<
                GarbageRecordView,
            >::empty()
            &&& !there ==> after == before
            &&& there ==> after.len() == before.len() + 1 && before.is_prefix_of(after)
                && after.last().segment_id == segment_id && after.last().blob_key
                == lost.record.source.key@ && after.last().lsn == lost.record.source.payload_lsn
                && after.last().event == (if lost.kind == GcSkippedCopiedRecordKind::Retired {
                GarbageEvent::Retired { record: place }
            } else {
                GarbageEvent::Expired { record: place }
            })
        }),
{
    assert(skipped.push(lost).drop_last() =~= skipped);
}

/// The store-wide totals grow by the skipped bytes that promoted outputs carry, as garbage of their
/// kind, and by no live byte.
pub proof fn law_skipped_bytes_reach_the_totals(
    skipped: Seq<GcSkippedCopiedRecord>,
    lost: GcSkippedCopiedRecord,
    names: Map<SegmentId, SegmentId>,
)
    ensures
        ({
            let retired = |records: Seq<GcSkippedCopiedRecord>|
                commit::promoted_garbage(records, names, GcSkippedCopiedRecordKind::Retired);
            let expired = |records: Seq<GcSkippedCopiedRecord>|
                commit::promoted_garbage(records, names, GcSkippedCopiedRecordKind::Expired);
            let delta = commit::birth_delta(skipped, names);
            let promoted = names.dom().contains(lost.record.staged.segment_id);
            &&& retired(Seq::empty()) == 0 && expired(Seq::empty()) == 0
            &&& retired(skipped.push(lost)) - retired(skipped) == (if promoted && lost.kind
                == GcSkippedCopiedRecordKind::Retired {
                lost.record.staged.len as int
            } else {
                0
            })
            &&& expired(skipped.push(lost)) - expired(skipped) == (if promoted && lost.kind
                == GcSkippedCopiedRecordKind::Expired {
                lost.record.staged.len as int
            } else {
                0
            })
            &&& delta.live_bytes == 0 && delta.live_ref_count == 0
            &&& retired(skipped) + expired(skipped) <= i128::MAX ==> delta.retired_bytes == retired(
                skipped,
            ) && delta.expired_bytes == expired(skipped) && delta.total_bytes == retired(skipped)
                + expired(skipped)
        }),
{
    assert(skipped.push(lost).drop_last() =~= skipped);
}

/// Sources are charged for every record that a promoted output carries, survivor or not, by the
/// length that it takes there, and for none that a deleted output carries.
pub proof fn law_sources_are_charged_record_by_record(
    survivors: Seq<GcStagedCopiedRecord>,
    kept: GcStagedCopiedRecord,
    skipped: Seq<GcSkippedCopiedRecord>,
    lost: GcSkippedCopiedRecord,
    used: Set<SegmentId>,
    source: SegmentId,
)
    ensures
        ({
            let charge = |a: Seq<GcStagedCopiedRecord>, b: Seq<GcSkippedCopiedRecord>|
                outputs::bytes_of(outputs::promoted_records(a, b, used), source);
            &&& charge(Seq::empty(), Seq::empty()) == 0
            &&& charge(survivors.push(kept), Seq::empty()) - charge(survivors, Seq::empty()) == (
            if kept.source.from.segment_id == source {
                kept.staged.len as int
            } else {
                0
            })
            &&& charge(survivors, skipped.push(lost)) - charge(survivors, skipped) == (
            if used.contains(lost.record.staged.segment_id)
                && lost.record.source.from.segment_id == source {
                lost.record.staged.len as int
            } else {
                0
            })
        }),
{
    assert(survivors.push(kept).drop_last() =~= survivors);
    assert(skipped.push(lost).drop_last() =~= skipped);
    let none = Seq::<GcSkippedCopiedRecord>::empty();
    let before = outputs::promoted_records(survivors, none, used);
    let after = outputs::promoted_records(survivors.push(kept), none, used);
    assert(after.drop_last() =~= before);
    let less = outputs::promoted_records(survivors, skipped, used);
    let more = outputs::promoted_records(survivors, skipped.push(lost), used);
    if used.contains(lost.record.staged.segment_id) {
        assert(more.drop_last() =~= less);
    }
}

/// Totals are sums: of the sealed lengths of outputs, and of the shares of sources.
pub proof fn law_totals_are_sums(
    published: Seq<GcPublishedOutputSegment>,
    output: GcPublishedOutputSegment,
    shares: Seq<SourceShare>,
    share: SourceShare,
)
    ensures
        outputs::sealed_bytes(Seq::empty()) == 0,
        outputs::sealed_bytes(published.push(output)) == outputs::sealed_bytes(published)
            + output.sealed_len,
        outputs::share_bytes(Seq::empty()) == 0,
        outputs::share_bytes(shares.push(share)) == outputs::share_bytes(shares)
            + share.output_bytes,
{
    assert(published.push(output).drop_last() =~= published);
    assert(shares.push(share).drop_last() =~= shares);
}

/// The promoted outputs' lengths come to what their sources are charged.
pub proof fn law_published_bytes_are_charged(
    publication: GcPublication,
    prepared: GcPreparedPublish,
    source_rows: Seq<SegmentState>,
    publish_lsn: StrataLsn,
    at: int,
)
    requires
        publication.publishes(prepared, source_rows, publish_lsn),
    ensures
        outputs::sealed_bytes(publication.outputs.published_outputs@) == outputs::share_bytes(
            publication.reclaim_rows@,
        ),
        publication.published_output_bytes == outputs::sealed_bytes(
            publication.outputs.published_outputs@,
        ),
        0 <= at < publication.births@.len() ==> {
            let summary = publication.births@[at].summary;
            let row = publication.output_states@[at];
            &&& summary.total_bytes == row.write_offset
            &&& summary.live_bytes == publish::live_at_birth(
                publication.published_records@,
                row.segment_id,
            )
            &&& summary.live_ref_count == publish::refs_at_birth(
                publication.published_records@,
                row.segment_id,
            )
            &&& summary.unknown_lifetime_bytes == summary.live_bytes
            &&& summary.unknown_lifetime_ref_count == summary.live_ref_count
        },
{
    let used = publication.outputs.used_staged_ids@.to_set();
    let shares = outputs::promoted_records(prepared.survivors@, prepared.skipped@, used);
    outputs::law_attribution_is_complete(publication.reclaim_rows@, shares);
    if 0 <= at < publication.births@.len() {
        assert(publish::is_birth_summary(
            publication.births@[at].summary,
            publication.output_states@[at],
            publication.published_records@,
            prepared.skipped@,
            publication.outputs.staged_to_final_segment_id@,
        ));
    }
}

// Orders and faults.

/// Copies are revalidated in the order of their segment, offset and length; only in the same place
/// do the LSN, the shard and the key decide.
pub proof fn law_copies_come_in_the_order_of_their_place(a: GcCopyRecord, b: GcCopyRecord)
    ensures
        ({
            let before = reconcile::source_precedes(a, b) && !reconcile::source_precedes(b, a);
            let same_segment = a.from.segment_id == b.from.segment_id;
            let same_offset = same_segment && a.from.offset == b.from.offset;
            let same_place = same_offset && a.from.len == b.from.len;
            let same_write = same_place && a.payload_lsn == b.payload_lsn;
            &&& a.from.segment_id < b.from.segment_id ==> before
            &&& same_segment && a.from.offset < b.from.offset ==> before
            &&& same_offset && a.from.len < b.from.len ==> before
            &&& same_place && a.payload_lsn < b.payload_lsn ==> before
            &&& same_write && a.shard.id < b.shard.id ==> before
            &&& same_write && a.shard.id == b.shard.id && a.shard.generation < b.shard.generation
                ==> before
            &&& same_write && a.shard == b.shard ==> reconcile::source_precedes(a, b)
                == keys::key_before(a.key@, b.key@)
        }),
{
}

/// Garbage comes in the order of its segment, key and LSN; only then do the offset and the length of
/// the record decide.
pub proof fn law_garbage_comes_in_the_order_of_its_key(a: GarbageRecord, b: GarbageRecord)
    ensures
        ({
            let before = a.precedes(b) && !b.precedes(a);
            let same_segment = a.key.segment_id == b.key.segment_id;
            let same_key = same_segment && a.key.blob_key@ == b.key.blob_key@;
            let same_lsn = same_key && a.lsn == b.lsn;
            let one = a.event.spec_record();
            let other = b.event.spec_record();
            &&& a.key.segment_id < b.key.segment_id ==> before
            &&& same_segment && a.key.blob_key@ != b.key.blob_key@ ==> a.precedes(b)
                == keys::key_before(a.key.blob_key@, b.key.blob_key@)
            &&& same_key && a.lsn < b.lsn ==> before
            &&& same_lsn && one.offset < other.offset ==> before
            &&& same_lsn && one.offset == other.offset && one.len < other.len ==> before
            &&& same_lsn && one.offset == other.offset && one.len == other.len ==> !a.precedes(b)
        }),
{
}

/// A publication that misses an output names the least that it misses; bytes that do not add up are
/// told with both sums; and a source that cannot be fenced is the least such, found only where the
/// outputs are there and their bytes add up.
pub proof fn law_publications_fail_for_a_reason(
    prepared: GcPreparedPublish,
    source_rows: Seq<SegmentState>,
    error: GcError,
    staged: SegmentId,
)
    requires
        commit::publish_fault(prepared, source_rows, error),
    ensures
        error matches GcError::MissingStagedOutput { staged_segment_id } ==> {
            &&& outputs::staged_ids(prepared.survivors@).contains(staged_segment_id)
            &&& outputs::output_for(prepared.outputs@, staged_segment_id) is None
            &&& outputs::staged_ids(prepared.survivors@).contains(staged) && staged
                < staged_segment_id ==> outputs::output_for(prepared.outputs@, staged) is Some
        },
        error !is MissingStagedOutput && outputs::staged_ids(prepared.survivors@).contains(staged)
            ==> outputs::output_for(prepared.outputs@, staged) is Some,
        error matches GcError::ByteMismatch { published, attributed } ==> published != attributed,
        error is MissingSourceSegment || error is SourceSegmentNotSealed ==> exists|id: SegmentId|
            outputs::source_ids(prepared.survivors@).contains(id) && #[trigger] publish::fence_fault(
                source_rows,
                id,
            ) == Some(error) && forall|other: SegmentId| #[trigger]
                outputs::source_ids(prepared.survivors@).contains(other) && other < id
                    ==> publish::fence_fault(source_rows, other) is None,
{
}

/// An output is found by its staging file: the last of that file, and none where there is none.
pub proof fn law_outputs_are_found_by_their_staging_file(
    given: Seq<GcPrepublishedOutputSegment>,
    id: SegmentId,
)
    ensures
        match outputs::output_for(given, id) {
            Some(at) => 0 <= at < given.len() && given[at].staged_segment_id == id && forall|i: int|
                at < i < given.len() ==> (#[trigger] given[i]).staged_segment_id != id,
            None => forall|i: int|
                0 <= i < given.len() ==> (#[trigger] given[i]).staged_segment_id != id,
        },
    decreases given.len(),
{
    if given.len() > 0 {
        let init = given.drop_last();
        law_outputs_are_found_by_their_staging_file(init, id);
        assert(given[given.len() - 1] == given.last());
        assert forall|i: int| 0 <= i < init.len() implies #[trigger] given[i] == init[i] by {}
    }
}

} // verus!
