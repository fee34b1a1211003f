//! Publishing surviving copies: everything that one atomic batch writes, decided before it is
//! written.

use std::collections::BTreeMap;

use vstd::prelude::*;

use super::outputs;
use super::outputs::{source_segment_ids, GcError, GcPrepublishedOutputSegment};
use super::reconcile::{
    GcCopyRecord, GcSkippedCopiedRecord, GcSkippedCopiedRecordKind, GcStagedCopiedRecord,
};
use crate::blob_lsm::garbage;
use crate::blob_lsm::garbage::{terminal_garbage_record, BlobKey, GarbageRecord, GarbageRecordView};
use crate::keys;
use crate::sorting;
use crate::sorting::Precedes;
use crate::segments::{PlacementClass, SegmentFileState, SegmentState};
use crate::types::{RecordRef, SegmentId, ShardKey, StrataLsn};

verus! {

/// What a plan asks for.
#[derive(Clone, Debug, PartialEq, Eq)]
pub enum GcAction {
    DeleteSegment { segment_id: SegmentId },
    DeleteSegments { segment_ids: Vec<SegmentId> },
    ReclassifySegment { segment_id: SegmentId, placement_class: PlacementClass },
    MoveLiveBytes { source_segment_id: SegmentId },
    MoveLiveBytesFromSources { source_segment_ids: Vec<SegmentId> },
}

impl GcAction {
    /// The action touches index rows only.
    pub open spec fn spec_is_metadata(self) -> bool {
        match self {
            GcAction::MoveLiveBytes { .. } => false,
            GcAction::MoveLiveBytesFromSources { .. } => false,
            _ => true,
        }
    }

    /// The action touches index rows only.
    pub fn is_metadata(&self) -> (result: bool)
        ensures
            result == self.spec_is_metadata(),
    {
        match self {
            GcAction::MoveLiveBytes { .. } => false,
            GcAction::MoveLiveBytesFromSources { .. } => false,
            _ => true,
        }
    }
}

/// A revalidated copy, ready to be published.
#[derive(Debug)]
pub struct GcPreparedPublish {
    pub action: GcAction,
    pub outputs: Vec<GcPrepublishedOutputSegment>,
    pub survivors: Vec<GcStagedCopiedRecord>,
    pub skipped: Vec<GcSkippedCopiedRecord>,
}

/// One source record and the record that replaces it.
#[derive(Debug)]
pub struct GcPublishedRecord {
    pub source: GcCopyRecord,
    /// The staged place, under the output's lasting identifier.
    pub to: RecordRef,
    /// Durability frontier that the relocation counts as published at.
    pub publish_lsn: StrataLsn,
}

/// Where readers find a relocated record.
#[derive(Debug)]
pub struct RelocationEntry {
    pub key: BlobKey,
    pub shard: ShardKey,
    pub payload_lsn: StrataLsn,
    pub publish_lsn: StrataLsn,
    pub to: RecordRef,
}

/// What is known of a segment's bytes.
#[derive(Clone, Copy, Debug, PartialEq, Eq, Structural)]
pub struct SegmentGcSummary {
    pub total_bytes: u64,
    pub live_bytes: u64,
    pub retired_bytes: u64,
    pub expired_bytes: u64,
    pub live_ref_count: u64,
    pub unknown_lifetime_bytes: u64,
    pub unknown_lifetime_ref_count: u64,
}

/// A change to the store-wide totals of known garbage.
#[derive(Clone, Copy, Debug, PartialEq, Eq, Structural)]
pub struct GcKnownDelta {
    pub total_bytes: i128,
    pub live_bytes: i128,
    pub retired_bytes: i128,
    pub expired_bytes: i128,
    pub live_ref_count: i128,
}

// Sources.

/// The first row of a segment.
pub open spec fn row_of(rows: Seq<SegmentState>, segment_id: SegmentId) -> Option<SegmentState>
    decreases rows.len(),
{
    if rows.len() == 0 {
        None
    } else if rows[0].segment_id == segment_id {
        Some(rows[0])
    } else {
        row_of(rows.skip(1), segment_id)
    }
}

/// The first row of a segment.
pub fn find_row(rows: &Vec<SegmentState>, segment_id: SegmentId) -> (row: Option<&SegmentState>)
    ensures
        match row {
            Some(row) => row_of(rows@, segment_id) == Some(*row),
            None => row_of(rows@, segment_id) is None,
        },
{
    let mut i: usize = 0;
    assert(rows@.skip(0) =~= rows@);
    while i < rows.len()
        invariant
            i <= rows@.len(),
            row_of(rows@, segment_id) == row_of(rows@.skip(i as int), segment_id),
        decreases rows@.len() - i,
    {
        assert(rows@.skip(i as int)[0] == rows@[i as int]);
        assert(rows@.skip(i as int).skip(1) =~= rows@.skip(i + 1));
        if rows[i].segment_id == segment_id {
            return Some(&rows[i]);
        }
        i = i + 1;
    }
    None
}

/// What keeps a source from being fenced.
pub open spec fn fence_fault(rows: Seq<SegmentState>, segment_id: SegmentId) -> Option<GcError> {
    match row_of(rows, segment_id) {
        None => Some(GcError::MissingSourceSegment { segment_id }),
        Some(row) => if row.state != SegmentFileState::Sealed {
            Some(GcError::SourceSegmentNotSealed { segment_id, state: row.state })
        } else {
            None
        },
    }
}

/// The row that fences a source.
pub open spec fn fencing_row(rows: Seq<SegmentState>, segment_id: SegmentId) -> SegmentState {
    SegmentState {
        state: SegmentFileState::GcRelocating,
        ..row_of(rows, segment_id)->Some_0
    }
}

/// Fences every source that published at least one surviving relocation.
///
/// Only sealed sources qualify. The rows share the batch of the relocations, so no planner sees a
/// relocation without seeing that its source is ineligible for another copy plan.
pub fn plan_gc_relocating_source_states(
    ids: &Vec<SegmentId>,
    rows: &Vec<SegmentState>,
) -> (states: Result<Vec<SegmentState>, GcError>)
    ensures
        match states {
            Ok(states) => states@.len() == ids@.len() && forall|k: int|
                0 <= k < ids@.len() ==> fence_fault(rows@, #[trigger] ids@[k]) is None
                    && states@[k] == fencing_row(rows@, ids@[k]),
            Err(error) => exists|k: int|
                0 <= k < ids@.len() && fence_fault(rows@, #[trigger] ids@[k]) == Some(error)
                    && forall|j: int|
                    0 <= j < k ==> fence_fault(rows@, #[trigger] ids@[j]) is None,
        },
{
    let mut states: Vec<SegmentState> = Vec::new();
    let mut i: usize = 0;
    while i < ids.len()
        invariant
            i <= ids@.len(),
            states@.len() == i,
            forall|k: int|
                0 <= k < i ==> fence_fault(rows@, #[trigger] ids@[k]) is None && states@[k]
                    == fencing_row(rows@, ids@[k]),
        decreases ids@.len() - i,
    {
        let id: u64 = ids[i];
        assert(id == ids@[i as int]);
        match find_row(rows, id) {
            None => {
                return Err(GcError::MissingSourceSegment { segment_id: id });
            },
            Some(row) => {
                if row.state != SegmentFileState::Sealed {
                    return Err(
                        GcError::SourceSegmentNotSealed { segment_id: id, state: row.state },
                    );
                }
                let mut state: SegmentState = row.copy();
                state.state = SegmentFileState::GcRelocating;
                states.push(state);
            },
        }
        i = i + 1;
    }
    Ok(states)
}

// The fence.

/// The record's destination under its lasting identifier.
pub open spec fn fenced(
    record: GcStagedCopiedRecord,
    names: Map<SegmentId, SegmentId>,
    publish_lsn: StrataLsn,
) -> GcPublishedRecord {
    GcPublishedRecord {
        source: record.source,
        to: RecordRef { segment_id: names[record.staged.segment_id], ..record.staged },
        publish_lsn,
    }
}

/// Stamps each survivor with the fence and swaps its staging file for the output's lasting
/// identifier. The LSN of the original write is untouched.
pub fn assign_gc_publish_fence(
    publish_lsn: StrataLsn,
    survivors: Vec<GcStagedCopiedRecord>,
    names: &BTreeMap<SegmentId, SegmentId>,
) -> (published: Result<Vec<GcPublishedRecord>, GcError>)
    ensures
        match published {
            Ok(published) => published@.len() == survivors@.len() && forall|k: int|
                0 <= k < survivors@.len() ==> names@.dom().contains(
                    (#[trigger] survivors@[k]).staged.segment_id,
                ) && published@[k] == fenced(survivors@[k], names@, publish_lsn),
            Err(error) => exists|k: int|
                0 <= k < survivors@.len() && error == (GcError::MissingStagedOutput {
                    staged_segment_id: (#[trigger] survivors@[k]).staged.segment_id,
                }) && !names@.dom().contains(survivors@[k].staged.segment_id),
        },
{
    let mut published: Vec<GcPublishedRecord> = Vec::new();
    for record in it: survivors
        invariant
            it.seq() == survivors@,
            published@.len() == it.index(),
            forall|k: int|
                0 <= k < it.index() ==> names@.dom().contains(
                    (#[trigger] survivors@[k]).staged.segment_id,
                ) && published@[k] == fenced(survivors@[k], names@, publish_lsn),
    {
        let ghost at = it.index();
        assert(record == survivors@[at as int]);
        let id: u64 = record.staged.segment_id;
        let segment_id: u64 = match names.get(&id) {
            Some(segment_id) => *segment_id,
            None => {
                assert(survivors@[at as int].staged.segment_id == id);
                return Err(GcError::MissingStagedOutput { staged_segment_id: id });
            },
        };
        published.push(
            GcPublishedRecord {
                source: record.source,
                to: RecordRef {
                    segment_id,
                    offset: record.staged.offset,
                    len: record.staged.len,
                },
                publish_lsn,
            },
        );
    }
    Ok(published)
}

/// The least and the greatest publication LSN of the records in one segment.
pub open spec fn lsn_span(published: Seq<GcPublishedRecord>, segment_id: SegmentId) -> Option<
    (StrataLsn, StrataLsn),
>
    decreases published.len(),
{
    if published.len() == 0 {
        None
    } else {
        let earlier = lsn_span(published.drop_last(), segment_id);
        let lsn = published.last().publish_lsn;
        if published.last().to.segment_id != segment_id {
            earlier
        } else {
            match earlier {
                None => Some((lsn, lsn)),
                Some((least, greatest)) => Some(
                    (
                        if lsn < least {
                            lsn
                        } else {
                            least
                        },
                        if lsn > greatest {
                            lsn
                        } else {
                            greatest
                        },
                    ),
                ),
            }
        }
    }
}

/// The row with the bounds of the records that were published into its segment.
pub open spec fn bounded(row: SegmentState, published: Seq<GcPublishedRecord>) -> SegmentState {
    match lsn_span(published, row.segment_id) {
        None => row,
        Some((least, greatest)) => SegmentState {
            min_lsn: Some(least),
            max_lsn: Some(greatest),
            ..row
        },
    }
}

fn span_of(published: &Vec<GcPublishedRecord>, segment_id: SegmentId) -> (span: Option<
    (StrataLsn, StrataLsn),
>)
    ensures
        span == lsn_span(published@, segment_id),
{
    let mut span: Option<(u64, u64)> = None;
    let mut i: usize = 0;
    while i < published.len()
        invariant
            i <= published@.len(),
            span == lsn_span(published@.take(i as int), segment_id),
        decreases published@.len() - i,
    {
        assert(published@.take(i + 1).drop_last() =~= published@.take(i as int));
        if published[i].to.segment_id == segment_id {
            let lsn: u64 = published[i].publish_lsn;
            span = match span {
                None => Some((lsn, lsn)),
                Some((least, greatest)) => Some(
                    (
                        if lsn < least {
                            lsn
                        } else {
                            least
                        },
                        if lsn > greatest {
                            lsn
                        } else {
                            greatest
                        },
                    ),
                ),
            };
        }
        i = i + 1;
    }
    assert(published@.take(i as int) =~= published@);
    span
}

/// Gives every output the bounds of the records published into it.
pub fn apply_gc_output_lsn_bounds(
    states: &mut Vec<SegmentState>,
    published: &Vec<GcPublishedRecord>,
)
    ensures
        final(states)@.len() == old(states)@.len(),
        forall|k: int|
            0 <= k < old(states)@.len() ==> #[trigger] final(states)@[k] == bounded(
                old(states)@[k],
                published@,
            ),
{
    let ghost before = states@;
    let mut i: usize = 0;
    while i < states.len()
        invariant
            i <= states@.len(),
            states@.len() == before.len(),
            forall|k: int| 0 <= k < i ==> #[trigger] states@[k] == bounded(before[k], published@),
            forall|k: int| i <= k < before.len() ==> #[trigger] states@[k] == before[k],
        decreases states@.len() - i,
    {
        let mut row: SegmentState = states[i].copy();
        if let Some((least, greatest)) = span_of(published, row.segment_id) {
            row.min_lsn = Some(least);
            row.max_lsn = Some(greatest);
        }
        states.set(i, row);
        i = i + 1;
    }
}

// Relocations and garbage.

/// What the relocation LSM learns of one published record.
pub open spec fn is_entry_of(entry: RelocationEntry, record: GcPublishedRecord) -> bool {
    &&& entry.key@ == record.source.key@
    &&& entry.shard == record.source.shard
    &&& entry.payload_lsn == record.source.payload_lsn
    &&& entry.publish_lsn == record.publish_lsn
    &&& entry.to == record.to
}

/// The relocations of published records.
pub fn relocation_entries(published: &Vec<GcPublishedRecord>) -> (entries: Vec<RelocationEntry>)
    ensures
        entries@.len() == published@.len(),
        forall|k: int|
            0 <= k < published@.len() ==> is_entry_of(#[trigger] entries@[k], published@[k]),
{
    let mut entries: Vec<RelocationEntry> = Vec::new();
    let mut i: usize = 0;
    while i < published.len()
        invariant
            i <= published@.len(),
            entries@.len() == i,
            forall|k: int| 0 <= k < i ==> is_entry_of(#[trigger] entries@[k], published@[k]),
        decreases published@.len() - i,
    {
        let record: &GcPublishedRecord = &published[i];
        entries.push(
            RelocationEntry {
                key: record.source.key.copy(),
                shard: record.source.shard,
                payload_lsn: record.source.payload_lsn,
                publish_lsn: record.publish_lsn,
                to: record.to,
            },
        );
        i = i + 1;
    }
    entries
}

/// Garbage is logged by segment, key, LSN and place.
impl Precedes for GarbageRecord {
    open spec fn precedes(self, other: Self) -> bool {
        let a = self.event.spec_record();
        let b = other.event.spec_record();
        if self.key.segment_id != other.key.segment_id {
            self.key.segment_id < other.key.segment_id
        } else if self.key.blob_key@ != other.key.blob_key@ {
            keys::key_before(self.key.blob_key@, other.key.blob_key@)
        } else if self.lsn != other.lsn {
            self.lsn < other.lsn
        } else if a.offset != b.offset {
            a.offset < b.offset
        } else {
            a.len < b.len
        }
    }

    proof fn order_is_weak(a: Self, b: Self, c: Self) {
        keys::lemma_key_order(a.key.blob_key@, b.key.blob_key@, c.key.blob_key@);
        keys::lemma_key_order(b.key.blob_key@, c.key.blob_key@, a.key.blob_key@);
        keys::lemma_key_order(c.key.blob_key@, a.key.blob_key@, b.key.blob_key@);
        keys::lemma_key_order(a.key.blob_key@, c.key.blob_key@, b.key.blob_key@);
    }

    fn comes_before(&self, other: &Self) -> (result: bool) {
        let a: RecordRef = self.event.record();
        let b: RecordRef = other.event.record();
        if self.key.segment_id != other.key.segment_id {
            return self.key.segment_id < other.key.segment_id;
        }
        proof {
            keys::lemma_key_order(
                self.key.blob_key@,
                other.key.blob_key@,
                self.key.blob_key@,
            );
        }
        if keys::is_key_before(&self.key.blob_key.bytes, &other.key.blob_key.bytes) {
            return true;
        }
        if keys::is_key_before(&other.key.blob_key.bytes, &self.key.blob_key.bytes) {
            return false;
        }
        if self.lsn != other.lsn {
            self.lsn < other.lsn
        } else if a.offset != b.offset {
            a.offset < b.offset
        } else {
            a.len < b.len
        }
    }
}

/// The retirement of each published record's source.
pub open spec fn retirements(published: Seq<GcPublishedRecord>) -> Seq<GarbageRecordView> {
    Seq::new(
        published.len(),
        |k: int|
            garbage::retired(
                published[k].source.key@,
                published[k].publish_lsn,
                published[k].source.from,
                published[k].source.lifecycle,
            ),
    )
}

proof fn lemma_sorted_views(records: Seq<GarbageRecord>)
    ensures
        garbage::records_view(sorting::in_order(records)).to_multiset()
            =~= garbage::records_view(records).to_multiset(),
    decreases records.len(),
{
    broadcast use vstd::seq_lib::group_to_multiset_ensures;

    if records.len() > 0 {
        let init = records.drop_last();
        let last = records.last();
        lemma_sorted_views(init);
        sorting::law_sorted(init);
        let earlier = sorting::in_order(init);
        let at = sorting::place_of(earlier, last);
        sorting::lemma_place_of(earlier, last);
        let all = earlier.insert(at, last);
        assert(garbage::records_view(all) =~= garbage::records_view(earlier).insert(at, last@));
        assert(garbage::records_view(all).to_multiset() =~= garbage::records_view(
            earlier,
        ).to_multiset().insert(last@));
        assert(garbage::records_view(records) =~= garbage::records_view(init).push(last@));
        assert(garbage::records_view(records).to_multiset() =~= garbage::records_view(
            init,
        ).to_multiset().insert(last@));
    } else {
        assert(sorting::in_order(records) =~= records);
    }
}

/// The terminal garbage of the sources: one retirement for each published record, in log order.
pub fn relocation_garbage(published: &Vec<GcPublishedRecord>) -> (records: Vec<GarbageRecord>)
    ensures
        sorting::is_ordered(records@),
        garbage::records_view(records@).to_multiset() == retirements(published@).to_multiset(),
        records@.len() == published@.len(),
{
    let mut records: Vec<GarbageRecord> = Vec::new();
    let mut i: usize = 0;
    while i < published.len()
        invariant
            i <= published@.len(),
            records@.len() == i,
            forall|k: int|
                0 <= k < i ==> (#[trigger] records@[k])@ == retirements(published@)[k],
        decreases published@.len() - i,
    {
        let record: &GcPublishedRecord = &published[i];
        records.push(
            terminal_garbage_record(
                &record.source.key,
                record.publish_lsn,
                record.source.from,
                record.source.lifecycle,
                false,
            ),
        );
        i = i + 1;
    }
    let ghost unsorted = records@;
    assert(garbage::records_view(unsorted) =~= retirements(published@));
    sorting::sort(&mut records);
    proof {
        lemma_sorted_views(unsorted);
        sorting::law_sorted(unsorted);
    }
    records
}

// Birth of an output.

/// Bytes of the published records in one output.
pub open spec fn live_at_birth(published: Seq<GcPublishedRecord>, segment_id: SegmentId) -> nat
    decreases published.len(),
{
    if published.len() == 0 {
        0
    } else {
        live_at_birth(published.drop_last(), segment_id) + (if published.last().to.segment_id
            == segment_id {
            published.last().to.len as nat
        } else {
            0
        })
    }
}

/// Number of the published records in one output.
pub open spec fn refs_at_birth(published: Seq<GcPublishedRecord>, segment_id: SegmentId) -> nat
    decreases published.len(),
{
    if published.len() == 0 {
        0
    } else {
        refs_at_birth(published.drop_last(), segment_id) + (if published.last().to.segment_id
            == segment_id {
            1nat
        } else {
            0
        })
    }
}

/// Whether a skipped record lies in the output with this identifier.
pub open spec fn lies_in(
    record: GcSkippedCopiedRecord,
    names: Map<SegmentId, SegmentId>,
    segment_id: SegmentId,
) -> bool {
    names.dom().contains(record.record.staged.segment_id)
        && names[record.record.staged.segment_id] == segment_id
}

/// Bytes of the skipped records of one kind in one output.
pub open spec fn dead_at_birth(
    skipped: Seq<GcSkippedCopiedRecord>,
    names: Map<SegmentId, SegmentId>,
    segment_id: SegmentId,
    kind: GcSkippedCopiedRecordKind,
) -> nat
    decreases skipped.len(),
{
    if skipped.len() == 0 {
        0
    } else {
        let last = skipped.last();
        dead_at_birth(skipped.drop_last(), names, segment_id, kind) + (if last.kind == kind
            && lies_in(last, names, segment_id) {
            last.record.staged.len as nat
        } else {
            0
        })
    }
}

/// The terminal events that an output is born with.
pub open spec fn birth_garbage(
    skipped: Seq<GcSkippedCopiedRecord>,
    names: Map<SegmentId, SegmentId>,
    segment_id: SegmentId,
) -> Seq<GarbageRecordView>
    decreases skipped.len(),
{
    if skipped.len() == 0 {
        Seq::empty()
    } else {
        let last = skipped.last();
        let earlier = birth_garbage(skipped.drop_last(), names, segment_id);
        if lies_in(last, names, segment_id) {
            let place = RecordRef { segment_id, ..last.record.staged };
            earlier.push(
                match last.kind {
                    GcSkippedCopiedRecordKind::Retired => garbage::retired(
                        last.record.source.key@,
                        last.record.source.payload_lsn,
                        place,
                        last.record.source.lifecycle,
                    ),
                    GcSkippedCopiedRecordKind::Expired => garbage::expired(
                        last.record.source.key@,
                        last.record.source.payload_lsn,
                        place,
                        last.record.source.lifecycle,
                    ),
                },
            )
        } else {
            earlier
        }
    }
}

/// The summary accounts for an output's bytes at birth: published records are live with an unknown
/// lifetime, skipped ones are garbage from the start.
pub open spec fn is_birth_summary(
    summary: SegmentGcSummary,
    row: SegmentState,
    published: Seq<GcPublishedRecord>,
    skipped: Seq<GcSkippedCopiedRecord>,
    names: Map<SegmentId, SegmentId>,
) -> bool {
    let id = row.segment_id;
    &&& summary.total_bytes == row.write_offset
    &&& summary.live_bytes == live_at_birth(published, id)
    &&& summary.live_ref_count == refs_at_birth(published, id)
    &&& summary.unknown_lifetime_bytes == live_at_birth(published, id)
    &&& summary.unknown_lifetime_ref_count == refs_at_birth(published, id)
    &&& summary.retired_bytes == dead_at_birth(
        skipped,
        names,
        id,
        GcSkippedCopiedRecordKind::Retired,
    )
    &&& summary.expired_bytes == dead_at_birth(
        skipped,
        names,
        id,
        GcSkippedCopiedRecordKind::Expired,
    )
}

/// Some byte count of an output's birth summary does not fit in 64 bits.
pub open spec fn birth_overflows(
    row: SegmentState,
    published: Seq<GcPublishedRecord>,
    skipped: Seq<GcSkippedCopiedRecord>,
    names: Map<SegmentId, SegmentId>,
) -> bool {
    let id = row.segment_id;
    ||| live_at_birth(published, id) > u64::MAX
    ||| dead_at_birth(skipped, names, id, GcSkippedCopiedRecordKind::Retired) > u64::MAX
    ||| dead_at_birth(skipped, names, id, GcSkippedCopiedRecordKind::Expired) > u64::MAX
}

proof fn lemma_live_grows(published: Seq<GcPublishedRecord>, segment_id: SegmentId, upto: int)
    requires
        0 <= upto <= published.len(),
    ensures
        live_at_birth(published.take(upto), segment_id) <= live_at_birth(published, segment_id),
    decreases published.len() - upto,
{
    if upto < published.len() {
        lemma_live_grows(published, segment_id, upto + 1);
        assert(published.take(upto + 1).drop_last() =~= published.take(upto));
    } else {
        assert(published.take(upto) =~= published);
    }
}

proof fn lemma_dead_grows(
    skipped: Seq<GcSkippedCopiedRecord>,
    names: Map<SegmentId, SegmentId>,
    segment_id: SegmentId,
    kind: GcSkippedCopiedRecordKind,
    upto: int,
)
    requires
        0 <= upto <= skipped.len(),
    ensures
        dead_at_birth(skipped.take(upto), names, segment_id, kind) <= dead_at_birth(
            skipped,
            names,
            segment_id,
            kind,
        ),
    decreases skipped.len() - upto,
{
    if upto < skipped.len() {
        lemma_dead_grows(skipped, names, segment_id, kind, upto + 1);
        assert(skipped.take(upto + 1).drop_last() =~= skipped.take(upto));
    } else {
        assert(skipped.take(upto) =~= skipped);
    }
}

fn lies_in_output(
    record: &GcSkippedCopiedRecord,
    names: &BTreeMap<SegmentId, SegmentId>,
    segment_id: SegmentId,
) -> (result: bool)
    ensures
        result == lies_in(*record, names@, segment_id),
{
    match names.get(&record.record.staged.segment_id) {
        Some(id) => *id == segment_id,
        None => false,
    }
}

fn birth_summary(
    row: &SegmentState,
    published: &Vec<GcPublishedRecord>,
    skipped: &Vec<GcSkippedCopiedRecord>,
    names: &BTreeMap<SegmentId, SegmentId>,
) -> (summary: Option<SegmentGcSummary>)
    ensures
        match summary {
            Some(summary) => is_birth_summary(summary, *row, published@, skipped@, names@),
            None => birth_overflows(*row, published@, skipped@, names@),
        },
{
    let id: u64 = row.segment_id;
    let mut live: u64 = 0;
    let mut refs: u64 = 0;
    let mut i: usize = 0;
    while i < published.len()
        invariant
            i <= published@.len(),
            id == row.segment_id,
            live == live_at_birth(published@.take(i as int), id),
            refs == refs_at_birth(published@.take(i as int), id),
            refs <= i,
        decreases published@.len() - i,
    {
        assert(published@.take(i + 1).drop_last() =~= published@.take(i as int));
        proof {
            lemma_live_grows(published@, id, i + 1);
        }
        if published[i].to.segment_id == id {
            match live.checked_add(published[i].to.len) {
                Some(next) => {
                    live = next;
                },
                None => return None,
            }
            refs = refs + 1;
        }
        i = i + 1;
    }
    assert(published@.take(i as int) =~= published@);
    let mut retired: u64 = 0;
    let mut expired: u64 = 0;
    let mut j: usize = 0;
    while j < skipped.len()
        invariant
            j <= skipped@.len(),
            id == row.segment_id,
            retired == dead_at_birth(
                skipped@.take(j as int),
                names@,
                id,
                GcSkippedCopiedRecordKind::Retired,
            ),
            expired == dead_at_birth(
                skipped@.take(j as int),
                names@,
                id,
                GcSkippedCopiedRecordKind::Expired,
            ),
        decreases skipped@.len() - j,
    {
        assert(skipped@.take(j + 1).drop_last() =~= skipped@.take(j as int));
        proof {
            lemma_dead_grows(skipped@, names@, id, GcSkippedCopiedRecordKind::Retired, j + 1);
            lemma_dead_grows(skipped@, names@, id, GcSkippedCopiedRecordKind::Expired, j + 1);
        }
        let record: &GcSkippedCopiedRecord = &skipped[j];
        if lies_in_output(record, names, id) {
            let bytes: u64 = record.record.staged.len;
            match record.kind {
                GcSkippedCopiedRecordKind::Retired => match retired.checked_add(bytes) {
                    Some(next) => {
                        retired = next;
                    },
                    None => return None,
                },
                GcSkippedCopiedRecordKind::Expired => match expired.checked_add(bytes) {
                    Some(next) => {
                        expired = next;
                    },
                    None => return None,
                },
            }
        }
        j = j + 1;
    }
    assert(skipped@.take(j as int) =~= skipped@);
    Some(
        SegmentGcSummary {
            total_bytes: row.write_offset,
            live_bytes: live,
            retired_bytes: retired,
            expired_bytes: expired,
            live_ref_count: refs,
            unknown_lifetime_bytes: live,
            unknown_lifetime_ref_count: refs,
        },
    )
}

fn birth_records(
    skipped: &Vec<GcSkippedCopiedRecord>,
    names: &BTreeMap<SegmentId, SegmentId>,
    segment_id: SegmentId,
) -> (records: Vec<GarbageRecord>)
    ensures
        garbage::records_view(records@) == birth_garbage(skipped@, names@, segment_id),
{
    let mut records: Vec<GarbageRecord> = Vec::new();
    let mut i: usize = 0;
    assert(garbage::records_view(records@) =~= Seq::<GarbageRecordView>::empty());
    while i < skipped.len()
        invariant
            i <= skipped@.len(),
            garbage::records_view(records@) == birth_garbage(
                skipped@.take(i as int),
                names@,
                segment_id,
            ),
        decreases skipped@.len() - i,
    {
        assert(skipped@.take(i + 1).drop_last() =~= skipped@.take(i as int));
        let record: &GcSkippedCopiedRecord = &skipped[i];
        if lies_in_output(record, names, segment_id) {
            let ghost before = records@;
            let place: RecordRef = RecordRef {
                segment_id,
                offset: record.record.staged.offset,
                len: record.record.staged.len,
            };
            let by_expiry: bool = match record.kind {
                GcSkippedCopiedRecordKind::Retired => false,
                GcSkippedCopiedRecordKind::Expired => true,
            };
            records.push(
                terminal_garbage_record(
                    &record.record.source.key,
                    record.record.source.payload_lsn,
                    place,
                    record.record.source.lifecycle,
                    by_expiry,
                ),
            );
            assert(garbage::records_view(records@) =~= garbage::records_view(before).push(
                records@.last()@,
            ));
        }
        i = i + 1;
    }
    assert(skipped@.take(i as int) =~= skipped@);
    records
}

/// What an output is born with: a summary that accounts for its bytes, and terminal events for the
/// records in it that were skipped, at the LSNs of their original writes.
#[derive(Debug)]
pub struct OutputBirth {
    pub summary: SegmentGcSummary,
    pub garbage: Vec<GarbageRecord>,
}

/// Prepares what every promoted output is born with.
pub fn initial_gc_output_metadata(
    states: &Vec<SegmentState>,
    published: &Vec<GcPublishedRecord>,
    skipped: &Vec<GcSkippedCopiedRecord>,
    names: &BTreeMap<SegmentId, SegmentId>,
) -> (births: Result<Vec<OutputBirth>, GcError>)
    ensures
        match births {
            Ok(births) => births@.len() == states@.len() && forall|k: int|
                0 <= k < states@.len() ==> is_birth_summary(
                    (#[trigger] births@[k]).summary,
                    states@[k],
                    published@,
                    skipped@,
                    names@,
                ) && garbage::records_view(births@[k].garbage@) == birth_garbage(
                    skipped@,
                    names@,
                    states@[k].segment_id,
                ),
            Err(error) => error == GcError::RangeOverflow && exists|k: int|
                0 <= k < states@.len() && birth_overflows(
                    #[trigger] states@[k],
                    published@,
                    skipped@,
                    names@,
                ),
        },
{
    let mut births: Vec<OutputBirth> = Vec::new();
    let mut i: usize = 0;
    while i < states.len()
        invariant
            i <= states@.len(),
            births@.len() == i,
            forall|k: int|
                0 <= k < i ==> is_birth_summary(
                    (#[trigger] births@[k]).summary,
                    states@[k],
                    published@,
                    skipped@,
                    names@,
                ) && garbage::records_view(births@[k].garbage@) == birth_garbage(
                    skipped@,
                    names@,
                    states@[k].segment_id,
                ),
        decreases states@.len() - i,
    {
        match birth_summary(&states[i], published, skipped, names) {
            Some(summary) => {
                births.push(
                    OutputBirth {
                        summary,
                        garbage: birth_records(skipped, names, states[i].segment_id),
                    },
                );
            },
            None => return Err(GcError::RangeOverflow),
        }
        i = i + 1;
    }
    Ok(births)
}

} // verus!
