//! Output segments of one GC attempt: which are promoted, and whom their bytes are charged to.

use std::collections::BTreeMap;

use vstd::prelude::*;

use super::reconcile::{GcSkippedCopiedRecord, GcStagedCopiedRecord};
use crate::segments::{PlacementClass, SegmentFileState, SegmentOwner, SegmentState};
use crate::text;
use crate::text::{decimal_text, joined};
use crate::types::{SegmentId, ShardKey};

verus! {

/// Why a GC attempt cannot be published.
#[derive(Clone, Copy, Debug, PartialEq, Eq, Structural)]
pub enum GcError {
    /// A metadata action came with staged outputs or copied records.
    MetadataActionWithCopies,
    /// A copy action came where a metadata action belongs.
    CopyActionWithoutCopies,
    /// A copied shard generation became obsolete before publication.
    ObsoleteGeneration,
    MissingSourceSegment { segment_id: SegmentId },
    SourceSegmentNotSealed { segment_id: SegmentId, state: SegmentFileState },
    SourceSegmentNotEmpty { segment_id: SegmentId, live_ref_count: u64 },
    /// A record points into a staging file that was not handed over.
    MissingStagedOutput { staged_segment_id: SegmentId },
    /// A byte count does not fit in 64 bits.
    RangeOverflow,
    /// An invariant is violated: what was written differs from what the copied records account
    /// for.
    ByteMismatch { published: u64, attributed: u64 },
}

/// What is wrong in words: with the plan, or, where the byte totals differ, which invariant is
/// violated.
pub open spec fn fault_words(error: GcError) -> Option<Seq<char>> {
    match error {
        GcError::MetadataActionWithCopies => Some(
            "metadata action cannot include staged outputs or copied records"@,
        ),
        GcError::CopyActionWithoutCopies => Some("copy action must use the copy publish path"@),
        GcError::ObsoleteGeneration => Some(
            "copied shard generation became obsolete before publish"@,
        ),
        GcError::ByteMismatch { published, attributed } => Some(
            "published GC output bytes "@ + text::decimal(published as int)
                + " do not match source-attributed bytes "@ + text::decimal(attributed as int),
        ),
        _ => None,
    }
}

impl GcError {
    /// What is wrong with the plan, or which invariant is violated, in words; other errors are told
    /// by their values.
    pub fn fault(&self) -> (words: Option<String>)
        ensures
            match words {
                Some(words) => fault_words(*self) == Some(words@),
                None => fault_words(*self) is None,
            },
    {
        match self {
            GcError::MetadataActionWithCopies => Some(
                "metadata action cannot include staged outputs or copied records".to_owned(),
            ),
            GcError::CopyActionWithoutCopies => Some(
                "copy action must use the copy publish path".to_owned(),
            ),
            GcError::ObsoleteGeneration => Some(
                "copied shard generation became obsolete before publish".to_owned(),
            ),
            GcError::ByteMismatch { published, attributed } => {
                let head: String = joined(
                    "published GC output bytes ",
                    decimal_text(*published).as_str(),
                );
                let middle: String = joined(
                    head.as_str(),
                    " do not match source-attributed bytes ",
                );
                Some(joined(middle.as_str(), decimal_text(*attributed).as_str()))
            },
            _ => None,
        }
    }
}

/// One GC output after it has been renamed into the segment directory.
#[derive(Debug)]
pub struct GcPrepublishedOutputSegment {
    /// Identifier that staged records use.
    pub staged_segment_id: SegmentId,
    /// Identifier that lasts.
    pub segment_id: SegmentId,
    /// Shard generation that owns the segment.
    pub shard: ShardKey,
    pub path: String,
    /// Path below the namespace directory.
    pub relative_path: String,
    pub placement_class: PlacementClass,
    pub sealed_len: u64,
    pub sealed_sha256: [u8; 32],
}

/// One staged output file after it received its identifier.
#[derive(Debug, PartialEq, Eq)]
pub struct GcPublishedOutputSegment {
    pub staged_segment_id: SegmentId,
    pub segment_id: SegmentId,
    pub shard: ShardKey,
    pub path: String,
    pub placement_class: PlacementClass,
    pub sealed_len: u64,
}

impl GcPrepublishedOutputSegment {
    /// The segment's index row in the given state.
    pub open spec fn row(self, state: SegmentFileState) -> SegmentState {
        SegmentState {
            owner: SegmentOwner::Shard(self.shard),
            segment_id: self.segment_id,
            volume_id: 0,
            path: self.relative_path,
            placement_class: self.placement_class,
            state,
            write_offset: self.sealed_len,
            durable_offset: self.sealed_len,
            min_lsn: None,
            max_lsn: None,
            sealed_before_lsn: None,
            sealed_len: Some(self.sealed_len),
            sealed_sha256: Some(self.sealed_sha256),
        }
    }

    pub open spec fn as_published(self) -> GcPublishedOutputSegment {
        GcPublishedOutputSegment {
            staged_segment_id: self.staged_segment_id,
            segment_id: self.segment_id,
            shard: self.shard,
            path: self.path,
            placement_class: self.placement_class,
            sealed_len: self.sealed_len,
        }
    }

    /// The row that lets startup find and remove the output after a crash.
    pub fn pending_state(&self) -> (row: SegmentState)
        ensures
            row == self.row(SegmentFileState::PendingGcOutput),
    {
        self.segment_state(SegmentFileState::PendingGcOutput)
    }

    /// The row of a promoted output.
    pub fn sealed_state(&self) -> (row: SegmentState)
        ensures
            row == self.row(SegmentFileState::Sealed),
    {
        self.segment_state(SegmentFileState::Sealed)
    }

    /// The row of an output that no record survived in.
    pub fn deleted_state(&self) -> (row: SegmentState)
        ensures
            row == self.row(SegmentFileState::Deleted),
    {
        self.segment_state(SegmentFileState::Deleted)
    }

    pub fn published_output(&self) -> (output: GcPublishedOutputSegment)
        ensures
            output == self.as_published(),
    {
        GcPublishedOutputSegment {
            staged_segment_id: self.staged_segment_id,
            segment_id: self.segment_id,
            shard: self.shard,
            path: self.path.clone(),
            placement_class: self.placement_class,
            sealed_len: self.sealed_len,
        }
    }

    fn segment_state(&self, state: SegmentFileState) -> (row: SegmentState)
        ensures
            row == self.row(state),
    {
        SegmentState {
            owner: SegmentOwner::Shard(self.shard),
            segment_id: self.segment_id,
            volume_id: 0,
            path: self.relative_path.clone(),
            placement_class: self.placement_class,
            state,
            write_offset: self.sealed_len,
            durable_offset: self.sealed_len,
            min_lsn: None,
            max_lsn: None,
            sealed_before_lsn: None,
            sealed_len: Some(self.sealed_len),
            sealed_sha256: Some(self.sealed_sha256),
        }
    }
}

// Sets of identifiers.

/// Each identifier is larger than the one before it.
pub open spec fn ascending(ids: Seq<SegmentId>) -> bool {
    forall|i: int, j: int| 0 <= i < j < ids.len() ==> #[trigger] ids[i] < #[trigger] ids[j]
}

/// Adds an identifier to an ascending list.
pub fn insert_id(ids: &mut Vec<SegmentId>, id: SegmentId)
    requires
        ascending(old(ids)@),
    ensures
        ascending(final(ids)@),
        final(ids)@.to_set() =~= old(ids)@.to_set().insert(id),
{
    let ghost before = ids@;
    let mut at: usize = ids.len();
    while at > 0 && ids[at - 1] >= id
        invariant
            at <= ids@.len(),
            ids@ == before,
            ascending(before),
            forall|k: int| at <= k < before.len() ==> before[k] >= id,
        decreases at,
    {
        at = at - 1;
    }
    if at < ids.len() && ids[at] == id {
        assert(before.to_set().contains(id)) by {
            assert(before[at as int] == id);
        }
        assert(before.to_set() =~= before.to_set().insert(id));
    } else {
        ids.insert(at, id);
        let ghost after = ids@;
        proof {
            assert(after == before.insert(at as int, id));
            assert(at < before.len() ==> before[at as int] > id);
            assert forall|i: int, j: int| 0 <= i < j < after.len() implies #[trigger] after[i]
                < #[trigger] after[j] by {
                let i0 = if i < at {
                    i
                } else {
                    i - 1
                };
                let j0 = if j < at {
                    j
                } else {
                    j - 1
                };
                if i != at && j != at {
                    assert(before[i0] < before[j0]);
                } else if i == at {
                    assert(before[j0] >= before[at as int]);
                } else {
                    assert(before[i0] <= before[at - 1]);
                }
            }
            assert forall|x: u64| after.to_set().contains(x) <==> before.to_set().insert(
                id,
            ).contains(x) by {
                if after.to_set().contains(x) {
                    let k = choose|k: int| 0 <= k < after.len() && after[k] == x;
                    if k < at {
                        assert(before[k] == x);
                    } else if k > at {
                        assert(before[k - 1] == x);
                    }
                }
                if before.to_set().contains(x) {
                    let k = choose|k: int| 0 <= k < before.len() && before[k] == x;
                    if k < at {
                        assert(after[k] == x);
                    } else {
                        assert(after[k + 1] == x);
                    }
                }
                assert(after[at as int] == id);
            }
        }
    }
}

/// Whether an ascending list has an identifier.
pub fn has_id(ids: &Vec<SegmentId>, id: SegmentId) -> (result: bool)
    ensures
        result == ids@.to_set().contains(id),
{
    let mut i: usize = 0;
    while i < ids.len()
        invariant
            i <= ids@.len(),
            forall|k: int| 0 <= k < i ==> ids@[k] != id,
        decreases ids@.len() - i,
    {
        if ids[i] == id {
            assert(ids@[i as int] == id);
            return true;
        }
        i = i + 1;
    }
    false
}

// Promotion.

/// The staging files that records lie in.
pub open spec fn staged_ids(records: Seq<GcStagedCopiedRecord>) -> Set<SegmentId>
    decreases records.len(),
{
    if records.len() == 0 {
        Set::empty()
    } else {
        staged_ids(records.drop_last()).insert(records.last().staged.segment_id)
    }
}

/// The segments that records were copied from.
pub open spec fn source_ids(records: Seq<GcStagedCopiedRecord>) -> Set<SegmentId>
    decreases records.len(),
{
    if records.len() == 0 {
        Set::empty()
    } else {
        source_ids(records.drop_last()).insert(records.last().source.from.segment_id)
    }
}

fn staged_segment_ids(records: &Vec<GcStagedCopiedRecord>) -> (ids: Vec<SegmentId>)
    ensures
        ascending(ids@),
        ids@.to_set() == staged_ids(records@),
{
    let mut ids: Vec<u64> = Vec::new();
    let mut i: usize = 0;
    assert(ids@.to_set() =~= Set::<u64>::empty());
    while i < records.len()
        invariant
            i <= records@.len(),
            ascending(ids@),
            ids@.to_set() == staged_ids(records@.take(i as int)),
        decreases records@.len() - i,
    {
        assert(records@.take(i + 1).drop_last() =~= records@.take(i as int));
        insert_id(&mut ids, records[i].staged.segment_id);
        i = i + 1;
    }
    assert(records@.take(i as int) =~= records@);
    ids
}

/// The segments that records were copied from, in ascending order.
pub fn source_segment_ids(records: &Vec<GcStagedCopiedRecord>) -> (ids: Vec<SegmentId>)
    ensures
        ascending(ids@),
        ids@.to_set() == source_ids(records@),
{
    let mut ids: Vec<u64> = Vec::new();
    let mut i: usize = 0;
    assert(ids@.to_set() =~= Set::<u64>::empty());
    while i < records.len()
        invariant
            i <= records@.len(),
            ascending(ids@),
            ids@.to_set() == source_ids(records@.take(i as int)),
        decreases records@.len() - i,
    {
        assert(records@.take(i + 1).drop_last() =~= records@.take(i as int));
        insert_id(&mut ids, records[i].source.from.segment_id);
        i = i + 1;
    }
    assert(records@.take(i as int) =~= records@);
    ids
}

/// Which output a staging file became: the last that names it.
pub open spec fn output_for(outputs: Seq<GcPrepublishedOutputSegment>, id: SegmentId) -> Option<int>
    decreases outputs.len(),
{
    if outputs.len() == 0 {
        None
    } else if outputs.last().staged_segment_id == id {
        Some(outputs.len() - 1)
    } else {
        output_for(outputs.drop_last(), id)
    }
}

fn find_output(outputs: &Vec<GcPrepublishedOutputSegment>, id: SegmentId) -> (at: Option<usize>)
    ensures
        match at {
            Some(at) => output_for(outputs@, id) == Some(at as int) && at < outputs@.len(),
            None => output_for(outputs@, id) is None,
        },
{
    let mut i: usize = outputs.len();
    assert(outputs@.take(i as int) =~= outputs@);
    while i > 0
        invariant
            i <= outputs@.len(),
            output_for(outputs@, id) == output_for(outputs@.take(i as int), id),
        decreases i,
    {
        assert(outputs@.take(i as int).drop_last() =~= outputs@.take(i - 1));
        if outputs[i - 1].staged_segment_id == id {
            return Some(i - 1);
        }
        i = i - 1;
    }
    None
}

/// The outputs that are promoted.
#[derive(Debug)]
pub struct PlannedGcOutputSegments {
    /// Staging files that hold a surviving record, in ascending order.
    pub used_staged_ids: Vec<SegmentId>,
    /// What each of them is called from now on.
    pub staged_to_final_segment_id: BTreeMap<SegmentId, SegmentId>,
    pub published_outputs: Vec<GcPublishedOutputSegment>,
    /// Their rows.
    pub segment_states: Vec<SegmentState>,
}

impl PlannedGcOutputSegments {
    /// The plan promotes exactly the outputs that hold a survivor.
    pub open spec fn promotes(
        &self,
        outputs: Seq<GcPrepublishedOutputSegment>,
        survivors: Seq<GcStagedCopiedRecord>,
    ) -> bool {
        let used = self.used_staged_ids@;
        &&& ascending(used)
        &&& used.to_set() == staged_ids(survivors)
        &&& self.promotes_upto(outputs, used.len() as int)
        &&& self.published_outputs@.len() == used.len()
    }

    /// The first `upto` staging files are promoted.
    pub open spec fn promotes_upto(
        &self,
        outputs: Seq<GcPrepublishedOutputSegment>,
        upto: int,
    ) -> bool {
        let used = self.used_staged_ids@;
        let names = self.staged_to_final_segment_id@;
        &&& self.published_outputs@.len() == upto
        &&& self.segment_states@.len() == upto
        &&& forall|id: SegmentId| #[trigger]
            names.dom().contains(id) <==> exists|k: int| 0 <= k < upto && used[k] == id
        &&& forall|k: int|
            0 <= k < upto ==> {
                let at = output_for(outputs, #[trigger] used[k]);
                &&& at is Some
                &&& self.published_outputs@[k] == outputs[at->Some_0].as_published()
                &&& self.segment_states@[k] == outputs[at->Some_0].row(SegmentFileState::Sealed)
                &&& names[used[k]] == outputs[at->Some_0].segment_id
            }
    }
}

/// Selects the prepublished outputs that still hold a surviving copied record. The others are left
/// out: their rows become deleted ones.
pub fn plan_gc_output_segments(
    outputs: &Vec<GcPrepublishedOutputSegment>,
    survivors: &Vec<GcStagedCopiedRecord>,
) -> (plan: Result<PlannedGcOutputSegments, GcError>)
    ensures
        match plan {
            Ok(plan) => plan.promotes(outputs@, survivors@),
            Err(error) => error matches GcError::MissingStagedOutput { staged_segment_id }
                && staged_ids(survivors@).contains(staged_segment_id) && output_for(
                outputs@,
                staged_segment_id,
            ) is None && forall|id: SegmentId| #[trigger]
                staged_ids(survivors@).contains(id) && id < staged_segment_id ==> output_for(
                    outputs@,
                    id,
                ) is Some,
        },
{
    let mut plan = PlannedGcOutputSegments {
        used_staged_ids: staged_segment_ids(survivors),
        staged_to_final_segment_id: BTreeMap::new(),
        published_outputs: Vec::new(),
        segment_states: Vec::new(),
    };
    let ghost used = plan.used_staged_ids@;
    let mut i: usize = 0;
    while i < plan.used_staged_ids.len()
        invariant
            i <= used.len(),
            plan.used_staged_ids@ == used,
            ascending(used),
            used.to_set() == staged_ids(survivors@),
            plan.promotes_upto(outputs@, i as int),
        decreases used.len() - i,
    {
        let id: u64 = plan.used_staged_ids[i];
        let at: usize = match find_output(outputs, id) {
            Some(at) => at,
            None => {
                proof {
                    assert(used[i as int] == id);
                    assert(used.to_set().contains(id));
                    assert forall|other: SegmentId| #[trigger]
                        staged_ids(survivors@).contains(other) && other < id implies output_for(
                        outputs@,
                        other,
                    ) is Some by {
                        assert(used.to_set().contains(other));
                        let k = choose|k: int| 0 <= k < used.len() && used[k] == other;
                        if k >= i {
                            assert(used[k] >= used[i as int]);
                        }
                        assert(output_for(outputs@, used[k]) is Some);
                    }
                }
                return Err(GcError::MissingStagedOutput { staged_segment_id: id });
            },
        };
        let ghost before = plan;
        plan.published_outputs.push(outputs[at].published_output());
        plan.segment_states.push(outputs[at].sealed_state());
        plan.staged_to_final_segment_id.insert(id, outputs[at].segment_id);
        proof {
            let names = plan.staged_to_final_segment_id@;
            let old_names = before.staged_to_final_segment_id@;
            assert forall|x: SegmentId| #[trigger]
                names.dom().contains(x) <==> exists|k: int|
                0 <= k < i + 1 && used[k] == x by {
                if names.dom().contains(x) {
                    if x == id {
                        assert(used[i as int] == x);
                    } else {
                        assert(old_names.dom().contains(x));
                        let k = choose|k: int| 0 <= k < i && used[k] == x;
                        assert(used[k] == x);
                    }
                }
                if exists|k: int| 0 <= k < i + 1 && used[k] == x {
                    let k = choose|k: int| 0 <= k < i + 1 && used[k] == x;
                    if k < i {
                        assert(old_names.dom().contains(x));
                    }
                }
            }
            assert forall|k: int| 0 <= k < i + 1 implies {
                let at = output_for(outputs@, #[trigger] used[k]);
                &&& at is Some
                &&& plan.published_outputs@[k] == outputs@[at->Some_0].as_published()
                &&& plan.segment_states@[k] == outputs@[at->Some_0].row(SegmentFileState::Sealed)
                &&& names[used[k]] == outputs@[at->Some_0].segment_id
            } by {
                if k < i {
                    assert(used[k] < used[i as int]);
                    assert(before.published_outputs@[k] == plan.published_outputs@[k]);
                    assert(before.segment_states@[k] == plan.segment_states@[k]);
                }
            }
        }
        i = i + 1;
    }
    Ok(plan)
}

// Bytes.

/// The outputs' total length.
pub open spec fn sealed_bytes(outputs: Seq<GcPublishedOutputSegment>) -> nat
    decreases outputs.len(),
{
    if outputs.len() == 0 {
        0
    } else {
        sealed_bytes(outputs.drop_last()) + outputs.last().sealed_len as nat
    }
}

proof fn lemma_sealed_bytes_grow(outputs: Seq<GcPublishedOutputSegment>, upto: int)
    requires
        0 <= upto <= outputs.len(),
    ensures
        sealed_bytes(outputs.take(upto)) <= sealed_bytes(outputs),
    decreases outputs.len() - upto,
{
    if upto < outputs.len() {
        lemma_sealed_bytes_grow(outputs, upto + 1);
        assert(outputs.take(upto + 1).drop_last() =~= outputs.take(upto));
    } else {
        assert(outputs.take(upto) =~= outputs);
    }
}

/// The outputs' total length.
pub fn published_output_bytes(outputs: &Vec<GcPublishedOutputSegment>) -> (bytes: Result<
    u64,
    GcError,
>)
    ensures
        match bytes {
            Ok(bytes) => bytes == sealed_bytes(outputs@),
            Err(error) => error == GcError::RangeOverflow && sealed_bytes(outputs@) > u64::MAX,
        },
{
    let mut total: u64 = 0;
    let mut i: usize = 0;
    while i < outputs.len()
        invariant
            i <= outputs@.len(),
            total == sealed_bytes(outputs@.take(i as int)),
        decreases outputs@.len() - i,
    {
        assert(outputs@.take(i + 1).drop_last() =~= outputs@.take(i as int));
        proof {
            lemma_sealed_bytes_grow(outputs@, i + 1);
        }
        match total.checked_add(outputs[i].sealed_len) {
            Some(next) => {
                total = next;
            },
            None => return Err(GcError::RangeOverflow),
        }
        i = i + 1;
    }
    assert(outputs@.take(i as int) =~= outputs@);
    Ok(total)
}

/// Bytes that one source put into promoted outputs.
#[derive(Clone, Copy, Debug, PartialEq, Eq, Structural)]
pub struct SourceShare {
    pub source_segment_id: SegmentId,
    pub output_bytes: u64,
}

/// The bytes of promoted outputs, record by record: survivors, and the skipped records that share
/// an output with one.
pub open spec fn promoted_records(
    survivors: Seq<GcStagedCopiedRecord>,
    skipped: Seq<GcSkippedCopiedRecord>,
    used: Set<SegmentId>,
) -> Seq<SourceShare>
    decreases survivors.len() + skipped.len(),
{
    if skipped.len() > 0 {
        let earlier = promoted_records(survivors, skipped.drop_last(), used);
        let last = skipped.last().record;
        if used.contains(last.staged.segment_id) {
            earlier.push(
                SourceShare {
                    source_segment_id: last.source.from.segment_id,
                    output_bytes: last.staged.len,
                },
            )
        } else {
            earlier
        }
    } else if survivors.len() > 0 {
        promoted_records(survivors.drop_last(), skipped, used).push(
            SourceShare {
                source_segment_id: survivors.last().source.from.segment_id,
                output_bytes: survivors.last().staged.len,
            },
        )
    } else {
        Seq::empty()
    }
}

fn promoted_shares(
    survivors: &Vec<GcStagedCopiedRecord>,
    skipped: &Vec<GcSkippedCopiedRecord>,
    used: &Vec<SegmentId>,
) -> (shares: Vec<SourceShare>)
    ensures
        shares@ == promoted_records(survivors@, skipped@, used@.to_set()),
{
    let mut shares: Vec<SourceShare> = Vec::new();
    let ghost none = Seq::<GcSkippedCopiedRecord>::empty();
    let mut i: usize = 0;
    while i < survivors.len()
        invariant
            i <= survivors@.len(),
            none.len() == 0,
            shares@ == promoted_records(survivors@.take(i as int), none, used@.to_set()),
        decreases survivors@.len() - i,
    {
        assert(survivors@.take(i + 1).drop_last() =~= survivors@.take(i as int));
        shares.push(
            SourceShare {
                source_segment_id: survivors[i].source.from.segment_id,
                output_bytes: survivors[i].staged.len,
            },
        );
        i = i + 1;
    }
    assert(survivors@.take(i as int) =~= survivors@);
    assert(skipped@.take(0) =~= none);
    let mut j: usize = 0;
    while j < skipped.len()
        invariant
            j <= skipped@.len(),
            shares@ == promoted_records(survivors@, skipped@.take(j as int), used@.to_set()),
        decreases skipped@.len() - j,
    {
        assert(skipped@.take(j + 1).drop_last() =~= skipped@.take(j as int));
        let record: &GcStagedCopiedRecord = &skipped[j].record;
        if has_id(used, record.staged.segment_id) {
            shares.push(
                SourceShare {
                    source_segment_id: record.source.from.segment_id,
                    output_bytes: record.staged.len,
                },
            );
        }
        j = j + 1;
    }
    assert(skipped@.take(j as int) =~= skipped@);
    shares
}

/// What the shares come to.
pub open spec fn share_bytes(shares: Seq<SourceShare>) -> nat
    decreases shares.len(),
{
    if shares.len() == 0 {
        0
    } else {
        share_bytes(shares.drop_last()) + shares.last().output_bytes as nat
    }
}

/// What the shares of one source come to.
pub open spec fn bytes_of(shares: Seq<SourceShare>, source: SegmentId) -> nat
    decreases shares.len(),
{
    if shares.len() == 0 {
        0
    } else {
        bytes_of(shares.drop_last(), source) + (if shares.last().source_segment_id == source {
            shares.last().output_bytes as nat
        } else {
            0
        })
    }
}

/// The sources of the shares.
pub open spec fn sources_of(shares: Seq<SourceShare>) -> Set<SegmentId>
    decreases shares.len(),
{
    if shares.len() == 0 {
        Set::empty()
    } else {
        sources_of(shares.drop_last()).insert(shares.last().source_segment_id)
    }
}

proof fn lemma_bytes_of_grow(shares: Seq<SourceShare>, source: SegmentId, upto: int)
    requires
        0 <= upto <= shares.len(),
    ensures
        bytes_of(shares.take(upto), source) <= bytes_of(shares, source),
    decreases shares.len() - upto,
{
    if upto < shares.len() {
        lemma_bytes_of_grow(shares, source, upto + 1);
        assert(shares.take(upto + 1).drop_last() =~= shares.take(upto));
    } else {
        assert(shares.take(upto) =~= shares);
    }
}

proof fn lemma_share_bytes_grow(shares: Seq<SourceShare>, upto: int)
    requires
        0 <= upto <= shares.len(),
    ensures
        share_bytes(shares.take(upto)) <= share_bytes(shares),
    decreases shares.len() - upto,
{
    if upto < shares.len() {
        lemma_share_bytes_grow(shares, upto + 1);
        assert(shares.take(upto + 1).drop_last() =~= shares.take(upto));
    } else {
        assert(shares.take(upto) =~= shares);
    }
}

fn source_bytes(shares: &Vec<SourceShare>, source: SegmentId) -> (bytes: Option<u64>)
    ensures
        bytes == (if bytes_of(shares@, source) <= u64::MAX {
            Some(bytes_of(shares@, source) as u64)
        } else {
            None
        }),
{
    let mut total: u64 = 0;
    let mut i: usize = 0;
    while i < shares.len()
        invariant
            i <= shares@.len(),
            total == bytes_of(shares@.take(i as int), source),
        decreases shares@.len() - i,
    {
        assert(shares@.take(i + 1).drop_last() =~= shares@.take(i as int));
        proof {
            lemma_bytes_of_grow(shares@, source, i + 1);
        }
        if shares[i].source_segment_id == source {
            match total.checked_add(shares[i].output_bytes) {
                Some(next) => {
                    total = next;
                },
                None => return None,
            }
        }
        i = i + 1;
    }
    assert(shares@.take(i as int) =~= shares@);
    Some(total)
}

/// One row per source, in ascending order, with what its records come to.
pub open spec fn is_attribution(rows: Seq<SourceShare>, shares: Seq<SourceShare>) -> bool {
    &&& forall|i: int, j: int|
        0 <= i < j < rows.len() ==> (#[trigger] rows[i]).source_segment_id < (
        #[trigger] rows[j]).source_segment_id
    &&& forall|source: SegmentId| #[trigger]
        sources_of(shares).contains(source) <==> exists|i: int|
        0 <= i < rows.len() && (#[trigger] rows[i]).source_segment_id == source
    &&& forall|i: int|
        0 <= i < rows.len() ==> (#[trigger] rows[i]).output_bytes == bytes_of(
            shares,
            rows[i].source_segment_id,
        )
}

/// Charges the bytes of promoted outputs to the segments that the records came from.
pub fn gc_output_bytes_by_source(
    survivors: &Vec<GcStagedCopiedRecord>,
    skipped: &Vec<GcSkippedCopiedRecord>,
    used: &Vec<SegmentId>,
) -> (rows: Result<Vec<SourceShare>, GcError>)
    ensures
        ({
            let shares = promoted_records(survivors@, skipped@, used@.to_set());
            match rows {
                Ok(rows) => is_attribution(rows@, shares),
                Err(error) => error == GcError::RangeOverflow && exists|source: SegmentId|
                    sources_of(shares).contains(source) && #[trigger] bytes_of(shares, source)
                        > u64::MAX,
            }
        }),
{
    let shares: Vec<SourceShare> = promoted_shares(survivors, skipped, used);
    let mut ids: Vec<u64> = Vec::new();
    let mut i: usize = 0;
    assert(ids@.to_set() =~= Set::<u64>::empty());
    while i < shares.len()
        invariant
            i <= shares@.len(),
            ascending(ids@),
            ids@.to_set() == sources_of(shares@.take(i as int)),
        decreases shares@.len() - i,
    {
        assert(shares@.take(i + 1).drop_last() =~= shares@.take(i as int));
        insert_id(&mut ids, shares[i].source_segment_id);
        i = i + 1;
    }
    assert(shares@.take(i as int) =~= shares@);
    let mut rows: Vec<SourceShare> = Vec::new();
    let mut j: usize = 0;
    while j < ids.len()
        invariant
            j <= ids@.len(),
            ascending(ids@),
            ids@.to_set() == sources_of(shares@),
            shares@ == promoted_records(survivors@, skipped@, used@.to_set()),
            rows@.len() == j,
            forall|k: int|
                0 <= k < j ==> (#[trigger] rows@[k]).source_segment_id == ids@[k]
                    && rows@[k].output_bytes == bytes_of(shares@, ids@[k]),
        decreases ids@.len() - j,
    {
        let source: u64 = ids[j];
        match source_bytes(&shares, source) {
            Some(output_bytes) => {
                rows.push(SourceShare { source_segment_id: source, output_bytes });
            },
            None => {
                proof {
                    assert(ids@.to_set().contains(ids@[j as int]));
                }
                return Err(GcError::RangeOverflow);
            },
        }
        j = j + 1;
    }
    proof {
        assert forall|source: SegmentId| #[trigger]
            sources_of(shares@).contains(source) <==> exists|i: int|
            0 <= i < rows@.len() && (#[trigger] rows@[i]).source_segment_id == source by {
            if sources_of(shares@).contains(source) {
                assert(ids@.to_set().contains(source));
                let k = choose|k: int| 0 <= k < ids@.len() && ids@[k] == source;
                assert(rows@[k].source_segment_id == source);
            }
            if exists|i: int|
                0 <= i < rows@.len() && (#[trigger] rows@[i]).source_segment_id == source {
                let k = choose|k: int|
                    0 <= k < rows@.len() && (#[trigger] rows@[k]).source_segment_id == source;
                assert(ids@[k] == source);
                assert(ids@.to_set().contains(source));
            }
        }
    }
    Ok(rows)
}

/// What the rows come to.
pub fn attributed_output_bytes(rows: &Vec<SourceShare>) -> (bytes: Result<u64, GcError>)
    ensures
        match bytes {
            Ok(bytes) => bytes == share_bytes(rows@),
            Err(error) => error == GcError::RangeOverflow && share_bytes(rows@) > u64::MAX,
        },
{
    let mut total: u64 = 0;
    let mut i: usize = 0;
    while i < rows.len()
        invariant
            i <= rows@.len(),
            total == share_bytes(rows@.take(i as int)),
        decreases rows@.len() - i,
    {
        assert(rows@.take(i + 1).drop_last() =~= rows@.take(i as int));
        proof {
            lemma_share_bytes_grow(rows@, i + 1);
        }
        match total.checked_add(rows[i].output_bytes) {
            Some(next) => {
                total = next;
            },
            None => return Err(GcError::RangeOverflow),
        }
        i = i + 1;
    }
    assert(rows@.take(i as int) =~= rows@);
    Ok(total)
}

// Laws.

/// `bytes` of each listed source, summed.
spec fn listed_bytes(rows: Seq<SourceShare>, shares: Seq<SourceShare>) -> nat
    decreases rows.len(),
{
    if rows.len() == 0 {
        0
    } else {
        listed_bytes(rows.drop_last(), shares) + bytes_of(shares, rows.last().source_segment_id)
    }
}

proof fn lemma_listed_step(rows: Seq<SourceShare>, shares: Seq<SourceShare>, at: int)
    requires
        shares.len() > 0,
        forall|i: int, j: int|
            0 <= i < j < rows.len() ==> (#[trigger] rows[i]).source_segment_id < (
            #[trigger] rows[j]).source_segment_id,
        -1 <= at < rows.len(),
        at >= 0 ==> rows[at].source_segment_id == shares.last().source_segment_id,
        at < 0 ==> forall|i: int|
            0 <= i < rows.len() ==> (#[trigger] rows[i]).source_segment_id
                != shares.last().source_segment_id,
    ensures
        listed_bytes(rows, shares) == listed_bytes(rows, shares.drop_last()) + (if at >= 0 {
            shares.last().output_bytes as nat
        } else {
            0
        }),
    decreases rows.len(),
{
    if rows.len() > 0 {
        let init = rows.drop_last();
        let inner = if at == rows.len() - 1 {
            -1
        } else {
            at
        };
        assert forall|i: int, j: int| 0 <= i < j < init.len() implies (
        #[trigger] init[i]).source_segment_id < (#[trigger] init[j]).source_segment_id by {
            assert(init[i] == rows[i] && init[j] == rows[j]);
        }
        if inner < 0 {
            assert forall|i: int| 0 <= i < init.len() implies (
            #[trigger] init[i]).source_segment_id != shares.last().source_segment_id by {
                assert(init[i] == rows[i]);
                if at >= 0 {
                    assert(rows[i].source_segment_id < rows[at].source_segment_id);
                }
            }
        }
        lemma_listed_step(init, shares, inner);
        if at < 0 {
            assert(rows[rows.len() - 1].source_segment_id != shares.last().source_segment_id);
        } else if at < rows.len() - 1 {
            assert(rows[at].source_segment_id < rows[rows.len() - 1].source_segment_id);
        }
    }
}

proof fn lemma_listed_all(rows: Seq<SourceShare>, shares: Seq<SourceShare>)
    requires
        forall|i: int, j: int|
            0 <= i < j < rows.len() ==> (#[trigger] rows[i]).source_segment_id < (
            #[trigger] rows[j]).source_segment_id,
        forall|source: SegmentId| #[trigger]
            sources_of(shares).contains(source) ==> exists|i: int|
                0 <= i < rows.len() && (#[trigger] rows[i]).source_segment_id == source,
    ensures
        listed_bytes(rows, shares) == share_bytes(shares),
    decreases shares.len(),
{
    if shares.len() == 0 {
        lemma_listed_nothing(rows, shares);
    } else {
        let last = shares.last().source_segment_id;
        assert(sources_of(shares).contains(last));
        let at = choose|i: int| 0 <= i < rows.len() && (#[trigger] rows[i]).source_segment_id
            == last;
        lemma_listed_step(rows, shares, at);
        assert forall|source: SegmentId| #[trigger]
            sources_of(shares.drop_last()).contains(source) implies exists|i: int|
            0 <= i < rows.len() && (#[trigger] rows[i]).source_segment_id == source by {
            assert(sources_of(shares).contains(source));
        }
        lemma_listed_all(rows, shares.drop_last());
    }
}

proof fn lemma_listed_nothing(rows: Seq<SourceShare>, shares: Seq<SourceShare>)
    requires
        shares.len() == 0,
    ensures
        listed_bytes(rows, shares) == 0,
    decreases rows.len(),
{
    if rows.len() > 0 {
        lemma_listed_nothing(rows.drop_last(), shares);
    }
}

proof fn lemma_listed_is_shared(rows: Seq<SourceShare>, shares: Seq<SourceShare>)
    requires
        forall|i: int|
            0 <= i < rows.len() ==> (#[trigger] rows[i]).output_bytes == bytes_of(
                shares,
                rows[i].source_segment_id,
            ),
    ensures
        share_bytes(rows) == listed_bytes(rows, shares),
    decreases rows.len(),
{
    if rows.len() > 0 {
        let init = rows.drop_last();
        assert forall|i: int| 0 <= i < init.len() implies (#[trigger] init[i]).output_bytes
            == bytes_of(shares, init[i].source_segment_id) by {
            assert(init[i] == rows[i]);
        }
        lemma_listed_is_shared(init, shares);
        assert(rows[rows.len() - 1].output_bytes == bytes_of(
            shares,
            rows.last().source_segment_id,
        ));
    }
}

/// No byte is lost or charged twice: what the sources are charged comes to exactly what the
/// promoted records take.
pub proof fn law_attribution_is_complete(rows: Seq<SourceShare>, shares: Seq<SourceShare>)
    requires
        is_attribution(rows, shares),
    ensures
        share_bytes(rows) == share_bytes(shares),
{
    lemma_listed_all(rows, shares);
    lemma_listed_is_shared(rows, shares);
}

} // verus!
