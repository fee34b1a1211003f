//! Revalidating copied records before they are published.

use vstd::prelude::*;

use crate::blob_lsm::garbage::BlobKey;
use crate::gc::outputs::GcError;
use crate::keys;
use crate::sorting;
use crate::sorting::Precedes;
use crate::types::{BlobLifecycle, RecordRef, ShardKey, StrataLsn};

verus! {

/// A live record that GC selected for copying.
#[derive(Debug)]
pub struct GcCopyRecord {
    pub key: BlobKey,
    pub shard: ShardKey,
    /// LSN of the write that stored the record; copying never changes it.
    pub payload_lsn: StrataLsn,
    /// Where the record lies in its source segment.
    pub from: RecordRef,
    /// What is known of how long the record lives.
    pub lifecycle: Option<BlobLifecycle>,
}

/// One copied record and the staged place where its replacement bytes landed.
#[derive(Debug)]
pub struct GcStagedCopiedRecord {
    pub source: GcCopyRecord,
    /// The segment identifier is that of a staging file.
    pub staged: RecordRef,
}

impl GcStagedCopiedRecord {
    /// The record with what is now known of its lifetime.
    pub open spec fn refreshed(self, lifecycle: Option<BlobLifecycle>) -> GcStagedCopiedRecord {
        GcStagedCopiedRecord { source: GcCopyRecord { lifecycle, ..self.source }, ..self }
    }
}

/// Records are revalidated in the order in which they lie in their sources; only what lies in the
/// same place is told apart by write, shard and key.
pub open spec fn source_precedes(a: GcCopyRecord, b: GcCopyRecord) -> bool {
    if a.from.segment_id != b.from.segment_id {
        a.from.segment_id < b.from.segment_id
    } else if a.from.offset != b.from.offset {
        a.from.offset < b.from.offset
    } else if a.from.len != b.from.len {
        a.from.len < b.from.len
    } else if a.payload_lsn != b.payload_lsn {
        a.payload_lsn < b.payload_lsn
    } else if a.shard != b.shard {
        a.shard.spec_before(b.shard)
    } else {
        keys::key_before(a.key@, b.key@)
    }
}

impl Precedes for GcStagedCopiedRecord {
    open spec fn precedes(self, other: Self) -> bool {
        source_precedes(self.source, other.source)
    }

    proof fn order_is_weak(a: Self, b: Self, c: Self) {
        keys::lemma_key_order(a.source.key@, b.source.key@, c.source.key@);
    }

    fn comes_before(&self, other: &Self) -> (result: bool) {
        let a: &GcCopyRecord = &self.source;
        let b: &GcCopyRecord = &other.source;
        if a.from.segment_id != b.from.segment_id {
            a.from.segment_id < b.from.segment_id
        } else if a.from.offset != b.from.offset {
            a.from.offset < b.from.offset
        } else if a.from.len != b.from.len {
            a.from.len < b.from.len
        } else if a.payload_lsn != b.payload_lsn {
            a.payload_lsn < b.payload_lsn
        } else if a.shard != b.shard {
            a.shard.before(&b.shard)
        } else {
            keys::is_key_before(&a.key.bytes, &b.key.bytes)
        }
    }
}

/// What a segment's garbage says of a record.
#[derive(Clone, Copy, Debug, PartialEq, Eq, Structural)]
pub enum OverlayRecordState {
    /// A newer write replaced it.
    Retired,
    /// Its lifetime ended.
    Expired,
    /// Still worth copying.
    CopyEligible { lifecycle: Option<BlobLifecycle> },
}

/// What is known of one copied record when it is revalidated.
#[derive(Clone, Copy, Debug, PartialEq, Eq, Structural)]
pub struct CopyEvidence {
    /// The record's shard generation was dropped or replaced.
    pub generation_obsolete: bool,
    pub overlay: OverlayRecordState,
}

/// What is known of a copied record. Without an overlay its source vanished.
pub fn copy_evidence(
    record: &GcCopyRecord,
    generation_obsolete: bool,
    overlay: Option<OverlayRecordState>,
) -> (evidence: Result<CopyEvidence, GcError>)
    ensures
        match (overlay, evidence) {
            (Some(overlay), Ok(evidence)) => evidence == (CopyEvidence {
                generation_obsolete,
                overlay,
            }),
            (None, Err(error)) => error == (GcError::MissingSourceSegment {
                segment_id: record.from.segment_id,
            }),
            _ => false,
        },
{
    match overlay {
        Some(overlay) => Ok(CopyEvidence { generation_obsolete, overlay }),
        None => Err(GcError::MissingSourceSegment { segment_id: record.from.segment_id }),
    }
}

/// Why a copied record is not published.
#[derive(Clone, Copy, Debug, PartialEq, Eq, Structural)]
pub enum GcSkippedCopiedRecordKind {
    Retired,
    Expired,
}

/// A copied record that is not published.
#[derive(Debug)]
pub struct GcSkippedCopiedRecord {
    pub record: GcStagedCopiedRecord,
    pub kind: GcSkippedCopiedRecordKind,
}

/// Why a record with this evidence is not published, if so. A fenced shard generation comes first:
/// everything of it is dead.
pub open spec fn skip_kind(evidence: CopyEvidence) -> Option<GcSkippedCopiedRecordKind> {
    if evidence.generation_obsolete {
        Some(GcSkippedCopiedRecordKind::Retired)
    } else {
        match evidence.overlay {
            OverlayRecordState::Retired => Some(GcSkippedCopiedRecordKind::Retired),
            OverlayRecordState::Expired => Some(GcSkippedCopiedRecordKind::Expired),
            OverlayRecordState::CopyEligible { .. } => None,
        }
    }
}

/// The lifetime that the evidence knows of.
pub open spec fn known_lifecycle(evidence: CopyEvidence) -> Option<BlobLifecycle> {
    match evidence.overlay {
        OverlayRecordState::CopyEligible { lifecycle } => lifecycle,
        _ => None,
    }
}

/// The records that are published, each with what is now known of its lifetime.
pub open spec fn survivors(
    records: Seq<GcStagedCopiedRecord>,
    evidence: Seq<CopyEvidence>,
) -> Seq<GcStagedCopiedRecord>
    decreases records.len(),
{
    if records.len() == 0 {
        Seq::empty()
    } else {
        let earlier = survivors(records.drop_last(), evidence);
        let at = records.len() - 1;
        if skip_kind(evidence[at]) is None {
            earlier.push(records[at].refreshed(known_lifecycle(evidence[at])))
        } else {
            earlier
        }
    }
}

/// The records that are not published.
pub open spec fn skipped(
    records: Seq<GcStagedCopiedRecord>,
    evidence: Seq<CopyEvidence>,
) -> Seq<GcSkippedCopiedRecord>
    decreases records.len(),
{
    if records.len() == 0 {
        Seq::empty()
    } else {
        let earlier = skipped(records.drop_last(), evidence);
        let at = records.len() - 1;
        match skip_kind(evidence[at]) {
            Some(kind) => earlier.push(GcSkippedCopiedRecord { record: records[at], kind }),
            None => earlier,
        }
    }
}

/// Puts copied records in the order in which their evidence is gathered.
pub fn order_copied_records(records: &mut Vec<GcStagedCopiedRecord>)
    ensures
        final(records)@ == sorting::in_order(old(records)@),
{
    sorting::sort(records);
}

/// Parts copied records into those that are published and those whose source changed while they
/// were copied.
pub fn reconcile_copies(records: Vec<GcStagedCopiedRecord>, evidence: &Vec<CopyEvidence>) -> (parts: (
    Vec<GcStagedCopiedRecord>,
    Vec<GcSkippedCopiedRecord>,
))
    requires
        records@.len() == evidence@.len(),
    ensures
        parts.0@ == survivors(records@, evidence@),
        parts.1@ == skipped(records@, evidence@),
{
    let mut kept: Vec<GcStagedCopiedRecord> = Vec::new();
    let mut left: Vec<GcSkippedCopiedRecord> = Vec::new();
    let total: usize = evidence.len();
    let mut i: usize = 0;
    for record in it: records
        invariant
            total == evidence@.len(),
            it.seq() == records@,
            records@.len() == evidence@.len(),
            i == it.index(),
            kept@ == survivors(records@.take(i as int), evidence@),
            left@ == skipped(records@.take(i as int), evidence@),
    {
        assert(records@.take(i + 1).drop_last() =~= records@.take(i as int));
        assert(record == records@[i as int]);
        let seen: CopyEvidence = evidence[i];
        let mut record = record;
        if seen.generation_obsolete {
            left.push(GcSkippedCopiedRecord { record, kind: GcSkippedCopiedRecordKind::Retired });
        } else {
            match seen.overlay {
                OverlayRecordState::Retired => {
                    left.push(
                        GcSkippedCopiedRecord { record, kind: GcSkippedCopiedRecordKind::Retired },
                    );
                },
                OverlayRecordState::Expired => {
                    left.push(
                        GcSkippedCopiedRecord { record, kind: GcSkippedCopiedRecordKind::Expired },
                    );
                },
                OverlayRecordState::CopyEligible { lifecycle } => {
                    record.source.lifecycle = lifecycle;
                    kept.push(record);
                },
            }
        }
        i = i + 1;
    }
    assert(records@.take(i as int) =~= records@);
    (kept, left)
}

// Laws.

/// Revalidation loses no copy: every copied record is published or skipped, never both.
pub proof fn law_every_copy_is_accounted_for(
    records: Seq<GcStagedCopiedRecord>,
    evidence: Seq<CopyEvidence>,
)
    requires
        records.len() == evidence.len(),
    ensures
        survivors(records, evidence).len() + skipped(records, evidence).len() == records.len(),
        staged_bytes(survivors(records, evidence)) + skipped_bytes(skipped(records, evidence))
            == staged_bytes(records),
{
    lemma_parts(records, evidence);
}

/// Bytes that the records take in their staging files.
pub open spec fn staged_bytes(records: Seq<GcStagedCopiedRecord>) -> nat
    decreases records.len(),
{
    if records.len() == 0 {
        0
    } else {
        staged_bytes(records.drop_last()) + records.last().staged.len as nat
    }
}

/// Bytes that skipped records take in their staging files.
pub open spec fn skipped_bytes(records: Seq<GcSkippedCopiedRecord>) -> nat
    decreases records.len(),
{
    if records.len() == 0 {
        0
    } else {
        skipped_bytes(records.drop_last()) + records.last().record.staged.len as nat
    }
}

proof fn lemma_parts(records: Seq<GcStagedCopiedRecord>, evidence: Seq<CopyEvidence>)
    requires
        records.len() <= evidence.len(),
    ensures
        survivors(records, evidence).len() + skipped(records, evidence).len() == records.len(),
        staged_bytes(survivors(records, evidence)) + skipped_bytes(skipped(records, evidence))
            == staged_bytes(records),
    decreases records.len(),
{
    if records.len() > 0 {
        let init = records.drop_last();
        lemma_parts(init, evidence);
        let at = records.len() - 1;
        if skip_kind(evidence[at]) is None {
            let kept = survivors(records, evidence);
            assert(kept.drop_last() =~= survivors(init, evidence));
            assert(kept.last().staged == records[at].staged);
        } else {
            let left = skipped(records, evidence);
            assert(left.drop_last() =~= skipped(init, evidence));
            assert(left.last().record == records[at]);
        }
    }
}

/// A record whose shard generation is fenced is never published, whatever its segment's garbage
/// says.
pub proof fn law_fenced_generations_are_never_published(evidence: CopyEvidence)
    requires
        evidence.generation_obsolete,
    ensures
        skip_kind(evidence) == Some(GcSkippedCopiedRecordKind::Retired),
{
}

} // verus!
