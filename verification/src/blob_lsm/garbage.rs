//! Terminal garbage records and their GC summary accounting.

use std::collections::BTreeMap;

use vstd::prelude::*;

use super::codec::BlobVersion;
use crate::types::{BlobLifecycle, GarbageEvent, RecordRef, SegmentId, StrataLsn};

verus! {

/// The key that a blob is stored under.
#[derive(Clone, Debug, PartialEq, Eq)]
pub struct BlobKey {
    pub bytes: Vec<u8>,
}

impl View for BlobKey {
    type V = Seq<u8>;

    open spec fn view(&self) -> Seq<u8> {
        self.bytes@
    }
}

impl BlobKey {
    pub fn new(bytes: Vec<u8>) -> (key: BlobKey)
        ensures
            key@ == bytes@,
    {
        BlobKey { bytes }
    }

    /// Another key with the same bytes.
    pub fn copy(&self) -> (key: BlobKey)
        ensures
            key@ == self@,
    {
        let bytes: Vec<u8> = self.bytes.clone();
        assert(bytes@ =~= self.bytes@);
        BlobKey { bytes }
    }
}

/// A change to the GC summary of one segment.
#[derive(Clone, Debug, PartialEq, Eq)]
pub struct SegmentGcSummaryDelta {
    pub total_bytes: i128,
    pub live_bytes: i128,
    pub retired_bytes: i128,
    pub expired_bytes: i128,
    pub live_ref_count: i128,
    pub unknown_lifetime_bytes: i128,
    pub unknown_lifetime_ref_count: i128,
    /// Live bytes by the epoch at which they end.
    pub epoch_bytes: BTreeMap<u64, i128>,
    /// Live records by the epoch at which they end.
    pub epoch_refs: BTreeMap<u64, i128>,
    /// Live records by how often their lifetime was extended.
    pub extension_counts: BTreeMap<u32, i128>,
}

/// What a [`SegmentGcSummaryDelta`] says.
#[verifier::ext_equal]
pub struct DeltaView {
    pub total_bytes: int,
    pub live_bytes: int,
    pub retired_bytes: int,
    pub expired_bytes: int,
    pub live_ref_count: int,
    pub unknown_lifetime_bytes: int,
    pub unknown_lifetime_ref_count: int,
    pub epoch_bytes: Map<u64, i128>,
    pub epoch_refs: Map<u64, i128>,
    pub extension_counts: Map<u32, i128>,
}

impl View for SegmentGcSummaryDelta {
    type V = DeltaView;

    open spec fn view(&self) -> DeltaView {
        DeltaView {
            total_bytes: self.total_bytes as int,
            live_bytes: self.live_bytes as int,
            retired_bytes: self.retired_bytes as int,
            expired_bytes: self.expired_bytes as int,
            live_ref_count: self.live_ref_count as int,
            unknown_lifetime_bytes: self.unknown_lifetime_bytes as int,
            unknown_lifetime_ref_count: self.unknown_lifetime_ref_count as int,
            epoch_bytes: self.epoch_bytes@,
            epoch_refs: self.epoch_refs@,
            extension_counts: self.extension_counts@,
        }
    }
}

/// No change at all.
pub open spec fn no_change() -> DeltaView {
    DeltaView {
        total_bytes: 0,
        live_bytes: 0,
        retired_bytes: 0,
        expired_bytes: 0,
        live_ref_count: 0,
        unknown_lifetime_bytes: 0,
        unknown_lifetime_ref_count: 0,
        epoch_bytes: Map::empty(),
        epoch_refs: Map::empty(),
        extension_counts: Map::empty(),
    }
}

/// A histogram's count at `key`; nothing is counted where it has no bucket.
pub open spec fn count_at<K>(histogram: Map<K, i128>, key: K) -> int {
    if histogram.dom().contains(key) {
        histogram[key] as int
    } else {
        0
    }
}

/// Adds `by` to the bucket at `key`.
pub open spec fn bumped<K>(histogram: Map<K, i128>, key: K, by: int) -> Map<K, i128> {
    histogram.insert(key, (count_at(histogram, key) + by) as i128)
}

/// Counts `bytes` and `refs` under the lifetime that they have.
pub open spec fn classified(
    delta: DeltaView,
    lifecycle: Option<BlobLifecycle>,
    bytes: int,
    refs: int,
    with_extension: bool,
) -> DeltaView {
    match lifecycle {
        Some(known) => DeltaView {
            epoch_bytes: bumped(delta.epoch_bytes, known.logical_end_epoch, bytes),
            epoch_refs: bumped(delta.epoch_refs, known.logical_end_epoch, refs),
            extension_counts: if with_extension {
                bumped(delta.extension_counts, known.extension_count, refs)
            } else {
                delta.extension_counts
            },
            ..delta
        },
        None => DeltaView {
            unknown_lifetime_bytes: delta.unknown_lifetime_bytes + bytes,
            unknown_lifetime_ref_count: delta.unknown_lifetime_ref_count + refs,
            ..delta
        },
    }
}

/// Which record of which blob an event is about.
#[derive(Clone, Debug, PartialEq, Eq)]
pub struct SegmentKey {
    pub segment_id: SegmentId,
    pub blob_key: BlobKey,
}

/// One event of the garbage log, with what it changes in its segment's summary.
#[derive(Clone, Debug, PartialEq, Eq)]
pub struct GarbageRecord {
    pub key: SegmentKey,
    pub lsn: StrataLsn,
    pub event: GarbageEvent,
    pub summary_delta: SegmentGcSummaryDelta,
}

/// What a [`GarbageRecord`] says.
#[verifier::ext_equal]
pub struct GarbageRecordView {
    pub segment_id: SegmentId,
    pub blob_key: Seq<u8>,
    pub lsn: StrataLsn,
    pub event: GarbageEvent,
    pub delta: DeltaView,
}

impl View for GarbageRecord {
    type V = GarbageRecordView;

    open spec fn view(&self) -> GarbageRecordView {
        GarbageRecordView {
            segment_id: self.key.segment_id,
            blob_key: self.key.blob_key@,
            lsn: self.lsn,
            event: self.event,
            delta: self.summary_delta@,
        }
    }
}

/// What a list of garbage records says.
pub open spec fn records_view(records: Seq<GarbageRecord>) -> Seq<GarbageRecordView> {
    records.map_values(|record: GarbageRecord| record@)
}

/// The record reported when a live version's lifecycle changes.
pub open spec fn lifetime_change(
    key: Seq<u8>,
    lsn: StrataLsn,
    version: BlobVersion,
    before: Option<BlobLifecycle>,
    after: Option<BlobLifecycle>,
) -> GarbageRecordView {
    let bytes = version.record_ref.len as int;
    GarbageRecordView {
        segment_id: version.record_ref.segment_id,
        blob_key: key,
        lsn,
        event: GarbageEvent::SetLifecycle { record: version.record_ref, lifecycle: after },
        delta: classified(
            classified(no_change(), before, -bytes, -1, true),
            after,
            bytes,
            1,
            true,
        ),
    }
}

/// The record reported when a version was overwritten, deleted or fenced.
pub open spec fn retired(
    key: Seq<u8>,
    lsn: StrataLsn,
    record: RecordRef,
    lifecycle: Option<BlobLifecycle>,
) -> GarbageRecordView {
    let bytes = record.len as int;
    GarbageRecordView {
        segment_id: record.segment_id,
        blob_key: key,
        lsn,
        event: GarbageEvent::Retired { record },
        delta: classified(
            DeltaView {
                live_bytes: -bytes,
                live_ref_count: -1,
                retired_bytes: bytes,
                ..no_change()
            },
            lifecycle,
            -bytes,
            -1,
            true,
        ),
    }
}

/// The record reported when a version's lifetime ended. How often the lifetime was extended stays
/// on the books.
pub open spec fn expired(
    key: Seq<u8>,
    lsn: StrataLsn,
    record: RecordRef,
    lifecycle: Option<BlobLifecycle>,
) -> GarbageRecordView {
    let bytes = record.len as int;
    GarbageRecordView {
        segment_id: record.segment_id,
        blob_key: key,
        lsn,
        event: GarbageEvent::Expired { record },
        delta: classified(
            DeltaView {
                live_bytes: -bytes,
                live_ref_count: -1,
                expired_bytes: bytes,
                ..no_change()
            },
            lifecycle,
            -bytes,
            -1,
            false,
        ),
    }
}

impl SegmentGcSummaryDelta {
    /// No change.
    pub fn new() -> (delta: SegmentGcSummaryDelta)
        ensures
            delta@ == no_change(),
    {
        SegmentGcSummaryDelta {
            total_bytes: 0,
            live_bytes: 0,
            retired_bytes: 0,
            expired_bytes: 0,
            live_ref_count: 0,
            unknown_lifetime_bytes: 0,
            unknown_lifetime_ref_count: 0,
            epoch_bytes: BTreeMap::new(),
            epoch_refs: BTreeMap::new(),
            extension_counts: BTreeMap::new(),
        }
    }
}

impl Default for SegmentGcSummaryDelta {
    fn default() -> (delta: SegmentGcSummaryDelta)
        ensures
            delta@ == no_change(),
    {
        SegmentGcSummaryDelta::new()
    }
}

/// Every bucket is within `limit` of zero.
spec fn buckets_within<K>(histogram: Map<K, i128>, limit: int) -> bool {
    forall|key: K| #[trigger] histogram.dom().contains(key) ==> -limit <= histogram[key] <= limit
}

/// Far beyond what one record can add to a bucket, far below what a bucket can hold.
spec fn bucket_limit() -> int {
    0x1_0000_0000_0000_0000_0000
}

fn bump_u64(histogram: &mut BTreeMap<u64, i128>, key: u64, by: i128)
    requires
        buckets_within(old(histogram)@, bucket_limit()),
        -bucket_limit() <= by <= bucket_limit(),
    ensures
        final(histogram)@ == bumped(old(histogram)@, key, by as int),
{
    let count: i128 = match histogram.get(&key) {
        Some(count) => *count,
        None => 0,
    };
    histogram.insert(key, count + by);
}

fn bump_u32(histogram: &mut BTreeMap<u32, i128>, key: u32, by: i128)
    requires
        buckets_within(old(histogram)@, bucket_limit()),
        -bucket_limit() <= by <= bucket_limit(),
    ensures
        final(histogram)@ == bumped(old(histogram)@, key, by as int),
{
    let count: i128 = match histogram.get(&key) {
        Some(count) => *count,
        None => 0,
    };
    histogram.insert(key, count + by);
}

spec fn summable(delta: DeltaView) -> bool {
    &&& buckets_within(delta.epoch_bytes, bucket_limit())
    &&& buckets_within(delta.epoch_refs, bucket_limit())
    &&& buckets_within(delta.extension_counts, bucket_limit())
    &&& -bucket_limit() <= delta.unknown_lifetime_bytes <= bucket_limit()
    &&& -bucket_limit() <= delta.unknown_lifetime_ref_count <= bucket_limit()
}

fn classify_lifetime(
    delta: &mut SegmentGcSummaryDelta,
    lifecycle: Option<BlobLifecycle>,
    bytes: i128,
    refs: i128,
    with_extension: bool,
)
    requires
        summable(old(delta)@),
        -0x1_0000_0000_0000_0000 <= bytes <= 0x1_0000_0000_0000_0000,
        -1 <= refs <= 1,
    ensures
        final(delta)@ == classified(
            old(delta)@,
            lifecycle,
            bytes as int,
            refs as int,
            with_extension,
        ),
{
    match lifecycle {
        Some(known) => {
            bump_u64(&mut delta.epoch_bytes, known.logical_end_epoch, bytes);
            bump_u64(&mut delta.epoch_refs, known.logical_end_epoch, refs);
            if with_extension {
                bump_u32(&mut delta.extension_counts, known.extension_count, refs);
            }
        },
        None => {
            delta.unknown_lifetime_bytes = delta.unknown_lifetime_bytes + bytes;
            delta.unknown_lifetime_ref_count = delta.unknown_lifetime_ref_count + refs;
        },
    }
}

fn segment_key(key: &BlobKey, record: RecordRef) -> (result: SegmentKey)
    ensures
        result.segment_id == record.segment_id,
        result.blob_key@ == key@,
{
    SegmentKey { segment_id: record.segment_id, blob_key: key.copy() }
}

/// Reports that a live version's lifecycle changed.
pub fn emit_lifetime_change(
    key: &BlobKey,
    lsn: StrataLsn,
    version: BlobVersion,
    before: Option<BlobLifecycle>,
    after: Option<BlobLifecycle>,
    out: &mut Vec<GarbageRecord>,
)
    ensures
        records_view(final(out)@) == records_view(old(out)@).push(
            lifetime_change(key@, lsn, version, before, after),
        ),
{
    let bytes: i128 = version.record_ref.len as i128;
    let mut summary_delta = SegmentGcSummaryDelta::new();
    classify_lifetime(&mut summary_delta, before, -bytes, -1, true);
    classify_lifetime(&mut summary_delta, after, bytes, 1, true);
    out.push(
        GarbageRecord {
            key: segment_key(key, version.record_ref),
            lsn,
            event: GarbageEvent::SetLifecycle { record: version.record_ref, lifecycle: after },
            summary_delta,
        },
    );
    assert(records_view(out@) =~= records_view(old(out)@).push(
        lifetime_change(key@, lsn, version, before, after),
    ));
}

/// Reports that a record was overwritten, deleted or fenced.
pub fn emit_retired(
    key: &BlobKey,
    lsn: StrataLsn,
    record: RecordRef,
    lifecycle: Option<BlobLifecycle>,
    out: &mut Vec<GarbageRecord>,
)
    ensures
        records_view(final(out)@) == records_view(old(out)@).push(
            retired(key@, lsn, record, lifecycle),
        ),
{
    out.push(terminal_garbage_record(key, lsn, record, lifecycle, false));
    assert(records_view(out@) =~= records_view(old(out)@).push(
        retired(key@, lsn, record, lifecycle),
    ));
}

/// Reports that a record's lifetime ended.
pub fn emit_expired(
    key: &BlobKey,
    lsn: StrataLsn,
    record: RecordRef,
    lifecycle: Option<BlobLifecycle>,
    out: &mut Vec<GarbageRecord>,
)
    ensures
        records_view(final(out)@) == records_view(old(out)@).push(
            expired(key@, lsn, record, lifecycle),
        ),
{
    out.push(terminal_garbage_record(key, lsn, record, lifecycle, true));
    assert(records_view(out@) =~= records_view(old(out)@).push(
        expired(key@, lsn, record, lifecycle),
    ));
}

/// The record that takes one version off its segment's books.
pub fn terminal_garbage_record(
    key: &BlobKey,
    lsn: StrataLsn,
    record: RecordRef,
    lifecycle: Option<BlobLifecycle>,
    by_expiry: bool,
) -> (result: GarbageRecord)
    ensures
        result@ == (if by_expiry {
            expired(key@, lsn, record, lifecycle)
        } else {
            retired(key@, lsn, record, lifecycle)
        }),
{
    let bytes: i128 = record.len as i128;
    let mut summary_delta = SegmentGcSummaryDelta::new();
    summary_delta.live_bytes = -bytes;
    summary_delta.live_ref_count = -1;
    let event: GarbageEvent;
    if by_expiry {
        summary_delta.expired_bytes = bytes;
        classify_lifetime(&mut summary_delta, lifecycle, -bytes, -1, false);
        event = GarbageEvent::Expired { record };
    } else {
        summary_delta.retired_bytes = bytes;
        classify_lifetime(&mut summary_delta, lifecycle, -bytes, -1, true);
        event = GarbageEvent::Retired { record };
    }
    GarbageRecord { key: segment_key(key, record), lsn, event, summary_delta }
}

} // verus!
