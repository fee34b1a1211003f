//! What one store counts and measures.

use vstd::prelude::*;

use crate::batch::StoreSyncProfile;
use crate::gc::publish::{GcKnownDelta, SegmentGcSummary};
use crate::maintenance::compaction::MainCompactionKind;
use crate::num;
use crate::num::min_u64;
use crate::text::{joined, same};
use crate::types::{Epoch, SegmentId, StrataLsn};

verus! {

/// The name under which a figure is shown.
pub fn metric_name(name: &str) -> (full: String)
    ensures
        full@ == "strata_store_"@ + name@,
{
    joined("strata_store_", name)
}

/// The value of a gauge that shows a number: the largest one where it does not fit.
pub open spec fn gauge_of(value: u64) -> i64 {
    num::at_most(value as int, i64::MAX as int) as i64
}

pub fn to_i64(value: u64) -> (gauge: i64)
    ensures
        gauge == gauge_of(value),
{
    min_u64(value, i64::MAX as u64) as i64
}

/// The position that a gauge shows.
pub open spec fn lsn_of_gauge(gauge: i64) -> StrataLsn {
    num::at_least(gauge as int, 0) as u64
}

pub fn lsn_from_i64(gauge: i64) -> (lsn: StrataLsn)
    ensures
        lsn == lsn_of_gauge(gauge),
{
    if gauge < 0 {
        0
    } else {
        gauge as u64
    }
}

/// How many positions lie between the last published and the next.
pub open spec fn pending_lsns(next_lsn: StrataLsn, published_lsn: StrataLsn) -> i64 {
    gauge_of(num::at_least(next_lsn - published_lsn - 1, 0) as u64)
}

pub fn pending_lsn_count(next_lsn: StrataLsn, published_lsn: StrataLsn) -> (gauge: i64)
    ensures
        gauge == pending_lsns(next_lsn, published_lsn),
{
    if next_lsn > published_lsn {
        to_i64(next_lsn - published_lsn - 1)
    } else {
        0
    }
}

/// A gauge after a change: never below zero, never above what it can show.
pub open spec fn moved_gauge(gauge: i64, delta: int) -> i64 {
    num::at_most(num::at_least(gauge + delta, 0), i64::MAX as int) as i64
}

pub fn apply_gauge_delta(gauge: i64, delta: i128) -> (next: i64)
    ensures
        next == moved_gauge(gauge, delta as int),
{
    match (gauge as i128).checked_add(delta) {
        Some(next) => {
            if next < 0 {
                0
            } else if next > i64::MAX as i128 {
                i64::MAX
            } else {
                next as i64
            }
        },
        None => {
            if delta < 0 {
                0
            } else {
                i64::MAX
            }
        },
    }
}

/// A gauge that only rises.
pub open spec fn raised(gauge: i64, value: u64) -> i64 {
    num::at_least(gauge as int, gauge_of(value) as int) as i64
}

fn raise(gauge: i64, value: u64) -> (next: i64)
    ensures
        next == raised(gauge, value),
{
    let value: i64 = to_i64(value);
    if gauge < value {
        value
    } else {
        gauge
    }
}

/// What is left of a number; nothing where more is taken than there is.
pub open spec fn less(value: u64, taken: u64) -> u64 {
    num::at_least(value - taken, 0) as u64
}

fn saturating_less(value: u64, taken: u64) -> (rest: u64)
    ensures
        rest == less(value, taken),
{
    if value > taken {
        value - taken
    } else {
        0
    }
}

/// How often something was observed, and what the observations come to.
#[derive(Clone, Copy, Debug, PartialEq, Eq, Structural)]
pub struct Tally {
    pub count: u64,
    pub sum: u128,
}

impl Tally {
    pub open spec fn zero() -> Tally {
        Tally { count: 0, sum: 0 }
    }

    /// With one more observation.
    pub open spec fn with(self, amount: u128) -> Tally {
        Tally { count: self.count.wrapping_add(1), sum: self.sum.wrapping_add(amount) }
    }

    pub fn plus(&self, amount: u128) -> (tally: Tally)
        ensures
            tally == self.with(amount),
    {
        Tally { count: self.count.wrapping_add(1), sum: self.sum.wrapping_add(amount) }
    }
}

/// A tally under a label, or under two.
#[derive(Clone, Debug)]
pub struct LabelTally {
    pub label: String,
    pub detail: String,
    pub tally: Tally,
}

/// Tallies by label.
#[derive(Clone, Debug)]
pub struct LabelTallies {
    pub entries: Vec<LabelTally>,
}

/// The tally under a label; nothing where there is none.
pub open spec fn tally_at(entries: Seq<LabelTally>, label: Seq<char>, detail: Seq<char>) -> Tally
    decreases entries.len(),
{
    if entries.len() == 0 {
        Tally::zero()
    } else if entries.last().label@ == label && entries.last().detail@ == detail {
        entries.last().tally
    } else {
        tally_at(entries.drop_last(), label, detail)
    }
}

proof fn lemma_tally_updated(
    entries: Seq<LabelTally>,
    at: int,
    entry: LabelTally,
    label: Seq<char>,
    detail: Seq<char>,
)
    requires
        0 <= at < entries.len(),
        entry.label@ == entries[at].label@,
        entry.detail@ == entries[at].detail@,
        forall|k: int|
            at < k < entries.len() ==> !((#[trigger] entries[k]).label@ == entry.label@
                && entries[k].detail@ == entry.detail@),
    ensures
        tally_at(entries.update(at, entry), label, detail) == (if label == entry.label@ && detail
            == entry.detail@ {
            entry.tally
        } else {
            tally_at(entries, label, detail)
        }),
    decreases entries.len(),
{
    let after = entries.update(at, entry);
    if at == entries.len() - 1 {
        assert(after.drop_last() =~= entries.drop_last());
    } else {
        assert(after.drop_last() =~= entries.drop_last().update(at, entry));
        let init = entries.drop_last();
        assert forall|k: int| at < k < init.len() implies !((#[trigger] init[k]).label@
            == entry.label@ && init[k].detail@ == entry.detail@) by {
            assert(init[k] == entries[k]);
        }
        lemma_tally_updated(init, at, entry, label, detail);
        assert(after.last() == entries.last());
        assert(entries[entries.len() - 1] == entries.last());
    }
}

impl LabelTallies {
    pub open spec fn at(&self, label: Seq<char>, detail: Seq<char>) -> Tally {
        tally_at(self.entries@, label, detail)
    }

    /// These are the tallies of before, but for one.
    pub open spec fn replaced(
        &self,
        before: &LabelTallies,
        label: Seq<char>,
        detail: Seq<char>,
        tally: Tally,
    ) -> bool {
        forall|l: Seq<char>, d: Seq<char>| #[trigger]
            self.at(l, d) == (if l == label && d == detail {
                tally
            } else {
                before.at(l, d)
            })
    }

    /// One tally went up by a number.
    pub open spec fn counted(
        &self,
        before: &LabelTallies,
        label: Seq<char>,
        detail: Seq<char>,
        amount: u64,
    ) -> bool {
        self.replaced(
            before,
            label,
            detail,
            Tally {
                count: before.at(label, detail).count.wrapping_add(amount),
                sum: before.at(label, detail).sum,
            },
        )
    }

    /// One tally has one more observation.
    pub open spec fn observed(
        &self,
        before: &LabelTallies,
        label: Seq<char>,
        detail: Seq<char>,
        amount: u128,
    ) -> bool {
        self.replaced(before, label, detail, before.at(label, detail).with(amount))
    }

    pub fn new() -> (tallies: LabelTallies)
        ensures
            tallies.entries@ == Seq::<LabelTally>::empty(),
    {
        LabelTallies { entries: Vec::new() }
    }

    /// The tally under a label.
    pub fn get(&self, label: &str, detail: &str) -> (tally: Tally)
        ensures
            tally == self.at(label@, detail@),
    {
        match self.find(label, detail) {
            Some(i) => self.entries[i].tally,
            None => Tally { count: 0, sum: 0 },
        }
    }

    fn find(&self, label: &str, detail: &str) -> (place: Option<usize>)
        ensures
            match place {
                Some(i) => {
                    &&& i < self.entries@.len()
                    &&& self.entries@[i as int].label@ == label@
                    &&& self.entries@[i as int].detail@ == detail@
                    &&& self.at(label@, detail@) == self.entries@[i as int].tally
                    &&& forall|k: int|
                        i < k < self.entries@.len() ==> !((#[trigger] self.entries@[k]).label@
                            == label@ && self.entries@[k].detail@ == detail@)
                },
                None => {
                    &&& self.at(label@, detail@) == Tally::zero()
                    &&& forall|k: int|
                        0 <= k < self.entries@.len() ==> !((#[trigger] self.entries@[k]).label@
                            == label@ && self.entries@[k].detail@ == detail@)
                },
            },
    {
        let mut i: usize = self.entries.len();
        assert(self.entries@.take(i as int) =~= self.entries@);
        while i > 0
            invariant
                i <= self.entries@.len(),
                self.at(label@, detail@) == tally_at(
                    self.entries@.take(i as int),
                    label@,
                    detail@,
                ),
                forall|k: int|
                    i <= k < self.entries@.len() ==> !((#[trigger] self.entries@[k]).label@
                        == label@ && self.entries@[k].detail@ == detail@),
            decreases i,
        {
            assert(self.entries@.take(i as int).last() == self.entries@[i - 1]);
            assert(self.entries@.take(i as int).drop_last() =~= self.entries@.take(i - 1));
            i = i - 1;
            if same(self.entries[i].label.as_str(), label) && same(
                self.entries[i].detail.as_str(),
                detail,
            ) {
                return Some(i);
            }
        }
        None
    }

    fn put(&mut self, label: &str, detail: &str, tally: Tally)
        ensures
            final(self).replaced(old(self), label@, detail@, tally),
    {
        let ghost before = *self;
        match self.find(label, detail) {
            Some(i) => {
                let entry: LabelTally = LabelTally {
                    label: label.to_owned(),
                    detail: detail.to_owned(),
                    tally,
                };
                let ghost written = entry;
                self.entries.set(i, entry);
                assert forall|l: Seq<char>, d: Seq<char>| #[trigger]
                    self.at(l, d) == (if l == label@ && d == detail@ {
                        tally
                    } else {
                        before.at(l, d)
                    }) by {
                    lemma_tally_updated(before.entries@, i as int, written, l, d);
                }
            },
            None => {
                self.entries.push(
                    LabelTally { label: label.to_owned(), detail: detail.to_owned(), tally },
                );
                assert(self.entries@.drop_last() =~= before.entries@);
            },
        }
    }

    /// Raises the tally under a label.
    pub fn count(&mut self, label: &str, detail: &str, amount: u64)
        ensures
            final(self).counted(old(self), label@, detail@, amount),
    {
        let tally: Tally = self.get(label, detail);
        self.put(
            label,
            detail,
            Tally { count: tally.count.wrapping_add(amount), sum: tally.sum },
        );
    }

    /// Adds an observation to the tally under a label.
    pub fn observe(&mut self, label: &str, detail: &str, amount: u128)
        ensures
            final(self).observed(old(self), label@, detail@, amount),
    {
        let tally: Tally = self.get(label, detail);
        self.put(label, detail, tally.plus(amount));
    }
}

/// The label of a lookup's outcome.
pub open spec fn result_label(result: Result<bool, ()>) -> Seq<char> {
    match result {
        Ok(true) => "hit"@,
        Ok(false) => "miss"@,
        Err(_) => "error"@,
    }
}

fn lookup_label(result: Result<bool, ()>) -> (label: &'static str)
    ensures
        label@ == result_label(result),
{
    match result {
        Ok(true) => "hit",
        Ok(false) => "miss",
        Err(_) => "error",
    }
}

/// What a put added.
#[derive(Clone, Copy, Debug, PartialEq, Eq, Structural)]
pub struct PutMetric {
    pub payload_bytes: u64,
    pub record_bytes: u64,
}

/// What the phases of a sync come to.
pub open spec fn accounted(profile: StoreSyncProfile) -> int {
    profile.capture + profile.segment_file_sync + profile.wal_sync + profile.completion_queue_wait
        + profile.relocation_lock_wait + profile.published_lsn_compute + profile.index_batch_commit
        + profile.state_update + profile.wal_reclaim
}

/// What of a sync's time belongs to no phase.
pub open spec fn residual(profile: StoreSyncProfile, total: u128) -> int {
    num::at_least(total - accounted(profile), 0)
}

/// The phases of syncs.
#[derive(Clone, Copy, Debug, PartialEq, Eq, Structural)]
pub struct SyncPhases {
    pub capture: Tally,
    pub segment_files: Tally,
    pub wal: Tally,
    pub completion_queue: Tally,
    pub relocation_lock: Tally,
    pub metadata_build: Tally,
    pub index_sync_commit: Tally,
    pub state_update: Tally,
    pub wal_reclaim: Tally,
    pub unattributed: Tally,
}

impl SyncPhases {
    pub open spec fn zero() -> SyncPhases {
        SyncPhases {
            capture: Tally::zero(),
            segment_files: Tally::zero(),
            wal: Tally::zero(),
            completion_queue: Tally::zero(),
            relocation_lock: Tally::zero(),
            metadata_build: Tally::zero(),
            index_sync_commit: Tally::zero(),
            state_update: Tally::zero(),
            wal_reclaim: Tally::zero(),
            unattributed: Tally::zero(),
        }
    }

    pub fn new() -> (phases: SyncPhases)
        ensures
            phases == SyncPhases::zero(),
    {
        let none: Tally = Tally { count: 0, sum: 0 };
        SyncPhases {
            capture: none,
            segment_files: none,
            wal: none,
            completion_queue: none,
            relocation_lock: none,
            metadata_build: none,
            index_sync_commit: none,
            state_update: none,
            wal_reclaim: none,
            unattributed: none,
        }
    }

    /// With one more sync.
    pub open spec fn with(self, profile: StoreSyncProfile, total: u128) -> SyncPhases {
        SyncPhases {
            capture: self.capture.with(profile.capture),
            segment_files: self.segment_files.with(profile.segment_file_sync),
            wal: self.wal.with(profile.wal_sync),
            completion_queue: self.completion_queue.with(profile.completion_queue_wait),
            relocation_lock: self.relocation_lock.with(profile.relocation_lock_wait),
            metadata_build: self.metadata_build.with(profile.published_lsn_compute),
            index_sync_commit: self.index_sync_commit.with(profile.index_batch_commit),
            state_update: self.state_update.with(profile.state_update),
            wal_reclaim: self.wal_reclaim.with(profile.wal_reclaim),
            unattributed: self.unattributed.with(residual(profile, total) as u128),
        }
    }

    /// Each phase with its name.
    pub open spec fn named(self) -> Seq<(&'static str, Tally)> {
        seq![
            ("capture", self.capture),
            ("segment_files", self.segment_files),
            ("wal", self.wal),
            ("completion_queue", self.completion_queue),
            ("relocation_lock", self.relocation_lock),
            ("metadata_build", self.metadata_build),
            ("index_sync_commit", self.index_sync_commit),
            ("state_update", self.state_update),
            ("wal_reclaim", self.wal_reclaim),
            ("unattributed", self.unattributed),
        ]
    }

    /// Each phase with its name.
    pub fn by_name(&self) -> (phases: Vec<(&'static str, Tally)>)
        ensures
            phases@ == self.named(),
    {
        let mut phases: Vec<(&'static str, Tally)> = Vec::new();
        phases.push(("capture", self.capture));
        phases.push(("segment_files", self.segment_files));
        phases.push(("wal", self.wal));
        phases.push(("completion_queue", self.completion_queue));
        phases.push(("relocation_lock", self.relocation_lock));
        phases.push(("metadata_build", self.metadata_build));
        phases.push(("index_sync_commit", self.index_sync_commit));
        phases.push(("state_update", self.state_update));
        phases.push(("wal_reclaim", self.wal_reclaim));
        phases.push(("unattributed", self.unattributed));
        assert(phases@ =~= self.named());
        phases
    }

    fn plus(&self, profile: &StoreSyncProfile, total: u128) -> (phases: SyncPhases)
        ensures
            phases == self.with(*profile, total),
    {
        let accounted: u128 = profile.capture
            .saturating_add(profile.segment_file_sync)
            .saturating_add(profile.wal_sync)
            .saturating_add(profile.completion_queue_wait)
            .saturating_add(profile.relocation_lock_wait)
            .saturating_add(profile.published_lsn_compute)
            .saturating_add(profile.index_batch_commit)
            .saturating_add(profile.state_update)
            .saturating_add(profile.wal_reclaim);
        let rest: u128 = if total > accounted {
            total - accounted
        } else {
            0
        };
        SyncPhases {
            capture: self.capture.plus(profile.capture),
            segment_files: self.segment_files.plus(profile.segment_file_sync),
            wal: self.wal.plus(profile.wal_sync),
            completion_queue: self.completion_queue.plus(profile.completion_queue_wait),
            relocation_lock: self.relocation_lock.plus(profile.relocation_lock_wait),
            metadata_build: self.metadata_build.plus(profile.published_lsn_compute),
            index_sync_commit: self.index_sync_commit.plus(profile.index_batch_commit),
            state_update: self.state_update.plus(profile.state_update),
            wal_reclaim: self.wal_reclaim.plus(profile.wal_reclaim),
            unattributed: self.unattributed.plus(rest),
        }
    }
}

/// What one store counts and measures. Counters wrap; spans of time are in nanoseconds.
#[derive(Clone, Debug)]
pub struct StrataStoreMetrics {
    /// The store that the figures belong to.
    pub store_label: String,
    /// Number of write commands queued for the Strata writer.
    pub queued_write_commands: i64,
    /// Time spent sending commands into the bounded Strata write queue.
    pub write_queue_send_duration_seconds: Tally,
    /// Total failures while sending commands into the Strata write queue.
    pub write_queue_send_errors_total: u64,
    /// Successfully committed client batch requests per physical writer commit.
    pub requests_per_commit_group: Tally,
    /// Total Strata put calls.
    pub put_calls_total: u64,
    /// Total failed Strata put calls.
    pub put_errors_total: u64,
    /// Strata put latency in seconds.
    pub put_duration_seconds: Tally,
    /// Total payload bytes accepted by Strata put calls.
    pub put_payload_bytes_total: u64,
    /// Total encoded record bytes written by Strata put calls.
    pub put_record_bytes_total: u64,
    /// Total bytes successfully read from Strata segment files.
    pub segment_file_bytes_read_total: u64,
    /// Total bytes successfully appended to Strata segment files.
    pub segment_file_bytes_written_total: u64,
    /// Total Strata delete calls.
    pub delete_calls_total: u64,
    /// Total failed Strata delete calls.
    pub delete_errors_total: u64,
    /// Strata delete latency in seconds.
    pub delete_duration_seconds: Tally,
    /// Total Strata sync calls.
    pub sync_calls_total: u64,
    /// Total failed Strata sync calls.
    pub sync_errors_total: u64,
    /// Strata sync latency in seconds.
    pub sync_duration_seconds: Tally,
    /// Successful Strata durability publication latency by non-overlapping phase.
    pub sync_phase_duration_seconds: SyncPhases,
    /// Background store-WAL reclamation latency by phase.
    pub wal_reclaim_phase_duration_seconds: LabelTallies,
    /// Total bytes made durable by Strata sync calls.
    pub sync_bytes_total: u64,
    /// Total store-WAL bytes covered by successful durability publications.
    pub durability_wal_bytes_total: u64,
    /// Store-WAL bytes committed since the latest captured durability boundary.
    pub durability_pending_wal_bytes: i64,
    /// Encoded segment bytes committed since the latest captured durability boundary.
    pub durability_pending_segment_bytes: i64,
    /// Whether one asynchronous durability publication is currently in flight.
    pub durability_publish_in_flight: i64,
    /// Total Strata get calls.
    pub get_calls_total: u64,
    /// Total Strata get calls that found a blob.
    pub get_hits_total: u64,
    /// Total Strata get calls that did not find a blob.
    pub get_misses_total: u64,
    /// Total failed Strata get calls.
    pub get_errors_total: u64,
    /// Strata get latency in seconds.
    pub get_duration_seconds: Tally,
    /// Total payload bytes returned by Strata get calls.
    pub get_payload_bytes_total: u64,
    /// Total relocation-cache requests by result.
    pub relocation_cache_requests_total: LabelTallies,
    /// Total relocation LSM point lookups by result.
    pub relocation_lookups_total: LabelTallies,
    /// Relocation LSM point lookup latency in seconds.
    pub relocation_lookup_duration_seconds: Tally,
    /// Total physical references updated by successful main LSM compactions.
    pub main_compaction_healed_references_total: u64,
    /// Wall-clock duration of successful main LSM compactions.
    pub main_compaction_duration_seconds: Tally,
    /// Encoded main SST input bytes consumed by successful compactions; this is not a device I/O
    /// counter.
    pub main_compaction_input_bytes_total: u64,
    /// Encoded main SST output bytes created by successful compactions; this is not a device I/O
    /// counter.
    pub main_compaction_output_bytes_total: u64,
    /// Highest durable LSN cutoff processed by a successful minor main LSM compaction in this
    /// process.
    pub main_minor_compaction_lsn: i64,
    /// Highest durable LSN cutoff processed by a successful full main LSM compaction in this
    /// process.
    pub main_full_compaction_lsn: i64,
    /// Total logical relocation entries examined by successful relocation LSM compactions.
    pub relocation_compaction_entries_examined_total: u64,
    /// Total relocation entries targeting deleted segments dropped by successful relocation LSM
    /// compactions.
    pub relocation_compaction_entries_dropped_total: u64,
    /// Wall-clock duration of successful relocation LSM compactions.
    pub relocation_compaction_duration_seconds: Tally,
    /// Encoded relocation SST input bytes consumed by successful compactions; this is not a device
    /// I/O counter.
    pub relocation_compaction_input_bytes_total: u64,
    /// Encoded relocation SST output bytes created by successful compactions; this is not a device
    /// I/O counter.
    pub relocation_compaction_output_bytes_total: u64,
    /// Total relocation LSM compaction passes by shape (partial merges a patch tier; full rewrites
    /// base tables).
    pub relocation_compaction_passes_total: LabelTallies,
    /// Total relocation LSM compaction input bytes by pass shape.
    pub relocation_compaction_pass_input_bytes_total: LabelTallies,
    /// Total Strata range read calls.
    pub range_read_calls_total: u64,
    /// Total Strata range reads that found a blob.
    pub range_read_hits_total: u64,
    /// Total Strata range reads that did not find a blob.
    pub range_read_misses_total: u64,
    /// Total failed Strata range reads.
    pub range_read_errors_total: u64,
    /// Strata range read latency in seconds.
    pub range_read_duration_seconds: Tally,
    /// Total payload bytes returned by Strata range reads.
    pub range_read_payload_bytes_total: u64,
    /// Total Strata stream setup calls.
    pub stream_calls_total: u64,
    /// Total Strata stream setup calls that found a blob.
    pub stream_hits_total: u64,
    /// Total Strata stream setup calls that did not find a blob.
    pub stream_misses_total: u64,
    /// Total failed Strata stream setup calls.
    pub stream_errors_total: u64,
    /// Strata stream setup latency in seconds.
    pub stream_duration_seconds: Tally,
    /// Total Strata segment reader cache evictions.
    pub reader_cache_evictions_total: u64,
    /// Total Strata records appended before their metadata batch failed.
    pub orphaned_segment_records_total: u64,
    /// Total Strata segment bytes appended before their metadata batch failed.
    pub orphaned_segment_bytes_total: u64,
    /// Current active Strata segment id.
    pub active_segment_id: i64,
    /// Current active Strata segment write offset.
    pub active_segment_write_offset: i64,
    /// Current active Strata segment durable offset.
    pub active_segment_durable_offset: i64,
    /// Next Strata LSN to assign.
    pub next_lsn: i64,
    /// Highest contiguous durable Strata LSN.
    pub published_lsn: i64,
    /// Encoded segment bytes classified in Strata GC summaries.
    pub gc_known_total_bytes: i64,
    /// Encoded segment bytes currently classified live in Strata GC summaries.
    pub gc_known_live_bytes: i64,
    /// Encoded segment bytes currently classified retired in Strata GC summaries.
    pub gc_known_retired_bytes: i64,
    /// Encoded segment bytes currently classified expired in Strata GC summaries.
    pub gc_known_expired_bytes: i64,
    /// Physical references currently classified live in Strata GC summaries.
    pub gc_known_live_ref_count: i64,
    /// Sealed source segments fenced between GC relocation publish and final deletion.
    pub gc_relocating_segments: i64,
    /// Encoded bytes in GC output segments that were successfully published.
    pub gc_output_bytes_total: u64,
    /// Physical bytes in GC source segment files that were successfully unlinked.
    pub gc_source_deleted_bytes_total: u64,
    /// Net physical bytes reclaimed by GC after subtracting replacement output bytes from
    /// successfully unlinked source bytes.
    pub gc_reclaimed_bytes_total: u64,
    /// GC plans successfully selected and source-claimed, classified by strategy and action.
    pub gc_strategy_selected_total: LabelTallies,
    /// GC plans whose metadata or relocation publication completed successfully, classified by
    /// strategy and action.
    pub gc_strategy_completed_total: LabelTallies,
    /// Encoded bytes in successfully published GC output segments, classified by originating
    /// strategy.
    pub gc_strategy_output_bytes_total: LabelTallies,
    /// Physical source-file bytes successfully unlinked, attributed to the GC strategy that made
    /// them reclaimable.
    pub gc_strategy_source_deleted_bytes_total: LabelTallies,
    /// Net physical bytes reclaimed after subtracting replacement output, attributed to the
    /// originating GC strategy.
    pub gc_strategy_reclaimed_bytes_total: LabelTallies,
    /// Current Strata epoch.
    pub current_epoch: i64,
    /// Number of assigned Strata LSNs not yet known durable.
    pub pending_lsn_count: i64,
    /// Number of unsealed Strata segments.
    pub unsealed_segments: i64,
    /// Total Strata segments sealed.
    pub sealed_segments_total: u64,
    /// Total Strata segment seal failures.
    pub seal_errors_total: u64,
    /// Total times Strata writes waited for unsealed segment backlog capacity.
    pub seal_backpressure_waits_total: u64,
    /// Time Strata writes spent waiting for unsealed segment backlog capacity.
    pub seal_backpressure_wait_duration_seconds: Tally,
    /// Whether the Strata writer is currently waiting for unsealed segment backlog capacity.
    pub seal_backpressure_current: i64,
    /// Total Strata unsealed segments processed during recovery.
    pub recovery_segments_total: u64,
    /// Total complete Strata unsealed segments recovered.
    pub recovery_complete_segments_total: u64,
    /// Total incomplete Strata unsealed segments recovered.
    pub recovery_incomplete_segments_total: u64,
    /// Total Strata records recovered from unsealed segment files.
    pub recovery_records_total: u64,
    /// Total Strata bytes recovered from unsealed segment files.
    pub recovery_bytes_total: u64,
    /// Total Strata segment files discarded during recovery.
    pub recovery_discarded_segments_total: u64,
    /// Total Strata metadata operations rolled back during recovery.
    pub recovery_rollback_ops_total: u64,
    /// Lowest Strata LSN rolled back by the most recent recovery rollback.
    pub recovery_last_rollback_from: i64,
    /// Configured upper bound for background Strata GC workers.
    pub gc_configured_workers: i64,
    /// Current runtime limit for background Strata GC workers admitted concurrently.
    pub gc_active_worker_limit: i64,
    /// Configured healthy upper bound for background Strata GC disk I/O bytes per second.
    pub gc_configured_io_bytes_per_sec: i64,
    /// Configured lower bound for background Strata GC disk I/O bytes per second under foreground
    /// pressure.
    pub gc_min_io_bytes_per_sec: i64,
    /// Current runtime background Strata GC disk I/O budget in bytes per second.
    pub gc_active_io_bytes_per_sec: i64,
    /// Current number of background Strata GC workers running an admitted attempt.
    pub gc_in_flight_workers: i64,
    /// Total background Strata GC attempts admitted by the runtime concurrency tuner.
    pub gc_admitted_total: u64,
    /// Total admitted background Strata GC attempts that ended in an error.
    pub gc_run_failures_total: u64,
    /// Total admitted background Strata GC attempts that ended in an error, classified by bounded
    /// reason.
    pub gc_run_failures_by_reason_total: LabelTallies,
    /// Consecutive failed background Strata GC attempts since the last success; alert when this
    /// keeps growing.
    pub gc_consecutive_run_failures: i64,
    /// Total background Strata GC attempts skipped because the runtime concurrency limit was full.
    pub gc_skipped_by_tuner_total: u64,
    /// Total times the Strata GC runtime tuner increased active worker concurrency.
    pub gc_tuner_increases_total: u64,
    /// Total times the Strata GC runtime tuner decreased active worker concurrency.
    pub gc_tuner_decreases_total: u64,
    /// Current Strata GC tuner health state: 0 healthy, 1 pressured, 2 cooldown.
    pub gc_tuner_health_state: i64,
}

impl StrataStoreMetrics {
    /// Nothing was counted or measured yet.
    pub open spec fn is_zero(&self) -> bool {
        &&& self.queued_write_commands == 0
        &&& self.write_queue_send_duration_seconds == Tally::zero()
        &&& self.write_queue_send_errors_total == 0
        &&& self.requests_per_commit_group == Tally::zero()
        &&& self.put_calls_total == 0
        &&& self.put_errors_total == 0
        &&& self.put_duration_seconds == Tally::zero()
        &&& self.put_payload_bytes_total == 0
        &&& self.put_record_bytes_total == 0
        &&& self.segment_file_bytes_read_total == 0
        &&& self.segment_file_bytes_written_total == 0
        &&& self.delete_calls_total == 0
        &&& self.delete_errors_total == 0
        &&& self.delete_duration_seconds == Tally::zero()
        &&& self.sync_calls_total == 0
        &&& self.sync_errors_total == 0
        &&& self.sync_duration_seconds == Tally::zero()
        &&& self.sync_phase_duration_seconds == SyncPhases::zero()
        &&& self.wal_reclaim_phase_duration_seconds.entries@.len() == 0
        &&& self.sync_bytes_total == 0
        &&& self.durability_wal_bytes_total == 0
        &&& self.durability_pending_wal_bytes == 0
        &&& self.durability_pending_segment_bytes == 0
        &&& self.durability_publish_in_flight == 0
        &&& self.get_calls_total == 0
        &&& self.get_hits_total == 0
        &&& self.get_misses_total == 0
        &&& self.get_errors_total == 0
        &&& self.get_duration_seconds == Tally::zero()
        &&& self.get_payload_bytes_total == 0
        &&& self.relocation_cache_requests_total.entries@.len() == 0
        &&& self.relocation_lookups_total.entries@.len() == 0
        &&& self.relocation_lookup_duration_seconds == Tally::zero()
        &&& self.main_compaction_healed_references_total == 0
        &&& self.main_compaction_duration_seconds == Tally::zero()
        &&& self.main_compaction_input_bytes_total == 0
        &&& self.main_compaction_output_bytes_total == 0
        &&& self.main_minor_compaction_lsn == 0
        &&& self.main_full_compaction_lsn == 0
        &&& self.relocation_compaction_entries_examined_total == 0
        &&& self.relocation_compaction_entries_dropped_total == 0
        &&& self.relocation_compaction_duration_seconds == Tally::zero()
        &&& self.relocation_compaction_input_bytes_total == 0
        &&& self.relocation_compaction_output_bytes_total == 0
        &&& self.relocation_compaction_passes_total.entries@.len() == 0
        &&& self.relocation_compaction_pass_input_bytes_total.entries@.len() == 0
        &&& self.range_read_calls_total == 0
        &&& self.range_read_hits_total == 0
        &&& self.range_read_misses_total == 0
        &&& self.range_read_errors_total == 0
        &&& self.range_read_duration_seconds == Tally::zero()
        &&& self.range_read_payload_bytes_total == 0
        &&& self.stream_calls_total == 0
        &&& self.stream_hits_total == 0
        &&& self.stream_misses_total == 0
        &&& self.stream_errors_total == 0
        &&& self.stream_duration_seconds == Tally::zero()
        &&& self.reader_cache_evictions_total == 0
        &&& self.orphaned_segment_records_total == 0
        &&& self.orphaned_segment_bytes_total == 0
        &&& self.active_segment_id == 0
        &&& self.active_segment_write_offset == 0
        &&& self.active_segment_durable_offset == 0
        &&& self.next_lsn == 0
        &&& self.published_lsn == 0
        &&& self.gc_known_total_bytes == 0
        &&& self.gc_known_live_bytes == 0
        &&& self.gc_known_retired_bytes == 0
        &&& self.gc_known_expired_bytes == 0
        &&& self.gc_known_live_ref_count == 0
        &&& self.gc_relocating_segments == 0
        &&& self.gc_output_bytes_total == 0
        &&& self.gc_source_deleted_bytes_total == 0
        &&& self.gc_reclaimed_bytes_total == 0
        &&& self.gc_strategy_selected_total.entries@.len() == 0
        &&& self.gc_strategy_completed_total.entries@.len() == 0
        &&& self.gc_strategy_output_bytes_total.entries@.len() == 0
        &&& self.gc_strategy_source_deleted_bytes_total.entries@.len() == 0
        &&& self.gc_strategy_reclaimed_bytes_total.entries@.len() == 0
        &&& self.current_epoch == 0
        &&& self.pending_lsn_count == 0
        &&& self.unsealed_segments == 0
        &&& self.sealed_segments_total == 0
        &&& self.seal_errors_total == 0
        &&& self.seal_backpressure_waits_total == 0
        &&& self.seal_backpressure_wait_duration_seconds == Tally::zero()
        &&& self.seal_backpressure_current == 0
        &&& self.recovery_segments_total == 0
        &&& self.recovery_complete_segments_total == 0
        &&& self.recovery_incomplete_segments_total == 0
        &&& self.recovery_records_total == 0
        &&& self.recovery_bytes_total == 0
        &&& self.recovery_discarded_segments_total == 0
        &&& self.recovery_rollback_ops_total == 0
        &&& self.recovery_last_rollback_from == 0
        &&& self.gc_configured_workers == 0
        &&& self.gc_active_worker_limit == 0
        &&& self.gc_configured_io_bytes_per_sec == 0
        &&& self.gc_min_io_bytes_per_sec == 0
        &&& self.gc_active_io_bytes_per_sec == 0
        &&& self.gc_in_flight_workers == 0
        &&& self.gc_admitted_total == 0
        &&& self.gc_run_failures_total == 0
        &&& self.gc_run_failures_by_reason_total.entries@.len() == 0
        &&& self.gc_consecutive_run_failures == 0
        &&& self.gc_skipped_by_tuner_total == 0
        &&& self.gc_tuner_increases_total == 0
        &&& self.gc_tuner_decreases_total == 0
        &&& self.gc_tuner_health_state == 0
    }

    /// The figures of a store. The label should be one of few, such as a namespace; never a key.
    pub fn new(store_label: String) -> (metrics: StrataStoreMetrics)
        ensures
            metrics.store_label == store_label,
            metrics.is_zero(),
    {
        StrataStoreMetrics {
            store_label,
            queued_write_commands: 0,
            write_queue_send_duration_seconds: Tally { count: 0, sum: 0 },
            write_queue_send_errors_total: 0,
            requests_per_commit_group: Tally { count: 0, sum: 0 },
            put_calls_total: 0,
            put_errors_total: 0,
            put_duration_seconds: Tally { count: 0, sum: 0 },
            put_payload_bytes_total: 0,
            put_record_bytes_total: 0,
            segment_file_bytes_read_total: 0,
            segment_file_bytes_written_total: 0,
            delete_calls_total: 0,
            delete_errors_total: 0,
            delete_duration_seconds: Tally { count: 0, sum: 0 },
            sync_calls_total: 0,
            sync_errors_total: 0,
            sync_duration_seconds: Tally { count: 0, sum: 0 },
            sync_phase_duration_seconds: SyncPhases::new(),
            wal_reclaim_phase_duration_seconds: LabelTallies::new(),
            sync_bytes_total: 0,
            durability_wal_bytes_total: 0,
            durability_pending_wal_bytes: 0,
            durability_pending_segment_bytes: 0,
            durability_publish_in_flight: 0,
            get_calls_total: 0,
            get_hits_total: 0,
            get_misses_total: 0,
            get_errors_total: 0,
            get_duration_seconds: Tally { count: 0, sum: 0 },
            get_payload_bytes_total: 0,
            relocation_cache_requests_total: LabelTallies::new(),
            relocation_lookups_total: LabelTallies::new(),
            relocation_lookup_duration_seconds: Tally { count: 0, sum: 0 },
            main_compaction_healed_references_total: 0,
            main_compaction_duration_seconds: Tally { count: 0, sum: 0 },
            main_compaction_input_bytes_total: 0,
            main_compaction_output_bytes_total: 0,
            main_minor_compaction_lsn: 0,
            main_full_compaction_lsn: 0,
            relocation_compaction_entries_examined_total: 0,
            relocation_compaction_entries_dropped_total: 0,
            relocation_compaction_duration_seconds: Tally { count: 0, sum: 0 },
            relocation_compaction_input_bytes_total: 0,
            relocation_compaction_output_bytes_total: 0,
            relocation_compaction_passes_total: LabelTallies::new(),
            relocation_compaction_pass_input_bytes_total: LabelTallies::new(),
            range_read_calls_total: 0,
            range_read_hits_total: 0,
            range_read_misses_total: 0,
            range_read_errors_total: 0,
            range_read_duration_seconds: Tally { count: 0, sum: 0 },
            range_read_payload_bytes_total: 0,
            stream_calls_total: 0,
            stream_hits_total: 0,
            stream_misses_total: 0,
            stream_errors_total: 0,
            stream_duration_seconds: Tally { count: 0, sum: 0 },
            reader_cache_evictions_total: 0,
            orphaned_segment_records_total: 0,
            orphaned_segment_bytes_total: 0,
            active_segment_id: 0,
            active_segment_write_offset: 0,
            active_segment_durable_offset: 0,
            next_lsn: 0,
            published_lsn: 0,
            gc_known_total_bytes: 0,
            gc_known_live_bytes: 0,
            gc_known_retired_bytes: 0,
            gc_known_expired_bytes: 0,
            gc_known_live_ref_count: 0,
            gc_relocating_segments: 0,
            gc_output_bytes_total: 0,
            gc_source_deleted_bytes_total: 0,
            gc_reclaimed_bytes_total: 0,
            gc_strategy_selected_total: LabelTallies::new(),
            gc_strategy_completed_total: LabelTallies::new(),
            gc_strategy_output_bytes_total: LabelTallies::new(),
            gc_strategy_source_deleted_bytes_total: LabelTallies::new(),
            gc_strategy_reclaimed_bytes_total: LabelTallies::new(),
            current_epoch: 0,
            pending_lsn_count: 0,
            unsealed_segments: 0,
            sealed_segments_total: 0,
            seal_errors_total: 0,
            seal_backpressure_waits_total: 0,
            seal_backpressure_wait_duration_seconds: Tally { count: 0, sum: 0 },
            seal_backpressure_current: 0,
            recovery_segments_total: 0,
            recovery_complete_segments_total: 0,
            recovery_incomplete_segments_total: 0,
            recovery_records_total: 0,
            recovery_bytes_total: 0,
            recovery_discarded_segments_total: 0,
            recovery_rollback_ops_total: 0,
            recovery_last_rollback_from: 0,
            gc_configured_workers: 0,
            gc_active_worker_limit: 0,
            gc_configured_io_bytes_per_sec: 0,
            gc_min_io_bytes_per_sec: 0,
            gc_active_io_bytes_per_sec: 0,
            gc_in_flight_workers: 0,
            gc_admitted_total: 0,
            gc_run_failures_total: 0,
            gc_run_failures_by_reason_total: LabelTallies::new(),
            gc_consecutive_run_failures: 0,
            gc_skipped_by_tuner_total: 0,
            gc_tuner_increases_total: 0,
            gc_tuner_decreases_total: 0,
            gc_tuner_health_state: 0,
        }
    }

    /// A command was put into the writer's queue.
    pub fn enqueue_write_command(&mut self)
        ensures
            *final(self) == (StrataStoreMetrics {
                queued_write_commands: old(self).queued_write_commands.wrapping_add(1),
                ..*old(self)
            }),
    {
        self.queued_write_commands = self.queued_write_commands.wrapping_add(1);
    }

    /// A command was taken out of the writer's queue.
    pub fn dequeue_write_command(&mut self)
        ensures
            *final(self) == (StrataStoreMetrics {
                queued_write_commands: old(self).queued_write_commands.wrapping_sub(1),
                ..*old(self)
            }),
    {
        self.queued_write_commands = self.queued_write_commands.wrapping_sub(1);
    }

    pub fn record_write_queue_send(&mut self, success: bool, elapsed: u128)
        ensures
            *final(self) == (StrataStoreMetrics {
                write_queue_send_duration_seconds: old(self).write_queue_send_duration_seconds.with(
                    elapsed,
                ),
                write_queue_send_errors_total: if !success {
                    old(self).write_queue_send_errors_total.wrapping_add(1)
                } else {
                    old(self).write_queue_send_errors_total
                },
                ..*old(self)
            }),
    {
        self.write_queue_send_duration_seconds = self.write_queue_send_duration_seconds.plus(
            elapsed,
        );
        self.write_queue_send_errors_total = if !success {
            self.write_queue_send_errors_total.wrapping_add(1)
        } else {
            self.write_queue_send_errors_total
        };
    }

    pub fn record_commit_group(&mut self, requests: usize)
        ensures
            *final(self) == (StrataStoreMetrics {
                requests_per_commit_group: old(self).requests_per_commit_group.with(
                    requests as u128,
                ),
                ..*old(self)
            }),
    {
        self.requests_per_commit_group = self.requests_per_commit_group.plus(requests as u128);
    }

    pub fn record_delete(&mut self, success: bool, elapsed: u128)
        ensures
            *final(self) == (StrataStoreMetrics {
                delete_calls_total: old(self).delete_calls_total.wrapping_add(1),
                delete_duration_seconds: old(self).delete_duration_seconds.with(elapsed),
                delete_errors_total: if !success {
                    old(self).delete_errors_total.wrapping_add(1)
                } else {
                    old(self).delete_errors_total
                },
                ..*old(self)
            }),
    {
        self.delete_calls_total = self.delete_calls_total.wrapping_add(1);
        self.delete_duration_seconds = self.delete_duration_seconds.plus(elapsed);
        self.delete_errors_total = if !success {
            self.delete_errors_total.wrapping_add(1)
        } else {
            self.delete_errors_total
        };
    }

    pub fn record_durability_wal_bytes(&mut self, bytes: u64)
        ensures
            *final(self) == (StrataStoreMetrics {
                durability_wal_bytes_total: old(self).durability_wal_bytes_total.wrapping_add(
                    bytes,
                ),
                ..*old(self)
            }),
    {
        self.durability_wal_bytes_total = self.durability_wal_bytes_total.wrapping_add(bytes);
    }

    pub fn record_segment_file_read(&mut self, bytes: u64)
        ensures
            *final(self) == (StrataStoreMetrics {
                segment_file_bytes_read_total: old(self).segment_file_bytes_read_total.wrapping_add(
                    bytes,
                ),
                ..*old(self)
            }),
    {
        self.segment_file_bytes_read_total = self.segment_file_bytes_read_total.wrapping_add(bytes);
    }

    pub fn record_segment_file_write(&mut self, bytes: u64)
        ensures
            *final(self) == (StrataStoreMetrics {
                segment_file_bytes_written_total: old(self).segment_file_bytes_written_total.wrapping_add(
                    bytes,
                ),
                ..*old(self)
            }),
    {
        self.segment_file_bytes_written_total = self.segment_file_bytes_written_total.wrapping_add(
            bytes,
        );
    }

    /// A read found so many bytes, found nothing, or failed.
    pub fn record_get(&mut self, result: Result<Option<u64>, ()>, elapsed: u128)
        ensures
            *final(self) == (StrataStoreMetrics {
                get_calls_total: old(self).get_calls_total.wrapping_add(1),
                get_duration_seconds: old(self).get_duration_seconds.with(elapsed),
                get_hits_total: match result {
                    Ok(Some(_)) => old(self).get_hits_total.wrapping_add(1),
                    _ => old(self).get_hits_total,
                },
                get_payload_bytes_total: match result {
                    Ok(Some(bytes)) => old(self).get_payload_bytes_total.wrapping_add(bytes),
                    _ => old(self).get_payload_bytes_total,
                },
                get_misses_total: match result {
                    Ok(None) => old(self).get_misses_total.wrapping_add(1),
                    _ => old(self).get_misses_total,
                },
                get_errors_total: match result {
                    Err(_) => old(self).get_errors_total.wrapping_add(1),
                    _ => old(self).get_errors_total,
                },
                ..*old(self)
            }),
    {
        self.get_calls_total = self.get_calls_total.wrapping_add(1);
        self.get_duration_seconds = self.get_duration_seconds.plus(elapsed);
        self.get_hits_total = match result {
            Ok(Some(_)) => self.get_hits_total.wrapping_add(1),
            _ => self.get_hits_total,
        };
        self.get_payload_bytes_total = match result {
            Ok(Some(bytes)) => self.get_payload_bytes_total.wrapping_add(bytes),
            _ => self.get_payload_bytes_total,
        };
        self.get_misses_total = match result {
            Ok(None) => self.get_misses_total.wrapping_add(1),
            _ => self.get_misses_total,
        };
        self.get_errors_total = match result {
            Err(_) => self.get_errors_total.wrapping_add(1),
            _ => self.get_errors_total,
        };
    }

    /// A read of a range found so many bytes, found nothing, or failed.
    pub fn record_range_read(&mut self, result: Result<Option<u64>, ()>, elapsed: u128)
        ensures
            *final(self) == (StrataStoreMetrics {
                range_read_calls_total: old(self).range_read_calls_total.wrapping_add(1),
                range_read_duration_seconds: old(self).range_read_duration_seconds.with(elapsed),
                range_read_hits_total: match result {
                    Ok(Some(_)) => old(self).range_read_hits_total.wrapping_add(1),
                    _ => old(self).range_read_hits_total,
                },
                range_read_payload_bytes_total: match result {
                    Ok(Some(bytes)) => old(self).range_read_payload_bytes_total.wrapping_add(bytes),
                    _ => old(self).range_read_payload_bytes_total,
                },
                range_read_misses_total: match result {
                    Ok(None) => old(self).range_read_misses_total.wrapping_add(1),
                    _ => old(self).range_read_misses_total,
                },
                range_read_errors_total: match result {
                    Err(_) => old(self).range_read_errors_total.wrapping_add(1),
                    _ => old(self).range_read_errors_total,
                },
                ..*old(self)
            }),
    {
        self.range_read_calls_total = self.range_read_calls_total.wrapping_add(1);
        self.range_read_duration_seconds = self.range_read_duration_seconds.plus(elapsed);
        self.range_read_hits_total = match result {
            Ok(Some(_)) => self.range_read_hits_total.wrapping_add(1),
            _ => self.range_read_hits_total,
        };
        self.range_read_payload_bytes_total = match result {
            Ok(Some(bytes)) => self.range_read_payload_bytes_total.wrapping_add(bytes),
            _ => self.range_read_payload_bytes_total,
        };
        self.range_read_misses_total = match result {
            Ok(None) => self.range_read_misses_total.wrapping_add(1),
            _ => self.range_read_misses_total,
        };
        self.range_read_errors_total = match result {
            Err(_) => self.range_read_errors_total.wrapping_add(1),
            _ => self.range_read_errors_total,
        };
    }

    pub fn record_stream(&mut self, result: Result<bool, ()>, elapsed: u128)
        ensures
            *final(self) == (StrataStoreMetrics {
                stream_calls_total: old(self).stream_calls_total.wrapping_add(1),
                stream_duration_seconds: old(self).stream_duration_seconds.with(elapsed),
                stream_hits_total: match result {
                    Ok(true) => old(self).stream_hits_total.wrapping_add(1),
                    _ => old(self).stream_hits_total,
                },
                stream_misses_total: match result {
                    Ok(false) => old(self).stream_misses_total.wrapping_add(1),
                    _ => old(self).stream_misses_total,
                },
                stream_errors_total: match result {
                    Err(_) => old(self).stream_errors_total.wrapping_add(1),
                    _ => old(self).stream_errors_total,
                },
                ..*old(self)
            }),
    {
        self.stream_calls_total = self.stream_calls_total.wrapping_add(1);
        self.stream_duration_seconds = self.stream_duration_seconds.plus(elapsed);
        self.stream_hits_total = match result {
            Ok(true) => self.stream_hits_total.wrapping_add(1),
            _ => self.stream_hits_total,
        };
        self.stream_misses_total = match result {
            Ok(false) => self.stream_misses_total.wrapping_add(1),
            _ => self.stream_misses_total,
        };
        self.stream_errors_total = match result {
            Err(_) => self.stream_errors_total.wrapping_add(1),
            _ => self.stream_errors_total,
        };
    }

    pub fn record_put(&mut self, result: Result<PutMetric, ()>, elapsed: u128)
        ensures
            *final(self) == (StrataStoreMetrics {
                put_calls_total: old(self).put_calls_total.wrapping_add(1),
                put_duration_seconds: old(self).put_duration_seconds.with(elapsed),
                put_payload_bytes_total: match result {
                    Ok(put) => old(self).put_payload_bytes_total.wrapping_add(put.payload_bytes),
                    _ => old(self).put_payload_bytes_total,
                },
                put_record_bytes_total: match result {
                    Ok(put) => old(self).put_record_bytes_total.wrapping_add(put.record_bytes),
                    _ => old(self).put_record_bytes_total,
                },
                put_errors_total: match result {
                    Err(_) => old(self).put_errors_total.wrapping_add(1),
                    _ => old(self).put_errors_total,
                },
                ..*old(self)
            }),
    {
        self.put_calls_total = self.put_calls_total.wrapping_add(1);
        self.put_duration_seconds = self.put_duration_seconds.plus(elapsed);
        self.put_payload_bytes_total = match result {
            Ok(put) => self.put_payload_bytes_total.wrapping_add(put.payload_bytes),
            _ => self.put_payload_bytes_total,
        };
        self.put_record_bytes_total = match result {
            Ok(put) => self.put_record_bytes_total.wrapping_add(put.record_bytes),
            _ => self.put_record_bytes_total,
        };
        self.put_errors_total = match result {
            Err(_) => self.put_errors_total.wrapping_add(1),
            _ => self.put_errors_total,
        };
    }

    pub fn record_sync(&mut self, result: Result<u64, ()>, elapsed: u128)
        ensures
            *final(self) == (StrataStoreMetrics {
                sync_calls_total: old(self).sync_calls_total.wrapping_add(1),
                sync_duration_seconds: old(self).sync_duration_seconds.with(elapsed),
                sync_bytes_total: match result {
                    Ok(bytes) => old(self).sync_bytes_total.wrapping_add(bytes),
                    _ => old(self).sync_bytes_total,
                },
                sync_errors_total: match result {
                    Err(_) => old(self).sync_errors_total.wrapping_add(1),
                    _ => old(self).sync_errors_total,
                },
                ..*old(self)
            }),
    {
        self.sync_calls_total = self.sync_calls_total.wrapping_add(1);
        self.sync_duration_seconds = self.sync_duration_seconds.plus(elapsed);
        self.sync_bytes_total = match result {
            Ok(bytes) => self.sync_bytes_total.wrapping_add(bytes),
            _ => self.sync_bytes_total,
        };
        self.sync_errors_total = match result {
            Err(_) => self.sync_errors_total.wrapping_add(1),
            _ => self.sync_errors_total,
        };
    }

    pub fn set_durability_pending(&mut self, wal_bytes: u64, segment_bytes: u64, in_flight: bool)
        ensures
            *final(self) == (StrataStoreMetrics {
                durability_pending_wal_bytes: gauge_of(wal_bytes),
                durability_pending_segment_bytes: gauge_of(segment_bytes),
                durability_publish_in_flight: if in_flight { 1i64 } else { 0i64 },
                ..*old(self)
            }),
    {
        self.durability_pending_wal_bytes = to_i64(wal_bytes);
        self.durability_pending_segment_bytes = to_i64(segment_bytes);
        self.durability_publish_in_flight = if in_flight { 1i64 } else { 0i64 };
    }

    /// A pass of the main compaction. A sweep reads whole partitions, as a full pass does. What was
    /// compacted through is never taken back.
    pub fn record_main_compaction(
        &mut self,
        kind: MainCompactionKind,
        compacted_through_lsn: StrataLsn,
        healed: u64,
        input_bytes: u64,
        output_bytes: u64,
        elapsed: u128,
    )
        ensures
            *final(self) == (StrataStoreMetrics {
                main_compaction_healed_references_total: old(self).main_compaction_healed_references_total.wrapping_add(
                    healed,
                ),
                main_compaction_duration_seconds: old(self).main_compaction_duration_seconds.with(
                    elapsed,
                ),
                main_compaction_input_bytes_total: old(self).main_compaction_input_bytes_total.wrapping_add(
                    input_bytes,
                ),
                main_compaction_output_bytes_total: old(self).main_compaction_output_bytes_total.wrapping_add(
                    output_bytes,
                ),
                main_minor_compaction_lsn: match kind {
                    MainCompactionKind::Minor => raised(
                        old(self).main_minor_compaction_lsn,
                        compacted_through_lsn,
                    ),
                    _ => old(self).main_minor_compaction_lsn,
                },
                main_full_compaction_lsn: match kind {
                    MainCompactionKind::Minor => old(self).main_full_compaction_lsn,
                    _ => raised(old(self).main_full_compaction_lsn, compacted_through_lsn),
                },
                ..*old(self)
            }),
    {
        self.main_compaction_healed_references_total = self.main_compaction_healed_references_total.wrapping_add(
            healed,
        );
        self.main_compaction_duration_seconds = self.main_compaction_duration_seconds.plus(elapsed);
        self.main_compaction_input_bytes_total = self.main_compaction_input_bytes_total.wrapping_add(
            input_bytes,
        );
        self.main_compaction_output_bytes_total = self.main_compaction_output_bytes_total.wrapping_add(
            output_bytes,
        );
        self.main_minor_compaction_lsn = match kind {
            MainCompactionKind::Minor => raise(
                self.main_minor_compaction_lsn,
                compacted_through_lsn,
            ),
            _ => self.main_minor_compaction_lsn,
        };
        self.main_full_compaction_lsn = match kind {
            MainCompactionKind::Minor => self.main_full_compaction_lsn,
            _ => raise(self.main_full_compaction_lsn, compacted_through_lsn),
        };
    }

    pub fn record_relocation_compaction(
        &mut self,
        examined: u64,
        dropped: u64,
        input_bytes: u64,
        output_bytes: u64,
        elapsed: u128,
    )
        ensures
            *final(self) == (StrataStoreMetrics {
                relocation_compaction_entries_examined_total: old(self).relocation_compaction_entries_examined_total.wrapping_add(
                    examined,
                ),
                relocation_compaction_entries_dropped_total: old(self).relocation_compaction_entries_dropped_total.wrapping_add(
                    dropped,
                ),
                relocation_compaction_duration_seconds: old(self).relocation_compaction_duration_seconds.with(
                    elapsed,
                ),
                relocation_compaction_input_bytes_total: old(self).relocation_compaction_input_bytes_total.wrapping_add(
                    input_bytes,
                ),
                relocation_compaction_output_bytes_total: old(self).relocation_compaction_output_bytes_total.wrapping_add(
                    output_bytes,
                ),
                ..*old(self)
            }),
    {
        self.relocation_compaction_entries_examined_total = self.relocation_compaction_entries_examined_total.wrapping_add(
            examined,
        );
        self.relocation_compaction_entries_dropped_total = self.relocation_compaction_entries_dropped_total.wrapping_add(
            dropped,
        );
        self.relocation_compaction_duration_seconds = self.relocation_compaction_duration_seconds.plus(
            elapsed,
        );
        self.relocation_compaction_input_bytes_total = self.relocation_compaction_input_bytes_total.wrapping_add(
            input_bytes,
        );
        self.relocation_compaction_output_bytes_total = self.relocation_compaction_output_bytes_total.wrapping_add(
            output_bytes,
        );
    }

    pub fn record_reader_cache_eviction(&mut self)
        ensures
            *final(self) == (StrataStoreMetrics {
                reader_cache_evictions_total: old(self).reader_cache_evictions_total.wrapping_add(1),
                ..*old(self)
            }),
    {
        self.reader_cache_evictions_total = self.reader_cache_evictions_total.wrapping_add(1);
    }

    pub fn record_orphaned_segment_bytes(&mut self, records: u64, bytes: u64)
        ensures
            *final(self) == (StrataStoreMetrics {
                orphaned_segment_records_total: old(self).orphaned_segment_records_total.wrapping_add(
                    records,
                ),
                orphaned_segment_bytes_total: old(self).orphaned_segment_bytes_total.wrapping_add(
                    bytes,
                ),
                ..*old(self)
            }),
    {
        self.orphaned_segment_records_total = self.orphaned_segment_records_total.wrapping_add(
            records,
        );
        self.orphaned_segment_bytes_total = self.orphaned_segment_bytes_total.wrapping_add(bytes);
    }

    pub fn set_active_segment(
        &mut self,
        segment_id: SegmentId,
        write_offset: u64,
        durable_offset: u64,
    )
        ensures
            *final(self) == (StrataStoreMetrics {
                active_segment_id: gauge_of(segment_id),
                active_segment_write_offset: gauge_of(write_offset),
                active_segment_durable_offset: gauge_of(durable_offset),
                ..*old(self)
            }),
    {
        self.active_segment_id = to_i64(segment_id);
        self.active_segment_write_offset = to_i64(write_offset);
        self.active_segment_durable_offset = to_i64(durable_offset);
    }

    pub fn set_lsn_state(&mut self, next_lsn: StrataLsn, published_lsn: StrataLsn)
        ensures
            *final(self) == (StrataStoreMetrics {
                next_lsn: gauge_of(next_lsn),
                published_lsn: gauge_of(published_lsn),
                pending_lsn_count: pending_lsns(next_lsn, published_lsn),
                ..*old(self)
            }),
    {
        self.next_lsn = to_i64(next_lsn);
        self.published_lsn = to_i64(published_lsn);
        self.pending_lsn_count = pending_lsn_count(next_lsn, published_lsn);
    }

    pub fn set_next_lsn(&mut self, next_lsn: StrataLsn)
        ensures
            *final(self) == (StrataStoreMetrics {
                next_lsn: gauge_of(next_lsn),
                pending_lsn_count: pending_lsns(next_lsn, lsn_of_gauge(old(self).published_lsn)),
                ..*old(self)
            }),
    {
        self.next_lsn = to_i64(next_lsn);
        self.pending_lsn_count = pending_lsn_count(next_lsn, lsn_from_i64(self.published_lsn));
    }

    pub fn set_published_lsn(&mut self, published_lsn: StrataLsn)
        ensures
            *final(self) == (StrataStoreMetrics {
                published_lsn: gauge_of(published_lsn),
                pending_lsn_count: pending_lsns(lsn_of_gauge(old(self).next_lsn), published_lsn),
                ..*old(self)
            }),
    {
        self.published_lsn = to_i64(published_lsn);
        self.pending_lsn_count = pending_lsn_count(lsn_from_i64(self.next_lsn), published_lsn);
    }

    pub fn initialize_gc_known(&mut self, summary: &SegmentGcSummary)
        ensures
            *final(self) == (StrataStoreMetrics {
                gc_known_total_bytes: gauge_of(summary.total_bytes),
                gc_known_live_bytes: gauge_of(summary.live_bytes),
                gc_known_retired_bytes: gauge_of(summary.retired_bytes),
                gc_known_expired_bytes: gauge_of(summary.expired_bytes),
                gc_known_live_ref_count: gauge_of(summary.live_ref_count),
                ..*old(self)
            }),
    {
        self.gc_known_total_bytes = to_i64(summary.total_bytes);
        self.gc_known_live_bytes = to_i64(summary.live_bytes);
        self.gc_known_retired_bytes = to_i64(summary.retired_bytes);
        self.gc_known_expired_bytes = to_i64(summary.expired_bytes);
        self.gc_known_live_ref_count = to_i64(summary.live_ref_count);
    }

    /// Moves what is known of garbage. No figure falls below zero.
    pub fn apply_gc_known_delta(&mut self, delta: GcKnownDelta)
        ensures
            *final(self) == (StrataStoreMetrics {
                gc_known_total_bytes: moved_gauge(
                    old(self).gc_known_total_bytes,
                    delta.total_bytes as int,
                ),
                gc_known_live_bytes: moved_gauge(
                    old(self).gc_known_live_bytes,
                    delta.live_bytes as int,
                ),
                gc_known_retired_bytes: moved_gauge(
                    old(self).gc_known_retired_bytes,
                    delta.retired_bytes as int,
                ),
                gc_known_expired_bytes: moved_gauge(
                    old(self).gc_known_expired_bytes,
                    delta.expired_bytes as int,
                ),
                gc_known_live_ref_count: moved_gauge(
                    old(self).gc_known_live_ref_count,
                    delta.live_ref_count as int,
                ),
                ..*old(self)
            }),
    {
        self.gc_known_total_bytes = apply_gauge_delta(self.gc_known_total_bytes, delta.total_bytes);
        self.gc_known_live_bytes = apply_gauge_delta(self.gc_known_live_bytes, delta.live_bytes);
        self.gc_known_retired_bytes = apply_gauge_delta(
            self.gc_known_retired_bytes,
            delta.retired_bytes,
        );
        self.gc_known_expired_bytes = apply_gauge_delta(
            self.gc_known_expired_bytes,
            delta.expired_bytes,
        );
        self.gc_known_live_ref_count = apply_gauge_delta(
            self.gc_known_live_ref_count,
            delta.live_ref_count,
        );
    }

    /// Takes a segment out of what is known of garbage.
    pub fn remove_gc_known_summary(&mut self, summary: &SegmentGcSummary)
        ensures
            *final(self) == (StrataStoreMetrics {
                gc_known_total_bytes: moved_gauge(
                    old(self).gc_known_total_bytes,
                    -(summary.total_bytes as int),
                ),
                gc_known_live_bytes: moved_gauge(
                    old(self).gc_known_live_bytes,
                    -(summary.live_bytes as int),
                ),
                gc_known_retired_bytes: moved_gauge(
                    old(self).gc_known_retired_bytes,
                    -(summary.retired_bytes as int),
                ),
                gc_known_expired_bytes: moved_gauge(
                    old(self).gc_known_expired_bytes,
                    -(summary.expired_bytes as int),
                ),
                gc_known_live_ref_count: moved_gauge(
                    old(self).gc_known_live_ref_count,
                    -(summary.live_ref_count as int),
                ),
                ..*old(self)
            }),
    {
        self.gc_known_total_bytes = apply_gauge_delta(
            self.gc_known_total_bytes,
            -(summary.total_bytes as i128),
        );
        self.gc_known_live_bytes = apply_gauge_delta(
            self.gc_known_live_bytes,
            -(summary.live_bytes as i128),
        );
        self.gc_known_retired_bytes = apply_gauge_delta(
            self.gc_known_retired_bytes,
            -(summary.retired_bytes as i128),
        );
        self.gc_known_expired_bytes = apply_gauge_delta(
            self.gc_known_expired_bytes,
            -(summary.expired_bytes as i128),
        );
        self.gc_known_live_ref_count = apply_gauge_delta(
            self.gc_known_live_ref_count,
            -(summary.live_ref_count as i128),
        );
    }

    pub fn set_current_epoch(&mut self, epoch: Epoch)
        ensures
            *final(self) == (StrataStoreMetrics {
                current_epoch: gauge_of(epoch),
                ..*old(self)
            }),
    {
        self.current_epoch = to_i64(epoch);
    }

    pub fn set_unsealed_segments(&mut self, count: usize)
        ensures
            *final(self) == (StrataStoreMetrics {
                unsealed_segments: gauge_of(count as u64),
                ..*old(self)
            }),
    {
        self.unsealed_segments = to_i64(count as u64);
    }

    pub fn record_segment_sealed(&mut self)
        ensures
            *final(self) == (StrataStoreMetrics {
                sealed_segments_total: old(self).sealed_segments_total.wrapping_add(1),
                ..*old(self)
            }),
    {
        self.sealed_segments_total = self.sealed_segments_total.wrapping_add(1);
    }

    pub fn record_seal_error(&mut self)
        ensures
            *final(self) == (StrataStoreMetrics {
                seal_errors_total: old(self).seal_errors_total.wrapping_add(1),
                ..*old(self)
            }),
    {
        self.seal_errors_total = self.seal_errors_total.wrapping_add(1);
    }

    pub fn start_seal_backpressure_wait(&mut self)
        ensures
            *final(self) == (StrataStoreMetrics {
                seal_backpressure_waits_total: old(self).seal_backpressure_waits_total.wrapping_add(1),
                seal_backpressure_current: 1i64,
                ..*old(self)
            }),
    {
        self.seal_backpressure_waits_total = self.seal_backpressure_waits_total.wrapping_add(1);
        self.seal_backpressure_current = 1i64;
    }

    pub fn finish_seal_backpressure_wait(&mut self, elapsed: u128)
        ensures
            *final(self) == (StrataStoreMetrics {
                seal_backpressure_wait_duration_seconds: old(self).seal_backpressure_wait_duration_seconds.with(
                    elapsed,
                ),
                seal_backpressure_current: 0i64,
                ..*old(self)
            }),
    {
        self.seal_backpressure_wait_duration_seconds = self.seal_backpressure_wait_duration_seconds.plus(
            elapsed,
        );
        self.seal_backpressure_current = 0i64;
    }

    pub fn record_recovered_segment(&mut self, is_complete: bool)
        ensures
            *final(self) == (StrataStoreMetrics {
                recovery_segments_total: old(self).recovery_segments_total.wrapping_add(1),
                recovery_complete_segments_total: if is_complete {
                    old(self).recovery_complete_segments_total.wrapping_add(1)
                } else {
                    old(self).recovery_complete_segments_total
                },
                recovery_incomplete_segments_total: if !is_complete {
                    old(self).recovery_incomplete_segments_total.wrapping_add(1)
                } else {
                    old(self).recovery_incomplete_segments_total
                },
                ..*old(self)
            }),
    {
        self.recovery_segments_total = self.recovery_segments_total.wrapping_add(1);
        self.recovery_complete_segments_total = if is_complete {
            self.recovery_complete_segments_total.wrapping_add(1)
        } else {
            self.recovery_complete_segments_total
        };
        self.recovery_incomplete_segments_total = if !is_complete {
            self.recovery_incomplete_segments_total.wrapping_add(1)
        } else {
            self.recovery_incomplete_segments_total
        };
    }

    pub fn record_recovered_records(&mut self, records: u64, bytes: u64)
        ensures
            *final(self) == (StrataStoreMetrics {
                recovery_records_total: old(self).recovery_records_total.wrapping_add(records),
                recovery_bytes_total: old(self).recovery_bytes_total.wrapping_add(bytes),
                ..*old(self)
            }),
    {
        self.recovery_records_total = self.recovery_records_total.wrapping_add(records);
        self.recovery_bytes_total = self.recovery_bytes_total.wrapping_add(bytes);
    }

    pub fn record_discarded_segment(&mut self)
        ensures
            *final(self) == (StrataStoreMetrics {
                recovery_discarded_segments_total: old(self).recovery_discarded_segments_total.wrapping_add(1),
                ..*old(self)
            }),
    {
        self.recovery_discarded_segments_total = self.recovery_discarded_segments_total.wrapping_add(
            1,
        );
    }

    pub fn record_rollback(&mut self, rollback_from: StrataLsn, ops: u64)
        ensures
            *final(self) == (StrataStoreMetrics {
                recovery_last_rollback_from: gauge_of(rollback_from),
                recovery_rollback_ops_total: old(self).recovery_rollback_ops_total.wrapping_add(ops),
                ..*old(self)
            }),
    {
        self.recovery_last_rollback_from = to_i64(rollback_from);
        self.recovery_rollback_ops_total = self.recovery_rollback_ops_total.wrapping_add(ops);
    }

    pub fn initialize_gc_tuner(
        &mut self,
        configured_workers: usize,
        active_limit: usize,
        configured_io_bytes_per_sec: u64,
        min_io_bytes_per_sec: u64,
        active_io_bytes_per_sec: u64,
    )
        ensures
            *final(self) == (StrataStoreMetrics {
                gc_configured_workers: gauge_of(configured_workers as u64),
                gc_active_worker_limit: gauge_of(active_limit as u64),
                gc_configured_io_bytes_per_sec: gauge_of(configured_io_bytes_per_sec),
                gc_min_io_bytes_per_sec: gauge_of(min_io_bytes_per_sec),
                gc_active_io_bytes_per_sec: gauge_of(active_io_bytes_per_sec),
                gc_in_flight_workers: 0i64,
                gc_tuner_health_state: 0i64,
                gc_consecutive_run_failures: 0i64,
                ..*old(self)
            }),
    {
        self.gc_configured_workers = to_i64(configured_workers as u64);
        self.gc_active_worker_limit = to_i64(active_limit as u64);
        self.gc_configured_io_bytes_per_sec = to_i64(configured_io_bytes_per_sec);
        self.gc_min_io_bytes_per_sec = to_i64(min_io_bytes_per_sec);
        self.gc_active_io_bytes_per_sec = to_i64(active_io_bytes_per_sec);
        self.gc_in_flight_workers = 0i64;
        self.gc_tuner_health_state = 0i64;
        self.gc_consecutive_run_failures = 0i64;
    }

    pub fn set_gc_active_worker_limit(&mut self, active_limit: usize)
        ensures
            *final(self) == (StrataStoreMetrics {
                gc_active_worker_limit: gauge_of(active_limit as u64),
                ..*old(self)
            }),
    {
        self.gc_active_worker_limit = to_i64(active_limit as u64);
    }

    pub fn set_gc_active_io_bytes_per_sec(&mut self, bytes_per_sec: u64)
        ensures
            *final(self) == (StrataStoreMetrics {
                gc_active_io_bytes_per_sec: gauge_of(bytes_per_sec),
                ..*old(self)
            }),
    {
        self.gc_active_io_bytes_per_sec = to_i64(bytes_per_sec);
    }

    pub fn set_gc_in_flight_workers(&mut self, in_flight: usize)
        ensures
            *final(self) == (StrataStoreMetrics {
                gc_in_flight_workers: gauge_of(in_flight as u64),
                ..*old(self)
            }),
    {
        self.gc_in_flight_workers = to_i64(in_flight as u64);
    }

    pub fn set_gc_relocating_segments(&mut self, count: usize)
        ensures
            *final(self) == (StrataStoreMetrics {
                gc_relocating_segments: gauge_of(count as u64),
                ..*old(self)
            }),
    {
        self.gc_relocating_segments = to_i64(count as u64);
    }

    pub fn add_gc_relocating_segments(&mut self, count: usize)
        ensures
            *final(self) == (StrataStoreMetrics {
                gc_relocating_segments: moved_gauge(old(self).gc_relocating_segments, count as int),
                ..*old(self)
            }),
    {
        self.gc_relocating_segments = apply_gauge_delta(self.gc_relocating_segments, count as i128);
    }

    pub fn remove_gc_relocating_segments(&mut self, count: usize)
        ensures
            *final(self) == (StrataStoreMetrics {
                gc_relocating_segments: moved_gauge(
                    old(self).gc_relocating_segments,
                    -(count as int),
                ),
                ..*old(self)
            }),
    {
        self.gc_relocating_segments = apply_gauge_delta(
            self.gc_relocating_segments,
            -(count as i128),
        );
    }

    pub fn record_gc_admitted(&mut self)
        ensures
            *final(self) == (StrataStoreMetrics {
                gc_admitted_total: old(self).gc_admitted_total.wrapping_add(1),
                ..*old(self)
            }),
    {
        self.gc_admitted_total = self.gc_admitted_total.wrapping_add(1);
    }

    /// A run of collection went well: the failures before it are forgotten.
    pub fn record_gc_run_success(&mut self)
        ensures
            *final(self) == (StrataStoreMetrics {
                gc_consecutive_run_failures: 0i64,
                ..*old(self)
            }),
    {
        self.gc_consecutive_run_failures = 0i64;
    }

    pub fn record_gc_skipped_by_tuner(&mut self)
        ensures
            *final(self) == (StrataStoreMetrics {
                gc_skipped_by_tuner_total: old(self).gc_skipped_by_tuner_total.wrapping_add(1),
                ..*old(self)
            }),
    {
        self.gc_skipped_by_tuner_total = self.gc_skipped_by_tuner_total.wrapping_add(1);
    }

    pub fn record_gc_tuner_increase(&mut self)
        ensures
            *final(self) == (StrataStoreMetrics {
                gc_tuner_increases_total: old(self).gc_tuner_increases_total.wrapping_add(1),
                ..*old(self)
            }),
    {
        self.gc_tuner_increases_total = self.gc_tuner_increases_total.wrapping_add(1);
    }

    pub fn record_gc_tuner_decrease(&mut self)
        ensures
            *final(self) == (StrataStoreMetrics {
                gc_tuner_decreases_total: old(self).gc_tuner_decreases_total.wrapping_add(1),
                ..*old(self)
            }),
    {
        self.gc_tuner_decreases_total = self.gc_tuner_decreases_total.wrapping_add(1);
    }

    pub fn set_gc_tuner_health_state(&mut self, state: i64)
        ensures
            *final(self) == (StrataStoreMetrics {
                gc_tuner_health_state: state,
                ..*old(self)
            }),
    {
        self.gc_tuner_health_state = state;
    }

    /// A relocation was found, was not found, or could not be looked up.
    pub fn record_relocation_lookup(&mut self, result: Result<bool, ()>, elapsed: u128)
        ensures
            *final(self) == (StrataStoreMetrics {
                relocation_lookup_duration_seconds: old(self).relocation_lookup_duration_seconds.with(
                    elapsed,
                ),
                relocation_lookups_total: final(self).relocation_lookups_total,
                ..*old(self)
            }),
            final(self).relocation_lookups_total.counted(
                &old(self).relocation_lookups_total,
                result_label(result),
                ""@,
                1,
            ),
    {
        self.relocation_lookup_duration_seconds = self.relocation_lookup_duration_seconds.plus(
            elapsed,
        );
        self.relocation_lookups_total.count(lookup_label(result), "", 1);
    }

    pub fn record_relocation_cache_lookup(&mut self, hit: bool)
        ensures
            *final(self) == (StrataStoreMetrics {
                relocation_cache_requests_total: final(self).relocation_cache_requests_total,
                ..*old(self)
            }),
            final(self).relocation_cache_requests_total.counted(
                &old(self).relocation_cache_requests_total,
                if hit {
                    "hit"@
                } else {
                    "miss"@
                },
                ""@,
                1,
            ),
    {
        self.relocation_cache_requests_total.count(if hit { "hit" } else { "miss" }, "", 1);
    }

    pub fn record_relocation_compaction_pass(&mut self, kind: &str, input_bytes: u64)
        ensures
            *final(self) == (StrataStoreMetrics {
                relocation_compaction_passes_total: final(self).relocation_compaction_passes_total,
                relocation_compaction_pass_input_bytes_total: final(self).relocation_compaction_pass_input_bytes_total,
                ..*old(self)
            }),
            final(self).relocation_compaction_passes_total.counted(
                &old(self).relocation_compaction_passes_total,
                kind@,
                ""@,
                1,
            ),
            final(self).relocation_compaction_pass_input_bytes_total.counted(
                &old(self).relocation_compaction_pass_input_bytes_total,
                kind@,
                ""@,
                input_bytes,
            ),
    {
        self.relocation_compaction_passes_total.count(kind, "", 1);
        self.relocation_compaction_pass_input_bytes_total.count(kind, "", input_bytes);
    }

    pub fn record_wal_reclaim_phase(&mut self, phase: &str, elapsed: u128)
        ensures
            *final(self) == (StrataStoreMetrics {
                wal_reclaim_phase_duration_seconds: final(self).wal_reclaim_phase_duration_seconds,
                ..*old(self)
            }),
            final(self).wal_reclaim_phase_duration_seconds.observed(
                &old(self).wal_reclaim_phase_duration_seconds,
                phase@,
                ""@,
                elapsed,
            ),
    {
        self.wal_reclaim_phase_duration_seconds.observe(phase, "", elapsed);
    }

    /// Bytes that a publication of relocations made visible.
    pub fn record_gc_output_published(&mut self, strategy: &str, output_bytes: u64)
        ensures
            *final(self) == (StrataStoreMetrics {
                gc_output_bytes_total: old(self).gc_output_bytes_total.wrapping_add(output_bytes),
                gc_strategy_output_bytes_total: final(self).gc_strategy_output_bytes_total,
                ..*old(self)
            }),
            final(self).gc_strategy_output_bytes_total.counted(
                &old(self).gc_strategy_output_bytes_total,
                strategy@,
                ""@,
                output_bytes,
            ),
    {
        self.gc_output_bytes_total = self.gc_output_bytes_total.wrapping_add(output_bytes);
        self.gc_strategy_output_bytes_total.count(strategy, "", output_bytes);
    }

    /// A source file was removed. What was copied out of it is not reclaimed.
    pub fn record_gc_source_deleted(&mut self, strategy: &str, source_bytes: u64, copied_bytes: u64)
        ensures
            *final(self) == (StrataStoreMetrics {
                gc_source_deleted_bytes_total: old(self).gc_source_deleted_bytes_total.wrapping_add(
                    source_bytes,
                ),
                gc_reclaimed_bytes_total: old(self).gc_reclaimed_bytes_total.wrapping_add(
                    less(source_bytes, copied_bytes),
                ),
                gc_strategy_source_deleted_bytes_total: final(self).gc_strategy_source_deleted_bytes_total,
                gc_strategy_reclaimed_bytes_total: final(self).gc_strategy_reclaimed_bytes_total,
                ..*old(self)
            }),
            final(self).gc_strategy_source_deleted_bytes_total.counted(
                &old(self).gc_strategy_source_deleted_bytes_total,
                strategy@,
                ""@,
                source_bytes,
            ),
            final(self).gc_strategy_reclaimed_bytes_total.counted(
                &old(self).gc_strategy_reclaimed_bytes_total,
                strategy@,
                ""@,
                less(source_bytes, copied_bytes),
            ),
    {
        self.gc_source_deleted_bytes_total = self.gc_source_deleted_bytes_total.wrapping_add(
            source_bytes,
        );
        self.gc_reclaimed_bytes_total = self.gc_reclaimed_bytes_total.wrapping_add(
            saturating_less(source_bytes, copied_bytes),
        );
        self.gc_strategy_source_deleted_bytes_total.count(strategy, "", source_bytes);
        self.gc_strategy_reclaimed_bytes_total.count(
            strategy,
            "",
            saturating_less(source_bytes, copied_bytes),
        );
    }

    pub fn record_gc_strategy_selected(&mut self, scenario: &str, action: &str)
        ensures
            *final(self) == (StrataStoreMetrics {
                gc_strategy_selected_total: final(self).gc_strategy_selected_total,
                ..*old(self)
            }),
            final(self).gc_strategy_selected_total.counted(
                &old(self).gc_strategy_selected_total,
                scenario@,
                action@,
                1,
            ),
    {
        self.gc_strategy_selected_total.count(scenario, action, 1);
    }

    pub fn record_gc_strategy_completed(&mut self, scenario: &str, action: &str)
        ensures
            *final(self) == (StrataStoreMetrics {
                gc_strategy_completed_total: final(self).gc_strategy_completed_total,
                ..*old(self)
            }),
            final(self).gc_strategy_completed_total.counted(
                &old(self).gc_strategy_completed_total,
                scenario@,
                action@,
                1,
            ),
    {
        self.gc_strategy_completed_total.count(scenario, action, 1);
    }

    /// A run of collection failed.
    pub fn record_gc_run_failure(&mut self, reason: &str)
        ensures
            *final(self) == (StrataStoreMetrics {
                gc_run_failures_total: old(self).gc_run_failures_total.wrapping_add(1),
                gc_consecutive_run_failures: old(self).gc_consecutive_run_failures.wrapping_add(1),
                gc_run_failures_by_reason_total: final(self).gc_run_failures_by_reason_total,
                ..*old(self)
            }),
            final(self).gc_run_failures_by_reason_total.counted(
                &old(self).gc_run_failures_by_reason_total,
                reason@,
                ""@,
                1,
            ),
    {
        self.gc_run_failures_total = self.gc_run_failures_total.wrapping_add(1);
        self.gc_consecutive_run_failures = self.gc_consecutive_run_failures.wrapping_add(1);
        self.gc_run_failures_by_reason_total.count(reason, "", 1);
    }

    /// The phases of a sync, and what of its time belongs to none.
    pub fn record_sync_phases(&mut self, profile: &StoreSyncProfile, total: u128)
        ensures
            *final(self) == (StrataStoreMetrics {
                sync_phase_duration_seconds: old(self).sync_phase_duration_seconds.with(
                    *profile,
                    total,
                ),
                ..*old(self)
            }),
    {
        self.sync_phase_duration_seconds = self.sync_phase_duration_seconds.plus(profile, total);
    }
}

// Laws.

/// What was compacted through is never taken back.
pub proof fn law_compaction_progress_only_rises(gauge: i64, value: u64)
    ensures
        raised(gauge, value) >= gauge,
        raised(gauge, value) >= gauge_of(value),
        raised(gauge, value) == gauge || raised(gauge, value) == gauge_of(value),
{
}

/// No gauge of known garbage is ever negative, and taking away what was added leaves what was
/// there, as long as it can be shown.
pub proof fn law_known_garbage_is_conserved(gauge: i64, bytes: u64)
    requires
        0 <= gauge,
        gauge + bytes <= i64::MAX,
    ensures
        moved_gauge(gauge, bytes as int) >= 0,
        moved_gauge(moved_gauge(gauge, bytes as int), -(bytes as int)) == gauge,
{
}

/// The phases of a sync and its residual make up its whole time, where the phases do not exceed
/// it.
pub proof fn law_sync_time_is_accounted_for(profile: StoreSyncProfile, total: u128)
    requires
        accounted(profile) <= total,
    ensures
        accounted(profile) + residual(profile, total) == total,
{
}

} // verus!
