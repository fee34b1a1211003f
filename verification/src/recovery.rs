//! Crash recovery: which bytes and which operations survive, and what is rolled back.

use std::collections::{BTreeMap, BTreeSet};

use vstd::prelude::*;

use crate::config::StrataRecoveryPolicy;
use crate::gc::publish::SegmentGcSummary;
use crate::maintenance::pass::ShardCleanupJob;
use crate::num;
use crate::segments::{PlacementClass, SegmentFileState, SegmentOwner, SegmentState};
use crate::text;
use crate::text::{decimal_text, joined};
use crate::types::{Epoch, SegmentId, ShardId, ShardInfo, ShardKey, ShardState, StrataLsn};

verus! {

/// Why recovery failed.
#[derive(Clone, Copy, Debug, PartialEq, Eq, Structural)]
pub enum RecoveryError {
    /// A segment file without an index row.
    OrphanSegmentFile { segment_id: SegmentId },
    /// A segment file does not match its row.
    RecoveryInconsistent {
        segment_id: SegmentId,
        expected_write_offset: u64,
        recovered_write_offset: u64,
    },
    /// A record's end does not fit in 64 bits.
    RangeOverflow,
    /// The bytes that GC accounted for end inside a record.
    BaselineSplitsRecord { segment_id: SegmentId, baseline_bytes: u64, offset: u64 },
    /// No epoch is known from before the rollback.
    EpochNotInitialized,
    /// More is published than was recovered.
    PublishedBeyondRecovered { published_lsn: StrataLsn, recovered_lsn: StrataLsn },
}

impl RecoveryError {
    pub open spec fn words(self) -> Option<Seq<char>> {
        match self {
            RecoveryError::BaselineSplitsRecord { segment_id, baseline_bytes, offset } => Some(
                "segment "@ + text::decimal(segment_id as int) + " GC baseline "@ + text::decimal(
                    baseline_bytes as int,
                ) + " splits record at "@ + text::decimal(offset as int),
            ),
            RecoveryError::PublishedBeyondRecovered { published_lsn, recovered_lsn } => Some(
                "published LSN "@ + text::decimal(published_lsn as int)
                    + " follows recovered LSN "@ + text::decimal(recovered_lsn as int),
            ),
            _ => None,
        }
    }

    /// What invariant is violated, in words; other errors are told by their values.
    pub fn fault(&self) -> (words: Option<String>)
        ensures
            match words {
                Some(words) => self.words() == Some(words@),
                None => self.words() is None,
            },
    {
        match self {
            RecoveryError::BaselineSplitsRecord { segment_id, baseline_bytes, offset } => {
                let a: String = joined("segment ", decimal_text(*segment_id).as_str());
                let b: String = joined(a.as_str(), " GC baseline ");
                let c: String = joined(b.as_str(), decimal_text(*baseline_bytes).as_str());
                let d: String = joined(c.as_str(), " splits record at ");
                Some(joined(d.as_str(), decimal_text(*offset).as_str()))
            },
            RecoveryError::PublishedBeyondRecovered { published_lsn, recovered_lsn } => {
                let a: String = joined("published LSN ", decimal_text(*published_lsn).as_str());
                let b: String = joined(a.as_str(), " follows recovered LSN ");
                Some(joined(b.as_str(), decimal_text(*recovered_lsn).as_str()))
            },
            _ => None,
        }
    }
}

// Orphans.

/// Segment files without an index row, in the order of the listing.
pub open spec fn orphans(files: Seq<SegmentId>, indexed: Set<SegmentId>) -> Seq<SegmentId>
    decreases files.len(),
{
    if files.len() == 0 {
        Seq::empty()
    } else {
        let earlier = orphans(files.drop_last(), indexed);
        if indexed.contains(files.last()) {
            earlier
        } else {
            earlier.push(files.last())
        }
    }
}

/// Finds the segment files to remove before a writer starts: a file without an index row was never
/// referred to, and a writer would reuse its identifier with stale bytes in it. Under absolute
/// consistency the first such file is an error.
pub fn reconcile_orphan_ingest_segment_files(
    policy: StrataRecoveryPolicy,
    files: &Vec<SegmentId>,
    indexed: &BTreeSet<SegmentId>,
) -> (removals: Result<Vec<SegmentId>, RecoveryError>)
    ensures
        match removals {
            Ok(removals) => removals@ == orphans(files@, indexed@) && (policy
                == StrataRecoveryPolicy::AbsoluteConsistency ==> removals@.len() == 0),
            Err(error) => policy == StrataRecoveryPolicy::AbsoluteConsistency && orphans(
                files@,
                indexed@,
            ).len() > 0 && error == (RecoveryError::OrphanSegmentFile {
                segment_id: orphans(files@, indexed@)[0],
            }),
        },
{
    let mut removals: Vec<u64> = Vec::new();
    let mut i: usize = 0;
    while i < files.len()
        invariant
            i <= files@.len(),
            removals@ == orphans(files@.take(i as int), indexed@),
        decreases files@.len() - i,
    {
        assert(files@.take(i + 1).drop_last() =~= files@.take(i as int));
        if !indexed.contains(&files[i]) {
            removals.push(files[i]);
        }
        i = i + 1;
    }
    assert(files@.take(i as int) =~= files@);
    if policy == StrataRecoveryPolicy::AbsoluteConsistency && removals.len() > 0 {
        return Err(RecoveryError::OrphanSegmentFile { segment_id: removals[0] });
    }
    Ok(removals)
}

// The driver.

/// The lesser of two LSNs, where there are any.
pub open spec fn lesser(a: Option<StrataLsn>, b: Option<StrataLsn>) -> Option<StrataLsn> {
    match (a, b) {
        (Some(x), Some(y)) => Some(
            if y < x {
                y
            } else {
                x
            },
        ),
        (Some(x), None) => Some(x),
        (None, y) => y,
    }
}

/// The lesser of two LSNs, where there are any.
pub fn min_lsn(current: Option<StrataLsn>, candidate: Option<StrataLsn>) -> (least: Option<
    StrataLsn,
>)
    ensures
        least == lesser(current, candidate),
{
    match (current, candidate) {
        (Some(x), Some(y)) => Some(
            if y < x {
                y
            } else {
                x
            },
        ),
        (Some(x), None) => Some(x),
        (None, y) => y,
    }
}

/// What recovering one segment came to.
#[derive(Clone, Copy, Debug, PartialEq, Eq, Structural)]
pub struct SegmentRecovery {
    /// Every committed byte of the segment survived.
    pub is_complete: bool,
    /// The first LSN that did not survive.
    pub rollback_from: Option<StrataLsn>,
}

/// Recovery of the unsealed segments, in the order in which they were written.
///
/// The first segment that comes up short poisons everything after it: later segments hold later
/// LSNs, and what is durable has to be a contiguous prefix.
#[derive(Clone, Copy, Debug, PartialEq, Eq, Structural)]
pub struct SegmentRecoveryDriver {
    pub discard_later_segments: bool,
    pub rollback_from: Option<StrataLsn>,
}

impl SegmentRecoveryDriver {
    pub fn begin() -> (driver: SegmentRecoveryDriver)
        ensures
            driver == (SegmentRecoveryDriver {
                discard_later_segments: false,
                rollback_from: None,
            }),
    {
        SegmentRecoveryDriver { discard_later_segments: false, rollback_from: None }
    }

    /// Takes a segment that was discarded because an earlier one came up short.
    pub fn discarded(&mut self, first_lsn: Option<StrataLsn>)
        ensures
            final(self).discard_later_segments == old(self).discard_later_segments,
            final(self).rollback_from == lesser(old(self).rollback_from, first_lsn),
    {
        self.rollback_from = min_lsn(self.rollback_from, first_lsn);
    }

    /// Takes a segment that was scanned.
    pub fn recovered(&mut self, segment: SegmentRecovery)
        ensures
            *final(self) == driven(*old(self), segment),
    {
        if !segment.is_complete {
            self.discard_later_segments = true;
            self.rollback_from = min_lsn(self.rollback_from, segment.rollback_from);
        }
    }
}

/// The driver after a segment was scanned.
pub open spec fn driven(
    driver: SegmentRecoveryDriver,
    segment: SegmentRecovery,
) -> SegmentRecoveryDriver {
    if segment.is_complete {
        driver
    } else {
        SegmentRecoveryDriver {
            discard_later_segments: true,
            rollback_from: lesser(driver.rollback_from, segment.rollback_from),
        }
    }
}

// One segment.

/// One record that a scan found.
#[derive(Clone, Copy, Debug, PartialEq, Eq, Structural)]
pub struct ScannedRecord {
    pub offset: u64,
    pub len: u64,
    /// LSN of the write.
    pub lsn: StrataLsn,
}

/// What a scan of a segment file found: the longest prefix of intact records.
#[derive(Debug)]
pub struct ScannedPrefix {
    pub valid_len: u64,
    pub file_len: u64,
    pub records: Vec<ScannedRecord>,
}

/// What is done to a segment file so that its tail can never be taken for data.
#[derive(Clone, Copy, Debug, PartialEq, Eq, Structural)]
pub struct PersistPlan {
    pub truncate: bool,
    pub sync: bool,
    /// End of the durable bytes afterwards.
    pub durable_offset: u64,
}

/// Truncates a file to its recovered prefix, and promotes what the scan found beyond the durable
/// bytes: after the sync it is on disk.
pub open spec fn persisted(file_len: u64, durable_offset: u64, recovered: u64) -> PersistPlan {
    PersistPlan {
        truncate: file_len != recovered,
        sync: file_len != recovered || recovered > durable_offset,
        durable_offset: num::at_least(durable_offset as int, recovered as int) as u64,
    }
}

/// Decides how a recovered prefix is made durable.
pub fn persist_recovered_segment_prefix(
    file_len: u64,
    durable_offset: u64,
    recovered_write_offset: u64,
) -> (plan: PersistPlan)
    ensures
        plan == persisted(file_len, durable_offset, recovered_write_offset),
{
    PersistPlan {
        truncate: file_len != recovered_write_offset,
        sync: file_len != recovered_write_offset || recovered_write_offset > durable_offset,
        durable_offset: num::max_u64(durable_offset, recovered_write_offset),
    }
}

/// The greatest LSN of the records that end within `limit`.
pub open spec fn newest_within(records: Seq<ScannedRecord>, limit: u64) -> Option<StrataLsn>
    decreases records.len(),
{
    if records.len() == 0 {
        None
    } else {
        let earlier = newest_within(records.drop_last(), limit);
        let last = records.last();
        if last.offset + last.len > limit {
            earlier
        } else {
            match earlier {
                Some(lsn) => Some(
                    if last.lsn > lsn {
                        last.lsn
                    } else {
                        lsn
                    },
                ),
                None => Some(last.lsn),
            }
        }
    }
}

fn newest_lsn_within(records: &Vec<ScannedRecord>, limit: u64) -> (newest: Option<StrataLsn>)
    ensures
        newest == newest_within(records@, limit),
{
    let mut newest: Option<u64> = None;
    let mut i: usize = 0;
    while i < records.len()
        invariant
            i <= records@.len(),
            newest == newest_within(records@.take(i as int), limit),
        decreases records@.len() - i,
    {
        assert(records@.take(i + 1).drop_last() =~= records@.take(i as int));
        let record: ScannedRecord = records[i];
        if let Some(end) = record.offset.checked_add(record.len) {
            if end <= limit {
                newest = match newest {
                    Some(lsn) => Some(num::max_u64(lsn, record.lsn)),
                    None => Some(record.lsn),
                };
            }
        }
        i = i + 1;
    }
    assert(records@.take(i as int) =~= records@);
    newest
}

/// What recovering one segment asks for.
#[derive(Clone, Copy, Debug, PartialEq, Eq, Structural)]
pub enum RecoveryStep {
    /// Nothing: no byte was ever committed.
    Nothing,
    /// The file is gone, and held no durable byte: drop the segment.
    Discard,
    /// Keep the prefix up to `write_offset`.
    Keep { write_offset: u64, persist: PersistPlan },
}

/// Where the rows of a segment say that its bytes end.
pub open spec fn expected_offsets(row: Option<SegmentState>) -> (u64, u64) {
    match row {
        Some(row) => (row.write_offset, row.durable_offset),
        None => (0, 0),
    }
}

/// The first LSN that did not survive where a prefix came up short.
pub open spec fn first_lost(
    newest_kept: Option<StrataLsn>,
    row: Option<SegmentState>,
    next_lsn: StrataLsn,
) -> StrataLsn {
    let after_kept: Option<StrataLsn> = match newest_kept {
        Some(lsn) => if lsn < u64::MAX {
            Some((lsn + 1) as u64)
        } else {
            None
        },
        None => None,
    };
    match after_kept {
        Some(lsn) => lsn,
        None => match row {
            Some(row) => match row.min_lsn {
                Some(lsn) => lsn,
                None => next_lsn,
            },
            None => next_lsn,
        },
    }
}

/// What recovering one segment asks for and comes to, where it does not fail.
pub open spec fn recovery_of(
    row: Option<SegmentState>,
    file: Option<ScannedPrefix>,
    next_lsn: StrataLsn,
) -> (RecoveryStep, SegmentRecovery) {
    let (expected, durable) = expected_offsets(row);
    match file {
        None => if expected == 0 {
            (RecoveryStep::Nothing, SegmentRecovery { is_complete: true, rollback_from: None })
        } else {
            (
                RecoveryStep::Discard,
                SegmentRecovery {
                    is_complete: false,
                    rollback_from: match row {
                        Some(row) => row.min_lsn,
                        None => None,
                    },
                },
            )
        },
        Some(prefix) => {
            let kept = num::at_most(prefix.valid_len as int, expected as int) as u64;
            let complete = prefix.valid_len >= expected;
            (
                RecoveryStep::Keep {
                    write_offset: kept,
                    persist: persisted(prefix.file_len, durable, kept),
                },
                SegmentRecovery {
                    is_complete: complete,
                    rollback_from: if complete {
                        None
                    } else {
                        Some(first_lost(newest_within(prefix.records@, kept), row, next_lsn))
                    },
                },
            )
        },
    }
}

/// Why recovering one segment fails.
pub open spec fn recovery_fault(
    policy: StrataRecoveryPolicy,
    row: Option<SegmentState>,
    file: Option<ScannedPrefix>,
) -> bool {
    let (expected, durable) = expected_offsets(row);
    let strict = policy == StrataRecoveryPolicy::AbsoluteConsistency;
    match file {
        None => expected != 0 && (durable > 0 || strict),
        Some(prefix) => strict && (prefix.valid_len != expected || prefix.file_len != expected),
    }
}

/// Recovers one unsealed segment: keeps the longest intact prefix of what was committed.
///
/// The scan looks past the durable bytes. Records that are complete there and inside the committed
/// prefix are promoted; rolling them back would serve nothing. A file that is gone may have held
/// only writes that nobody was promised, and is discarded; if bytes of it were declared durable,
/// that is data loss.
pub fn recover_unsealed_segment(
    policy: StrataRecoveryPolicy,
    segment_id: SegmentId,
    row: &Option<SegmentState>,
    file: &Option<ScannedPrefix>,
    next_lsn: StrataLsn,
) -> (recovery: Result<(RecoveryStep, SegmentRecovery), RecoveryError>)
    ensures
        match recovery {
            Ok(recovery) => !recovery_fault(policy, *row, *file) && recovery == recovery_of(
                *row,
                *file,
                next_lsn,
            ),
            Err(error) => recovery_fault(policy, *row, *file) && error == (
            RecoveryError::RecoveryInconsistent {
                segment_id,
                expected_write_offset: expected_offsets(*row).0,
                recovered_write_offset: match *file {
                    None => 0,
                    Some(prefix) => num::at_most(
                        prefix.valid_len as int,
                        expected_offsets(*row).0 as int,
                    ) as u64,
                },
            }),
        },
{
    let (expected, durable): (u64, u64) = match row {
        Some(row) => (row.write_offset, row.durable_offset),
        None => (0, 0),
    };
    let first_lsn: Option<u64> = match row {
        Some(row) => row.min_lsn,
        None => None,
    };
    let strict: bool = policy == StrataRecoveryPolicy::AbsoluteConsistency;
    let prefix: &ScannedPrefix = match file {
        Some(prefix) => prefix,
        None => {
            if expected == 0 {
                return Ok(
                    (
                        RecoveryStep::Nothing,
                        SegmentRecovery { is_complete: true, rollback_from: None },
                    ),
                );
            }
            if durable > 0 || strict {
                return Err(
                    RecoveryError::RecoveryInconsistent {
                        segment_id,
                        expected_write_offset: expected,
                        recovered_write_offset: 0,
                    },
                );
            }
            return Ok(
                (
                    RecoveryStep::Discard,
                    SegmentRecovery { is_complete: false, rollback_from: first_lsn },
                ),
            );
        },
    };
    let is_complete: bool = prefix.valid_len >= expected;
    let kept: u64 = num::min_u64(prefix.valid_len, expected);
    if strict && (prefix.valid_len != expected || prefix.file_len != expected) {
        return Err(
            RecoveryError::RecoveryInconsistent {
                segment_id,
                expected_write_offset: expected,
                recovered_write_offset: kept,
            },
        );
    }
    let persist: PersistPlan = persist_recovered_segment_prefix(prefix.file_len, durable, kept);
    let rollback_from: Option<u64> = if is_complete {
        None
    } else {
        let after_kept: Option<u64> = match newest_lsn_within(&prefix.records, kept) {
            Some(lsn) => lsn.checked_add(1),
            None => None,
        };
        Some(
            match after_kept {
                Some(lsn) => lsn,
                None => match first_lsn {
                    Some(lsn) => lsn,
                    None => next_lsn,
                },
            },
        )
    };
    Ok(
        (
            RecoveryStep::Keep { write_offset: kept, persist },
            SegmentRecovery { is_complete, rollback_from },
        ),
    )
}

// Rebuilding a row.

/// Row of an ingest segment that receives records.
pub open spec fn active_row(
    path: String,
    segment_id: SegmentId,
    write_offset: u64,
    durable_offset: u64,
) -> SegmentState {
    SegmentState {
        owner: SegmentOwner::Store,
        segment_id,
        volume_id: 0,
        path,
        placement_class: PlacementClass::Ingest,
        state: SegmentFileState::Open,
        write_offset,
        durable_offset,
        min_lsn: None,
        max_lsn: None,
        sealed_before_lsn: None,
        sealed_len: None,
        sealed_sha256: None,
    }
}

/// Row of an ingest segment that receives records.
pub fn active_segment_state(
    path: String,
    segment_id: SegmentId,
    write_offset: u64,
    durable_offset: u64,
) -> (row: SegmentState)
    ensures
        row == active_row(path, segment_id, write_offset, durable_offset),
{
    SegmentState {
        owner: SegmentOwner::Store,
        segment_id,
        volume_id: 0,
        path,
        placement_class: PlacementClass::Ingest,
        state: SegmentFileState::Open,
        write_offset,
        durable_offset,
        min_lsn: None,
        max_lsn: None,
        sealed_before_lsn: None,
        sealed_len: None,
        sealed_sha256: None,
    }
}

/// What the records of a prefix come to.
#[derive(Clone, Copy, Debug, PartialEq, Eq, Structural)]
pub struct PrefixTotals {
    pub records: u64,
    /// Records beyond the bytes that GC already accounted for.
    pub allocations: u64,
    pub min_lsn: Option<StrataLsn>,
    pub max_lsn: Option<StrataLsn>,
}

/// What the records within `write_offset` come to.
pub open spec fn prefix_totals(
    segment_id: SegmentId,
    records: Seq<ScannedRecord>,
    write_offset: u64,
    baseline: u64,
) -> Result<PrefixTotals, RecoveryError>
    decreases records.len(),
{
    if records.len() == 0 {
        Ok(PrefixTotals { records: 0, allocations: 0, min_lsn: None, max_lsn: None })
    } else {
        match prefix_totals(segment_id, records.drop_last(), write_offset, baseline) {
            Err(error) => Err(error),
            Ok(totals) => {
                let last = records.last();
                let end = last.offset + last.len;
                if end > u64::MAX {
                    Err(RecoveryError::RangeOverflow)
                } else if end > write_offset {
                    Ok(totals)
                } else if end > baseline && last.offset < baseline {
                    Err(
                        RecoveryError::BaselineSplitsRecord {
                            segment_id,
                            baseline_bytes: baseline,
                            offset: last.offset,
                        },
                    )
                } else {
                    Ok(
                        PrefixTotals {
                            records: (totals.records + 1) as u64,
                            allocations: if end > baseline {
                                (totals.allocations + 1) as u64
                            } else {
                                totals.allocations
                            },
                            min_lsn: lesser(totals.min_lsn, Some(last.lsn)),
                            max_lsn: match totals.max_lsn {
                                Some(lsn) => Some(
                                    num::at_least(lsn as int, last.lsn as int) as u64,
                                ),
                                None => Some(last.lsn),
                            },
                        },
                    )
                }
            },
        }
    }
}

proof fn lemma_totals_error_sticks(
    segment_id: SegmentId,
    records: Seq<ScannedRecord>,
    write_offset: u64,
    baseline: u64,
    upto: int,
)
    requires
        0 <= upto <= records.len(),
        prefix_totals(segment_id, records.take(upto), write_offset, baseline) is Err,
    ensures
        prefix_totals(segment_id, records, write_offset, baseline) == prefix_totals(
            segment_id,
            records.take(upto),
            write_offset,
            baseline,
        ),
    decreases records.len() - upto,
{
    if upto < records.len() {
        assert(records.take(upto + 1).drop_last() =~= records.take(upto));
        lemma_totals_error_sticks(segment_id, records, write_offset, baseline, upto + 1);
    } else {
        assert(records.take(upto) =~= records);
    }
}

fn totals_of_prefix(
    segment_id: SegmentId,
    records: &Vec<ScannedRecord>,
    write_offset: u64,
    baseline: u64,
) -> (totals: Result<PrefixTotals, RecoveryError>)
    ensures
        totals == prefix_totals(segment_id, records@, write_offset, baseline),
{
    let mut totals = PrefixTotals { records: 0, allocations: 0, min_lsn: None, max_lsn: None };
    let mut i: usize = 0;
    while i < records.len()
        invariant
            i <= records@.len(),
            totals.records <= i,
            totals.allocations <= i,
            Ok::<PrefixTotals, RecoveryError>(totals) == prefix_totals(
                segment_id,
                records@.take(i as int),
                write_offset,
                baseline,
            ),
        decreases records@.len() - i,
    {
        assert(records@.take(i + 1).drop_last() =~= records@.take(i as int));
        let record: ScannedRecord = records[i];
        let end: u64 = match record.offset.checked_add(record.len) {
            Some(end) => end,
            None => {
                proof {
                    lemma_totals_error_sticks(
                        segment_id,
                        records@,
                        write_offset,
                        baseline,
                        i + 1,
                    );
                }
                return Err(RecoveryError::RangeOverflow);
            },
        };
        if end <= write_offset {
            if end > baseline {
                if record.offset < baseline {
                    proof {
                        lemma_totals_error_sticks(
                            segment_id,
                            records@,
                            write_offset,
                            baseline,
                            i + 1,
                        );
                    }
                    return Err(
                        RecoveryError::BaselineSplitsRecord {
                            segment_id,
                            baseline_bytes: baseline,
                            offset: record.offset,
                        },
                    );
                }
                totals.allocations = totals.allocations + 1;
            }
            totals.records = totals.records + 1;
            totals.min_lsn = min_lsn(totals.min_lsn, Some(record.lsn));
            totals.max_lsn = match totals.max_lsn {
                Some(lsn) => Some(num::max_u64(lsn, record.lsn)),
                None => Some(record.lsn),
            };
        }
        i = i + 1;
    }
    assert(records@.take(i as int) =~= records@);
    Ok(totals)
}

/// What recovery does to the GC summary of a segment.
#[derive(Clone, Copy, Debug, PartialEq, Eq, Structural)]
pub enum BaselineChange {
    /// Bytes that were already counted are gone: every surviving record starts live and unknown.
    Reset(SegmentGcSummary),
    /// Count what was not counted yet.
    Extend { bytes: u64, records: u64 },
}

/// A recovered segment's row and what becomes of its summary.
#[derive(Debug)]
pub struct RecoveredRow {
    pub state: SegmentState,
    pub baseline: BaselineChange,
    pub records: u64,
}

/// The bytes that GC accounted for and that are still there.
pub open spec fn kept_baseline(previous: u64, write_offset: u64) -> u64 {
    if previous > write_offset {
        0
    } else {
        previous
    }
}

/// The row keeps what recovery cannot know from the bytes, and its LSN bounds come from the bytes.
pub open spec fn recovered_row(
    existing: Option<SegmentState>,
    fresh: SegmentState,
    totals: PrefixTotals,
) -> SegmentState {
    let kept = match existing {
        Some(row) => SegmentState {
            volume_id: row.volume_id,
            placement_class: row.placement_class,
            state: row.state,
            sealed_before_lsn: row.sealed_before_lsn,
            sealed_len: row.sealed_len,
            ..fresh
        },
        None => fresh,
    };
    SegmentState { min_lsn: totals.min_lsn, max_lsn: totals.max_lsn, ..kept }
}

/// Rebuilds a segment's row from the records that survived. Its LSN bounds cannot be taken from the
/// old row, since the tail that they described may be gone.
pub fn apply_recovered_segment_prefix(
    segment_id: SegmentId,
    path: String,
    existing: &Option<SegmentState>,
    write_offset: u64,
    durable_offset: u64,
    records: &Vec<ScannedRecord>,
    accounted_bytes: u64,
) -> (recovered: Result<RecoveredRow, RecoveryError>)
    ensures
        ({
            let baseline = kept_baseline(accounted_bytes, write_offset);
            match (
                recovered,
                prefix_totals(segment_id, records@, write_offset, baseline),
            ) {
                (Ok(recovered), Ok(totals)) => {
                    &&& recovered.state == recovered_row(
                        *existing,
                        active_row(path, segment_id, write_offset, durable_offset),
                        totals,
                    )
                    &&& recovered.records == totals.records
                    &&& recovered.baseline == (if accounted_bytes > write_offset {
                        BaselineChange::Reset(
                            SegmentGcSummary {
                                total_bytes: write_offset,
                                live_bytes: write_offset,
                                retired_bytes: 0,
                                expired_bytes: 0,
                                live_ref_count: totals.records,
                                unknown_lifetime_bytes: write_offset,
                                unknown_lifetime_ref_count: totals.records,
                            },
                        )
                    } else {
                        BaselineChange::Extend {
                            bytes: (write_offset - accounted_bytes) as u64,
                            records: totals.allocations,
                        }
                    })
                },
                (Err(error), Err(expected)) => error == expected,
                _ => false,
            }
        }),
{
    let reset: bool = accounted_bytes > write_offset;
    let baseline: u64 = if reset {
        0
    } else {
        accounted_bytes
    };
    let totals: PrefixTotals = totals_of_prefix(segment_id, records, write_offset, baseline)?;
    let mut state: SegmentState = active_segment_state(
        path,
        segment_id,
        write_offset,
        durable_offset,
    );
    if let Some(row) = existing {
        state.volume_id = row.volume_id;
        state.placement_class = row.placement_class;
        state.state = row.state;
        state.sealed_before_lsn = row.sealed_before_lsn;
        state.sealed_len = row.sealed_len;
    }
    state.min_lsn = totals.min_lsn;
    state.max_lsn = totals.max_lsn;
    let change: BaselineChange = if reset {
        BaselineChange::Reset(
            SegmentGcSummary {
                total_bytes: write_offset,
                live_bytes: write_offset,
                retired_bytes: 0,
                expired_bytes: 0,
                live_ref_count: totals.records,
                unknown_lifetime_bytes: write_offset,
                unknown_lifetime_ref_count: totals.records,
            },
        )
    } else {
        BaselineChange::Extend {
            bytes: write_offset - baseline,
            records: totals.allocations,
        }
    };
    Ok(RecoveredRow { state, baseline: change, records: totals.records })
}

/// Row of a segment that is dropped. It is committed before the file is unlinked: the other way
/// round, a crash could leave a row that points at nothing.
pub fn discard_unsealed_segment(
    segment_id: SegmentId,
    path: String,
    existing: &Option<SegmentState>,
) -> (row: SegmentState)
    ensures
        row == (match *existing {
            Some(existing) => SegmentState {
                volume_id: existing.volume_id,
                placement_class: existing.placement_class,
                path: existing.path,
                state: SegmentFileState::Deleted,
                ..active_row(path, segment_id, 0, 0)
            },
            None => SegmentState {
                state: SegmentFileState::Deleted,
                ..active_row(path, segment_id, 0, 0)
            },
        }),
{
    let mut row: SegmentState = active_segment_state(path, segment_id, 0, 0);
    if let Some(existing) = existing {
        row.volume_id = existing.volume_id;
        row.placement_class = existing.placement_class;
        row.path = existing.path.clone();
    }
    row.state = SegmentFileState::Deleted;
    row
}

// The log.

/// Offset of the first record at or after `rollback_from`.
pub open spec fn first_hidden(records: Seq<ScannedRecord>, rollback_from: StrataLsn) -> Option<u64>
    decreases records.len(),
{
    if records.len() == 0 {
        None
    } else if records[0].lsn >= rollback_from {
        Some(records[0].offset)
    } else {
        first_hidden(records.skip(1), rollback_from)
    }
}

/// Where a segment is truncated so that no record of the rolled back operations is left in it.
/// Segments that hold none stay as they are.
pub fn truncation_offset(records: &Vec<ScannedRecord>, rollback_from: StrataLsn) -> (offset: Option<
    u64,
>)
    ensures
        offset == first_hidden(records@, rollback_from),
{
    let mut i: usize = 0;
    assert(records@.skip(0) =~= records@);
    while i < records.len()
        invariant
            i <= records@.len(),
            first_hidden(records@, rollback_from) == first_hidden(
                records@.skip(i as int),
                rollback_from,
            ),
        decreases records@.len() - i,
    {
        assert(records@.skip(i as int)[0] == records@[i as int]);
        assert(records@.skip(i as int).skip(1) =~= records@.skip(i + 1));
        if records[i].lsn >= rollback_from {
            return Some(records[i].offset);
        }
        i = i + 1;
    }
    None
}

/// Removes the records of rolled back operations from a segment; segments that hold none stay as
/// they are. Bytes that were promoted before the log's tail was found missing are newer than
/// anything published, and may go too.
pub fn truncate_unsealed_segment_from_lsn(
    durable_offset: u64,
    prefix: &ScannedPrefix,
    rollback_from: StrataLsn,
) -> (change: Option<(u64, PersistPlan)>)
    ensures
        change == (match first_hidden(prefix.records@, rollback_from) {
            None => None,
            Some(offset) => Some(
                (
                    offset,
                    persisted(
                        prefix.file_len,
                        num::at_most(durable_offset as int, offset as int) as u64,
                        offset,
                    ),
                ),
            ),
        }),
{
    match truncation_offset(&prefix.records, rollback_from) {
        None => None,
        Some(offset) => Some(
            (
                offset,
                persist_recovered_segment_prefix(
                    prefix.file_len,
                    num::min_u64(durable_offset, offset),
                    offset,
                ),
            ),
        ),
    }
}

/// The last LSN that the log has to hold; nothing for a log without operations.
pub fn requested_lsn(next_lsn: StrataLsn) -> (requested: Option<StrataLsn>)
    ensures
        requested == (if next_lsn <= 1 {
            None
        } else {
            Some((next_lsn - 1) as u64)
        }),
{
    if next_lsn <= 1 {
        None
    } else {
        Some(next_lsn - 1)
    }
}

/// What recovery does once the log was validated against the requested LSN.
#[derive(Clone, Copy, Debug, PartialEq, Eq, Structural)]
pub enum LogRecovery {
    /// The exact tail is there.
    Keep,
    /// Hand the validation's error on.
    Fail,
    /// Fall back to what callers were promised.
    FallBack {
        /// The last LSN that still has to be valid.
        target: Option<StrataLsn>,
        /// Nothing was published: the recorded checkpoint is void.
        reset_checkpoint: bool,
        /// The first operation that is discarded.
        rollback_from: StrataLsn,
    },
}

/// What becomes of the log's tail.
pub open spec fn log_recovery(
    policy: StrataRecoveryPolicy,
    tail_is_valid: bool,
    requested: Option<StrataLsn>,
    published_lsn: StrataLsn,
    has_checkpoint: bool,
) -> LogRecovery {
    if tail_is_valid {
        LogRecovery::Keep
    } else if policy == StrataRecoveryPolicy::AbsoluteConsistency {
        LogRecovery::Fail
    } else {
        match requested {
            None => LogRecovery::Fail,
            Some(lsn) => if lsn <= published_lsn {
                LogRecovery::Fail
            } else {
                LogRecovery::FallBack {
                    target: if published_lsn == 0 {
                        None
                    } else {
                        Some(published_lsn)
                    },
                    reset_checkpoint: published_lsn == 0 && has_checkpoint,
                    rollback_from: (published_lsn + 1) as u64,
                }
            },
        }
    }
}

/// Decides what becomes of the log's tail.
///
/// A complete tail is kept, even where its checkpoint did not reach disk. Where the exact tail is
/// unavailable, point-in-time recovery discards only operations that nobody was promised; an
/// unavailable published prefix stays an error.
pub fn recover_store_wal_prefix(
    policy: StrataRecoveryPolicy,
    tail_is_valid: bool,
    requested: Option<StrataLsn>,
    published_lsn: StrataLsn,
    has_checkpoint: bool,
) -> (recovery: LogRecovery)
    ensures
        recovery == log_recovery(
            policy,
            tail_is_valid,
            requested,
            published_lsn,
            has_checkpoint,
        ),
{
    if tail_is_valid {
        return LogRecovery::Keep;
    }
    if policy == StrataRecoveryPolicy::AbsoluteConsistency {
        return LogRecovery::Fail;
    }
    match requested {
        None => LogRecovery::Fail,
        Some(lsn) => if lsn <= published_lsn {
            LogRecovery::Fail
        } else {
            LogRecovery::FallBack {
                target: if published_lsn == 0 {
                    None
                } else {
                    Some(published_lsn)
                },
                reset_checkpoint: published_lsn == 0 && has_checkpoint,
                rollback_from: published_lsn + 1,
            }
        },
    }
}

// Rolling back.

/// Epoch changes from `rollback_from` on.
pub open spec fn hidden_changes(changes: Seq<(StrataLsn, Epoch)>, rollback_from: StrataLsn) -> Seq<
    StrataLsn,
>
    decreases changes.len(),
{
    if changes.len() == 0 {
        Seq::empty()
    } else {
        let earlier = hidden_changes(changes.drop_last(), rollback_from);
        if changes.last().0 >= rollback_from {
            earlier.push(changes.last().0)
        } else {
            earlier
        }
    }
}

/// The epoch of the last listed change before `rollback_from`.
pub open spec fn epoch_before(changes: Seq<(StrataLsn, Epoch)>, rollback_from: StrataLsn) -> Option<
    Epoch,
>
    decreases changes.len(),
{
    if changes.len() == 0 {
        None
    } else if changes.last().0 <= num::at_least(rollback_from - 1, 0) {
        Some(changes.last().1)
    } else {
        epoch_before(changes.drop_last(), rollback_from)
    }
}

/// Shard drops from `rollback_from` on.
pub open spec fn hidden_drops(jobs: Seq<ShardCleanupJob>, rollback_from: StrataLsn) -> Seq<ShardKey>
    decreases jobs.len(),
{
    if jobs.len() == 0 {
        Seq::empty()
    } else {
        let earlier = hidden_drops(jobs.drop_last(), rollback_from);
        if jobs.last().drop_lsn >= rollback_from {
            earlier.push(jobs.last().shard)
        } else {
            earlier
        }
    }
}

/// Whether undoing the drop of a shard generation makes it visible again: it is still the current
/// one.
pub open spec fn is_restored(infos: Map<ShardId, ShardInfo>, shard: ShardKey) -> bool {
    infos.dom().contains(shard.id) && infos[shard.id].current_generation == shard.generation
        && infos[shard.id].state == ShardState::Dropped
}

/// The shard generations that become visible again.
pub open spec fn restored(drops: Seq<ShardKey>, infos: Map<ShardId, ShardInfo>) -> Seq<ShardKey>
    decreases drops.len(),
{
    if drops.len() == 0 {
        Seq::empty()
    } else {
        let earlier = restored(drops.drop_last(), infos);
        if is_restored(infos, drops.last()) {
            earlier.push(drops.last())
        } else {
            earlier
        }
    }
}

/// Everything that a rollback removes, restores and rewinds.
#[derive(Debug)]
pub struct RollbackPlan {
    pub removed_epoch_changes: Vec<StrataLsn>,
    /// Cleanup jobs of shard drops that did not happen.
    pub removed_drops: Vec<ShardKey>,
    /// Shard generations that are active again.
    pub restored_shards: Vec<ShardKey>,
    pub current_epoch: Epoch,
    pub next_lsn: StrataLsn,
    pub rolled_back_ops: u64,
}

/// Erases epoch changes and shard drops from `rollback_from` on, and rewinds the store to it.
///
/// Cleanup never crosses an unpublished drop, so restoring the same generation brings nothing back
/// that was reclaimed.
pub fn rollback_operations_from(
    rollback_from: StrataLsn,
    epoch_changes: &Vec<(StrataLsn, Epoch)>,
    jobs: &Vec<ShardCleanupJob>,
    shard_infos: &BTreeMap<ShardId, ShardInfo>,
) -> (plan: Result<RollbackPlan, RecoveryError>)
    ensures
        match plan {
            Ok(plan) => {
                &&& plan.removed_epoch_changes@ == hidden_changes(epoch_changes@, rollback_from)
                &&& plan.removed_drops@ == hidden_drops(jobs@, rollback_from)
                &&& plan.restored_shards@ == restored(
                    hidden_drops(jobs@, rollback_from),
                    shard_infos@,
                )
                &&& epoch_before(epoch_changes@, rollback_from) == Some(plan.current_epoch)
                &&& plan.next_lsn == rollback_from
                &&& plan.rolled_back_ops == num::at_most(
                    (plan.removed_epoch_changes@.len() + plan.removed_drops@.len()) as int,
                    usize::MAX as int,
                )
            },
            Err(error) => error == RecoveryError::EpochNotInitialized && epoch_before(
                epoch_changes@,
                rollback_from,
            ) is None,
        },
{
    let mut removed_epoch_changes: Vec<u64> = Vec::new();
    let mut i: usize = 0;
    while i < epoch_changes.len()
        invariant
            i <= epoch_changes@.len(),
            removed_epoch_changes@ == hidden_changes(
                epoch_changes@.take(i as int),
                rollback_from,
            ),
        decreases epoch_changes@.len() - i,
    {
        assert(epoch_changes@.take(i + 1).drop_last() =~= epoch_changes@.take(i as int));
        let change: (u64, u64) = epoch_changes[i];
        if change.0 >= rollback_from {
            removed_epoch_changes.push(change.0);
        }
        i = i + 1;
    }
    assert(epoch_changes@.take(i as int) =~= epoch_changes@);
    let previous_lsn: u64 = rollback_from.saturating_sub(1);
    let mut current: Option<u64> = None;
    let mut k: usize = epoch_changes.len();
    assert(epoch_changes@.take(k as int) =~= epoch_changes@);
    while k > 0 && current.is_none()
        invariant
            k <= epoch_changes@.len(),
            previous_lsn == num::at_least(rollback_from - 1, 0),
            match current {
                None => epoch_before(epoch_changes@, rollback_from) == epoch_before(
                    epoch_changes@.take(k as int),
                    rollback_from,
                ),
                Some(epoch) => epoch_before(epoch_changes@, rollback_from) == Some(epoch),
            },
        decreases k,
    {
        assert(epoch_changes@.take(k as int).drop_last() =~= epoch_changes@.take(k - 1));
        let change: (u64, u64) = epoch_changes[k - 1];
        if change.0 <= previous_lsn {
            current = Some(change.1);
        }
        k = k - 1;
    }
    let mut removed_drops: Vec<ShardKey> = Vec::new();
    let mut j: usize = 0;
    while j < jobs.len()
        invariant
            j <= jobs@.len(),
            removed_drops@ == hidden_drops(jobs@.take(j as int), rollback_from),
        decreases jobs@.len() - j,
    {
        assert(jobs@.take(j + 1).drop_last() =~= jobs@.take(j as int));
        if jobs[j].drop_lsn >= rollback_from {
            removed_drops.push(jobs[j].shard);
        }
        j = j + 1;
    }
    assert(jobs@.take(j as int) =~= jobs@);
    let mut restored_shards: Vec<ShardKey> = Vec::new();
    let mut l: usize = 0;
    while l < removed_drops.len()
        invariant
            l <= removed_drops@.len(),
            restored_shards@ == restored(removed_drops@.take(l as int), shard_infos@),
        decreases removed_drops@.len() - l,
    {
        assert(removed_drops@.take(l + 1).drop_last() =~= removed_drops@.take(l as int));
        let shard: ShardKey = removed_drops[l];
        if let Some(info) = shard_infos.get(&shard.id) {
            if info.current_generation == shard.generation && info.state == ShardState::Dropped {
                restored_shards.push(shard);
            }
        }
        l = l + 1;
    }
    assert(removed_drops@.take(l as int) =~= removed_drops@);
    let current_epoch: u64 = match current {
        Some(epoch) => epoch,
        None => return Err(RecoveryError::EpochNotInitialized),
    };
    let rolled_back_ops: usize = removed_epoch_changes.len().saturating_add(removed_drops.len());
    Ok(
        RollbackPlan {
            removed_epoch_changes,
            removed_drops,
            restored_shards,
            current_epoch,
            next_lsn: rollback_from,
            rolled_back_ops: rolled_back_ops as u64,
        },
    )
}

/// A place in the store's log.
#[derive(Clone, Copy, Debug, PartialEq, Eq, Structural)]
pub struct WalPosition {
    pub file_id: u64,
    pub offset: u64,
}

/// What the store resumes from.
#[derive(Clone, Copy, Debug, PartialEq, Eq, Structural)]
pub struct StoreCheckpoint {
    pub wal_position: WalPosition,
    pub active_segment_id: SegmentId,
    pub active_segment_offset: u64,
}

/// Publishes the exact prefix that recovery selected. It never takes back what was published.
pub fn publish_recovered_store_checkpoint(
    next_lsn: StrataLsn,
    published_lsn: StrataLsn,
    wal_position: WalPosition,
    active_segment: &SegmentState,
) -> (published: Result<(StrataLsn, StoreCheckpoint), RecoveryError>)
    ensures
        ({
            let recovered = num::at_least(next_lsn - 1, 0) as u64;
            published == (if published_lsn > recovered {
                Err(
                    RecoveryError::PublishedBeyondRecovered {
                        published_lsn,
                        recovered_lsn: recovered,
                    },
                )
            } else {
                Ok(
                    (
                        recovered,
                        StoreCheckpoint {
                            wal_position,
                            active_segment_id: active_segment.segment_id,
                            active_segment_offset: active_segment.write_offset,
                        },
                    ),
                )
            })
        }),
{
    let recovered_lsn: u64 = next_lsn.saturating_sub(1);
    if published_lsn > recovered_lsn {
        return Err(RecoveryError::PublishedBeyondRecovered { published_lsn, recovered_lsn });
    }
    Ok(
        (
            recovered_lsn,
            StoreCheckpoint {
                wal_position,
                active_segment_id: active_segment.segment_id,
                active_segment_offset: active_segment.write_offset,
            },
        ),
    )
}

// Laws.

/// Recovery never keeps more than was committed, nor more than is intact; and what it declares
/// durable is never less than before.
pub proof fn law_recovery_keeps_an_intact_committed_prefix(
    row: Option<SegmentState>,
    prefix: ScannedPrefix,
    next_lsn: StrataLsn,
)
    ensures
        recovery_of(row, Some(prefix), next_lsn).0 matches RecoveryStep::Keep {
            write_offset,
            persist,
        } && write_offset <= expected_offsets(row).0 && write_offset <= prefix.valid_len
            && persist.durable_offset >= expected_offsets(row).1,
{
}

/// Under absolute consistency a segment is recovered only where its file is exactly what its row
/// says, and then nothing is rolled back.
pub proof fn law_absolute_consistency_rolls_nothing_back(
    row: Option<SegmentState>,
    file: Option<ScannedPrefix>,
    next_lsn: StrataLsn,
)
    requires
        !recovery_fault(StrataRecoveryPolicy::AbsoluteConsistency, row, file),
    ensures
        recovery_of(row, file, next_lsn).1 == (SegmentRecovery {
            is_complete: true,
            rollback_from: None,
        }),
        file matches Some(prefix) ==> prefix.file_len == expected_offsets(row).0,
{
}

/// Bytes that were declared durable never vanish in silence: where the file of such a segment is
/// gone, recovery fails under every policy.
pub proof fn law_durable_bytes_never_vanish(policy: StrataRecoveryPolicy, row: SegmentState)
    requires
        0 < row.durable_offset <= row.write_offset,
    ensures
        recovery_fault(policy, Some(row), None),
{
}

/// What survives is a contiguous prefix: once a segment came up short, every later one is discarded,
/// whatever it held, and the rollback reaches back at least as far.
pub proof fn law_a_short_segment_poisons_the_rest(
    driver: SegmentRecoveryDriver,
    short: SegmentRecovery,
    later: SegmentRecovery,
)
    requires
        !short.is_complete,
    ensures
        driven(driver, short).discard_later_segments,
        driven(driven(driver, short), later).discard_later_segments,
        short.rollback_from matches Some(lost) ==> (driven(driven(driver, short), later).rollback_from
            matches Some(from) && from <= lost),
{
}

/// Falling back discards only what nobody was promised: everything published stays, and the log is
/// still held to it.
pub proof fn law_fallback_keeps_what_was_published(
    policy: StrataRecoveryPolicy,
    tail_is_valid: bool,
    requested: Option<StrataLsn>,
    published_lsn: StrataLsn,
    has_checkpoint: bool,
)
    ensures
        log_recovery(policy, tail_is_valid, requested, published_lsn, has_checkpoint) matches
            LogRecovery::FallBack { target, rollback_from, .. } ==> {
            &&& rollback_from == published_lsn + 1
            &&& published_lsn > 0 ==> target == Some(published_lsn)
            &&& requested matches Some(lsn) && rollback_from <= lsn
        },
{
}

proof fn lemma_hidden_changes(changes: Seq<(StrataLsn, Epoch)>, rollback_from: StrataLsn, at: int)
    requires
        0 <= at < changes.len(),
    ensures
        changes[at].0 >= rollback_from ==> hidden_changes(changes, rollback_from).contains(
            changes[at].0,
        ),
    decreases changes.len(),
{
    let init = changes.drop_last();
    let earlier = hidden_changes(init, rollback_from);
    let all = hidden_changes(changes, rollback_from);
    if changes[at].0 >= rollback_from {
        if at == changes.len() - 1 {
            assert(all[earlier.len() as int] == changes[at].0);
        } else {
            lemma_hidden_changes(init, rollback_from, at);
            assert(init[at] == changes[at]);
            let k = choose|k: int| 0 <= k < earlier.len() && earlier[k] == changes[at].0;
            assert(all[k] == changes[at].0);
        }
    }
}

proof fn lemma_hidden_changes_from(
    changes: Seq<(StrataLsn, Epoch)>,
    rollback_from: StrataLsn,
    at: int,
)
    requires
        0 <= at < hidden_changes(changes, rollback_from).len(),
    ensures
        hidden_changes(changes, rollback_from)[at] >= rollback_from,
    decreases changes.len(),
{
    if changes.len() > 0 {
        let earlier = hidden_changes(changes.drop_last(), rollback_from);
        if at < earlier.len() {
            lemma_hidden_changes_from(changes.drop_last(), rollback_from, at);
        }
    }
}

/// A rollback erases exactly the epoch changes from its LSN on: none before it is touched, and none
/// after it is left.
pub proof fn law_rollback_erases_exactly_the_tail(
    changes: Seq<(StrataLsn, Epoch)>,
    rollback_from: StrataLsn,
    at: int,
)
    requires
        0 <= at < changes.len(),
    ensures
        hidden_changes(changes, rollback_from).contains(changes[at].0) <==> changes[at].0
            >= rollback_from,
{
    lemma_hidden_changes(changes, rollback_from, at);
    let all = hidden_changes(changes, rollback_from);
    if all.contains(changes[at].0) {
        let k = choose|k: int| 0 <= k < all.len() && all[k] == changes[at].0;
        lemma_hidden_changes_from(changes, rollback_from, k);
    }
}

} // verus!
