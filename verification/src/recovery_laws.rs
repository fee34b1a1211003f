//! What recovery promises of a segment, of the log and of a rollback.

use vstd::prelude::*;

use crate::config::StrataRecoveryPolicy;
use crate::maintenance::pass::ShardCleanupJob;
use crate::recovery;
use crate::recovery::{
    LogRecovery, PersistPlan, PrefixTotals, RecoveryError, RecoveryStep, ScannedPrefix,
    ScannedRecord, SegmentRecovery, SegmentRecoveryDriver,
};
use crate::segments::{PlacementClass, SegmentFileState, SegmentOwner, SegmentState};
use crate::types::{Epoch, SegmentId, ShardId, ShardInfo, ShardKey, ShardState, StrataLsn};

verus! {

// One segment.

/// Bytes of a segment that were committed.
pub open spec fn committed_bytes(row: Option<SegmentState>) -> u64 {
    match row {
        Some(row) => row.write_offset,
        None => 0,
    }
}

/// Bytes of a segment that callers were promised.
pub open spec fn durable_bytes(row: Option<SegmentState>) -> u64 {
    match row {
        Some(row) => row.durable_offset,
        None => 0,
    }
}

/// A record lies in the first `bytes` bytes.
pub open spec fn ends_within(record: ScannedRecord, bytes: u64) -> bool {
    record.offset + record.len <= bytes
}

/// Where a prefix comes up short, the rollback starts right behind the newest record that was kept:
/// beyond every kept record, and one beyond some kept record. Only where none was kept does it start
/// at the segment's own first LSN, or at the next LSN where that is not known.
pub proof fn law_a_rollback_starts_behind_what_was_kept(
    row: Option<SegmentState>,
    prefix: ScannedPrefix,
    next_lsn: StrataLsn,
)
    requires
        prefix.valid_len < committed_bytes(row),
    ensures
        ({
            let outcome = recovery::recovery_of(row, Some(prefix), next_lsn).1;
            let records = prefix.records@;
            let kept = prefix.valid_len;
            let some_kept = exists|i: int|
                0 <= i < records.len() && ends_within(#[trigger] records[i], kept);
            let last_lsn_kept = exists|i: int|
                0 <= i < records.len() && ends_within(#[trigger] records[i], kept)
                    && records[i].lsn == u64::MAX;
            let first = match row {
                Some(row) => match row.min_lsn {
                    Some(lsn) => lsn,
                    None => next_lsn,
                },
                None => next_lsn,
            };
            &&& !outcome.is_complete
            &&& some_kept && !last_lsn_kept ==> (outcome.rollback_from matches Some(from) && (
            forall|i: int|
                0 <= i < records.len() && ends_within(#[trigger] records[i], kept)
                    ==> records[i].lsn < from) && exists|i: int|
                0 <= i < records.len() && ends_within(#[trigger] records[i], kept) && from
                    == records[i].lsn + 1)
            &&& !some_kept || last_lsn_kept ==> outcome.rollback_from == Some(first)
        }),
{
    lemma_newest_within(prefix.records@, prefix.valid_len);
}

proof fn lemma_newest_within(records: Seq<ScannedRecord>, limit: u64)
    ensures
        match recovery::newest_within(records, limit) {
            None => forall|i: int|
                0 <= i < records.len() ==> !ends_within(#[trigger] records[i], limit),
            Some(newest) => (forall|i: int|
                0 <= i < records.len() && ends_within(#[trigger] records[i], limit)
                    ==> records[i].lsn <= newest) && exists|i: int|
                0 <= i < records.len() && ends_within(#[trigger] records[i], limit)
                    && records[i].lsn == newest,
        },
    decreases records.len(),
{
    if records.len() > 0 {
        let init = records.drop_last();
        let last = records.len() - 1;
        lemma_newest_within(init, limit);
        assert forall|i: int| 0 <= i < init.len() implies #[trigger] records[i] == init[i] by {}
        if let Some(newest) = recovery::newest_within(init, limit) {
            let i = choose|i: int|
                0 <= i < init.len() && ends_within(#[trigger] init[i], limit) && init[i].lsn
                    == newest;
            assert(records[i] == init[i]);
        }
        assert(records[last] == records.last());
    }
}

/// A segment whose committed bytes are all intact is complete and rolls nothing back.
pub proof fn law_an_intact_segment_rolls_nothing_back(
    row: Option<SegmentState>,
    prefix: ScannedPrefix,
    next_lsn: StrataLsn,
)
    requires
        prefix.valid_len >= committed_bytes(row),
    ensures
        recovery::recovery_of(row, Some(prefix), next_lsn).1 == (SegmentRecovery {
            is_complete: true,
            rollback_from: None,
        }),
{
}

/// What is kept of a file is all that is both committed and intact. The file is cut there where it
/// is longer or shorter, synced where it was cut or where undurable bytes are kept, and its durable
/// bytes never shrink.
pub proof fn law_kept_bytes_are_committed_and_intact(
    row: Option<SegmentState>,
    prefix: ScannedPrefix,
    next_lsn: StrataLsn,
)
    ensures
        recovery::recovery_of(row, Some(prefix), next_lsn).0 matches RecoveryStep::Keep {
            write_offset,
            persist,
        } && {
            &&& write_offset <= prefix.valid_len && write_offset <= committed_bytes(row)
            &&& write_offset == prefix.valid_len || write_offset == committed_bytes(row)
            &&& persist.truncate <==> prefix.file_len != write_offset
            &&& persist.sync <==> persist.truncate || write_offset > durable_bytes(row)
            &&& persist.durable_offset >= durable_bytes(row) && persist.durable_offset
                >= write_offset
            &&& persist.durable_offset == durable_bytes(row) || persist.durable_offset
                == write_offset
        },
{
}

/// A plan makes the recovered bytes durable, and takes back none that were.
pub proof fn law_a_prefix_is_made_durable(file_len: u64, durable_offset: u64, recovered: u64)
    ensures
        ({
            let plan: PersistPlan = recovery::persisted(file_len, durable_offset, recovered);
            &&& plan.truncate <==> file_len != recovered
            &&& plan.sync <==> file_len != recovered || durable_offset < recovered
            &&& plan.durable_offset >= recovered && plan.durable_offset >= durable_offset
            &&& plan.durable_offset == recovered || plan.durable_offset == durable_offset
        }),
{
}

/// A file that is gone is nothing where no byte was committed; else its segment is dropped and
/// everything from its first LSN on is rolled back.
pub proof fn law_a_missing_file_is_dropped(row: Option<SegmentState>, next_lsn: StrataLsn)
    ensures
        ({
            let (step, outcome) = recovery::recovery_of(row, None, next_lsn);
            &&& committed_bytes(row) == 0 ==> step is Nothing && outcome.is_complete
                && outcome.rollback_from is None
            &&& committed_bytes(row) != 0 ==> step is Discard && !outcome.is_complete
                && outcome.rollback_from == (match row {
                Some(row) => row.min_lsn,
                None => None,
            })
        }),
{
}

/// Recovery fails where a file that held durable bytes is gone and, under absolute consistency,
/// where anything differs from the row. Under point-in-time recovery nothing else fails.
pub proof fn law_recovery_fails_on_lost_promises(
    policy: StrataRecoveryPolicy,
    row: Option<SegmentState>,
    prefix: ScannedPrefix,
)
    ensures
        ({
            let strict = policy == StrataRecoveryPolicy::AbsoluteConsistency;
            let committed = committed_bytes(row);
            &&& committed == 0 ==> !recovery::recovery_fault(policy, row, None)
            &&& committed != 0 && durable_bytes(row) > 0 ==> recovery::recovery_fault(
                policy,
                row,
                None,
            )
            &&& committed != 0 && durable_bytes(row) == 0 ==> recovery::recovery_fault(
                policy,
                row,
                None,
            ) == strict
            &&& !strict ==> !recovery::recovery_fault(policy, row, Some(prefix))
            &&& strict && prefix.valid_len == committed && prefix.file_len == committed
                ==> !recovery::recovery_fault(policy, row, Some(prefix))
            &&& strict && prefix.valid_len != committed ==> recovery::recovery_fault(
                policy,
                row,
                Some(prefix),
            )
            &&& strict && prefix.file_len != committed ==> recovery::recovery_fault(
                policy,
                row,
                Some(prefix),
            )
        }),
{
}

/// A complete segment changes nothing; a short one discards everything later, and the rollback
/// reaches back to the least LSN that any segment asked for.
pub proof fn law_a_rollback_reaches_the_earliest_loss(
    driver: SegmentRecoveryDriver,
    segment: SegmentRecovery,
)
    ensures
        segment.is_complete ==> recovery::driven(driver, segment) == driver,
        !segment.is_complete ==> {
            let after = recovery::driven(driver, segment);
            &&& after.discard_later_segments
            &&& after.rollback_from == driver.rollback_from || after.rollback_from
                == segment.rollback_from
            &&& driver.rollback_from matches Some(lsn) ==> (after.rollback_from matches Some(from)
                && from <= lsn)
            &&& segment.rollback_from matches Some(lsn) ==> (after.rollback_from matches Some(from)
                && from <= lsn)
        },
{
}

/// The lesser of two LSNs is one of them and above neither; an absent one does not count.
pub proof fn law_an_absent_lsn_does_not_count(a: Option<StrataLsn>, b: Option<StrataLsn>)
    ensures
        recovery::lesser(a, b) == a || recovery::lesser(a, b) == b,
        recovery::lesser(a, b) is None <==> a is None && b is None,
        a matches Some(lsn) ==> (recovery::lesser(a, b) matches Some(least) && least <= lsn),
        b matches Some(lsn) ==> (recovery::lesser(a, b) matches Some(least) && least <= lsn),
{
}

// Rebuilding a row.

/// A prefix is totalled record by record. A record beyond the kept bytes adds nothing; another adds
/// one record, an allocation where GC had not accounted for it, and widens the LSN bounds just as
/// far as itself. One that the accounted bytes split, or whose end does not fit, is an error, and the
/// first error stays.
pub proof fn law_totals_grow_record_by_record(
    segment_id: SegmentId,
    records: Seq<ScannedRecord>,
    record: ScannedRecord,
    write_offset: u64,
    baseline: u64,
)
    requires
        records.len() < u64::MAX,
    ensures
        recovery::prefix_totals(segment_id, Seq::empty(), write_offset, baseline) == Ok::<
            PrefixTotals,
            RecoveryError,
        >(PrefixTotals { records: 0, allocations: 0, min_lsn: None, max_lsn: None }),
        ({
            let before = recovery::prefix_totals(segment_id, records, write_offset, baseline);
            let after = recovery::prefix_totals(
                segment_id,
                records.push(record),
                write_offset,
                baseline,
            );
            let end = record.offset + record.len;
            let counted = end <= write_offset;
            let split = record.offset < baseline < end;
            &&& before is Err ==> after == before
            &&& before matches Ok(totals) ==> {
                &&& end > u64::MAX ==> after == Err::<PrefixTotals, RecoveryError>(
                    RecoveryError::RangeOverflow,
                )
                &&& end <= u64::MAX && !counted ==> after == before
                &&& counted && split ==> after == Err::<PrefixTotals, RecoveryError>(
                    RecoveryError::BaselineSplitsRecord {
                        segment_id,
                        baseline_bytes: baseline,
                        offset: record.offset,
                    },
                )
                &&& counted && !split ==> (after matches Ok(more) && {
                    &&& more.records == totals.records + 1
                    &&& more.allocations == totals.allocations + (if end > baseline {
                        1int
                    } else {
                        0
                    })
                    &&& more.min_lsn matches Some(least) && least <= record.lsn && (
                    totals.min_lsn matches Some(lsn) ==> least <= lsn) && (least == record.lsn
                        || totals.min_lsn == Some(least))
                    &&& more.max_lsn matches Some(greatest) && greatest >= record.lsn && (
                    totals.max_lsn matches Some(lsn) ==> greatest >= lsn) && (greatest
                        == record.lsn || totals.max_lsn == Some(greatest))
                })
            }
        }),
{
    assert(records.push(record).drop_last() =~= records);
    lemma_totals_count(segment_id, records, write_offset, baseline);
}

proof fn lemma_totals_count(
    segment_id: SegmentId,
    records: Seq<ScannedRecord>,
    write_offset: u64,
    baseline: u64,
)
    requires
        records.len() <= u64::MAX,
    ensures
        recovery::prefix_totals(segment_id, records, write_offset, baseline) matches Ok(totals)
            ==> totals.records <= records.len() && totals.allocations <= totals.records,
    decreases records.len(),
{
    if records.len() > 0 {
        lemma_totals_count(segment_id, records.drop_last(), write_offset, baseline);
    }
}

/// A rebuilt row keeps the volume, the placement, the state and the seal of the old one, takes its
/// LSN bounds from the surviving records, and all else from the file.
pub proof fn law_a_rebuilt_row_keeps_what_bytes_cannot_tell(
    existing: Option<SegmentState>,
    path: String,
    segment_id: SegmentId,
    write_offset: u64,
    durable_offset: u64,
    totals: PrefixTotals,
)
    ensures
        ({
            let row = recovery::recovered_row(
                existing,
                recovery::active_row(path, segment_id, write_offset, durable_offset),
                totals,
            );
            &&& row.segment_id == segment_id && row.path == path
            &&& row.owner == SegmentOwner::Store
            &&& row.write_offset == write_offset && row.durable_offset == durable_offset
            &&& row.min_lsn == totals.min_lsn && row.max_lsn == totals.max_lsn
            &&& row.sealed_sha256 is None
            &&& existing is None ==> row.state == SegmentFileState::Open && row.placement_class
                == PlacementClass::Ingest && row.volume_id == 0 && row.sealed_before_lsn is None
                && row.sealed_len is None
            &&& existing matches Some(old) ==> row.state == old.state && row.placement_class
                == old.placement_class && row.volume_id == old.volume_id && row.sealed_before_lsn
                == old.sealed_before_lsn && row.sealed_len == old.sealed_len
        }),
{
}

/// What GC accounted for counts only as long as all of it is still there.
pub proof fn law_a_cut_baseline_starts_over(previous: u64, write_offset: u64)
    ensures
        previous <= write_offset ==> recovery::kept_baseline(previous, write_offset) == previous,
        previous > write_offset ==> recovery::kept_baseline(previous, write_offset) == 0,
{
}

// Removing rolled back records.

/// A segment is cut at the first record of a rolled back operation: every record before the cut is
/// older than the rollback. Without such a record it is left alone.
pub proof fn law_a_segment_is_cut_at_the_first_hidden_record(
    records: Seq<ScannedRecord>,
    rollback_from: StrataLsn,
)
    ensures
        match recovery::first_hidden(records, rollback_from) {
            None => forall|i: int|
                0 <= i < records.len() ==> (#[trigger] records[i]).lsn < rollback_from,
            Some(offset) => exists|at: int|
                0 <= at < records.len() && (#[trigger] records[at]).lsn >= rollback_from
                    && records[at].offset == offset && forall|i: int|
                    0 <= i < at ==> (#[trigger] records[i]).lsn < rollback_from,
        },
    decreases records.len(),
{
    if records.len() > 0 && records[0].lsn < rollback_from {
        let rest = records.skip(1);
        law_a_segment_is_cut_at_the_first_hidden_record(rest, rollback_from);
        match recovery::first_hidden(rest, rollback_from) {
            None => {
                assert forall|i: int| 0 <= i < records.len() implies (#[trigger] records[i]).lsn
                    < rollback_from by {
                    if i > 0 {
                        assert(rest[i - 1] == records[i]);
                    }
                }
            },
            Some(offset) => {
                let at = choose|at: int|
                    0 <= at < rest.len() && (#[trigger] rest[at]).lsn >= rollback_from
                        && rest[at].offset == offset && forall|i: int|
                        0 <= i < at ==> (#[trigger] rest[i]).lsn < rollback_from;
                assert(records[at + 1] == rest[at]);
                assert forall|i: int| 0 <= i < at + 1 implies (#[trigger] records[i]).lsn
                    < rollback_from by {
                    if i > 0 {
                        assert(rest[i - 1] == records[i]);
                    }
                }
            },
        }
    }
}

/// A file without an index row is an orphan; one with a row never is. The listing's order stays.
pub proof fn law_files_without_a_row_are_orphans(
    files: Seq<SegmentId>,
    indexed: Set<SegmentId>,
    file: SegmentId,
)
    ensures
        recovery::orphans(Seq::empty(), indexed) == Seq::<SegmentId>::empty(),
        indexed.contains(file) ==> recovery::orphans(files.push(file), indexed)
            == recovery::orphans(files, indexed),
        !indexed.contains(file) ==> recovery::orphans(files.push(file), indexed)
            == recovery::orphans(files, indexed).push(file),
{
    assert(files.push(file).drop_last() =~= files);
}

// The log.

/// A valid tail is kept. Without one, absolute consistency fails, and so does point-in-time recovery
/// where published operations are missing or nothing was asked for; else the log falls back to what
/// was published.
pub proof fn law_the_log_keeps_what_was_published(
    policy: StrataRecoveryPolicy,
    requested: Option<StrataLsn>,
    published_lsn: StrataLsn,
    has_checkpoint: bool,
)
    ensures
        recovery::log_recovery(policy, true, requested, published_lsn, has_checkpoint) is Keep,
        ({
            let invalid = recovery::log_recovery(
                policy,
                false,
                requested,
                published_lsn,
                has_checkpoint,
            );
            let beyond = requested matches Some(lsn) && published_lsn < lsn;
            &&& policy == StrataRecoveryPolicy::AbsoluteConsistency || !beyond ==> invalid is Fail
            &&& policy != StrataRecoveryPolicy::AbsoluteConsistency && beyond ==> (
            invalid matches LogRecovery::FallBack { target, reset_checkpoint, rollback_from } && {
                &&& rollback_from == published_lsn + 1
                &&& published_lsn == 0 ==> target is None && reset_checkpoint == has_checkpoint
                &&& published_lsn > 0 ==> target == Some(published_lsn) && !reset_checkpoint
            })
        }),
{
}

// Rolling back.

/// A rollback takes an epoch change or a shard drop away exactly where it happened at or after the
/// rollback's LSN, in the order of the listing.
pub proof fn law_a_rollback_takes_away_what_came_later(
    changes: Seq<(StrataLsn, Epoch)>,
    change: (StrataLsn, Epoch),
    jobs: Seq<ShardCleanupJob>,
    job: ShardCleanupJob,
    rollback_from: StrataLsn,
)
    ensures
        recovery::hidden_changes(Seq::empty(), rollback_from) == Seq::<StrataLsn>::empty(),
        recovery::hidden_changes(changes.push(change), rollback_from) == (if change.0
            < rollback_from {
            recovery::hidden_changes(changes, rollback_from)
        } else {
            recovery::hidden_changes(changes, rollback_from).push(change.0)
        }),
        recovery::hidden_drops(Seq::empty(), rollback_from) == Seq::<ShardKey>::empty(),
        recovery::hidden_drops(jobs.push(job), rollback_from) == (if job.drop_lsn < rollback_from {
            recovery::hidden_drops(jobs, rollback_from)
        } else {
            recovery::hidden_drops(jobs, rollback_from).push(job.shard)
        }),
{
    assert(changes.push(change).drop_last() =~= changes);
    assert(jobs.push(job).drop_last() =~= jobs);
}

/// The epoch goes back to the last listed change from before the rollback.
pub proof fn law_the_epoch_goes_back(changes: Seq<(StrataLsn, Epoch)>, rollback_from: StrataLsn)
    requires
        rollback_from > 0,
    ensures
        match recovery::epoch_before(changes, rollback_from) {
            None => forall|i: int|
                0 <= i < changes.len() ==> (#[trigger] changes[i]).0 >= rollback_from,
            Some(epoch) => exists|at: int|
                0 <= at < changes.len() && (#[trigger] changes[at]).0 < rollback_from
                    && changes[at].1 == epoch && forall|i: int|
                    at < i < changes.len() ==> (#[trigger] changes[i]).0 >= rollback_from,
        },
    decreases changes.len(),
{
    if changes.len() > 0 {
        let init = changes.drop_last();
        let last = changes.len() - 1;
        assert(changes[last] == changes.last());
        if changes.last().0 >= rollback_from {
            law_the_epoch_goes_back(init, rollback_from);
            assert forall|i: int| 0 <= i < init.len() implies #[trigger] changes[i] == init[i] by {}
            if let Some(epoch) = recovery::epoch_before(init, rollback_from) {
                let at = choose|at: int|
                    0 <= at < init.len() && (#[trigger] init[at]).0 < rollback_from && init[at].1
                        == epoch && forall|i: int|
                        at < i < init.len() ==> (#[trigger] init[i]).0 >= rollback_from;
                assert(changes[at] == init[at]);
            }
        }
    }
}

/// A drop that is taken away brings its shard back exactly where the dropped generation is still the
/// current one.
pub proof fn law_only_current_generations_come_back(
    drops: Seq<ShardKey>,
    infos: Map<ShardId, ShardInfo>,
    shard: ShardKey,
)
    ensures
        ({
            let current = infos.dom().contains(shard.id) && infos[shard.id].current_generation
                == shard.generation && infos[shard.id].state == ShardState::Dropped;
            &&& recovery::restored(Seq::empty(), infos) == Seq::<ShardKey>::empty()
            &&& current ==> recovery::restored(drops.push(shard), infos) == recovery::restored(
                drops,
                infos,
            ).push(shard)
            &&& !current ==> recovery::restored(drops.push(shard), infos) == recovery::restored(
                drops,
                infos,
            )
        }),
{
    assert(drops.push(shard).drop_last() =~= drops);
}

} // verus!
