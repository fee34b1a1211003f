//! What the metrics promise of their gauges, tallies and phases.

use vstd::prelude::*;

use crate::batch::StoreSyncProfile;
use crate::metrics;
use crate::metrics::{LabelTallies, LabelTally, SyncPhases, Tally};

verus! {

/// A gauge shows its value as far as it can hold it, and an LSN comes back from its gauge.
pub proof fn law_gauges_show_their_value(value: u64, gauge: i64)
    ensures
        value <= i64::MAX ==> metrics::gauge_of(value) == value,
        value > i64::MAX ==> metrics::gauge_of(value) == i64::MAX,
        gauge >= 0 ==> metrics::lsn_of_gauge(gauge) == gauge,
        gauge < 0 ==> metrics::lsn_of_gauge(gauge) == 0,
        value <= i64::MAX ==> metrics::lsn_of_gauge(metrics::gauge_of(value)) == value,
{
}

/// Pending are the LSNs that were given out and not published: those beyond the published one and
/// before the next.
pub proof fn law_pending_lsns_lie_between(next_lsn: u64, published_lsn: u64)
    ensures
        next_lsn > published_lsn && next_lsn - published_lsn <= i64::MAX ==> metrics::pending_lsns(
            next_lsn,
            published_lsn,
        ) == next_lsn - published_lsn - 1,
        next_lsn <= published_lsn ==> metrics::pending_lsns(next_lsn, published_lsn) == 0,
        next_lsn > published_lsn && next_lsn - published_lsn - 1 > i64::MAX
            ==> metrics::pending_lsns(next_lsn, published_lsn) == i64::MAX,
{
}

/// A gauge moves by its delta and stays between zero and the most that it can hold.
pub proof fn law_gauges_move_by_their_delta(gauge: i64, delta: int)
    ensures
        0 <= gauge + delta <= i64::MAX ==> metrics::moved_gauge(gauge, delta) == gauge + delta,
        gauge + delta < 0 ==> metrics::moved_gauge(gauge, delta) == 0,
        gauge + delta > i64::MAX ==> metrics::moved_gauge(gauge, delta) == i64::MAX,
{
}

/// A raised gauge never falls, and reaches its value.
pub proof fn law_raised_gauges_never_fall(gauge: i64, value: u64)
    ensures
        metrics::raised(gauge, value) >= gauge,
        value <= i64::MAX ==> metrics::raised(gauge, value) >= value,
        metrics::raised(gauge, value) == gauge || metrics::raised(gauge, value)
            == metrics::gauge_of(value),
        value <= gauge ==> metrics::raised(gauge, value) == gauge,
{
}

/// What is taken away leaves the rest, and never less than nothing.
pub proof fn law_taking_leaves_the_rest(value: u64, taken: u64)
    ensures
        taken <= value ==> metrics::less(value, taken) + taken == value,
        taken > value ==> metrics::less(value, taken) == 0,
{
}

/// A tally counts its observations and sums their amounts.
pub proof fn law_tallies_count_and_sum(tally: Tally, amount: u128)
    ensures
        Tally::zero().count == 0 && Tally::zero().sum == 0,
        tally.count < u64::MAX ==> tally.with(amount).count == tally.count + 1,
        tally.sum + amount <= u128::MAX ==> tally.with(amount).sum == tally.sum + amount,
{
}

/// A label's tally is that of its last entry, and zero without one.
pub proof fn law_labels_are_told_apart(
    entries: Seq<LabelTally>,
    entry: LabelTally,
    label: Seq<char>,
    detail: Seq<char>,
)
    ensures
        metrics::tally_at(Seq::empty(), label, detail) == Tally::zero(),
        metrics::tally_at(entries.push(entry), entry.label@, entry.detail@) == entry.tally,
        entry.label@ != label || entry.detail@ != detail ==> metrics::tally_at(
            entries.push(entry),
            label,
            detail,
        ) == metrics::tally_at(entries, label, detail),
{
    assert(entries.push(entry).drop_last() =~= entries);
}

/// Counting under a label adds to its count alone; observing adds one to its count and the amount to
/// its sum; other labels, and other details of the label, stay.
pub proof fn law_labels_are_counted_apart(
    before: LabelTallies,
    after: LabelTallies,
    label: Seq<char>,
    detail: Seq<char>,
    other: Seq<char>,
    another: Seq<char>,
    amount: u64,
)
    requires
        other != label || another != detail,
    ensures
        after.counted(&before, label, detail, amount) ==> {
            &&& after.at(other, another) == before.at(other, another)
            &&& after.at(label, detail).sum == before.at(label, detail).sum
            &&& before.at(label, detail).count + amount <= u64::MAX ==> after.at(
                label,
                detail,
            ).count == before.at(label, detail).count + amount
        },
        after.observed(&before, label, detail, amount as u128) ==> {
            &&& after.at(other, another) == before.at(other, another)
            &&& before.at(label, detail).count < u64::MAX ==> after.at(label, detail).count
                == before.at(label, detail).count + 1
            &&& before.at(label, detail).sum + amount <= u128::MAX ==> after.at(label, detail).sum
                == before.at(label, detail).sum + amount
        },
{
}

/// A lookup that found something is a hit, one that did not a miss, and one that failed an error.
pub proof fn law_lookups_hit_miss_or_fail()
    ensures
        metrics::result_label(Ok(true)) == "hit"@,
        metrics::result_label(Ok(false)) == "miss"@,
        metrics::result_label(Err(())) == "error"@,
{
}

/// Each phase of a sync is tallied under its own name, and what no phase accounts for is
/// unattributed: the phases and the rest add up to the whole, where they do not exceed it.
pub proof fn law_phases_add_up(phases: SyncPhases, profile: StoreSyncProfile, total: u128)
    ensures
        ({
            let after = phases.with(profile, total);
            let spent = profile.capture + profile.segment_file_sync + profile.wal_sync
                + profile.completion_queue_wait + profile.relocation_lock_wait
                + profile.published_lsn_compute + profile.index_batch_commit + profile.state_update
                + profile.wal_reclaim;
            &&& after.capture == phases.capture.with(profile.capture)
            &&& after.segment_files == phases.segment_files.with(profile.segment_file_sync)
            &&& after.wal == phases.wal.with(profile.wal_sync)
            &&& after.completion_queue == phases.completion_queue.with(
                profile.completion_queue_wait,
            )
            &&& after.relocation_lock == phases.relocation_lock.with(profile.relocation_lock_wait)
            &&& after.metadata_build == phases.metadata_build.with(profile.published_lsn_compute)
            &&& after.index_sync_commit == phases.index_sync_commit.with(
                profile.index_batch_commit,
            )
            &&& after.state_update == phases.state_update.with(profile.state_update)
            &&& after.wal_reclaim == phases.wal_reclaim.with(profile.wal_reclaim)
            &&& spent <= total ==> spent + metrics::residual(profile, total) == total
            &&& spent > total ==> metrics::residual(profile, total) == 0
            &&& after.unattributed == phases.unattributed.with(
                metrics::residual(profile, total) as u128,
            )
        }),
{
}

/// Phases are listed under their own names, in the order in which a sync goes through them.
pub proof fn law_phases_are_named(phases: SyncPhases)
    ensures
        ({
            let named = phases.named();
            &&& named.len() == 10
            &&& named[0] == ("capture", phases.capture)
            &&& named[1] == ("segment_files", phases.segment_files)
            &&& named[2] == ("wal", phases.wal)
            &&& named[3] == ("completion_queue", phases.completion_queue)
            &&& named[4] == ("relocation_lock", phases.relocation_lock)
            &&& named[5] == ("metadata_build", phases.metadata_build)
            &&& named[6] == ("index_sync_commit", phases.index_sync_commit)
            &&& named[7] == ("state_update", phases.state_update)
            &&& named[8] == ("wal_reclaim", phases.wal_reclaim)
            &&& named[9] == ("unattributed", phases.unattributed)
        }),
{
}

} // verus!
