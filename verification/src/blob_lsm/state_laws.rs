//! Laws of the per-blob state machine and of full merges.

use vstd::prelude::*;

use super::codec::{BlobLifetime, BlobMutation, BlobMutationWithLSN, BlobStateView, BlobVersion};
use super::garbage;
use super::garbage::{DeltaView, GarbageRecordView};
use super::merge;
use super::merge::{Merging, StoredView};
use super::snapshot;
use super::snapshot::SnapshotView;
use super::state;
use crate::shard_map;
use crate::types::{BlobLifecycle, Epoch, RecordRef, ShardKey, StrataLsn};

verus! {

/// A put gives its shard one version, the one put, and leaves every other shard as it was.
pub proof fn law_put_replaces_only_its_shard(
    before: BlobStateView,
    lsn: StrataLsn,
    shard: ShardKey,
    write_epoch: Epoch,
    record_ref: RecordRef,
    other: ShardKey,
    epoch: Epoch,
)
    ensures
        ({
            let change = BlobMutationWithLSN {
                lsn,
                mutation: BlobMutation::Put { shard, write_epoch, record_ref },
            };
            let after = before.applied(change);
            &&& after.versions.dom().contains(shard)
            &&& after.versions[shard] == (BlobVersion { lsn, write_epoch, record_ref })
            &&& other != shard ==> after.resolved(other, epoch) == before.resolved(other, epoch)
        }),
{
}

/// A blob put at an epoch is visible at that epoch, whatever lifetime was set before.
///
/// The lifetime was set earlier, so it either runs beyond the write or does not apply to it.
pub proof fn law_put_is_visible_when_written(
    before: BlobStateView,
    lsn: StrataLsn,
    shard: ShardKey,
    write_epoch: Epoch,
    record_ref: RecordRef,
)
    requires
        before.lifetime matches Some(head) ==> head.lsn <= lsn,
    ensures
        ({
            let change = BlobMutationWithLSN {
                lsn,
                mutation: BlobMutation::Put { shard, write_epoch, record_ref },
            };
            before.applied(change).resolved(shard, write_epoch) matches Some((version, _))
                && version.record_ref == record_ref
        }),
{
}

/// A tombstone hides its shard at every epoch and leaves every other shard as it was.
pub proof fn law_tombstone_hides_only_its_shard(
    before: BlobStateView,
    lsn: StrataLsn,
    shard: ShardKey,
    other: ShardKey,
    epoch: Epoch,
)
    ensures
        ({
            let change = BlobMutationWithLSN {
                lsn,
                mutation: BlobMutation::Tombstone { shard },
            };
            let after = before.applied(change);
            &&& after.resolved(shard, epoch) is None
            &&& other != shard ==> after.resolved(other, epoch) == before.resolved(other, epoch)
        }),
{
}

/// Once a version is out of sight it stays out of sight: time only takes versions away.
pub proof fn law_visibility_only_ends(
    state: BlobStateView,
    shard: ShardKey,
    earlier: Epoch,
    later: Epoch,
)
    requires
        earlier <= later,
        state.resolved(shard, later) is Some,
    ensures
        state.resolved(shard, earlier) == state.resolved(shard, later),
{
}

/// A lifetime set after the previous one ended brings no version back.
pub proof fn law_ended_lifetime_revives_nothing(
    before: BlobStateView,
    lsn: StrataLsn,
    end: Epoch,
    now: Epoch,
    shard: ShardKey,
    epoch: Epoch,
)
    requires
        before.lifetime_ended(now),
    ensures
        before.applied(
            BlobMutationWithLSN {
                lsn,
                mutation: BlobMutation::SetLifetime { logical_end_epoch: end, current_epoch: now },
            },
        ).resolved(shard, epoch) is None,
{
}

/// Setting a running lifetime again keeps every version, and counts one more extension.
pub proof fn law_running_lifetime_is_extended(
    before: BlobStateView,
    lsn: StrataLsn,
    end: Epoch,
    now: Epoch,
)
    requires
        before.lifetime is Some,
        !before.lifetime_ended(now),
        before.lifetime->Some_0.lifecycle.extension_count < u32::MAX,
    ensures
        ({
            let after = before.applied(
                BlobMutationWithLSN {
                    lsn,
                    mutation: BlobMutation::SetLifetime {
                        logical_end_epoch: end,
                        current_epoch: now,
                    },
                },
            );
            &&& after.versions == before.versions
            &&& after.lifetime == Some(
                BlobLifetime {
                    lsn,
                    lifecycle: BlobLifecycle {
                        logical_end_epoch: end,
                        extension_count: (before.lifetime->Some_0.lifecycle.extension_count
                            + 1) as u32,
                    },
                },
            )
        }),
{
}

/// A relocation changes where a payload lies and nothing else that a reader sees: the same shards
/// are visible at the same epochs, with the same lifecycles, lengths and write times.
pub proof fn law_relocation_preserves_visibility(
    before: BlobStateView,
    lsn: StrataLsn,
    shard: ShardKey,
    payload_lsn: StrataLsn,
    to: RecordRef,
    other: ShardKey,
    epoch: Epoch,
)
    requires
        before.accepts(BlobMutation::Relocate { shard, payload_lsn, to }),
    ensures
        ({
            let change = BlobMutationWithLSN {
                lsn,
                mutation: BlobMutation::Relocate { shard, payload_lsn, to },
            };
            let after = before.applied(change);
            match (before.resolved(other, epoch), after.resolved(other, epoch)) {
                (None, None) => true,
                (Some((old_version, old_lifecycle)), Some((version, lifecycle))) => lifecycle
                    == old_lifecycle && version.lsn == old_version.lsn && version.write_epoch
                    == old_version.write_epoch && version.record_ref.len
                    == old_version.record_ref.len && (version.record_ref == old_version.record_ref
                    || (other == shard && old_version.lsn == payload_lsn && version.record_ref
                    == to)),
                _ => false,
            }
        }),
{
}

/// A relocation of a version that is no longer there does nothing and reports nothing.
pub proof fn law_stale_relocation_is_dropped(
    key: Seq<u8>,
    entries: Seq<(ShardKey, BlobVersion)>,
    lifetime: Option<BlobLifetime>,
    lsn: StrataLsn,
    shard: ShardKey,
    payload_lsn: StrataLsn,
    to: RecordRef,
)
    requires
        !(BlobStateView {
            versions: shard_map::shard_map_of(entries),
            lifetime,
        }).relocation_applies(shard, payload_lsn),
    ensures
        ({
            let before = BlobStateView { versions: shard_map::shard_map_of(entries), lifetime };
            let change = BlobMutationWithLSN {
                lsn,
                mutation: BlobMutation::Relocate { shard, payload_lsn, to },
            };
            &&& before.accepts(change.mutation)
            &&& before.applied(change) == before
            &&& state::reports(key, entries, lifetime, change) == Seq::<GarbageRecordView>::empty()
        }),
{
}

/// The number of live records that reports take off the books.
pub open spec fn live_refs_lost(reported: Seq<GarbageRecordView>) -> int
    decreases reported.len(),
{
    if reported.len() == 0 {
        0
    } else {
        live_refs_lost(reported.drop_last()) - reported.last().delta.live_ref_count
    }
}

/// The live bytes that reports take off the books.
pub open spec fn live_bytes_lost(reported: Seq<GarbageRecordView>) -> int
    decreases reported.len(),
{
    if reported.len() == 0 {
        0
    } else {
        live_bytes_lost(reported.drop_last()) - reported.last().delta.live_bytes
    }
}

/// The bytes that reports put on the garbage side of the books.
pub open spec fn garbage_bytes_gained(reported: Seq<GarbageRecordView>) -> int
    decreases reported.len(),
{
    if reported.len() == 0 {
        0
    } else {
        garbage_bytes_gained(reported.drop_last()) + reported.last().delta.retired_bytes
            + reported.last().delta.expired_bytes
    }
}

/// The total length of listed versions.
pub open spec fn listed_bytes(entries: Seq<(ShardKey, BlobVersion)>) -> int
    decreases entries.len(),
{
    if entries.len() == 0 {
        0
    } else {
        listed_bytes(entries.drop_last()) + entries.last().1.record_ref.len
    }
}

proof fn lemma_one_report(record: GarbageRecordView)
    ensures
        live_refs_lost(seq![record]) == -record.delta.live_ref_count,
        live_bytes_lost(seq![record]) == -record.delta.live_bytes,
        garbage_bytes_gained(seq![record]) == record.delta.retired_bytes
            + record.delta.expired_bytes,
{
    let one = seq![record];
    assert(one.drop_last() =~= Seq::empty());
    assert(live_refs_lost(one.drop_last()) == 0);
    assert(live_bytes_lost(one.drop_last()) == 0);
    assert(garbage_bytes_gained(one.drop_last()) == 0);
    assert(one.last() == record);
}

proof fn lemma_reports_add(left: Seq<GarbageRecordView>, right: Seq<GarbageRecordView>)
    ensures
        live_refs_lost(left + right) == live_refs_lost(left) + live_refs_lost(right),
        live_bytes_lost(left + right) == live_bytes_lost(left) + live_bytes_lost(right),
        garbage_bytes_gained(left + right) == garbage_bytes_gained(left) + garbage_bytes_gained(
            right,
        ),
    decreases right.len(),
{
    if right.len() == 0 {
        assert(left + right =~= left);
    } else {
        let all = left + right;
        assert(all.drop_last() =~= left + right.drop_last());
        assert(all.last() == right.last());
        lemma_reports_add(left, right.drop_last());
    }
}

/// Every report balances its segment's books: the bytes that it takes off the live side it puts on
/// the garbage side, and nothing is created or destroyed.
pub proof fn law_reports_balance(
    key: Seq<u8>,
    lsn: StrataLsn,
    version: BlobVersion,
    before: Option<BlobLifecycle>,
    after: Option<BlobLifecycle>,
)
    ensures
        ({
            let moved = garbage::lifetime_change(key, lsn, version, before, after).delta;
            let retired = garbage::retired(key, lsn, version.record_ref, before).delta;
            let expired = garbage::expired(key, lsn, version.record_ref, before).delta;
            &&& moved.live_bytes == 0 && moved.live_ref_count == 0 && moved.retired_bytes == 0
                && moved.expired_bytes == 0 && moved.total_bytes == 0
            &&& retired.live_bytes + retired.retired_bytes == 0 && retired.live_ref_count == -1
                && retired.expired_bytes == 0 && retired.total_bytes == 0
            &&& expired.live_bytes + expired.expired_bytes == 0 && expired.live_ref_count == -1
                && expired.retired_bytes == 0 && expired.total_bytes == 0
        }),
{
}

/// The bytes and records counted under a lifetime: under its epoch, or as unknown.
pub open spec fn lifetime_bytes_at(delta: DeltaView, lifecycle: Option<BlobLifecycle>) -> int {
    match lifecycle {
        Some(known) => garbage::count_at(delta.epoch_bytes, known.logical_end_epoch),
        None => delta.unknown_lifetime_bytes,
    }
}

/// A lifecycle that is published and then retired leaves no trace in the lifetime books: what the
/// publication counted under it, the retirement takes back.
pub proof fn law_retirement_cancels_publication(
    key: Seq<u8>,
    published_at: StrataLsn,
    retired_at: StrataLsn,
    version: BlobVersion,
    lifecycle: BlobLifecycle,
    epoch: Epoch,
    extensions: u32,
)
    ensures
        ({
            let published = garbage::lifetime_change(
                key,
                published_at,
                version,
                None,
                Some(lifecycle),
            ).delta;
            let retired = garbage::retired(
                key,
                retired_at,
                version.record_ref,
                Some(lifecycle),
            ).delta;
            &&& garbage::count_at(published.epoch_bytes, epoch) + garbage::count_at(
                retired.epoch_bytes,
                epoch,
            ) == 0
            &&& garbage::count_at(published.epoch_refs, epoch) + garbage::count_at(
                retired.epoch_refs,
                epoch,
            ) == 0
            &&& garbage::count_at(published.extension_counts, extensions) + garbage::count_at(
                retired.extension_counts,
                extensions,
            ) == 0
        }),
{
}

/// An expiry takes its bytes off the epoch's books, but keeps the count of extensions, so that the
/// history of how often lifetimes were extended survives.
pub proof fn law_expiry_keeps_extension_counts(
    key: Seq<u8>,
    lsn: StrataLsn,
    record: RecordRef,
    lifecycle: Option<BlobLifecycle>,
)
    ensures
        garbage::expired(key, lsn, record, lifecycle).delta.extension_counts == Map::<
            u32,
            i128,
        >::empty(),
        lifetime_bytes_at(garbage::expired(key, lsn, record, lifecycle).delta, lifecycle)
            == -record.len,
{
}

proof fn lemma_extension_reports_lose_nothing(
    key: Seq<u8>,
    lsn: StrataLsn,
    before: Option<BlobLifetime>,
    after: Option<BlobLifetime>,
    entries: Seq<(ShardKey, BlobVersion)>,
)
    ensures
        live_refs_lost(state::extension_reports(key, lsn, before, after, entries)) == 0,
        live_bytes_lost(state::extension_reports(key, lsn, before, after, entries)) == 0,
        garbage_bytes_gained(state::extension_reports(key, lsn, before, after, entries)) == 0,
    decreases entries.len(),
{
    if entries.len() > 0 {
        let earlier = state::extension_reports(key, lsn, before, after, entries.drop_last());
        lemma_extension_reports_lose_nothing(key, lsn, before, after, entries.drop_last());
        let version = entries.last().1;
        let report = garbage::lifetime_change(
            key,
            lsn,
            version,
            state::effective(before, version),
            state::effective(after, version),
        );
        assert(earlier.push(report).drop_last() =~= earlier);
    }
}

proof fn lemma_expiry_reports_lose_all(
    key: Seq<u8>,
    lsn: StrataLsn,
    lifetime: Option<BlobLifetime>,
    entries: Seq<(ShardKey, BlobVersion)>,
)
    ensures
        live_refs_lost(state::expiry_reports(key, lsn, lifetime, entries)) == entries.len(),
        live_bytes_lost(
            state::expiry_reports(key, lsn, lifetime, entries),
        ) == listed_bytes(entries),
        garbage_bytes_gained(state::expiry_reports(key, lsn, lifetime, entries)) == listed_bytes(
            entries,
        ),
    decreases entries.len(),
{
    if entries.len() > 0 {
        let all = state::expiry_reports(key, lsn, lifetime, entries);
        assert(all.drop_last() =~= state::expiry_reports(key, lsn, lifetime, entries.drop_last()));
        lemma_expiry_reports_lose_all(key, lsn, lifetime, entries.drop_last());
    }
}

/// The versions that a mutation ends, in shard order.
pub open spec fn ended_versions(
    entries: Seq<(ShardKey, BlobVersion)>,
    lifetime: Option<BlobLifetime>,
    change: BlobMutationWithLSN,
) -> Seq<(ShardKey, BlobVersion)> {
    let before = BlobStateView { versions: shard_map::shard_map_of(entries), lifetime };
    match change.mutation {
        BlobMutation::SetLifetime { current_epoch, .. } => if before.lifetime_ended(current_epoch) {
            entries
        } else {
            Seq::empty()
        },
        BlobMutation::Put { shard, .. } => if before.versions.dom().contains(shard) {
            seq![(shard, before.versions[shard])]
        } else {
            Seq::empty()
        },
        BlobMutation::Tombstone { shard } => if before.versions.dom().contains(shard) {
            seq![(shard, before.versions[shard])]
        } else {
            Seq::empty()
        },
        BlobMutation::Relocate { .. } => Seq::empty(),
    }
}

/// Every version that a mutation ends is taken off the books exactly once: the reports lose as
/// many live records, and as many live bytes, as versions end, and gain as much garbage.
pub proof fn law_every_ended_version_is_reported_once(
    key: Seq<u8>,
    entries: Seq<(ShardKey, BlobVersion)>,
    lifetime: Option<BlobLifetime>,
    change: BlobMutationWithLSN,
)
    ensures
        ({
            let reported = state::reports(key, entries, lifetime, change);
            let ended = ended_versions(entries, lifetime, change);
            &&& live_refs_lost(reported) == ended.len()
            &&& live_bytes_lost(reported) == listed_bytes(ended)
            &&& garbage_bytes_gained(reported) == listed_bytes(ended)
        }),
{
    let before = BlobStateView { versions: shard_map::shard_map_of(entries), lifetime };
    let nothing = Seq::<GarbageRecordView>::empty();
    assert(live_refs_lost(nothing) == 0 && live_bytes_lost(nothing) == 0 && garbage_bytes_gained(
        nothing,
    ) == 0);
    let none_ended = Seq::<(ShardKey, BlobVersion)>::empty();
    assert(listed_bytes(none_ended) == 0);
    match change.mutation {
        BlobMutation::Put { shard, write_epoch, record_ref } => {
            let version = BlobVersion { lsn: change.lsn, write_epoch, record_ref };
            lemma_retirement_report(key, change.lsn, before, shard);
            lemma_placement_report(key, change.lsn, lifetime, version);
            lemma_reports_add(
                state::retirement_report(key, change.lsn, before, shard),
                state::placement_report(key, change.lsn, lifetime, version),
            );
        },
        BlobMutation::Tombstone { shard } => {
            lemma_retirement_report(key, change.lsn, before, shard);
        },
        BlobMutation::SetLifetime { logical_end_epoch, current_epoch } => {
            lemma_expiry_reports_lose_all(key, change.lsn, lifetime, entries);
            lemma_extension_reports_lose_nothing(
                key,
                change.lsn,
                lifetime,
                Some(before.next_lifetime(change.lsn, logical_end_epoch, current_epoch)),
                entries,
            );
        },
        BlobMutation::Relocate { shard, payload_lsn, to } => {
            if before.relocation_applies(shard, payload_lsn) {
                lemma_placement_report(
                    key,
                    change.lsn,
                    lifetime,
                    BlobVersion { record_ref: to, ..before.versions[shard] },
                );
            }
        },
    }
}

proof fn lemma_retirement_report(
    key: Seq<u8>,
    lsn: StrataLsn,
    before: BlobStateView,
    shard: ShardKey,
)
    ensures
        ({
            let reported = state::retirement_report(key, lsn, before, shard);
            if before.versions.dom().contains(shard) {
                let version = before.versions[shard];
                &&& live_refs_lost(reported) == 1
                &&& live_bytes_lost(reported) == version.record_ref.len
                &&& garbage_bytes_gained(reported) == version.record_ref.len
                &&& listed_bytes(seq![(shard, version)]) == version.record_ref.len
            } else {
                live_refs_lost(reported) == 0 && live_bytes_lost(reported) == 0
                    && garbage_bytes_gained(reported) == 0
            }
        }),
{
    if before.versions.dom().contains(shard) {
        let version = before.versions[shard];
        lemma_one_report(
            garbage::retired(
                key,
                lsn,
                version.record_ref,
                state::effective(before.lifetime, version),
            ),
        );
        let one = seq![(shard, version)];
        assert(one.drop_last() =~= Seq::empty());
        assert(listed_bytes(one.drop_last()) == 0);
    }
}

proof fn lemma_placement_report(
    key: Seq<u8>,
    lsn: StrataLsn,
    lifetime: Option<BlobLifetime>,
    version: BlobVersion,
)
    ensures
        ({
            let reported = state::placement_report(key, lsn, lifetime, version);
            live_refs_lost(reported) == 0 && live_bytes_lost(reported) == 0
                && garbage_bytes_gained(reported) == 0
        }),
{
    if let Some(lifecycle) = state::effective(lifetime, version) {
        lemma_one_report(garbage::lifetime_change(key, lsn, version, None, Some(lifecycle)));
    }
}

/// Pruning twice under the same facts is pruning once: what is left is kept again, and nothing
/// more is reported.
pub proof fn law_pruning_is_idempotent(
    key: Seq<u8>,
    before: BlobStateView,
    snapshot: SnapshotView,
    left: Seq<(ShardKey, BlobVersion)>,
)
    requires
        shard_map::shard_sorted(left),
        shard_map::shard_map_of(left) == before.pruned(snapshot).versions,
    ensures
        before.pruned(snapshot).pruned(snapshot) == before.pruned(snapshot),
        state::prune_reports(key, snapshot, before.lifetime, left) == Seq::<
            GarbageRecordView,
        >::empty(),
{
    assert(before.pruned(snapshot).pruned(snapshot) =~= before.pruned(snapshot));
    assert forall|i: int| 0 <= i < left.len() implies state::fate(
        snapshot,
        before.lifetime,
        (#[trigger] left[i]).0,
        left[i].1,
    ) is Kept by {
        shard_map::lemma_sorted_entry(left, i);
    }
    lemma_kept_reports_nothing(key, snapshot, before.lifetime, left);
}

proof fn lemma_kept_reports_nothing(
    key: Seq<u8>,
    snapshot: SnapshotView,
    lifetime: Option<BlobLifetime>,
    entries: Seq<(ShardKey, BlobVersion)>,
)
    requires
        forall|i: int|
            0 <= i < entries.len() ==> state::fate(
                snapshot,
                lifetime,
                (#[trigger] entries[i]).0,
                entries[i].1,
            ) is Kept,
    ensures
        state::prune_reports(key, snapshot, lifetime, entries) == Seq::<GarbageRecordView>::empty(),
    decreases entries.len(),
{
    if entries.len() > 0 {
        let init = entries.drop_last();
        assert forall|i: int| 0 <= i < init.len() implies state::fate(
            snapshot,
            lifetime,
            (#[trigger] init[i]).0,
            init[i].1,
        ) is Kept by {
            assert(init[i] == entries[i]);
        }
        lemma_kept_reports_nothing(key, snapshot, lifetime, init);
        let last = entries[entries.len() - 1];
        assert(state::fate(snapshot, lifetime, last.0, last.1) is Kept);
        assert(state::prune_reports(key, snapshot, lifetime, entries) =~= Seq::empty());
    }
}

/// Pruning never hides a version that a reader could still see: a version whose shard is not
/// fenced goes only once the store has reached an epoch at which its lifetime has ended.
pub proof fn law_pruning_respects_visibility(
    before: BlobStateView,
    snapshot: SnapshotView,
    shard: ShardKey,
    epoch: Epoch,
)
    requires
        snapshot.shard_retirement(shard) is None,
        // Every transition that the snapshot knows has happened by `epoch`.
        forall|i: int|
            0 <= i < snapshot.epoch_changes.len() ==> (#[trigger] snapshot.epoch_changes[i]).1
                <= epoch,
    ensures
        before.pruned(snapshot).resolved(shard, epoch) == before.resolved(shard, epoch),
{
    if before.versions.dom().contains(shard) {
        let version = before.versions[shard];
        if let Some(lifecycle) = state::effective(before.lifetime, version) {
            if snapshot.expiry(lifecycle.logical_end_epoch) is Some {
                snapshot::lemma_first_reaching(
                    snapshot.epoch_changes,
                    lifecycle.logical_end_epoch,
                );
                let at = snapshot::first_reaching(
                    snapshot.epoch_changes,
                    lifecycle.logical_end_epoch,
                ) as int;
                assert(snapshot.epoch_changes[at].1 <= epoch);
            }
        }
    }
}

/// A snapshot with a later frontier ends at least what an earlier one ends, at the same LSNs.
pub proof fn law_frontier_only_ends_more(
    earlier: SnapshotView,
    later: SnapshotView,
    end: Epoch,
)
    requires
        later == (SnapshotView {
            materialized_through_lsn: later.materialized_through_lsn,
            ..earlier
        }),
        earlier.materialized_through_lsn <= later.materialized_through_lsn,
        earlier.expiry(end) is Some,
    ensures
        later.expiry(end) == earlier.expiry(end),
{
}

/// A lifetime expires at the first transition that reaches its end, and only at one that does.
pub proof fn law_expiry_is_the_first_reaching_transition(
    snapshot: SnapshotView,
    end: Epoch,
    at: int,
)
    requires
        0 <= at < snapshot.epoch_changes.len(),
        snapshot.epoch_changes[at].1 >= end,
        forall|i: int| 0 <= i < at ==> (#[trigger] snapshot.epoch_changes[i]).1 < end,
    ensures
        snapshot.epoch_changes[at].0 <= snapshot.materialized_through_lsn ==> (snapshot.expiry(
            end,
        ) matches Some(transition) && transition.lsn == snapshot.epoch_changes[at].0),
        snapshot.epoch_changes[at].0 > snapshot.materialized_through_lsn ==> snapshot.expiry(
            end,
        ) is None,
{
    snapshot::lemma_first_reaching(snapshot.epoch_changes, end);
    let first = snapshot::first_reaching(snapshot.epoch_changes, end) as int;
    if first < at {
        assert(snapshot.epoch_changes[first].1 < end);
    }
    if at < first {
        assert(snapshot.epoch_changes[at].1 < end);
    }
}

/// Merging patches in two steps gives the state and the reports of merging them in one.
pub proof fn law_patches_merge_in_steps(
    key: Seq<u8>,
    start: Merging,
    first: Seq<(StrataLsn, StoredView)>,
    second: Seq<(StrataLsn, StoredView)>,
)
    ensures
        merge::patched(key, start, first + second) == (match merge::patched(key, start, first) {
            Err(error) => Err(error),
            Ok(between) => merge::patched(key, between, second),
        }),
    decreases second.len(),
{
    let all = first + second;
    if second.len() == 0 {
        assert(all =~= first);
    } else {
        assert(all.drop_last() =~= first + second.drop_last());
        assert(all.last() == second.last());
        law_patches_merge_in_steps(key, start, first, second.drop_last());
    }
}

/// Without global facts a merge is the fold of its patches: nothing is pruned.
pub proof fn law_empty_snapshot_prunes_nothing(
    before: BlobStateView,
    snapshot: SnapshotView,
    shard: ShardKey,
)
    requires
        snapshot.epoch_changes.len() == 0,
        snapshot.shard_infos == Map::<u32, crate::types::ShardInfo>::empty(),
        snapshot.shard_drop_lsns == Map::<ShardKey, StrataLsn>::empty(),
    ensures
        before.pruned(snapshot) == before,
{
    assert(before.pruned(snapshot) =~= before);
}

} // verus!
