//! What mutations, global facts and merges mean to readers and to the garbage log.

use vstd::prelude::*;

use super::codec;
use super::codec::{BlobLifetime, BlobMutation, BlobMutationWithLSN, BlobStateView, BlobVersion};
use super::codec_laws;
use super::garbage;
use super::garbage::GarbageRecordView;
use super::merge;
use super::merge::{MergeError, Merging, StoredView};
use super::snapshot;
use super::snapshot::SnapshotView;
use super::state;
use crate::bytes;
use crate::shard_map;
use crate::types::{
    BlobLifecycle, Epoch, GarbageEvent, RecordRef, ShardKey, ShardState, StrataLsn,
};

verus! {

// Mutations.

/// A lifetime that is set ends where it was asked to end, whatever lifetime there was before. The
/// first lifetime takes no version away: what is there is visible up to the requested end, and no
/// longer.
pub proof fn law_a_lifetime_ends_where_it_was_asked_to(
    before: BlobStateView,
    lsn: StrataLsn,
    end: Epoch,
    now: Epoch,
    shard: ShardKey,
    epoch: Epoch,
)
    ensures
        ({
            let after = before.applied(
                BlobMutationWithLSN {
                    lsn,
                    mutation: BlobMutation::SetLifetime {
                        logical_end_epoch: end,
                        current_epoch: now,
                    },
                },
            );
            &&& after.lifetime is Some
            &&& after.lifetime->Some_0.lsn == lsn
            &&& after.lifetime->Some_0.lifecycle.logical_end_epoch == end
            &&& before.lifetime is None ==> after.versions == before.versions
                && after.lifetime->Some_0.lifecycle.extension_count == 0
            &&& before.lifetime is None && before.versions.dom().contains(shard) && epoch < end ==> (
            after.resolved(shard, epoch) matches Some((version, lifecycle)) && version
                == before.versions[shard] && (lifecycle matches Some(known) ==> known
                == after.lifetime->Some_0.lifecycle))
            &&& before.lifetime is None && before.versions.dom().contains(shard)
                && before.versions[shard].lsn < lsn && epoch >= end ==> after.resolved(
                shard,
                epoch,
            ) is None
        }),
{
}

/// A lifetime that still runs is extended: no version goes, and the extension is counted. One that
/// has ended takes every version with it, and counting starts anew.
pub proof fn law_only_an_ended_lifetime_takes_versions_away(
    before: BlobStateView,
    head: BlobLifetime,
    lsn: StrataLsn,
    end: Epoch,
    now: Epoch,
    shard: ShardKey,
)
    requires
        before.lifetime == Some(head),
    ensures
        ({
            let after = before.applied(
                BlobMutationWithLSN {
                    lsn,
                    mutation: BlobMutation::SetLifetime {
                        logical_end_epoch: end,
                        current_epoch: now,
                    },
                },
            );
            let counted = after.lifetime->Some_0.lifecycle.extension_count;
            &&& now < head.lifecycle.logical_end_epoch ==> after.versions == before.versions
            &&& now < head.lifecycle.logical_end_epoch ==> counted
                >= head.lifecycle.extension_count && (head.lifecycle.extension_count < u32::MAX
                ==> counted - head.lifecycle.extension_count == 1)
            &&& head.lifecycle.logical_end_epoch <= now ==> !after.versions.dom().contains(shard)
                && counted == 0
        }),
{
}

/// A put, a tombstone and a relocation leave the lifetime alone.
pub proof fn law_only_lifetimes_change_lifetimes(before: BlobStateView, change: BlobMutationWithLSN)
    requires
        !(change.mutation is SetLifetime),
    ensures
        before.applied(change).lifetime == before.lifetime,
{
}

/// A version is visible without a lifetime, or until the lifetime ends. A version that was written
/// with or after the lifetime, when that had ended already, is not bound by it.
pub proof fn law_versions_are_visible_until_their_lifetime_ends(
    state: BlobStateView,
    shard: ShardKey,
    epoch: Epoch,
)
    ensures
        !state.versions.dom().contains(shard) ==> state.resolved(shard, epoch) is None,
        state.resolved(shard, epoch) matches Some((version, _)) ==> state.versions.dom().contains(
            shard,
        ) && version == state.versions[shard],
        state.versions.dom().contains(shard) && state.lifetime is None ==> state.resolved(
            shard,
            epoch,
        ) == Some((state.versions[shard], None::<BlobLifecycle>)),
        state.versions.dom().contains(shard) && state.lifetime is Some ==> {
            let version = state.versions[shard];
            let head = state.lifetime->Some_0;
            let seen = state.resolved(shard, epoch);
            &&& version.lsn < head.lsn ==> (seen is Some <==> epoch
                < head.lifecycle.logical_end_epoch)
            &&& version.write_epoch < head.lifecycle.logical_end_epoch ==> (seen is Some <==> epoch
                < head.lifecycle.logical_end_epoch)
            &&& version.lsn < head.lsn || version.write_epoch < head.lifecycle.logical_end_epoch
                ==> (seen matches Some((_, lifecycle)) ==> lifecycle == Some(head.lifecycle))
            &&& version.lsn >= head.lsn && version.write_epoch >= head.lifecycle.logical_end_epoch
                ==> seen == Some((version, None::<BlobLifecycle>))
        },
{
}

/// A relocation of the version that is there moves its payload, where the length is kept, and is
/// refused where it is not. Nothing else of the blob changes.
pub proof fn law_a_relocation_moves_the_version_it_names(
    before: BlobStateView,
    lsn: StrataLsn,
    shard: ShardKey,
    payload_lsn: StrataLsn,
    to: RecordRef,
    other: ShardKey,
)
    ensures
        ({
            let change = BlobMutationWithLSN {
                lsn,
                mutation: BlobMutation::Relocate { shard, payload_lsn, to },
            };
            let after = before.applied(change);
            let there = before.versions.dom().contains(shard) && before.versions[shard].lsn
                == payload_lsn;
            &&& there ==> before.accepts(change.mutation) == (before.versions[shard].record_ref.len
                == to.len)
            &&& there ==> after.versions.dom().contains(shard) && after.versions[shard].record_ref
                == to && after.versions[shard].lsn == payload_lsn
                && after.versions[shard].write_epoch == before.versions[shard].write_epoch
            &&& !there ==> before.accepts(change.mutation) && after.versions == before.versions
            &&& after.versions.dom() == before.versions.dom()
            &&& other != shard && before.versions.dom().contains(other) ==> after.versions[other]
                == before.versions[other]
        }),
{
    let change = BlobMutationWithLSN {
        lsn,
        mutation: BlobMutation::Relocate { shard, payload_lsn, to },
    };
    assert(before.applied(change).versions.dom() =~= before.versions.dom());
}

/// Every mutation but a relocation is accepted.
pub proof fn law_only_relocations_are_refused(before: BlobStateView, mutation: BlobMutation)
    ensures
        !before.accepts(mutation) ==> mutation is Relocate,
{
}

// What mutations report.

/// One where a lifecycle ends at an epoch.
pub open spec fn ends_at(lifecycle: Option<BlobLifecycle>, epoch: Epoch) -> int {
    if lifecycle matches Some(known) && known.logical_end_epoch == epoch {
        1
    } else {
        0
    }
}

/// One where a lifecycle was extended so often.
pub open spec fn extended(lifecycle: Option<BlobLifecycle>, extensions: u32) -> int {
    if lifecycle matches Some(known) && known.extension_count == extensions {
        1
    } else {
        0
    }
}

pub open spec fn unknown(lifecycle: Option<BlobLifecycle>) -> int {
    if lifecycle is None {
        1
    } else {
        0
    }
}

/// A report names the record, its segment, its blob and the LSN; a record that goes takes its bytes
/// from the live side to the side that it goes to, and leaves the books of its lifetime.
pub proof fn law_reports_say_what_happened(
    key: Seq<u8>,
    lsn: StrataLsn,
    version: BlobVersion,
    before: Option<BlobLifecycle>,
    after: Option<BlobLifecycle>,
    epoch: Epoch,
    extensions: u32,
)
    ensures
        ({
            let record = version.record_ref;
            let retired = garbage::retired(key, lsn, record, before);
            let expired = garbage::expired(key, lsn, record, before);
            let changed = garbage::lifetime_change(key, lsn, version, before, after);
            let len = record.len as int;
            &&& retired.event == (GarbageEvent::Retired { record })
            &&& expired.event == (GarbageEvent::Expired { record })
            &&& changed.event == (GarbageEvent::SetLifecycle { record, lifecycle: after })
            &&& retired.segment_id == record.segment_id && expired.segment_id == record.segment_id
                && changed.segment_id == record.segment_id
            &&& retired.blob_key == key && expired.blob_key == key && changed.blob_key == key
            &&& retired.lsn == lsn && expired.lsn == lsn && changed.lsn == lsn
            &&& retired.delta.retired_bytes == len && retired.delta.live_bytes == -len
            &&& expired.delta.expired_bytes == len && expired.delta.live_bytes == -len
            &&& garbage::count_at(retired.delta.epoch_bytes, epoch) == -len * ends_at(before, epoch)
            &&& garbage::count_at(retired.delta.epoch_refs, epoch) == -ends_at(before, epoch)
            &&& garbage::count_at(retired.delta.extension_counts, extensions) == -extended(
                before,
                extensions,
            )
            &&& retired.delta.unknown_lifetime_bytes == -len * unknown(before)
            &&& retired.delta.unknown_lifetime_ref_count == -unknown(before)
            &&& garbage::count_at(expired.delta.epoch_bytes, epoch) == -len * ends_at(before, epoch)
            &&& garbage::count_at(expired.delta.epoch_refs, epoch) == -ends_at(before, epoch)
            &&& garbage::count_at(expired.delta.extension_counts, extensions) == 0
            &&& expired.delta.unknown_lifetime_bytes == -len * unknown(before)
            &&& expired.delta.unknown_lifetime_ref_count == -unknown(before)
            &&& garbage::count_at(changed.delta.epoch_bytes, epoch) == len * ends_at(after, epoch)
                - len * ends_at(before, epoch)
            &&& garbage::count_at(changed.delta.epoch_refs, epoch) == ends_at(after, epoch)
                - ends_at(before, epoch)
            &&& garbage::count_at(changed.delta.extension_counts, extensions) == extended(
                after,
                extensions,
            ) - extended(before, extensions)
            &&& changed.delta.unknown_lifetime_bytes == len * unknown(after) - len * unknown(before)
            &&& changed.delta.unknown_lifetime_ref_count == unknown(after) - unknown(before)
        }),
{
    let len = version.record_ref.len as int;
    assert(len * 0 == 0 && len * 1 == len && -len * 0 == 0 && -len * 1 == -len);
}

/// A put reports the version that it replaces as retired, at its own LSN, and then the lifecycle
/// that the new version gets, where the blob's lifetime binds it.
pub proof fn law_a_put_reports_what_it_replaces(
    key: Seq<u8>,
    entries: Seq<(ShardKey, BlobVersion)>,
    lifetime: Option<BlobLifetime>,
    lsn: StrataLsn,
    shard: ShardKey,
    write_epoch: Epoch,
    record_ref: RecordRef,
)
    ensures
        ({
            let reported = state::reports(
                key,
                entries,
                lifetime,
                BlobMutationWithLSN {
                    lsn,
                    mutation: BlobMutation::Put { shard, write_epoch, record_ref },
                },
            );
            let versions = shard_map::shard_map_of(entries);
            let replaced = versions.dom().contains(shard);
            let bound = lifetime is Some && (lsn < lifetime->Some_0.lsn || write_epoch
                < lifetime->Some_0.lifecycle.logical_end_epoch);
            &&& reported.len() == (if replaced {
                1int
            } else {
                0
            }) + (if bound {
                1int
            } else {
                0
            })
            &&& forall|i: int|
                0 <= i < reported.len() ==> (#[trigger] reported[i]).lsn == lsn
                    && reported[i].blob_key == key
            &&& replaced ==> reported[0].event == (GarbageEvent::Retired {
                record: versions[shard].record_ref,
            }) && reported[0].delta.live_ref_count == -1
            &&& bound ==> reported.last().event == (GarbageEvent::SetLifecycle {
                record: record_ref,
                lifecycle: Some(lifetime->Some_0.lifecycle),
            }) && reported.last().delta.live_ref_count == 0
        }),
{
}

/// A tombstone reports the version that it takes away as retired, at its own LSN, and nothing where
/// there is none.
pub proof fn law_a_tombstone_reports_what_it_takes(
    key: Seq<u8>,
    entries: Seq<(ShardKey, BlobVersion)>,
    lifetime: Option<BlobLifetime>,
    lsn: StrataLsn,
    shard: ShardKey,
)
    ensures
        ({
            let reported = state::reports(
                key,
                entries,
                lifetime,
                BlobMutationWithLSN { lsn, mutation: BlobMutation::Tombstone { shard } },
            );
            let versions = shard_map::shard_map_of(entries);
            &&& !versions.dom().contains(shard) ==> reported.len() == 0
            &&& versions.dom().contains(shard) ==> reported.len() == 1 && reported[0].lsn == lsn
                && reported[0].blob_key == key && reported[0].event == (GarbageEvent::Retired {
                record: versions[shard].record_ref,
            })
        }),
{
}

/// A relocation reports the lifecycle of the moved payload at its new place, where the blob's
/// lifetime binds it and the place is new. The old place is not reported: its segment is collected.
pub proof fn law_a_relocation_reports_the_new_place(
    key: Seq<u8>,
    entries: Seq<(ShardKey, BlobVersion)>,
    lifetime: Option<BlobLifetime>,
    lsn: StrataLsn,
    shard: ShardKey,
    payload_lsn: StrataLsn,
    to: RecordRef,
)
    ensures
        ({
            let reported = state::reports(
                key,
                entries,
                lifetime,
                BlobMutationWithLSN {
                    lsn,
                    mutation: BlobMutation::Relocate { shard, payload_lsn, to },
                },
            );
            let versions = shard_map::shard_map_of(entries);
            let moved = versions.dom().contains(shard) && versions[shard].lsn == payload_lsn
                && versions[shard].record_ref != to;
            let bound = lifetime is Some && (payload_lsn < lifetime->Some_0.lsn
                || versions[shard].write_epoch < lifetime->Some_0.lifecycle.logical_end_epoch);
            &&& !(moved && bound) ==> reported.len() == 0
            &&& moved && bound ==> reported.len() == 1 && reported[0].lsn == lsn
                && reported[0].segment_id == to.segment_id && reported[0].event == (
            GarbageEvent::SetLifecycle {
                record: to,
                lifecycle: Some(lifetime->Some_0.lifecycle),
            })
        }),
{
}

/// Setting a lifetime after the last one ended reports every version as expired; setting it while
/// the last one runs, or where there was none, reports the new lifecycle of every version that it
/// binds. Each report is at the LSN of the change.
pub proof fn law_a_lifetime_reports_every_version(
    key: Seq<u8>,
    entries: Seq<(ShardKey, BlobVersion)>,
    lifetime: Option<BlobLifetime>,
    lsn: StrataLsn,
    end: Epoch,
    now: Epoch,
    i: int,
)
    requires
        0 <= i < entries.len(),
        // Versions were written before their blob's lifetime is set.
        forall|k: int| 0 <= k < entries.len() ==> (#[trigger] entries[k]).1.lsn < lsn,
        lifetime matches Some(head) ==> head.lsn < lsn,
    ensures
        ({
            let reported = state::reports(
                key,
                entries,
                lifetime,
                BlobMutationWithLSN {
                    lsn,
                    mutation: BlobMutation::SetLifetime {
                        logical_end_epoch: end,
                        current_epoch: now,
                    },
                },
            );
            let ended = lifetime is Some && lifetime->Some_0.lifecycle.logical_end_epoch <= now;
            let count = if lifetime is None || ended {
                0int
            } else if lifetime->Some_0.lifecycle.extension_count == u32::MAX {
                u32::MAX as int
            } else {
                lifetime->Some_0.lifecycle.extension_count + 1
            };
            let given = BlobLifecycle { logical_end_epoch: end, extension_count: count as u32 };
            &&& ended ==> reported.len() == entries.len() && reported[i].event == (
            GarbageEvent::Expired { record: entries[i].1.record_ref }) && reported[i].lsn == lsn
                && reported[i].blob_key == key
            &&& !ended && (lifetime is None || lifetime->Some_0.lifecycle != given)
                ==> reported.len() == entries.len() && reported[i].event == (
            GarbageEvent::SetLifecycle {
                record: entries[i].1.record_ref,
                lifecycle: Some(given),
            }) && reported[i].lsn == lsn && reported[i].blob_key == key
        }),
{
    let state = BlobStateView { versions: shard_map::shard_map_of(entries), lifetime };
    let next = Some(state.next_lifetime(lsn, end, now));
    if !state.lifetime_ended(now) && (lifetime is None || lifetime->Some_0.lifecycle
        != next->Some_0.lifecycle) {
        lemma_all_reported(key, lsn, lifetime, next, entries);
    }
}

proof fn lemma_all_reported(
    key: Seq<u8>,
    lsn: StrataLsn,
    before: Option<BlobLifetime>,
    after: Option<BlobLifetime>,
    entries: Seq<(ShardKey, BlobVersion)>,
)
    requires
        after is Some,
        after->Some_0.lsn == lsn,
        forall|k: int| 0 <= k < entries.len() ==> (#[trigger] entries[k]).1.lsn < lsn,
        before is None || before->Some_0.lifecycle != after->Some_0.lifecycle,
    ensures
        ({
            let reported = state::extension_reports(key, lsn, before, after, entries);
            &&& reported.len() == entries.len()
            &&& forall|k: int|
                0 <= k < entries.len() ==> #[trigger] reported[k] == garbage::lifetime_change(
                    key,
                    lsn,
                    entries[k].1,
                    state::effective(before, entries[k].1),
                    Some(after->Some_0.lifecycle),
                )
        }),
    decreases entries.len(),
{
    if entries.len() > 0 {
        let init = entries.drop_last();
        assert forall|k: int| 0 <= k < init.len() implies (#[trigger] init[k]).1.lsn < lsn by {
            assert(init[k] == entries[k]);
        }
        lemma_all_reported(key, lsn, before, after, init);
        assert(entries[entries.len() - 1] == entries.last());
        assert(entries.last().1.lsn < lsn);
    }
}

// Global facts.

/// A shard generation whose drop the frontier covers loses its versions. Each is reported as
/// retired at the drop, unless the drop came before reports began or took the segment with it.
pub proof fn law_dropped_shards_retire_their_versions(
    key: Seq<u8>,
    before: BlobStateView,
    facts: SnapshotView,
    shard: ShardKey,
)
    requires
        before.versions.dom().contains(shard),
        facts.shard_drop_lsns.dom().contains(shard),
        facts.shard_drop_lsns[shard] <= facts.materialized_through_lsn,
    ensures
        ({
            let version = before.versions[shard];
            let segment_id = version.record_ref.segment_id;
            let reported = state::prune_reports(
                key,
                facts,
                before.lifetime,
                seq![(shard, version)],
            );
            let silent = facts.shard_drop_lsns[shard] < facts.emit_garbage_from_lsn || (
            facts.reclaimed_shard_segments.dom().contains(segment_id)
                && facts.reclaimed_shard_segments[segment_id] == shard);
            &&& !before.pruned(facts).versions.dom().contains(shard)
            &&& silent ==> reported.len() == 0
            &&& !silent ==> reported.len() == 1 && reported[0].lsn == facts.shard_drop_lsns[shard]
                && reported[0].blob_key == key && reported[0].event == (GarbageEvent::Retired {
                record: version.record_ref,
            })
        }),
{
    let version = before.versions[shard];
    lemma_one_fate(key, facts, before.lifetime, (shard, version));
}

/// A shard generation without a recorded drop that the registry has left behind, or dropped, loses
/// its versions without a report. Its current generation, and one whose drop lies beyond the
/// frontier, loses none on that account.
pub proof fn law_obsolete_generations_leave_silently(
    key: Seq<u8>,
    before: BlobStateView,
    facts: SnapshotView,
    shard: ShardKey,
)
    requires
        before.versions.dom().contains(shard),
        before.lifetime is None,
    ensures
        ({
            let version = before.versions[shard];
            let reported = state::prune_reports(
                key,
                facts,
                before.lifetime,
                seq![(shard, version)],
            );
            let kept = before.pruned(facts).versions.dom().contains(shard);
            let known = facts.shard_infos.dom().contains(shard.id);
            let info = facts.shard_infos[shard.id];
            let recorded = facts.shard_drop_lsns.dom().contains(shard);
            &&& !recorded && known && shard.generation < info.current_generation ==> !kept
            &&& !recorded && known && shard.generation == info.current_generation && info.state
                == ShardState::Dropped ==> !kept
            &&& !recorded ==> reported.len() == 0
            &&& !recorded && !known ==> kept
            &&& !recorded && known && shard.generation > info.current_generation ==> kept
            &&& !recorded && known && shard.generation == info.current_generation && info.state
                != ShardState::Dropped ==> kept
            &&& recorded && facts.shard_drop_lsns[shard] > facts.materialized_through_lsn ==> kept
                && reported.len() == 0
            &&& kept ==> before.pruned(facts).versions[shard] == version
        }),
{
    let version = before.versions[shard];
    lemma_one_fate(key, facts, before.lifetime, (shard, version));
}

/// A version of a shard that is not fenced goes with the first transition that reaches the end of
/// its lifetime, once the frontier covers that. It is reported as expired at the transition, unless
/// that came before reports began. No other version goes.
pub proof fn law_ended_versions_expire_at_their_transition(
    key: Seq<u8>,
    before: BlobStateView,
    facts: SnapshotView,
    shard: ShardKey,
    head: BlobLifetime,
    at: int,
)
    requires
        before.versions.dom().contains(shard),
        !facts.shard_drop_lsns.dom().contains(shard),
        !facts.shard_infos.dom().contains(shard.id),
        before.lifetime == Some(head),
        0 <= at <= facts.epoch_changes.len(),
        forall|i: int|
            0 <= i < at ==> (#[trigger] facts.epoch_changes[i]).1
                < head.lifecycle.logical_end_epoch,
        at < facts.epoch_changes.len() ==> facts.epoch_changes[at].1
            >= head.lifecycle.logical_end_epoch,
    ensures
        ({
            let version = before.versions[shard];
            let reported = state::prune_reports(
                key,
                facts,
                before.lifetime,
                seq![(shard, version)],
            );
            let kept = before.pruned(facts).versions.dom().contains(shard);
            let bound = version.lsn < head.lsn || version.write_epoch
                < head.lifecycle.logical_end_epoch;
            let reached = at < facts.epoch_changes.len() && facts.epoch_changes[at].0
                <= facts.materialized_through_lsn;
            &&& kept <==> !(bound && reached)
            &&& kept ==> reported.len() == 0
            &&& !kept ==> if facts.epoch_changes[at].0 >= facts.emit_garbage_from_lsn {
                reported.len() == 1 && reported[0].lsn == facts.epoch_changes[at].0
                    && reported[0].blob_key == key && reported[0].event == (GarbageEvent::Expired {
                    record: version.record_ref,
                })
            } else {
                reported.len() == 0
            }
        }),
{
    let version = before.versions[shard];
    let end = head.lifecycle.logical_end_epoch;
    snapshot::lemma_first_reaching(facts.epoch_changes, end);
    let first = snapshot::first_reaching(facts.epoch_changes, end) as int;
    if first < at {
        assert(facts.epoch_changes[first].1 < end);
    } else if at < first {
        assert(facts.epoch_changes[at].1 < end);
    }
    lemma_one_fate(key, facts, before.lifetime, (shard, version));
}

proof fn lemma_one_fate(
    key: Seq<u8>,
    facts: SnapshotView,
    lifetime: Option<BlobLifetime>,
    entry: (ShardKey, BlobVersion),
)
    ensures
        state::prune_reports(key, facts, lifetime, seq![entry]) == state::fate_report(
            key,
            facts,
            lifetime,
            entry,
        ),
{
    let one = seq![entry];
    assert(one.drop_last() =~= Seq::empty());
    assert(one.last() == entry);
    assert(state::prune_reports(key, facts, lifetime, one.drop_last()) =~= Seq::empty());
    assert(state::prune_reports(key, facts, lifetime, one) =~= state::fate_report(
        key,
        facts,
        lifetime,
        entry,
    ));
}

/// What pruning reports of some versions, it reports of each.
pub proof fn law_pruning_reports_add_up(
    key: Seq<u8>,
    facts: SnapshotView,
    lifetime: Option<BlobLifetime>,
    first: Seq<(ShardKey, BlobVersion)>,
    second: Seq<(ShardKey, BlobVersion)>,
)
    ensures
        state::prune_reports(key, facts, lifetime, first + second) == state::prune_reports(
            key,
            facts,
            lifetime,
            first,
        ) + state::prune_reports(key, facts, lifetime, second),
    decreases second.len(),
{
    if second.len() == 0 {
        assert(first + second =~= first);
        assert(state::prune_reports(key, facts, lifetime, second) =~= Seq::empty());
        assert(state::prune_reports(key, facts, lifetime, first) + Seq::<GarbageRecordView>::empty()
            =~= state::prune_reports(key, facts, lifetime, first));
    } else {
        assert((first + second).drop_last() =~= first + second.drop_last());
        assert((first + second).last() == second.last());
        law_pruning_reports_add_up(key, facts, lifetime, first, second.drop_last());
        assert(state::prune_reports(key, facts, lifetime, first + second) =~= state::prune_reports(
            key,
            facts,
            lifetime,
            first,
        ) + state::prune_reports(key, facts, lifetime, second));
    }
}

/// Pruning keeps the lifetime and changes no version that it keeps.
pub proof fn law_pruning_only_takes_away(
    before: BlobStateView,
    facts: SnapshotView,
    shard: ShardKey,
)
    ensures
        before.pruned(facts).lifetime == before.lifetime,
        before.pruned(facts).versions.dom().contains(shard) ==> before.versions.dom().contains(shard)
            && before.pruned(facts).versions[shard] == before.versions[shard],
{
}

// Merges.

/// Mutations apply one after the other, each to what the last one left; a relocation that is
/// refused fails the whole.
pub proof fn law_mutations_apply_in_order(
    key: Seq<u8>,
    start: Merging,
    change: BlobMutationWithLSN,
    first: Seq<BlobMutationWithLSN>,
    second: Seq<BlobMutationWithLSN>,
)
    ensures
        merge::folded(key, start, Seq::empty()) == Ok::<Merging, MergeError>(start),
        start.state.accepts(change.mutation) ==> (merge::folded(key, start, seq![change]) matches Ok(
            next,
        ) && next.state == start.state.applied(change) && start.reported.is_prefix_of(
            next.reported,
        )),
        !start.state.accepts(change.mutation) ==> merge::folded(key, start, seq![change]) == Err::<
            Merging,
            MergeError,
        >(MergeError::RelocationChangedLength),
        merge::folded(key, start, first + second) == (match merge::folded(key, start, first) {
            Err(error) => Err(error),
            Ok(between) => merge::folded(key, between, second),
        }),
    decreases second.len(),
{
    let one = seq![change];
    assert(one.drop_last() =~= Seq::empty());
    assert(merge::folded(key, start, one.drop_last()) == Ok::<Merging, MergeError>(start));
    if second.len() == 0 {
        assert(first + second =~= first);
    } else {
        law_mutations_apply_in_order(key, start, change, first, second.drop_last());
        assert((first + second).drop_last() =~= first + second.drop_last());
        assert((first + second).last() == second.last());
    }
}

/// A row that refers to a payload is a put of that payload, in the shard and at the epoch that its
/// metadata names, at the row's LSN. A blob that has no other row holds exactly that version.
pub proof fn law_a_payload_row_is_a_put(
    key: Seq<u8>,
    lsn: StrataLsn,
    shard: ShardKey,
    write_epoch: Epoch,
    record_ref: RecordRef,
    facts: SnapshotView,
)
    requires
        facts.epoch_changes.len() == 0,
        facts.shard_infos == Map::<u32, crate::types::ShardInfo>::empty(),
        facts.shard_drop_lsns == Map::<ShardKey, StrataLsn>::empty(),
    ensures
        ({
            let row = StoredView::Blob {
                metadata: codec::put_metadata_bytes(shard, write_epoch),
                record_ref,
            };
            merge::merged(key, None, seq![(lsn, row)], facts) matches Ok(merging)
                && merging.state.lifetime is None && merging.state.versions == Map::<
                ShardKey,
                BlobVersion,
            >::empty().insert(shard, BlobVersion { lsn, write_epoch, record_ref })
        }),
{
    let row = StoredView::Blob {
        metadata: codec::put_metadata_bytes(shard, write_epoch),
        record_ref,
    };
    let start = Merging {
        state: BlobStateView { versions: Map::empty(), lifetime: None },
        reported: Seq::empty(),
    };
    let change = BlobMutationWithLSN {
        lsn,
        mutation: BlobMutation::Put { shard, write_epoch, record_ref },
    };
    codec_laws::law_put_metadata_round_trip(shard, write_epoch, Seq::empty());
    law_mutations_apply_in_order(key, start, change, Seq::empty(), Seq::empty());
    let rows = seq![(lsn, row)];
    assert(rows.drop_last() =~= Seq::empty());
    assert(merge::patched(key, start, rows.drop_last()) == Ok::<Merging, MergeError>(start));
    let mutations = merge::patch_mutations(lsn, row)->Ok_0;
    assert(mutations =~= seq![change]);
    let after = start.state.applied(change);
    super::state_laws::law_empty_snapshot_prunes_nothing(after, facts, shard);
}

/// A base row is the state that it encodes; a merge starts from it, and without patches and global
/// facts ends there.
pub proof fn law_a_base_row_is_its_state(
    key: Seq<u8>,
    entries: Seq<(ShardKey, BlobVersion)>,
    lifetime: Option<BlobLifetime>,
    record_ref: RecordRef,
    metadata: Seq<u8>,
    patches: Seq<(StrataLsn, StoredView)>,
    facts: SnapshotView,
)
    requires
        shard_map::shard_sorted(entries),
        entries.len() <= u32::MAX,
        facts.epoch_changes.len() == 0,
        facts.shard_infos == Map::<u32, crate::types::ShardInfo>::empty(),
        facts.shard_drop_lsns == Map::<ShardKey, StrataLsn>::empty(),
    ensures
        merge::merged(
            key,
            Some(StoredView::Inline(codec::state_bytes(entries, lifetime))),
            Seq::empty(),
            facts,
        ) matches Ok(merging) && merging.state.versions == shard_map::shard_map_of(entries)
            && merging.state.lifetime == lifetime,
        merge::merged(key, Some(StoredView::Blob { metadata, record_ref }), patches, facts) == Err::<
            Merging,
            MergeError,
        >(MergeError::BaseNotInline),
{
    codec_laws::law_state_round_trip(entries, lifetime, Seq::empty());
    let state = BlobStateView { versions: shard_map::shard_map_of(entries), lifetime };
    super::state_laws::law_empty_snapshot_prunes_nothing(
        state,
        facts,
        ShardKey { id: 0, generation: 0 },
    );
}

/// A merge leaves a row as long as anything is known of the blob: a version of some shard, or its
/// lifetime.
pub proof fn law_rows_go_with_all_that_is_known(state: BlobStateView, shard: ShardKey)
    ensures
        state.versions.dom().contains(shard) ==> !merge::is_empty(state),
        state.lifetime is Some ==> !merge::is_empty(state),
        state.lifetime is None && (forall|other: ShardKey|
            !#[trigger] state.versions.dom().contains(other)) ==> merge::is_empty(state),
{
    if forall|other: ShardKey| !#[trigger] state.versions.dom().contains(other) {
        assert(state.versions =~= Map::<ShardKey, BlobVersion>::empty());
    }
}

// Formats.

/// Integers are written with their low-order byte first.
pub proof fn law_integers_are_little_endian(value: nat, width: nat, at: int)
    requires
        0 <= at < width,
    ensures
        bytes::le(value, width).len() == width,
        bytes::le(value, width)[at] == (value as int / vstd::arithmetic::power::pow(
            256,
            at as nat,
        )) % 256,
    decreases width,
{
    bytes::lemma_le_len(value, width);
    vstd::arithmetic::power::lemma_pow0(256);
    if at > 0 {
        law_integers_are_little_endian(value / 256, (width - 1) as nat, at - 1);
        bytes::lemma_le_len(value / 256, (width - 1) as nat);
        let p = vstd::arithmetic::power::pow(256, (at - 1) as nat);
        vstd::arithmetic::power::lemma_pow_positive(256, (at - 1) as nat);
        assert(vstd::arithmetic::power::pow(256, at as nat) == 256 * p) by {
            reveal(vstd::arithmetic::power::pow);
        }
        vstd::arithmetic::div_mod::lemma_div_denominator(value as int, 256, p);
        assert(bytes::le(value, width)[at] == bytes::le(value / 256, (width - 1) as nat)[at - 1]);
    }
}

/// Every encoding opens with the version, mutations go on with their tag, and fields follow in a
/// fixed order, each with its full width.
pub proof fn law_encodings_have_a_fixed_layout(
    shard: ShardKey,
    write_epoch: Epoch,
    end: Epoch,
    payload_lsn: StrataLsn,
    record: RecordRef,
)
    ensures
        codec::shard_bytes(shard) == bytes::le(shard.id as nat, 4) + bytes::le(
            shard.generation as nat,
            8,
        ),
        codec::put_metadata_bytes(shard, write_epoch) == seq![3u8, 1u8] + codec::shard_bytes(shard)
            + bytes::le(write_epoch as nat, 8),
        codec::inline_bytes(BlobMutation::Tombstone { shard }) == seq![3u8, 3u8]
            + codec::shard_bytes(shard),
        codec::inline_bytes(
            BlobMutation::SetLifetime { logical_end_epoch: end, current_epoch: write_epoch },
        ) == seq![3u8, 2u8] + bytes::le(end as nat, 8) + bytes::le(write_epoch as nat, 8),
        codec::inline_bytes(BlobMutation::Relocate { shard, payload_lsn, to: record }) == seq![
            3u8,
            5u8,
        ] + codec::shard_bytes(shard) + bytes::le(payload_lsn as nat, 8) + bytes::le(
            record.segment_id as nat,
            8,
        ) + bytes::le(record.offset as nat, 8) + bytes::le(record.len as nat, 8),
{
    assert(codec::inline_bytes(BlobMutation::Tombstone { shard }) =~= seq![3u8, 3u8]
        + codec::shard_bytes(shard));
    assert(codec::inline_bytes(
        BlobMutation::SetLifetime { logical_end_epoch: end, current_epoch: write_epoch },
    ) =~= seq![3u8, 2u8] + bytes::le(end as nat, 8) + bytes::le(write_epoch as nat, 8));
    assert(codec::inline_bytes(BlobMutation::Relocate { shard, payload_lsn, to: record }) =~= seq![
        3u8,
        5u8,
    ] + codec::shard_bytes(shard) + bytes::le(payload_lsn as nat, 8) + bytes::le(
        record.segment_id as nat,
        8,
    ) + bytes::le(record.offset as nat, 8) + bytes::le(record.len as nat, 8));
}

/// A state is its version, the number of shard versions, each of them in order, and its lifetime
/// behind a marker.
pub proof fn law_states_have_a_fixed_layout(
    shard: ShardKey,
    version: BlobVersion,
    head: BlobLifetime,
)
    ensures
        codec::state_bytes(Seq::empty(), None) == seq![3u8] + bytes::le(0, 4) + seq![0u8],
        codec::state_bytes(seq![(shard, version)], Some(head)) == seq![3u8] + bytes::le(1, 4)
            + codec::shard_bytes(shard) + bytes::le(version.lsn as nat, 8) + bytes::le(
            version.write_epoch as nat,
            8,
        ) + bytes::le(version.record_ref.segment_id as nat, 8) + bytes::le(
            version.record_ref.offset as nat,
            8,
        ) + bytes::le(version.record_ref.len as nat, 8) + seq![1u8] + bytes::le(head.lsn as nat, 8)
            + bytes::le(head.lifecycle.logical_end_epoch as nat, 8) + bytes::le(
            head.lifecycle.extension_count as nat,
            4,
        ),
{
    let none = Seq::<(ShardKey, BlobVersion)>::empty();
    assert(codec::versions_bytes(none) =~= Seq::<u8>::empty());
    assert(codec::state_bytes(none, None) =~= seq![3u8] + bytes::le(0, 4) + seq![0u8]);
    let one = seq![(shard, version)];
    assert(one.drop_last() =~= none);
    assert(codec::versions_bytes(one) =~= codec::version_bytes((shard, version)));
    assert(codec::state_bytes(one, Some(head)) =~= seq![3u8] + bytes::le(1, 4)
        + codec::shard_bytes(shard) + bytes::le(version.lsn as nat, 8) + bytes::le(
        version.write_epoch as nat,
        8,
    ) + bytes::le(version.record_ref.segment_id as nat, 8) + bytes::le(
        version.record_ref.offset as nat,
        8,
    ) + bytes::le(version.record_ref.len as nat, 8) + seq![1u8] + bytes::le(head.lsn as nat, 8)
        + bytes::le(head.lifecycle.logical_end_epoch as nat, 8) + bytes::le(
        head.lifecycle.extension_count as nat,
        4,
    ));
}

} // verus!
