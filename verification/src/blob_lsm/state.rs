//! The materialized per-blob state machine applied during full merges.

use vstd::prelude::*;

use super::codec::{
    BlobLifetime, BlobMutation, BlobMutationWithLSN, BlobState, BlobStateView, BlobVersion,
};
use super::garbage;
use super::garbage::{
    emit_expired, emit_lifetime_change, emit_retired, BlobKey, GarbageRecord, GarbageRecordView,
};
use super::snapshot::{BlobCompactionSnapshot, SnapshotView};
use crate::shard_map;
use crate::types::{BlobLifecycle, Epoch, RecordRef, ShardKey, StrataLsn};

verus! {

/// The lifecycle that a blob's lifetime gives to one of its versions.
///
/// A version written after the lifetime was set, when that lifetime had already ended, has none.
pub open spec fn effective(lifetime: Option<BlobLifetime>, version: BlobVersion) -> Option<
    BlobLifecycle,
> {
    match lifetime {
        None => None,
        Some(head) => if head.lsn <= version.lsn && head.lifecycle.logical_end_epoch
            <= version.write_epoch {
            None
        } else {
            Some(head.lifecycle)
        },
    }
}

/// The lifecycle that a blob's lifetime gives to one of its versions.
pub fn effective_lifecycle(lifetime: Option<BlobLifetime>, version: &BlobVersion) -> (result: Option<
    BlobLifecycle,
>)
    ensures
        result == effective(lifetime, *version),
{
    match lifetime {
        None => None,
        Some(head) => if head.lsn <= version.lsn && head.lifecycle.logical_end_epoch
            <= version.write_epoch {
            None
        } else {
            Some(head.lifecycle)
        },
    }
}

impl BlobStateView {
    /// What a reader of `shard` sees at `epoch`: the version, unless its lifetime has ended.
    pub open spec fn resolved(self, shard: ShardKey, epoch: Epoch) -> Option<
        (BlobVersion, Option<BlobLifecycle>),
    > {
        if !self.versions.dom().contains(shard) {
            None
        } else {
            let version = self.versions[shard];
            match effective(self.lifetime, version) {
                Some(lifecycle) => if lifecycle.logical_end_epoch <= epoch {
                    None
                } else {
                    Some((version, Some(lifecycle)))
                },
                None => Some((version, None)),
            }
        }
    }

    /// Whether the blob's lifetime had ended at `epoch`.
    pub open spec fn lifetime_ended(self, epoch: Epoch) -> bool {
        self.lifetime matches Some(head) && head.lifecycle.logical_end_epoch <= epoch
    }

    /// The lifetime that a request at `lsn` and `epoch` sets: a running one is extended, an ended
    /// one is replaced.
    pub open spec fn next_lifetime(self, lsn: StrataLsn, end: Epoch, epoch: Epoch) -> BlobLifetime {
        BlobLifetime {
            lsn,
            lifecycle: BlobLifecycle {
                logical_end_epoch: end,
                extension_count: match self.lifetime {
                    None => 0,
                    Some(head) => if head.lifecycle.logical_end_epoch <= epoch {
                        0
                    } else if head.lifecycle.extension_count == u32::MAX {
                        u32::MAX
                    } else {
                        (head.lifecycle.extension_count + 1) as u32
                    },
                },
            },
        }
    }

    /// Whether a relocation is for the version that the state still holds.
    pub open spec fn relocation_applies(self, shard: ShardKey, payload_lsn: StrataLsn) -> bool {
        self.versions.dom().contains(shard) && self.versions[shard].lsn == payload_lsn
    }

    /// A relocation must not change a payload's length.
    pub open spec fn accepts(self, mutation: BlobMutation) -> bool {
        match mutation {
            BlobMutation::Relocate { shard, payload_lsn, to } => self.relocation_applies(
                shard,
                payload_lsn,
            ) ==> self.versions[shard].record_ref.len == to.len,
            _ => true,
        }
    }

    /// The state after a mutation.
    pub open spec fn applied(self, change: BlobMutationWithLSN) -> BlobStateView {
        match change.mutation {
            BlobMutation::Put { shard, write_epoch, record_ref } => BlobStateView {
                versions: self.versions.insert(
                    shard,
                    BlobVersion { lsn: change.lsn, write_epoch, record_ref },
                ),
                ..self
            },
            BlobMutation::SetLifetime { logical_end_epoch, current_epoch } => BlobStateView {
                versions: if self.lifetime_ended(current_epoch) {
                    Map::empty()
                } else {
                    self.versions
                },
                lifetime: Some(self.next_lifetime(change.lsn, logical_end_epoch, current_epoch)),
            },
            BlobMutation::Tombstone { shard } => BlobStateView {
                versions: self.versions.remove(shard),
                ..self
            },
            BlobMutation::Relocate { shard, payload_lsn, to } => if self.relocation_applies(
                shard,
                payload_lsn,
            ) {
                BlobStateView {
                    versions: self.versions.insert(
                        shard,
                        BlobVersion { record_ref: to, ..self.versions[shard] },
                    ),
                    ..self
                }
            } else {
                self
            },
        }
    }
}

/// Reports that every listed version ended with the lifetime before.
pub open spec fn expiry_reports(
    key: Seq<u8>,
    lsn: StrataLsn,
    lifetime: Option<BlobLifetime>,
    entries: Seq<(ShardKey, BlobVersion)>,
) -> Seq<GarbageRecordView> {
    entries.map_values(
        |entry: (ShardKey, BlobVersion)|
            garbage::expired(key, lsn, entry.1.record_ref, effective(lifetime, entry.1)),
    )
}

/// Reports every listed version whose lifecycle changes with the lifetime, in shard order.
pub open spec fn extension_reports(
    key: Seq<u8>,
    lsn: StrataLsn,
    before: Option<BlobLifetime>,
    after: Option<BlobLifetime>,
    entries: Seq<(ShardKey, BlobVersion)>,
) -> Seq<GarbageRecordView>
    decreases entries.len(),
{
    if entries.len() == 0 {
        Seq::empty()
    } else {
        let earlier = extension_reports(key, lsn, before, after, entries.drop_last());
        let version = entries.last().1;
        if effective(before, version) == effective(after, version) {
            earlier
        } else {
            earlier.push(
                garbage::lifetime_change(
                    key,
                    lsn,
                    version,
                    effective(before, version),
                    effective(after, version),
                ),
            )
        }
    }
}

/// What a newly placed payload reports: its lifecycle, where it has one.
pub open spec fn placement_report(
    key: Seq<u8>,
    lsn: StrataLsn,
    lifetime: Option<BlobLifetime>,
    version: BlobVersion,
) -> Seq<GarbageRecordView> {
    match effective(lifetime, version) {
        None => Seq::empty(),
        Some(lifecycle) => seq![
            garbage::lifetime_change(key, lsn, version, None, Some(lifecycle)),
        ],
    }
}

/// What a version that leaves its shard reports, where there is one.
pub open spec fn retirement_report(
    key: Seq<u8>,
    lsn: StrataLsn,
    state: BlobStateView,
    shard: ShardKey,
) -> Seq<GarbageRecordView> {
    if state.versions.dom().contains(shard) {
        let version = state.versions[shard];
        seq![garbage::retired(key, lsn, version.record_ref, effective(state.lifetime, version))]
    } else {
        Seq::empty()
    }
}

/// What a mutation reports to the garbage log.
pub open spec fn reports(
    key: Seq<u8>,
    entries: Seq<(ShardKey, BlobVersion)>,
    lifetime: Option<BlobLifetime>,
    change: BlobMutationWithLSN,
) -> Seq<GarbageRecordView> {
    let state = BlobStateView { versions: shard_map::shard_map_of(entries), lifetime };
    match change.mutation {
        BlobMutation::Put { shard, write_epoch, record_ref } => retirement_report(
            key,
            change.lsn,
            state,
            shard,
        ) + placement_report(
            key,
            change.lsn,
            lifetime,
            BlobVersion { lsn: change.lsn, write_epoch, record_ref },
        ),
        BlobMutation::SetLifetime { logical_end_epoch, current_epoch } => if state.lifetime_ended(
            current_epoch,
        ) {
            expiry_reports(key, change.lsn, lifetime, entries)
        } else {
            extension_reports(
                key,
                change.lsn,
                lifetime,
                Some(state.next_lifetime(change.lsn, logical_end_epoch, current_epoch)),
                entries,
            )
        },
        BlobMutation::Tombstone { shard } => retirement_report(key, change.lsn, state, shard),
        BlobMutation::Relocate { shard, payload_lsn, to } => if state.relocation_applies(
            shard,
            payload_lsn,
        ) && state.versions[shard].record_ref != to {
            placement_report(
                key,
                change.lsn,
                lifetime,
                BlobVersion { record_ref: to, ..state.versions[shard] },
            )
        } else {
            Seq::empty()
        },
    }
}

/// What becomes of one version when global facts are applied to it.
pub enum Fate {
    Kept,
    /// Gone, and already accounted for.
    Dropped,
    Retired { lsn: StrataLsn },
    Expired { lsn: StrataLsn },
}

/// A fenced shard's versions are retired, unless their segment was reclaimed as a whole. A version
/// whose lifetime ended expires at the transition that ended it. Transitions from before garbage
/// was reported take versions away silently.
pub open spec fn fate(
    snapshot: SnapshotView,
    lifetime: Option<BlobLifetime>,
    shard: ShardKey,
    version: BlobVersion,
) -> Fate {
    match snapshot.shard_retirement(shard) {
        Some(transition) => if transition.emit_garbage && !snapshot.bulk_reclaimed(
            version.record_ref.segment_id,
            shard,
        ) {
            Fate::Retired { lsn: transition.lsn }
        } else {
            Fate::Dropped
        },
        None => match effective(lifetime, version) {
            None => Fate::Kept,
            Some(lifecycle) => match snapshot.expiry(lifecycle.logical_end_epoch) {
                None => Fate::Kept,
                Some(transition) => if transition.emit_garbage {
                    Fate::Expired { lsn: transition.lsn }
                } else {
                    Fate::Dropped
                },
            },
        },
    }
}

impl BlobStateView {
    /// The state without the versions that global facts end.
    pub open spec fn pruned(self, snapshot: SnapshotView) -> BlobStateView {
        BlobStateView {
            versions: Map::new(
                |shard: ShardKey|
                    self.versions.dom().contains(shard) && fate(
                        snapshot,
                        self.lifetime,
                        shard,
                        self.versions[shard],
                    ) is Kept,
                |shard: ShardKey| self.versions[shard],
            ),
            ..self
        }
    }
}

/// What one version reports when global facts are applied to it.
pub open spec fn fate_report(
    key: Seq<u8>,
    snapshot: SnapshotView,
    lifetime: Option<BlobLifetime>,
    entry: (ShardKey, BlobVersion),
) -> Seq<GarbageRecordView> {
    let record = entry.1.record_ref;
    match fate(snapshot, lifetime, entry.0, entry.1) {
        Fate::Kept => Seq::empty(),
        Fate::Dropped => Seq::empty(),
        Fate::Retired { lsn } => seq![
            garbage::retired(key, lsn, record, effective(lifetime, entry.1)),
        ],
        Fate::Expired { lsn } => seq![
            garbage::expired(key, lsn, record, effective(lifetime, entry.1)),
        ],
    }
}

/// What pruning reports, in shard order.
pub open spec fn prune_reports(
    key: Seq<u8>,
    snapshot: SnapshotView,
    lifetime: Option<BlobLifetime>,
    entries: Seq<(ShardKey, BlobVersion)>,
) -> Seq<GarbageRecordView>
    decreases entries.len(),
{
    if entries.len() == 0 {
        Seq::empty()
    } else {
        prune_reports(key, snapshot, lifetime, entries.drop_last()) + fate_report(
            key,
            snapshot,
            lifetime,
            entries.last(),
        )
    }
}

/// A relocation that would change a payload's length.
#[derive(Clone, Copy, Debug, PartialEq, Eq, Structural)]
pub struct RelocationChangedLength {
    pub shard: ShardKey,
}

impl RelocationChangedLength {
    /// The error in words.
    pub fn message(&self) -> (words: String)
        ensures
            words@ == "invalid Store blob encoding: relocation changed the payload length"@,
    {
        "invalid Store blob encoding: relocation changed the payload length".to_owned()
    }
}

impl BlobState {
    /// Resolves one shard at the current epoch.
    pub fn resolve(&self, shard: ShardKey, current_epoch: Epoch) -> (result: Option<
        (&BlobVersion, Option<BlobLifecycle>),
    >)
        requires
            self.wf(),
        ensures
            match result {
                Some((version, lifecycle)) => self@.resolved(shard, current_epoch) == Some(
                    (*version, lifecycle),
                ),
                None => self@.resolved(shard, current_epoch) is None,
            },
    {
        match self.versions.get(&shard) {
            None => None,
            Some(version) => {
                let lifecycle: Option<BlobLifecycle> = effective_lifecycle(self.lifetime, version);
                if let Some(known) = lifecycle {
                    if known.logical_end_epoch <= current_epoch {
                        return None;
                    }
                }
                Some((version, lifecycle))
            },
        }
    }

    /// Applies one mutation and reports what it makes garbage of.
    ///
    /// Refused, with nothing changed or reported, only where a relocation would change a
    /// payload's length.
    pub fn apply(
        &mut self,
        key: &BlobKey,
        change: BlobMutationWithLSN,
        out: &mut Vec<GarbageRecord>,
    ) -> (result: Result<(), RelocationChangedLength>)
        requires
            old(self).wf(),
        ensures
            final(self).wf(),
            result is Ok <==> old(self)@.accepts(change.mutation),
            match result {
                Ok(_) => final(self)@ == old(self)@.applied(change) && garbage::records_view(
                    final(out)@,
                ) == garbage::records_view(old(out)@) + reports(
                    key@,
                    old(self).versions.listed(),
                    old(self).lifetime,
                    change,
                ),
                Err(error) => *final(self) == *old(self) && final(out)@ == old(out)@ && (
                change.mutation matches BlobMutation::Relocate { shard, .. } && error.shard
                    == shard),
            },
    {
        let lsn: u64 = change.lsn;
        match change.mutation {
            BlobMutation::Put { shard, write_epoch, record_ref } => {
                self.put(key, lsn, shard, write_epoch, record_ref, out);
                Ok(())
            },
            BlobMutation::SetLifetime { logical_end_epoch, current_epoch } => {
                self.set_lifetime(key, lsn, logical_end_epoch, current_epoch, out);
                Ok(())
            },
            BlobMutation::Tombstone { shard } => {
                self.tombstone(key, lsn, shard, out);
                Ok(())
            },
            BlobMutation::Relocate { shard, payload_lsn, to } => self.relocate(
                key,
                lsn,
                shard,
                payload_lsn,
                to,
                out,
            ),
        }
    }

    fn put(
        &mut self,
        key: &BlobKey,
        lsn: StrataLsn,
        shard: ShardKey,
        write_epoch: Epoch,
        record_ref: RecordRef,
        out: &mut Vec<GarbageRecord>,
    )
        requires
            old(self).wf(),
        ensures
            final(self).wf(),
            final(self)@ == old(self)@.applied(
                BlobMutationWithLSN {
                    lsn,
                    mutation: BlobMutation::Put { shard, write_epoch, record_ref },
                },
            ),
            garbage::records_view(final(out)@) == garbage::records_view(old(out)@) + (
            retirement_report(key@, lsn, old(self)@, shard) + placement_report(
                key@,
                lsn,
                old(self).lifetime,
                BlobVersion { lsn, write_epoch, record_ref },
            )),
    {
        let next = BlobVersion { lsn, write_epoch, record_ref };
        let ghost before = garbage::records_view(out@);
        if let Some(previous) = self.versions.insert(shard, next) {
            emit_retired(
                key,
                lsn,
                previous.record_ref,
                effective_lifecycle(self.lifetime, &previous),
                out,
            );
        }
        let ghost between = garbage::records_view(out@);
        assert(between =~= before + retirement_report(key@, lsn, old(self)@, shard));
        if let Some(lifecycle) = effective_lifecycle(self.lifetime, &next) {
            emit_lifetime_change(key, lsn, next, None, Some(lifecycle), out);
        }
        assert(garbage::records_view(out@) =~= between + placement_report(
            key@,
            lsn,
            old(self).lifetime,
            next,
        ));
        assert(garbage::records_view(out@) =~= before + (retirement_report(
            key@,
            lsn,
            old(self)@,
            shard,
        ) + placement_report(key@, lsn, old(self).lifetime, next)));
        assert(self@ =~= old(self)@.applied(
            BlobMutationWithLSN {
                lsn,
                mutation: BlobMutation::Put { shard, write_epoch, record_ref },
            },
        ));
    }

    fn tombstone(
        &mut self,
        key: &BlobKey,
        lsn: StrataLsn,
        shard: ShardKey,
        out: &mut Vec<GarbageRecord>,
    )
        requires
            old(self).wf(),
        ensures
            final(self).wf(),
            final(self)@ == old(self)@.applied(
                BlobMutationWithLSN { lsn, mutation: BlobMutation::Tombstone { shard } },
            ),
            garbage::records_view(final(out)@) == garbage::records_view(old(out)@)
                + retirement_report(key@, lsn, old(self)@, shard),
    {
        if let Some(version) = self.versions.remove(&shard) {
            emit_retired(
                key,
                lsn,
                version.record_ref,
                effective_lifecycle(self.lifetime, &version),
                out,
            );
        }
        assert(garbage::records_view(out@) =~= garbage::records_view(old(out)@)
            + retirement_report(key@, lsn, old(self)@, shard));
        assert(self@ =~= old(self)@.applied(
            BlobMutationWithLSN { lsn, mutation: BlobMutation::Tombstone { shard } },
        ));
    }

    /// Sets the blob's lifetime.
    ///
    /// A lifetime written after the previous one ended does not revive the ended versions.
    fn set_lifetime(
        &mut self,
        key: &BlobKey,
        lsn: StrataLsn,
        logical_end_epoch: Epoch,
        current_epoch: Epoch,
        out: &mut Vec<GarbageRecord>,
    )
        requires
            old(self).wf(),
        ensures
            final(self).wf(),
            final(self)@ == old(self)@.applied(
                BlobMutationWithLSN {
                    lsn,
                    mutation: BlobMutation::SetLifetime { logical_end_epoch, current_epoch },
                },
            ),
            garbage::records_view(final(out)@) == garbage::records_view(old(out)@) + reports(
                key@,
                old(self).versions.listed(),
                old(self).lifetime,
                BlobMutationWithLSN {
                    lsn,
                    mutation: BlobMutation::SetLifetime { logical_end_epoch, current_epoch },
                },
            ),
    {
        let previous: Option<BlobLifetime> = self.lifetime;
        let mut previous_ended: bool = false;
        let mut extension_count: u32 = 0;
        if let Some(head) = previous {
            if head.lifecycle.logical_end_epoch <= current_epoch {
                previous_ended = true;
            } else {
                extension_count = head.lifecycle.extension_count.saturating_add(1);
            }
        }
        let next = BlobLifetime {
            lsn,
            lifecycle: BlobLifecycle { logical_end_epoch, extension_count },
        };
        let ghost entries = self.versions.listed();
        let ghost before = garbage::records_view(out@);
        let count: usize = self.versions.len();
        let mut i: usize = 0;
        assert(before =~= before + expiry_reports(key@, lsn, previous, entries.take(0)));
        assert(before =~= before + extension_reports(
            key@,
            lsn,
            previous,
            Some(next),
            entries.take(0),
        ));
        while i < count
            invariant
                i <= count,
                count == entries.len(),
                entries == self.versions.listed(),
                previous_ended ==> garbage::records_view(out@) == before + expiry_reports(
                    key@,
                    lsn,
                    previous,
                    entries.take(i as int),
                ),
                !previous_ended ==> garbage::records_view(out@) == before + extension_reports(
                    key@,
                    lsn,
                    previous,
                    Some(next),
                    entries.take(i as int),
                ),
            decreases count - i,
        {
            let version: BlobVersion = *self.versions.value_at(i);
            let had: Option<BlobLifecycle> = effective_lifecycle(previous, &version);
            let ghost upto = entries.take(i + 1);
            assert(upto.drop_last() =~= entries.take(i as int));
            assert(upto.last().1 == version);
            let ghost so_far = garbage::records_view(out@);
            if previous_ended {
                emit_expired(key, lsn, version.record_ref, had, out);
                proof {
                    let done = expiry_reports(key@, lsn, previous, entries.take(i as int));
                    assert(expiry_reports(key@, lsn, previous, upto) =~= done.push(
                        garbage::expired(key@, lsn, version.record_ref, had),
                    ));
                    assert(garbage::records_view(out@) =~= before + expiry_reports(
                        key@,
                        lsn,
                        previous,
                        upto,
                    ));
                }
            } else {
                let has: Option<BlobLifecycle> = effective_lifecycle(Some(next), &version);
                if !same_lifecycle(had, has) {
                    emit_lifetime_change(key, lsn, version, had, has, out);
                }
                assert(garbage::records_view(out@) =~= before + extension_reports(
                    key@,
                    lsn,
                    previous,
                    Some(next),
                    upto,
                ));
            }
            i = i + 1;
        }
        assert(entries.take(count as int) =~= entries);
        if previous_ended {
            self.versions.clear();
        }
        self.lifetime = Some(next);
        assert(self@ =~= old(self)@.applied(
            BlobMutationWithLSN {
                lsn,
                mutation: BlobMutation::SetLifetime { logical_end_epoch, current_epoch },
            },
        ));
    }

    /// Applies a relocation of one payload.
    ///
    /// Only the version whose LSN still matches is moved, and moving it republishes its lifecycle
    /// for the destination bytes. A relocation of a superseded, tombstoned or expired version is
    /// dropped.
    fn relocate(
        &mut self,
        key: &BlobKey,
        lsn: StrataLsn,
        shard: ShardKey,
        payload_lsn: StrataLsn,
        to: RecordRef,
        out: &mut Vec<GarbageRecord>,
    ) -> (result: Result<(), RelocationChangedLength>)
        requires
            old(self).wf(),
        ensures
            final(self).wf(),
            result is Ok <==> old(self)@.accepts(BlobMutation::Relocate { shard, payload_lsn, to }),
            match result {
                Ok(_) => final(self)@ == old(self)@.applied(
                    BlobMutationWithLSN {
                        lsn,
                        mutation: BlobMutation::Relocate { shard, payload_lsn, to },
                    },
                ) && garbage::records_view(final(out)@) == garbage::records_view(old(out)@)
                    + reports(
                    key@,
                    old(self).versions.listed(),
                    old(self).lifetime,
                    BlobMutationWithLSN {
                        lsn,
                        mutation: BlobMutation::Relocate { shard, payload_lsn, to },
                    },
                ),
                Err(error) => *final(self) == *old(self) && final(out)@ == old(out)@ && error.shard
                    == shard,
            },
    {
        let ghost change = BlobMutationWithLSN {
            lsn,
            mutation: BlobMutation::Relocate { shard, payload_lsn, to },
        };
        assert(garbage::records_view(out@) + Seq::empty() =~= garbage::records_view(out@));
        let version: BlobVersion = match self.versions.get(&shard) {
            None => {
                return Ok(());
            },
            Some(version) => *version,
        };
        if version.lsn != payload_lsn {
            return Ok(());
        }
        if version.record_ref.len != to.len {
            return Err(RelocationChangedLength { shard });
        }
        if version.record_ref == to {
            assert(self@ =~= old(self)@.applied(change));
            return Ok(());
        }
        let moved = BlobVersion {
            lsn: version.lsn,
            write_epoch: version.write_epoch,
            record_ref: to,
        };
        let _ = self.versions.insert(shard, moved);
        if let Some(lifecycle) = effective_lifecycle(self.lifetime, &moved) {
            emit_lifetime_change(key, lsn, moved, None, Some(lifecycle), out);
        }
        assert(self@ =~= old(self)@.applied(change));
        assert(garbage::records_view(out@) =~= garbage::records_view(old(out)@)
            + placement_report(key@, lsn, old(self).lifetime, moved));
        Ok(())
    }

    /// Removes the versions that global facts end, and reports them.
    pub fn prune_with_snapshot(
        &mut self,
        key: &BlobKey,
        snapshot: &BlobCompactionSnapshot,
        out: &mut Vec<GarbageRecord>,
    )
        requires
            old(self).wf(),
            snapshot.wf(),
        ensures
            final(self).wf(),
            final(self)@ == old(self)@.pruned(snapshot@),
            garbage::records_view(final(out)@) == garbage::records_view(old(out)@)
                + prune_reports(
                key@,
                snapshot@,
                old(self).lifetime,
                old(self).versions.listed(),
            ),
    {
        let ghost entries = self.versions.listed();
        let ghost all = self.versions@;
        let ghost lifetime = self.lifetime;
        let ghost before = garbage::records_view(out@);
        let shards: Vec<ShardKey> = self.shards();
        let mut i: usize = 0;
        assert(before =~= before + prune_reports(key@, snapshot@, lifetime, entries.take(0)));
        while i < shards.len()
            invariant
                i <= shards@.len(),
                shards@.len() == entries.len(),
                shard_map::shard_sorted(entries),
                all == shard_map::shard_map_of(entries),
                forall|j: int| 0 <= j < entries.len() ==> #[trigger] shards@[j] == entries[j].0,
                self.wf(),
                snapshot.wf(),
                self.lifetime == lifetime,
                // What is left is what was there, less the versions judged so far that were ended.
                forall|shard: ShardKey| #[trigger]
                    self.versions@.dom().contains(shard) <==> all.dom().contains(shard) && (fate(
                        snapshot@,
                        lifetime,
                        shard,
                        all[shard],
                    ) is Kept || !judged(entries, i as int, shard)),
                forall|shard: ShardKey| #[trigger]
                    self.versions@.dom().contains(shard) ==> self.versions@[shard] == all[shard],
                garbage::records_view(out@) == before + prune_reports(
                    key@,
                    snapshot@,
                    lifetime,
                    entries.take(i as int),
                ),
            decreases shards@.len() - i,
        {
            let shard: ShardKey = shards[i];
            let ghost upto = entries.take(i + 1);
            proof {
                shard_map::lemma_sorted_entry(entries, i as int);
                lemma_judged_step(entries, i as int);
                assert(upto.drop_last() =~= entries.take(i as int));
                assert(upto.last() == entries[i as int]);
                assert(!judged(entries, i as int, shard));
                assert(self.versions@.dom().contains(shard));
            }
            let ghost so_far = garbage::records_view(out@);
            let version: BlobVersion = match self.versions.get(&shard) {
                Some(version) => *version,
                None => {
                    assert(false);
                    return ;
                },
            };
            assert(entries[i as int] == (shard, version));
            let lifecycle: Option<BlobLifecycle> = effective_lifecycle(self.lifetime, &version);
            if let Some(transition) = snapshot.shard_retirement(shard) {
                let _ = self.versions.remove(&shard);
                let reclaimed: bool = snapshot.bulk_reclaimed(version.record_ref.segment_id, shard);
                if transition.emit_garbage && !reclaimed {
                    emit_retired(key, transition.lsn, version.record_ref, lifecycle, out);
                }
            } else if let Some(known) = lifecycle {
                if let Some(transition) = snapshot.expiry(known.logical_end_epoch) {
                    let _ = self.versions.remove(&shard);
                    if transition.emit_garbage {
                        emit_expired(key, transition.lsn, version.record_ref, lifecycle, out);
                    }
                }
            }
            assert(garbage::records_view(out@) =~= so_far + fate_report(
                key@,
                snapshot@,
                lifetime,
                (shard, version),
            ));
            assert(garbage::records_view(out@) =~= before + prune_reports(
                key@,
                snapshot@,
                lifetime,
                upto,
            ));
            i = i + 1;
        }
        proof {
            assert(entries.take(entries.len() as int) =~= entries);
            assert forall|shard: ShardKey| all.dom().contains(shard) implies judged(
                entries,
                entries.len() as int,
                shard,
            ) by {
                assert(shard_map::has_shard(entries, shard));
            }
            assert(self@ =~= old(self)@.pruned(snapshot@));
        }
    }

    /// The shards that have a version, in order.
    fn shards(&self) -> (shards: Vec<ShardKey>)
        ensures
            shards@.len() == self.versions.listed().len(),
            forall|j: int|
                0 <= j < shards@.len() ==> #[trigger] shards@[j] == self.versions.listed()[j].0,
    {
        let mut shards: Vec<ShardKey> = Vec::new();
        let mut i: usize = 0;
        while i < self.versions.len()
            invariant
                i == shards@.len(),
                i <= self.versions.listed().len(),
                forall|j: int|
                    0 <= j < shards@.len() ==> #[trigger] shards@[j] == self.versions.listed()[j].0,
            decreases self.versions.listed().len() - i,
        {
            shards.push(self.versions.shard_at(i));
            i = i + 1;
        }
        shards
    }
}

/// Whether `shard` is among the first `count` entries.
spec fn judged(entries: Seq<(ShardKey, BlobVersion)>, count: int, shard: ShardKey) -> bool {
    exists|j: int| 0 <= j < count && (#[trigger] entries[j]).0 == shard
}

proof fn lemma_judged_step(entries: Seq<(ShardKey, BlobVersion)>, count: int)
    requires
        shard_map::shard_sorted(entries),
        0 <= count < entries.len(),
    ensures
        !judged(entries, count, entries[count].0),
        forall|shard: ShardKey| #[trigger]
            judged(entries, count + 1, shard) <==> judged(entries, count, shard) || shard
                == entries[count].0,
{
    assert forall|shard: ShardKey| #[trigger]
        judged(entries, count + 1, shard) <==> judged(entries, count, shard) || shard
            == entries[count].0 by {
        if judged(entries, count + 1, shard) && shard != entries[count].0 {
            let j = choose|j: int| 0 <= j < count + 1 && (#[trigger] entries[j]).0 == shard;
            assert(0 <= j < count && entries[j].0 == shard);
        }
        if judged(entries, count, shard) {
            let j = choose|j: int| 0 <= j < count && (#[trigger] entries[j]).0 == shard;
            assert(0 <= j < count + 1 && entries[j].0 == shard);
        }
        assert(entries[count].0 == entries[count].0);
    }
    if judged(entries, count, entries[count].0) {
        let j = choose|j: int| 0 <= j < count && (#[trigger] entries[j]).0 == entries[count].0;
        assert(entries[j].0.spec_before(entries[count].0));
    }
}

fn same_lifecycle(left: Option<BlobLifecycle>, right: Option<BlobLifecycle>) -> (same: bool)
    ensures
        same == (left == right),
{
    match (left, right) {
        (None, None) => true,
        (Some(a), Some(b)) => a == b,
        _ => false,
    }
}

} // verus!
