//! Full merges: a materialized base and the patches on top of it become one state.

use vstd::prelude::*;

use super::codec;
use super::codec::{
    BlobMutation, BlobMutationWithLSN, BlobState, BlobStateView, BlobVersion, FormatError,
};
use super::garbage;
use super::garbage::{BlobKey, GarbageRecord, GarbageRecordView};
use super::snapshot::{BlobCompactionSnapshot, SnapshotView};
use super::state;
use crate::shard_map;
use crate::types::{RecordRef, ShardKey, StrataLsn};

verus! {

/// A value of one LSM row.
#[derive(Clone, Debug, PartialEq, Eq)]
pub enum StoredValue {
    /// Bytes held in the row itself.
    Inline(Vec<u8>),
    /// A payload in a segment, with the metadata written beside it.
    Blob { metadata: Vec<u8>, record_ref: RecordRef },
}

/// What a [`StoredValue`] says.
#[verifier::ext_equal]
pub enum StoredView {
    Inline(Seq<u8>),
    Blob { metadata: Seq<u8>, record_ref: RecordRef },
}

impl View for StoredValue {
    type V = StoredView;

    open spec fn view(&self) -> StoredView {
        match self {
            StoredValue::Inline(bytes) => StoredView::Inline(bytes@),
            StoredValue::Blob { metadata, record_ref } => StoredView::Blob {
                metadata: metadata@,
                record_ref: *record_ref,
            },
        }
    }
}

/// Why rows cannot be merged.
#[derive(Clone, Copy, Debug, PartialEq, Eq, Structural)]
pub enum MergeError {
    Format { error: FormatError },
    /// A materialized state is always inline.
    BaseNotInline,
    /// A relocation would change a payload's length.
    RelocationChangedLength,
}

/// A state under construction, with what was reported on the way.
#[verifier::ext_equal]
pub struct Merging {
    pub state: BlobStateView,
    pub reported: Seq<GarbageRecordView>,
}

/// The state that a base row holds.
pub open spec fn base_state(base: Option<StoredView>) -> Result<BlobStateView, MergeError> {
    match base {
        None => Ok(BlobStateView { versions: Map::empty(), lifetime: None }),
        Some(StoredView::Blob { .. }) => Err(MergeError::BaseNotInline),
        Some(StoredView::Inline(bytes)) => match codec::parse_state(bytes) {
            Ok(state) => Ok(state),
            Err(error) => Err(MergeError::Format { error }),
        },
    }
}

/// The mutations that a patch row holds.
pub open spec fn patch_mutations(lsn: StrataLsn, value: StoredView) -> Result<
    Seq<BlobMutationWithLSN>,
    MergeError,
> {
    match value {
        StoredView::Blob { metadata, record_ref } => match codec::parse_put_metadata(metadata) {
            Ok((shard, write_epoch)) => Ok(
                seq![
                    BlobMutationWithLSN {
                        lsn,
                        mutation: BlobMutation::Put { shard, write_epoch, record_ref },
                    },
                ],
            ),
            Err(error) => Err(MergeError::Format { error }),
        },
        StoredView::Inline(bytes) => match codec::parse_inline(lsn, bytes) {
            Ok(mutations) => Ok(mutations),
            Err(error) => Err(MergeError::Format { error }),
        },
    }
}

/// The listing of a state's versions in shard order.
pub open spec fn listing(versions: Map<ShardKey, BlobVersion>) -> Seq<(ShardKey, BlobVersion)> {
    choose|entries: Seq<(ShardKey, BlobVersion)>|
        shard_map::shard_sorted(entries) && #[trigger] shard_map::shard_map_of(entries) == versions
}

pub proof fn lemma_listing(entries: Seq<(ShardKey, BlobVersion)>)
    requires
        shard_map::shard_sorted(entries),
    ensures
        listing(shard_map::shard_map_of(entries)) == entries,
{
    shard_map::lemma_listing_unique(listing(shard_map::shard_map_of(entries)), entries);
}

/// Mutations applied in order.
pub open spec fn folded(
    key: Seq<u8>,
    start: Merging,
    mutations: Seq<BlobMutationWithLSN>,
) -> Result<Merging, MergeError>
    decreases mutations.len(),
{
    if mutations.len() == 0 {
        Ok(start)
    } else {
        match folded(key, start, mutations.drop_last()) {
            Err(error) => Err(error),
            Ok(merging) => if merging.state.accepts(mutations.last().mutation) {
                Ok(
                    Merging {
                        state: merging.state.applied(mutations.last()),
                        reported: merging.reported + state::reports(
                            key,
                            listing(merging.state.versions),
                            merging.state.lifetime,
                            mutations.last(),
                        ),
                    },
                )
            } else {
                Err(MergeError::RelocationChangedLength)
            },
        }
    }
}

/// Patches applied in order.
pub open spec fn patched(
    key: Seq<u8>,
    start: Merging,
    patches: Seq<(StrataLsn, StoredView)>,
) -> Result<Merging, MergeError>
    decreases patches.len(),
{
    if patches.len() == 0 {
        Ok(start)
    } else {
        match patched(key, start, patches.drop_last()) {
            Err(error) => Err(error),
            Ok(merging) => match patch_mutations(patches.last().0, patches.last().1) {
                Err(error) => Err(error),
                Ok(mutations) => folded(key, merging, mutations),
            },
        }
    }
}

/// Global facts applied last.
pub open spec fn settled(key: Seq<u8>, merging: Merging, snapshot: SnapshotView) -> Merging {
    Merging {
        state: merging.state.pruned(snapshot),
        reported: merging.reported + state::prune_reports(
            key,
            snapshot,
            merging.state.lifetime,
            listing(merging.state.versions),
        ),
    }
}

/// A blob without versions and without a lifetime needs no row.
pub open spec fn is_empty(state: BlobStateView) -> bool {
    state.versions == Map::<ShardKey, BlobVersion>::empty() && state.lifetime is None
}

/// What a full merge makes of a base and the patches on top of it.
pub open spec fn merged(
    key: Seq<u8>,
    base: Option<StoredView>,
    patches: Seq<(StrataLsn, StoredView)>,
    snapshot: SnapshotView,
) -> Result<Merging, MergeError> {
    match base_state(base) {
        Err(error) => Err(error),
        Ok(state) => match patched(key, Merging { state, reported: Seq::empty() }, patches) {
            Err(error) => Err(error),
            Ok(merging) => Ok(settled(key, merging, snapshot)),
        },
    }
}

/// What a list of patches says.
pub open spec fn patches_view(patches: Seq<(StrataLsn, StoredValue)>) -> Seq<
    (StrataLsn, StoredView),
> {
    patches.map_values(|patch: (StrataLsn, StoredValue)| (patch.0, patch.1@))
}

/// Merges one key's base and patches under the global facts of one compaction.
#[derive(Clone, Debug)]
pub struct BlobMerge {
    pub snapshot: BlobCompactionSnapshot,
}

impl BlobMerge {
    pub fn new(snapshot: BlobCompactionSnapshot) -> (merge: BlobMerge)
        ensures
            merge.snapshot == snapshot,
    {
        BlobMerge { snapshot }
    }

    /// The merged state, or nothing where the key needs no row any more, with what is reported to
    /// the garbage log on the way.
    ///
    /// Patches come oldest first.
    pub fn merge(
        &self,
        key: &BlobKey,
        base: Option<&StoredValue>,
        patches: &Vec<(StrataLsn, StoredValue)>,
    ) -> (result: Result<(Option<BlobState>, Vec<GarbageRecord>), MergeError>)
        requires
            self.snapshot.wf(),
        ensures
            match merged(
                key@,
                (match base {
                    None => None,
                    Some(value) => Some(value@),
                }),
                patches_view(patches@),
                self.snapshot@,
            ) {
                Err(error) => result is Err && result->Err_0 == error,
                Ok(merging) => result is Ok && garbage::records_view(result->Ok_0.1@)
                    == merging.reported && match result->Ok_0.0 {
                    None => is_empty(merging.state),
                    Some(state) => !is_empty(merging.state) && state.wf() && state@
                        == merging.state,
                },
            },
    {
        let mut state: BlobState = match base {
            None => BlobState::new(),
            Some(StoredValue::Blob { .. }) => {
                return Err(MergeError::BaseNotInline);
            },
            Some(StoredValue::Inline(bytes)) => match BlobState::decode(bytes.as_slice()) {
                Ok(state) => state,
                Err(error) => {
                    return Err(MergeError::Format { error });
                },
            },
        };
        let ghost start = Merging { state: state@, reported: Seq::empty() };
        let ghost views = patches_view(patches@);
        let mut out: Vec<GarbageRecord> = Vec::new();
        let mut i: usize = 0;
        assert(garbage::records_view(out@) =~= start.reported);
        while i < patches.len()
            invariant
                i <= patches@.len(),
                views == patches_view(patches@),
                state.wf(),
                patched(key@, start, views.take(i as int)) == Ok::<Merging, MergeError>(
                    Merging { state: state@, reported: garbage::records_view(out@) },
                ),
                merged(
                    key@,
                    (match base {
                        None => None,
                        Some(value) => Some(value@),
                    }),
                    views,
                    self.snapshot@,
                ) == (match patched(key@, start, views) {
                    Err(error) => Err(error),
                    Ok(merging) => Ok(settled(key@, merging, self.snapshot@)),
                }),
            decreases patches@.len() - i,
        {
            let ghost before = Merging { state: state@, reported: garbage::records_view(out@) };
            let ghost upto = views.take(i + 1);
            proof {
                assert(upto.drop_last() =~= views.take(i as int));
                assert(upto.last() == (patches@[i as int].0, patches@[i as int].1@));
            }
            let mutations: Vec<BlobMutationWithLSN> = match patch_to_mutations(
                patches[i].0,
                &patches[i].1,
            ) {
                Ok(mutations) => mutations,
                Err(error) => {
                    proof {
                        lemma_patch_error(key@, start, views, i + 1);
                    }
                    return Err(error);
                },
            };
            match fold_mutations(key, &mut state, &mutations, &mut out) {
                Ok(_) => {},
                Err(error) => {
                    proof {
                        lemma_patch_error(key@, start, views, i + 1);
                    }
                    return Err(error);
                },
            }
            i = i + 1;
        }
        assert(views.take(i as int) =~= views);
        proof {
            lemma_listing(state.versions.listed());
        }
        state.prune_with_snapshot(key, &self.snapshot, &mut out);
        if state.versions.is_empty() && state.lifetime.is_none() {
            Ok((None, out))
        } else {
            Ok((Some(state), out))
        }
    }
}

/// A failure among the first patches is the failure of all of them.
proof fn lemma_patch_error(
    key: Seq<u8>,
    start: Merging,
    patches: Seq<(StrataLsn, StoredView)>,
    count: int,
)
    requires
        0 <= count <= patches.len(),
        patched(key, start, patches.take(count)) is Err,
    ensures
        patched(key, start, patches) == patched(key, start, patches.take(count)),
    decreases patches.len(),
{
    if count == patches.len() {
        assert(patches.take(count) =~= patches);
    } else {
        assert(patches.drop_last().take(count) =~= patches.take(count));
        lemma_patch_error(key, start, patches.drop_last(), count);
    }
}

proof fn lemma_fold_error(
    key: Seq<u8>,
    start: Merging,
    mutations: Seq<BlobMutationWithLSN>,
    count: int,
)
    requires
        0 <= count <= mutations.len(),
        folded(key, start, mutations.take(count)) is Err,
    ensures
        folded(key, start, mutations) == folded(key, start, mutations.take(count)),
    decreases mutations.len(),
{
    if count == mutations.len() {
        assert(mutations.take(count) =~= mutations);
    } else {
        assert(mutations.drop_last().take(count) =~= mutations.take(count));
        lemma_fold_error(key, start, mutations.drop_last(), count);
    }
}

/// The mutations that a patch row holds.
fn patch_to_mutations(lsn: StrataLsn, value: &StoredValue) -> (result: Result<
    Vec<BlobMutationWithLSN>,
    MergeError,
>)
    ensures
        match patch_mutations(lsn, value@) {
            Ok(mutations) => result is Ok && result->Ok_0@ == mutations,
            Err(error) => result is Err && result->Err_0 == error,
        },
{
    match value {
        StoredValue::Blob { metadata, record_ref } => match BlobMutation::decode_put_metadata(
            metadata.as_slice(),
            *record_ref,
        ) {
            Ok(mutation) => {
                let mut mutations: Vec<BlobMutationWithLSN> = Vec::new();
                mutations.push(BlobMutationWithLSN { lsn, mutation });
                assert(mutations@ =~= seq![BlobMutationWithLSN { lsn, mutation }]);
                Ok(mutations)
            },
            Err(error) => Err(MergeError::Format { error }),
        },
        StoredValue::Inline(bytes) => match BlobMutationWithLSN::decode_inline(
            lsn,
            bytes.as_slice(),
        ) {
            Ok(mutations) => Ok(mutations),
            Err(error) => Err(MergeError::Format { error }),
        },
    }
}

/// Applies mutations in order.
fn fold_mutations(
    key: &BlobKey,
    state: &mut BlobState,
    mutations: &Vec<BlobMutationWithLSN>,
    out: &mut Vec<GarbageRecord>,
) -> (result: Result<(), MergeError>)
    requires
        old(state).wf(),
    ensures
        final(state).wf(),
        match folded(
            key@,
            Merging { state: old(state)@, reported: garbage::records_view(old(out)@) },
            mutations@,
        ) {
            Ok(merging) => result is Ok && merging.state == final(state)@ && merging.reported
                == garbage::records_view(final(out)@),
            Err(error) => result is Err && result->Err_0 == error,
        },
{
    let ghost start = Merging { state: state@, reported: garbage::records_view(out@) };
    let mut i: usize = 0;
    while i < mutations.len()
        invariant
            i <= mutations@.len(),
            state.wf(),
            start == (Merging {
                state: old(state)@,
                reported: garbage::records_view(old(out)@),
            }),
            folded(key@, start, mutations@.take(i as int)) == Ok::<Merging, MergeError>(
                Merging { state: state@, reported: garbage::records_view(out@) },
            ),
        decreases mutations@.len() - i,
    {
        proof {
            let upto = mutations@.take(i + 1);
            assert(upto.drop_last() =~= mutations@.take(i as int));
            lemma_listing(state.versions.listed());
        }
        match state.apply(key, mutations[i], out) {
            Ok(_) => {},
            Err(_) => {
                proof {
                    lemma_fold_error(key@, start, mutations@, i + 1);
                }
                return Err(MergeError::RelocationChangedLength);
            },
        }
        i = i + 1;
    }
    assert(mutations@.take(i as int) =~= mutations@);
    Ok(())
}

} // verus!
