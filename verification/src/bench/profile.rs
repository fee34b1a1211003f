//! The relocation profile: which keys are read after collection moved them, and whether reads took
//! the path that each pass is about. Times are in nanoseconds.

use vstd::prelude::*;

use crate::config::GcPlannerConfig;
use crate::gc::outputs::has_id;
use crate::keys;
use crate::keys::is_key_before;
use crate::sorting;
use crate::sorting::{sort, Precedes};
use crate::types::SegmentId;

verus! {

impl Precedes for Vec<u8> {
    open spec fn precedes(self, other: Vec<u8>) -> bool {
        keys::key_before(self@, other@)
    }

    proof fn order_is_weak(a: Vec<u8>, b: Vec<u8>, c: Vec<u8>) {
        keys::lemma_key_order(a@, b@, c@);
    }

    fn comes_before(&self, other: &Vec<u8>) -> bool {
        is_key_before(self, other)
    }
}

/// What comes of waiting for the store's patches to be folded.
#[derive(Clone, Copy, Debug, PartialEq, Eq, Structural)]
pub enum DrainStep {
    /// There is nothing to collect: the profile is empty.
    NoSegments,
    Proceed,
    TimedOut,
    Wait,
}

/// Decides whether collection can start: once no patch is left, and only where a segment is
/// sealed.
pub fn drain_step(has_sealed: bool, patches: usize, now: u128, deadline: u128) -> (step: DrainStep)
    ensures
        step == (if patches == 0 {
            if has_sealed {
                DrainStep::Proceed
            } else {
                DrainStep::NoSegments
            }
        } else if now >= deadline {
            DrainStep::TimedOut
        } else {
            DrainStep::Wait
        }),
{
    if patches == 0 {
        if has_sealed {
            DrainStep::Proceed
        } else {
            DrainStep::NoSegments
        }
    } else if now >= deadline {
        DrainStep::TimedOut
    } else {
        DrainStep::Wait
    }
}

/// A key that collection moved, and the segment that it left.
#[derive(Clone, Debug)]
pub struct MovedKey {
    pub key: Vec<u8>,
    pub source: SegmentId,
}

/// Whether a key is among those that were moved.
pub open spec fn has_moved(moved: Seq<MovedKey>, key: Seq<u8>) -> bool {
    exists|i: int| 0 <= i < moved.len() && (#[trigger] moved[i]).key@ == key
}

fn was_moved(moved: &Vec<MovedKey>, key: &Vec<u8>) -> (result: bool)
    ensures
        result == has_moved(moved@, key@),
{
    let mut i: usize = 0;
    while i < moved.len()
        invariant
            i <= moved@.len(),
            forall|k: int| 0 <= k < i ==> (#[trigger] moved@[k]).key@ != key@,
        decreases moved@.len() - i,
    {
        if !is_key_before(&moved[i].key, key) && !is_key_before(key, &moved[i].key) {
            proof {
                keys::lemma_key_order(moved@[i as int].key@, key@, key@);
            }
            return true;
        }
        proof {
            keys::lemma_key_order(key@, key@, key@);
        }
        i = i + 1;
    }
    false
}

/// The moved keys after one more batch: each key stays with its first move.
pub open spec fn with_moves(moved: Seq<MovedKey>, batch: Seq<MovedKey>) -> Seq<MovedKey>
    decreases batch.len(),
{
    if batch.len() == 0 {
        moved
    } else {
        let before = with_moves(moved, batch.drop_last());
        if has_moved(before, batch.last().key@) {
            before
        } else {
            before.push(batch.last())
        }
    }
}

/// Batches of relocations that are to be flushed to tables of their own.
pub const PROFILE_FLUSHES: u64 = 8;

/// Attempts in a row that may find nothing to collect.
pub const PROFILE_EMPTY_ATTEMPTS: u32 = 10;

/// What one attempt to collect brought.
pub enum GcAttempt {
    /// There was nothing to plan.
    Nothing,
    /// A plan was carried out; the keys that it moved, if any.
    Ran { moved: Vec<MovedKey> },
}

/// What to do after an attempt.
#[derive(Clone, Copy, Debug, PartialEq, Eq, Structural)]
pub enum AfterAttempt {
    /// Sync the store, and flush the relocations once they are old enough.
    SyncAndFlush,
    Pause,
    LongPause,
    GiveUp,
}

/// Collection for the profile, as far as it has come.
pub struct RelocationMoves {
    pub moved: Vec<MovedKey>,
    pub move_batches: u64,
    pub flushed_batches: u64,
    pub empty_attempts: u32,
}

impl RelocationMoves {
    pub fn begin() -> (moves: RelocationMoves)
        ensures
            moves.moved@ == Seq::<MovedKey>::empty(),
            moves.move_batches == 0,
            moves.flushed_batches == 0,
            moves.empty_attempts == 0,
    {
        RelocationMoves {
            moved: Vec::new(),
            move_batches: 0,
            flushed_batches: 0,
            empty_attempts: 0,
        }
    }

    /// Whether another attempt is to be made: until there are enough keys, in enough tables.
    pub fn wants_more(&self, sample_size: usize, now: u128, deadline: u128) -> (result: bool)
        ensures
            result == (now < deadline && (self.moved@.len() < sample_size || self.flushed_batches
                < PROFILE_FLUSHES)),
    {
        now < deadline && (self.moved.len() < sample_size || self.flushed_batches
            < PROFILE_FLUSHES)
    }

    /// Takes in what an attempt brought.
    pub fn attempted(&mut self, attempt: GcAttempt) -> (next: AfterAttempt)
        requires
            old(self).empty_attempts < PROFILE_EMPTY_ATTEMPTS,
            old(self).move_batches < u64::MAX,
        ensures
            final(self).flushed_batches == old(self).flushed_batches,
            match attempt {
                GcAttempt::Nothing => {
                    &&& final(self).moved@ == old(self).moved@
                    &&& final(self).move_batches == old(self).move_batches
                    &&& final(self).empty_attempts == old(self).empty_attempts + 1
                    &&& next == (if final(self).empty_attempts >= PROFILE_EMPTY_ATTEMPTS {
                        AfterAttempt::GiveUp
                    } else {
                        AfterAttempt::LongPause
                    })
                },
                GcAttempt::Ran { moved } => {
                    &&& final(self).moved@ == with_moves(old(self).moved@, moved@)
                    &&& final(self).empty_attempts == 0
                    &&& final(self).move_batches == old(self).move_batches + (if moved@.len() == 0 {
                        0int
                    } else {
                        1int
                    })
                    &&& next == (if moved@.len() == 0 {
                        AfterAttempt::Pause
                    } else {
                        AfterAttempt::SyncAndFlush
                    })
                },
            },
    {
        match attempt {
            GcAttempt::Nothing => {
                self.empty_attempts = self.empty_attempts + 1;
                if self.empty_attempts >= PROFILE_EMPTY_ATTEMPTS {
                    AfterAttempt::GiveUp
                } else {
                    AfterAttempt::LongPause
                }
            },
            GcAttempt::Ran { moved } => {
                self.empty_attempts = 0;
                if moved.len() == 0 {
                    return AfterAttempt::Pause;
                }
                self.move_batches = self.move_batches + 1;
                let ghost start = self.moved@;
                let ghost batch = moved@;
                let ghost batches = self.move_batches;
                let ghost flushed = self.flushed_batches;
                assert(batch.take(0) =~= Seq::<MovedKey>::empty());
                for record in it: moved
                    invariant
                        it.seq() == batch,
                        self.moved@ == with_moves(start, batch.take(it.index() as int)),
                        self.move_batches == batches,
                        self.flushed_batches == flushed,
                        self.empty_attempts == 0,
                {
                    let ghost i = it.index() as int;
                    assert(batch.take(i + 1).drop_last() =~= batch.take(i));
                    assert(batch.take(i + 1).last() == record);
                    if !was_moved(&self.moved, &record.key) {
                        self.moved.push(record);
                    }
                }
                assert(batch.take(batch.len() as int) =~= batch);
                AfterAttempt::SyncAndFlush
            },
        }
    }

    /// Takes in whether relocations were flushed.
    pub fn flushed(&mut self, flushed: bool)
        requires
            old(self).flushed_batches < u64::MAX,
        ensures
            final(self).flushed_batches == old(self).flushed_batches + (if flushed {
                1int
            } else {
                0int
            }),
            final(self).moved@ == old(self).moved@,
            final(self).move_batches == old(self).move_batches,
            final(self).empty_attempts == old(self).empty_attempts,
    {
        if flushed {
            self.flushed_batches = self.flushed_batches + 1;
        }
    }

    /// Whether every segment that one of the first `sample_size` keys left is deleted.
    pub fn sources_deleted(&self, sample_size: usize, deleted: &Vec<SegmentId>) -> (result: bool)
        ensures
            result == (forall|i: int|
                0 <= i < self.moved@.len() && i < sample_size ==> deleted@.contains(
                    (#[trigger] self.moved@[i]).source,
                )),
    {
        let mut i: usize = 0;
        while i < self.moved.len() && i < sample_size
            invariant
                i <= self.moved@.len(),
                i <= sample_size,
                forall|k: int|
                    0 <= k < i ==> deleted@.contains((#[trigger] self.moved@[k]).source),
            decreases self.moved@.len() - i,
        {
            if !has_id(deleted, self.moved[i].source) {
                assert(!deleted@.contains(self.moved@[i as int].source));
                return false;
            }
            i = i + 1;
        }
        true
    }

    /// Whether deletions are still waited for: until the segments that the sampled keys left are
    /// gone.
    pub fn awaits_deletions(
        &self,
        sample_size: usize,
        deleted: &Vec<SegmentId>,
        now: u128,
        deadline: u128,
    ) -> (result: bool)
        ensures
            result == (now < deadline && exists|i: int|
                0 <= i < self.moved@.len() && i < sample_size && !deleted@.contains(
                    (#[trigger] self.moved@[i]).source,
                )),
    {
        now < deadline && !self.sources_deleted(sample_size, deleted)
    }
}

/// The first keys, up to a limit, whose old segments are deleted.
pub open spec fn stale_keys(moved: Seq<MovedKey>, deleted: Seq<SegmentId>, limit: int) -> Seq<
    Vec<u8>,
>
    decreases moved.len(),
{
    if moved.len() == 0 {
        Seq::empty()
    } else {
        let before = stale_keys(moved.drop_last(), deleted, limit);
        if deleted.contains(moved.last().source) && before.len() < limit {
            before.push(moved.last().key)
        } else {
            before
        }
    }
}

/// The keys to read, in their order: references to them in the index lead to deleted segments.
pub fn profile_keys(moved: Vec<MovedKey>, deleted: &Vec<SegmentId>, sample_size: usize) -> (keys:
    Vec<Vec<u8>>)
    ensures
        keys@ == sorting::in_order(stale_keys(moved@, deleted@, sample_size as int)),
{
    let ghost all = moved@;
    let mut keys: Vec<Vec<u8>> = Vec::new();
    assert(all.take(0) =~= Seq::<MovedKey>::empty());
    for record in it: moved
        invariant
            it.seq() == all,
            keys@ == stale_keys(all.take(it.index() as int), deleted@, sample_size as int),
    {
        let ghost i = it.index() as int;
        assert(all.take(i + 1).drop_last() =~= all.take(i));
        assert(all.take(i + 1).last() == record);
        if has_id(deleted, record.source) && keys.len() < sample_size {
            keys.push(record.key);
        }
    }
    assert(all.take(all.len() as int) =~= all);
    sort(&mut keys);
    keys
}

/// Planner settings under which collection deletes what is empty and copies nothing.
pub fn delete_only_planner() -> (config: GcPlannerConfig)
    ensures
        config == (GcPlannerConfig {
            max_copy_bytes_per_plan: Some(0),
            max_l0_copy_bytes_per_plan: Some(0),
            min_l0_rewrite_epoch_distance: Some(u64::MAX),
            min_l0_rewrite_useful_ratio_bps: Some(10_000),
            min_reclaim_bytes: Some(u64::MAX),
            min_garbage_ratio_bps: Some(10_000),
            min_exact_epoch_bucket_bytes: Some(u64::MAX),
            min_exact_epoch_distance: Some(u64::MAX),
            max_exact_epoch_extension_count: Some(0),
            min_join_output_bytes: Some(u64::MAX),
            max_join_sources: Some(2),
        }),
{
    GcPlannerConfig {
        max_copy_bytes_per_plan: Some(0),
        max_l0_copy_bytes_per_plan: Some(0),
        min_l0_rewrite_epoch_distance: Some(u64::MAX),
        min_l0_rewrite_useful_ratio_bps: Some(10_000),
        min_reclaim_bytes: Some(u64::MAX),
        min_garbage_ratio_bps: Some(10_000),
        min_exact_epoch_bucket_bytes: Some(u64::MAX),
        min_exact_epoch_distance: Some(u64::MAX),
        max_exact_epoch_extension_count: Some(0),
        min_join_output_bytes: Some(u64::MAX),
        max_join_sources: Some(2),
    }
}

/// The passes over the profiled keys.
#[derive(Clone, Copy, Debug, PartialEq, Eq, Structural)]
pub enum ReadPass {
    /// Nothing is cached.
    Cold,
    /// Table blocks are cached; relocations are not.
    BlockWarm,
    /// Relocations are cached.
    CacheWarm,
    /// The index was rewritten with the new references.
    Healed,
}

impl ReadPass {
    pub open spec fn spec_name(&self) -> Seq<char> {
        match self {
            ReadPass::Cold => "cold"@,
            ReadPass::BlockWarm => "block_warm"@,
            ReadPass::CacheWarm => "cache_warm"@,
            ReadPass::Healed => "healed"@,
        }
    }

    pub fn name(&self) -> (name: &'static str)
        ensures
            name@ == self.spec_name(),
    {
        match self {
            ReadPass::Cold => "cold",
            ReadPass::BlockWarm => "block_warm",
            ReadPass::CacheWarm => "cache_warm",
            ReadPass::Healed => "healed",
        }
    }
}

/// What a pass counted.
#[derive(Clone, Copy, Debug, PartialEq, Eq, Structural)]
pub struct PassCounts {
    pub lookup_hits: u64,
    pub lookup_misses: u64,
    pub lookup_errors: u64,
    pub cache_hits: u64,
    pub cache_misses: u64,
}

/// The counts of a pass in which every read took the path that the pass is about.
pub open spec fn expected_counts(pass: ReadPass, keys: u64) -> PassCounts {
    match pass {
        ReadPass::Cold | ReadPass::BlockWarm => PassCounts {
            lookup_hits: keys,
            lookup_misses: 0,
            lookup_errors: 0,
            cache_hits: 0,
            cache_misses: keys,
        },
        ReadPass::CacheWarm => PassCounts {
            lookup_hits: 0,
            lookup_misses: 0,
            lookup_errors: 0,
            cache_hits: keys,
            cache_misses: 0,
        },
        ReadPass::Healed => PassCounts {
            lookup_hits: 0,
            lookup_misses: 0,
            lookup_errors: 0,
            cache_hits: 0,
            cache_misses: 0,
        },
    }
}

/// Whether every read of a pass took its path.
pub fn path_verified(pass: ReadPass, counts: PassCounts, keys: u64) -> (result: bool)
    ensures
        result == (counts == expected_counts(pass, keys)),
{
    let (lookups, cached): (u64, u64) = match pass {
        ReadPass::Cold | ReadPass::BlockWarm => (keys, 0),
        ReadPass::CacheWarm => (0, keys),
        ReadPass::Healed => (0, 0),
    };
    counts.lookup_hits == lookups && counts.lookup_misses == 0 && counts.lookup_errors == 0
        && counts.cache_hits == cached && counts.cache_misses == lookups
}

/// What comes of waiting for references to be rewritten.
#[derive(Clone, Copy, Debug, PartialEq, Eq, Structural)]
pub enum HealingStep {
    Done,
    TimedOut,
    Wait,
}

/// Decides whether the index was rewritten: for every key, with no patch left.
pub fn healing_step(healed: u64, keys: u64, patches: usize, now: u128, deadline: u128) -> (step:
    HealingStep)
    ensures
        step == (if healed >= keys && patches == 0 {
            HealingStep::Done
        } else if now >= deadline {
            HealingStep::TimedOut
        } else {
            HealingStep::Wait
        }),
{
    if healed >= keys && patches == 0 {
        HealingStep::Done
    } else if now >= deadline {
        HealingStep::TimedOut
    } else {
        HealingStep::Wait
    }
}

// Laws.

/// No key is moved twice in the list, and what a batch adds was in the batch.
pub proof fn law_moved_keys_are_distinct(moved: Seq<MovedKey>, batch: Seq<MovedKey>)
    requires
        forall|i: int, j: int|
            0 <= i < j < moved.len() ==> (#[trigger] moved[i]).key@ != (#[trigger] moved[j]).key@,
    ensures
        ({
            let after = with_moves(moved, batch);
            &&& forall|i: int, j: int|
                0 <= i < j < after.len() ==> (#[trigger] after[i]).key@ != (
                #[trigger] after[j]).key@
            &&& moved.len() <= after.len()
            &&& after.take(moved.len() as int) =~= moved
        }),
    decreases batch.len(),
{
    if batch.len() > 0 {
        law_moved_keys_are_distinct(moved, batch.drop_last());
    }
}

/// The keys to read are at most as many as were asked for, and in order.
pub proof fn law_the_profile_is_bounded(moved: Seq<MovedKey>, deleted: Seq<SegmentId>, limit: int)
    requires
        limit >= 0,
    ensures
        sorting::in_order(stale_keys(moved, deleted, limit)).len() <= limit,
        sorting::is_ordered(sorting::in_order(stale_keys(moved, deleted, limit))),
{
    lemma_stale_keys(moved, deleted, limit);
    sorting::law_sorted(stale_keys(moved, deleted, limit));
}

proof fn lemma_stale_keys(moved: Seq<MovedKey>, deleted: Seq<SegmentId>, limit: int)
    requires
        limit >= 0,
    ensures
        stale_keys(moved, deleted, limit).len() <= limit,
    decreases moved.len(),
{
    if moved.len() > 0 {
        lemma_stale_keys(moved.drop_last(), deleted, limit);
    }
}

} // verus!
