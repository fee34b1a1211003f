//! What the orders of the library promise: of shards, of keys, of sorted items; and its bounds and
//! defaults.

use vstd::prelude::*;

use crate::config;
use crate::config::{GcPlannerConfig, SealedSegmentIntegrityPolicy, StrataRecoveryPolicy, StrataStoreConfig};
use crate::keys;
use crate::num;
use crate::segments::SegmentOwner;
use crate::sorting;
use crate::sorting::Precedes;
use crate::types::{BlobLifecycle, GarbageEvent, RecordRef, ShardKey};

verus! {

/// Shard generations are ordered by shard and within a shard by generation; of two different ones
/// exactly one comes first.
pub proof fn law_shards_are_ordered_by_id_and_generation(a: ShardKey, b: ShardKey)
    ensures
        a.id < b.id ==> a.spec_before(b) && !b.spec_before(a),
        a.id == b.id && a.generation < b.generation ==> a.spec_before(b) && !b.spec_before(a),
        a == b ==> !a.spec_before(b),
{
}

/// A key comes before another where it is a proper beginning of it, or has the lesser byte at the
/// first place where they differ.
pub proof fn law_keys_are_ordered_bytewise(a: Seq<u8>, b: Seq<u8>, at: int)
    requires
        0 <= at <= a.len(),
        at <= b.len(),
        a.take(at) == b.take(at),
    ensures
        at == a.len() && at < b.len() ==> keys::key_before(a, b),
        at == b.len() ==> !keys::key_before(a, b),
        at < a.len() && at < b.len() && a[at] < b[at] ==> keys::key_before(a, b),
        at < a.len() && at < b.len() && a[at] > b[at] ==> !keys::key_before(a, b),
    decreases at,
{
    if at > 0 {
        assert(a[0] == a.take(at)[0] && b[0] == b.take(at)[0]);
        let rest_a = a.skip(1);
        let rest_b = b.skip(1);
        assert(rest_a.take(at - 1) =~= a.take(at).skip(1));
        assert(rest_b.take(at - 1) =~= b.take(at).skip(1));
        law_keys_are_ordered_bytewise(rest_a, rest_b, at - 1);
        if at < a.len() {
            assert(rest_a[at - 1] == a[at]);
        }
        if at < b.len() {
            assert(rest_b[at - 1] == b[at]);
        }
    }
}

/// Sorting is stable: an item goes behind every earlier item that it does not precede, and in front
/// of all that it precedes, and the earlier ones stay in their order.
pub proof fn law_sorting_is_stable<T: Precedes>(items: Seq<T>, item: T)
    ensures
        sorting::in_order(Seq::<T>::empty()).len() == 0,
        ({
            let before = sorting::in_order(items);
            let after = sorting::in_order(items.push(item));
            exists|at: int|
                #![trigger before.insert(at, item)]
                0 <= at <= before.len() && after == before.insert(at, item) && (forall|i: int|
                    0 <= i < at ==> !item.precedes(#[trigger] before[i])) && forall|i: int|
                    at <= i < before.len() ==> item.precedes(#[trigger] before[i])
        }),
{
    assert(items.push(item).drop_last() =~= items);
    sorting::law_sorted(items);
    let before = sorting::in_order(items);
    sorting::lemma_place_of(before, item);
    let at = sorting::place_of(before, item);
    assert(sorting::in_order(items.push(item)) == before.insert(at, item));
}

/// A bound is kept and changes nothing within it; a quotient that is rounded up is the least that
/// reaches the dividend.
pub proof fn law_bounds_are_kept(value: int, bound: int)
    ensures
        num::at_most(value, bound) <= bound,
        value <= bound ==> num::at_most(value, bound) == value,
        value >= bound ==> num::at_most(value, bound) == bound,
        num::at_least(value, bound) >= bound,
        value >= bound ==> num::at_least(value, bound) == value,
        value <= bound ==> num::at_least(value, bound) == bound,
        bound > 0 ==> num::ceil_div(value, bound) * bound >= value,
        bound > 0 ==> (num::ceil_div(value, bound) - 1) * bound < value,
{
    if bound > 0 {
        let quotient = num::ceil_div(value, bound);
        assert(quotient * bound >= value && (quotient - 1) * bound < value) by (nonlinear_arith)
            requires
                bound > 0,
                quotient == (value + bound - 1) / bound,
        ;
    }
}

/// An event is about one record, whatever happened to it; a segment is the store's or a shard's.
pub proof fn law_events_name_their_record(
    record: RecordRef,
    lifecycle: Option<BlobLifecycle>,
    shard: ShardKey,
)
    ensures
        (GarbageEvent::Retired { record }).spec_record() == record,
        (GarbageEvent::Expired { record }).spec_record() == record,
        (GarbageEvent::SetLifecycle { record, lifecycle }).spec_record() == record,
        SegmentOwner::Store.spec_shard() is None,
        SegmentOwner::Shard(shard).spec_shard() == Some(shard),
{
}

/// Where a path is absolute it stands alone; else it goes below the directory, behind one slash.
pub proof fn law_paths_go_below_their_directory(dir: Seq<char>, below: Seq<char>)
    ensures
        below.len() > 0 && below[0] == '/' ==> config::path_join(dir, below) == below,
        (below.len() == 0 || below[0] != '/') && dir.len() > 0 && dir.last() != '/'
            ==> config::path_join(dir, below) == dir + seq!['/'] + below,
        (below.len() == 0 || below[0] != '/') && dir.len() > 0 && dir.last() == '/'
            ==> config::path_join(dir, below) == dir + below,
        (below.len() == 0 || below[0] != '/') && dir.len() == 0 ==> config::path_join(dir, below)
            == below,
{
    reveal_strlit("/");
    assert("/"@ =~= seq!['/']);
    assert(dir.len() == 0 ==> dir + below =~= below);
}

/// A store starts out with segments of one GiB, eight of them unsealed, one GC worker at four to
/// thirty-two MiB per second, and recovery to a point in time.
pub proof fn law_a_store_starts_with_its_defaults(store: StrataStoreConfig)
    requires
        store.has_defaults(),
    ensures
        store.segment_max_bytes == 1024 * 1024 * 1024,
        store.write_queue_capacity == 1024,
        store.max_unsealed_segments == 8,
        store.segment_reader_cache_capacity == 64_000,
        store.lsm_partition_count == 1,
        store.lsm_compaction_patch_bytes == 64 * 1024 * 1024,
        store.lsm_memtable_max_age == 1_000_000_000,
        store.recovery_policy == StrataRecoveryPolicy::PointInTime,
        store.sealed_segment_integrity_policy == SealedSegmentIntegrityPolicy::MetadataOnly,
        store.gc_workers_enabled,
        store.gc_interval == 60 * 1_000_000_000,
        store.gc_worker_count == 1,
        store.gc_initial_worker_count == 1,
        store.gc_tuning_window_cycles == 8,
        store.gc_sync_impact_threshold == 250 * 1_000_000,
        store.gc_io_bytes_per_sec == 32 * 1024 * 1024,
        store.gc_min_io_bytes_per_sec == 4 * 1024 * 1024,
        store.shard_drop_gc_drain_timeout == 30 * 1_000_000_000,
        store.starting_epoch == 0,
        store.relocation_writeback_chunk is None,
        store.gc_planner_config == (GcPlannerConfig {
            max_copy_bytes_per_plan: None,
            max_l0_copy_bytes_per_plan: None,
            min_l0_rewrite_epoch_distance: None,
            min_l0_rewrite_useful_ratio_bps: Some(6_600),
            min_reclaim_bytes: None,
            min_garbage_ratio_bps: None,
            min_exact_epoch_bucket_bytes: None,
            min_exact_epoch_distance: None,
            max_exact_epoch_extension_count: None,
            min_join_output_bytes: None,
            max_join_sources: None,
        }),
{
}

} // verus!
