//! Choosing what to compact.

use std::collections::BTreeMap;

use strata::maintenance::cleanup::{CleanupPass, Removal};
use strata::maintenance::compaction::{
    plan_partition_compaction, CompactionError, CompactionPlan, MainCompactionKind, PartitionView,
    SweepCredits,
};
use strata::maintenance::frontier::{
    compactor_wait, flush_wakes_compactor, garbage_log_backlog, reclaim_target,
    refresh_expiry_accounting_frontier, retained_boundary, CompactorWait, FrontierUpdate,
    GarbageDrain, GarbageLogPosition, MergeCoverage, SweepStep,
};
use strata::maintenance::pass::{
    relocation_scan_limit, replaced_tables, snapshot_for_pass, stamp_bases, written_bytes,
    ShardCleanupJob,
};
use strata::maintenance::relocations::{
    bytes_of_outputs, frontier_after_passes, plan_relocation_pass, pressured_partitions,
    replaced_by_pass, RelocationPartition, RelocationPass,
};
use strata::maintenance::tables::{oldest_row_lsn, sweep_bound, table_bytes, tier_bound, TableMeta};
use strata::maintenance::tiers::{
    blob_compaction_shape, relocation_compaction_shape, select_blob_patch_tier,
    select_relocation_patch_tier, BlobCompactionShape, RelocationCompactionShape,
    LSM_COMPACTION_PATCH_BYTES, LSM_PATCH_TIER_MAX_INPUTS, LSM_PATCH_TIER_MAX_PATCHES,
    RELOCATION_PATCH_TIER_MAX_INPUTS,
};
use strata::segments::{PlacementClass, SegmentFileState, SegmentOwner, SegmentState};
use strata::types::{ShardInfo, ShardKey};

const MIB: u64 = 1 << 20;

fn meta(id: u64, min_lsn: u64, max_lsn: u64, file_len: u64) -> TableMeta {
    TableMeta {
        id,
        min_lsn: Some(min_lsn),
        max_lsn: Some(max_lsn),
        merge_applied_through_lsn: None,
        file_len,
    }
}

fn base(id: u64, file_len: u64) -> TableMeta {
    TableMeta { min_lsn: None, max_lsn: None, ..meta(id, 0, 0, file_len) }
}

fn ids(tables: &[TableMeta]) -> Vec<u64> {
    tables.iter().map(|table| table.id).collect()
}

#[test]
fn full_pass_waits_for_a_fraction_of_the_base() {
    let floor = 64 * MIB;
    let big_base = vec![base(1, 5 * 1024 * MIB)];
    // 64 MiB of patches used to force a full pass; against a 5 GiB base it is a tier at most.
    let sixteen = (0..4)
        .map(|i| meta(10 + i, 100 + i, 100 + i, 16 * MIB))
        .collect::<Vec<_>>();
    assert!(matches!(
        blob_compaction_shape(&sixteen, &big_base, floor),
        Some(BlobCompactionShape::Tier(_))
    ));
    let half_gib = (0..4)
        .map(|i| meta(10 + i, 100 + i, 100 + i, 128 * MIB))
        .collect::<Vec<_>>();
    assert_eq!(
        blob_compaction_shape(&half_gib, &big_base, floor),
        Some(BlobCompactionShape::Full)
    );
    // A small base keeps the floor: 64 MiB of patches over 100 MiB of base goes full.
    assert_eq!(
        blob_compaction_shape(&sixteen, &vec![base(1, 100 * MIB)], floor),
        Some(BlobCompactionShape::Full)
    );
    assert_eq!(blob_compaction_shape(&vec![], &big_base, floor), None);
}

#[test]
fn tier_takes_the_oldest_run_of_comparable_neighbours() {
    // Manifest order is by path, not LSN; the selector must sort by LSN itself.
    let patches = vec![
        meta(7, 70, 79, MIB / 2),
        meta(6, 60, 69, MIB / 2),
        meta(1, 10, 19, 30 * MIB),
        meta(2, 20, 29, 7 * MIB),
        meta(3, 30, 39, 7 * MIB),
        meta(4, 40, 49, 8 * MIB),
        meta(5, 50, 59, MIB / 2),
        meta(8, 80, 89, MIB / 2),
    ];
    let tier = select_blob_patch_tier(&patches);
    assert_eq!(ids(&tier), [5, 6, 7, 8]);

    // Three 7-8 MiB patches are not enough for a merge, and the 30 MiB one is a different tier.
    let short = patches[2..6].to_vec();
    assert!(select_blob_patch_tier(&short).is_empty());
    // Once they are four, the older run wins over a newer run of small patches.
    let mut four = short.clone();
    four.push(meta(9, 90, 99, 6 * MIB));
    four.extend((0..4).map(|i| meta(20 + i, 200 + i * 10, 209 + i * 10, MIB / 2)));
    assert_eq!(ids(&select_blob_patch_tier(&four)), [2, 3, 4, 9]);
}

#[test]
fn tier_never_skips_a_patch_in_the_middle() {
    // A big patch between two small ones splits them into separate runs.
    let patches = vec![
        meta(1, 10, 19, MIB),
        meta(2, 20, 29, MIB),
        meta(3, 30, 39, 40 * MIB),
        meta(4, 40, 49, MIB),
        meta(5, 50, 59, MIB),
    ];
    assert!(select_blob_patch_tier(&patches).is_empty());
}

#[test]
fn tier_accepts_pairs_once_the_partition_is_crowded() {
    // Sizes go 1, 1, 8, 8, 64, 64 MiB and repeat: pairs of neighbours are comparable, but no
    // run ever reaches the fanout.
    let patch = |i: u64| meta(i + 1, i * 10, i * 10 + 9, MIB << ((i / 2) % 3 * 3));
    let calm = (0..12).map(patch).collect::<Vec<_>>();
    assert!(select_blob_patch_tier(&calm).is_empty());

    let crowded = (0..LSM_PATCH_TIER_MAX_PATCHES as u64)
        .map(patch)
        .collect::<Vec<_>>();
    let tier = select_blob_patch_tier(&crowded);
    assert_eq!(ids(&tier), [1, 2]);
}

#[test]
fn tier_bounds_the_merge_input_count() {
    let patches = (0..40u64)
        .map(|i| meta(i + 1, i * 10, i * 10 + 9, MIB))
        .collect::<Vec<_>>();
    let tier = select_blob_patch_tier(&patches);
    assert_eq!(tier.len(), LSM_PATCH_TIER_MAX_INPUTS);
    assert_eq!(tier[0].id, 1);
}

#[test]
fn transition_bounds_stop_below_unread_patches() {
    let live = vec![
        meta(1, 10, 19, MIB),
        meta(2, 20, 29, MIB),
        meta(3, 30, 39, MIB),
        meta(4, 40, 49, MIB),
    ];
    // A sweep reads no patch: it stops below the oldest one.
    assert_eq!(sweep_bound(100, &live), 9);
    assert_eq!(sweep_bound(5, &live), 5);
    assert_eq!(sweep_bound(100, &vec![]), 100);
    // A tier over patches 2-3 stops below patch 4; a tier ending at the newest patch may use
    // the materialized frontier.
    assert_eq!(tier_bound(100, &live[1..3].to_vec(), &live), 39);
    assert_eq!(tier_bound(100, &live[2..4].to_vec(), &live), 100);
    assert_eq!(tier_bound(35, &live[1..3].to_vec(), &live), 35);
}

fn patch(id: u64, file_len: u64) -> TableMeta {
    meta(id, id, id, file_len)
}

#[test]
fn shape_needs_patches_and_pressure() {
    assert_eq!(relocation_compaction_shape(&vec![], &vec![]), None);
    assert_eq!(relocation_compaction_shape(&vec![patch(1, MIB)], &vec![]), None);
    let eight = (1..=8).map(|id| patch(id, MIB)).collect::<Vec<_>>();
    assert_eq!(
        relocation_compaction_shape(&eight, &vec![]),
        Some(RelocationCompactionShape::Partial)
    );
}

#[test]
fn shape_goes_full_only_once_the_tier_is_a_fraction_of_the_base() {
    let base = vec![patch(100, 1024 * MIB)];
    let below = (1..=3).map(|id| patch(id, 80 * MIB)).collect::<Vec<_>>();
    assert_eq!(
        relocation_compaction_shape(&below, &base),
        Some(RelocationCompactionShape::Partial)
    );
    let above = (1..=4).map(|id| patch(id, 80 * MIB)).collect::<Vec<_>>();
    assert_eq!(
        relocation_compaction_shape(&above, &base),
        Some(RelocationCompactionShape::Full)
    );
    // With no base yet, the shared byte threshold alone selects the full pass.
    assert_eq!(
        relocation_compaction_shape(&vec![patch(1, LSM_COMPACTION_PATCH_BYTES)], &vec![]),
        Some(RelocationCompactionShape::Full)
    );
}

#[test]
fn tier_selects_comparable_sizes_in_manifest_order() {
    let patches = vec![
        patch(1, MIB),
        patch(2, 10 * MIB),
        patch(3, MIB),
        patch(4, 4 * MIB),
    ];
    let tier = select_relocation_patch_tier(&patches);
    assert_eq!(ids(&tier), [1, 3, 4]);
    assert!(select_relocation_patch_tier(&vec![patch(1, MIB), patch(2, 5 * MIB)]).is_empty());
    assert!(select_relocation_patch_tier(&vec![]).is_empty());
    let many = (1..=20).map(|id| patch(id, MIB)).collect::<Vec<_>>();
    assert_eq!(
        select_relocation_patch_tier(&many).len(),
        RELOCATION_PATCH_TIER_MAX_INPUTS
    );
}

#[test]
fn table_sums_saturate() {
    assert_eq!(table_bytes(&vec![base(1, 3), base(2, 4)]), 7);
    assert_eq!(table_bytes(&vec![base(1, u64::MAX), base(2, 4)]), u64::MAX);
    assert_eq!(oldest_row_lsn(&vec![base(1, 1), meta(2, 9, 12, 1), meta(3, 7, 30, 1)]), Some(7));
    assert_eq!(oldest_row_lsn(&vec![base(1, 1)]), None);
}

#[test]
fn passes_are_counted_by_shape() {
    assert_eq!(RelocationCompactionShape::Partial.metric_label(), "partial");
    assert_eq!(RelocationCompactionShape::Full.metric_label(), "full");
}

#[test]
fn cleanup_keeps_what_could_not_be_removed() {
    let mut pass = CleanupPass::begin(vec![base(4, 1), base(3, 1), base(2, 1), base(1, 1)]);
    while let Some(table) = pass.next() {
        let removal = match table.id {
            1 => Removal::Removed,
            2 => Removal::Pinned,
            _ => Removal::Failed,
        };
        pass.record(table, removal);
    }
    // The failure ended the pass, so the last table was not tried.
    assert_eq!(ids(&pass.finish()), [2, 3, 4]);
}

#[test]
fn the_log_is_reclaimed_only_once_something_is_materialized() {
    assert_eq!(reclaim_target(None), None);
    assert_eq!(reclaim_target(Some(0)), None);
    assert_eq!(reclaim_target(Some(7)), Some(7));
    assert_eq!(retained_boundary(None, 5, 3), Some(5));
    assert_eq!(retained_boundary(Some(5), 0, 9), Some(9));
    assert_eq!(retained_boundary(Some(9), 0, 5), None);
}

#[test]
fn wakeups_follow_flushes() {
    assert!(flush_wakes_compactor(false, false));
    assert!(flush_wakes_compactor(true, true));
    assert!(!flush_wakes_compactor(false, true));
    assert_eq!(compactor_wait(10, 10), CompactorWait::Forced);
    assert_eq!(compactor_wait(4, 10), CompactorWait::Nudge(6));
}

#[test]
fn a_drained_log_has_no_backlog_left() {
    let start = GarbageLogPosition::start();
    assert_eq!(garbage_log_backlog(start, start), 0);
    let head = GarbageLogPosition { log_id: 1, offset: 40 };
    assert_eq!(garbage_log_backlog(head, start), 40);
    assert_eq!(garbage_log_backlog(head, GarbageLogPosition { log_id: 1, offset: 15 }), 25);
    let mut drain = GarbageDrain::begin(3);
    let swept = SweepStep { swept: true, relocation_lsn: 9, frontier_advanced: false };
    assert!(drain.step(swept));
    let drained = SweepStep { swept: false, relocation_lsn: 50, frontier_advanced: false };
    assert!(!drain.step(drained));
    assert!(drain.advanced);
    assert_eq!(drain.durable_relocation_lsn, 9);
}

#[test]
fn frontiers_wait_for_a_drained_log_and_never_move_back() {
    let head = GarbageLogPosition { log_id: 1, offset: 40 };
    let behind = GarbageLogPosition { log_id: 1, offset: 39 };
    let coverage =
        Some(MergeCoverage { merge_applied_through_lsn: 12, writes_merged_through_lsn: 7 });
    assert_eq!(refresh_expiry_accounting_frontier(head, behind, coverage, None, None), None);
    assert_eq!(refresh_expiry_accounting_frontier(head, head, None, None, None), None);
    assert_eq!(
        refresh_expiry_accounting_frontier(head, head, coverage, None, Some(7)),
        Some(FrontierUpdate { expiry_accounted_lsn: Some(12), writes_merged_lsn: None })
    );
    assert_eq!(
        refresh_expiry_accounting_frontier(head, head, coverage, Some(20), Some(7)),
        None
    );
}

fn view(patches: Vec<TableMeta>, base: Vec<TableMeta>) -> PartitionView {
    PartitionView {
        patches,
        base,
        materialized_through: Some(60),
        published_lsn: 50,
        epoch_changes: vec![(20, 1), (45, 2), (70, 3)],
        emit_garbage_from_lsn: Some(5),
    }
}

#[test]
fn only_published_patches_are_compacted() {
    let mut credits = SweepCredits::new();
    // The fifth patch straddles the published LSN: the pass stops below it and leaves it alone.
    let patches = vec![
        meta(1, 10, 19, MIB),
        meta(2, 20, 29, MIB),
        meta(3, 30, 34, MIB),
        meta(4, 35, 39, MIB),
        meta(5, 40, 59, MIB),
    ];
    let facts = view(patches, vec![base(9, 5 * 1024 * MIB)]);
    let plan = plan_partition_compaction(&mut credits, 0, &facts, 64 * MIB, false)
        .unwrap()
        .unwrap();
    assert_eq!(plan.kind, MainCompactionKind::Minor);
    assert_eq!(ids(&plan.patches), [1, 2, 3, 4]);
    assert_eq!(plan.compact_through_lsn, 39);
    assert_eq!(plan.bound, 39);
    assert_eq!(plan.recorded_lsn(), 39);
    assert_eq!(plan.epoch_changes, vec![(20, 1)]);
    assert!(plan.seed.is_none());
    assert_eq!(plan.emit_garbage_from_lsn, 5);
}

#[test]
fn small_partitions_are_folded_whole_by_the_periodic_pass() {
    let mut credits = SweepCredits::new();
    let facts = view(vec![meta(2, 30, 39, MIB), meta(1, 10, 19, MIB)], vec![base(9, MIB)]);
    let calm = plan_partition_compaction(&mut credits, 0, &facts, 64 * MIB, false).unwrap();
    assert!(calm.is_none());
    let plan = plan_partition_compaction(&mut credits, 0, &facts, 64 * MIB, true)
        .unwrap()
        .unwrap();
    assert_eq!(plan.kind, MainCompactionKind::Full);
    assert_eq!(plan.seed.unwrap().id, 1);
    assert_eq!(plan.bound, 50);
}

#[test]
fn a_cold_base_is_swept_once_per_transition() {
    let mut credits = SweepCredits::new();
    let fresh = TableMeta { merge_applied_through_lsn: Some(45), ..base(7, 128 * MIB) };
    let stale = TableMeta { merge_applied_through_lsn: Some(20), ..base(8, 128 * MIB) };
    let facts = view(vec![], vec![fresh, stale]);
    let plan = plan_partition_compaction(&mut credits, 3, &facts, 64 * MIB, true)
        .unwrap()
        .unwrap();
    assert_eq!(plan.kind, MainCompactionKind::Sweep);
    assert_eq!(plan.shape, BlobCompactionShape::Sweep(stale));
    assert_eq!(plan.bound, 50);
    assert_eq!(plan.recorded_lsn(), 50);
    // The transition's credit is spent.
    let again = plan_partition_compaction(&mut credits, 3, &facts, 64 * MIB, true).unwrap();
    assert!(again.is_none());
    // What the pass wrote is stamped, so a new credit would find nothing stale.
    let mut written = vec![stale];
    stamp_bases(&mut written, plan.bound);
    assert_eq!(written[0].merge_applied_through_lsn, Some(50));
    let swept = view(vec![], vec![fresh, written[0]]);
    let mut renewed = SweepCredits::new();
    assert!(plan_partition_compaction(&mut renewed, 3, &swept, 64 * MIB, true)
        .unwrap()
        .is_none());
}

#[test]
fn a_pass_needs_to_know_from_where_garbage_is_reported() {
    let mut credits = SweepCredits::new();
    let mut facts = view(vec![meta(1, 10, 19, 64 * MIB)], vec![]);
    facts.emit_garbage_from_lsn = None;
    assert_eq!(
        plan_partition_compaction(&mut credits, 0, &facts, 64 * MIB, false).err(),
        Some(CompactionError::MissingGarbageCutover)
    );
}

fn segment(segment_id: u64, owner: SegmentOwner, state: SegmentFileState) -> SegmentState {
    SegmentState {
        owner,
        segment_id,
        volume_id: 0,
        path: format!("segment-{segment_id}"),
        placement_class: PlacementClass::Ingest,
        state,
        write_offset: 0,
        durable_offset: 0,
        min_lsn: None,
        max_lsn: None,
        sealed_before_lsn: None,
        sealed_len: None,
        sealed_sha256: None,
    }
}

#[test]
fn a_tier_merge_sees_epoch_transitions_only() {
    let shard = ShardKey { id: 4, generation: 2 };
    let segments = vec![
        segment(1, SegmentOwner::Shard(shard), SegmentFileState::Deleted),
        segment(2, SegmentOwner::Store, SegmentFileState::Deleted),
        segment(3, SegmentOwner::Shard(shard), SegmentFileState::Sealed),
    ];
    let jobs = vec![ShardCleanupJob { shard, drop_lsn: 33 }];
    let infos: BTreeMap<u32, ShardInfo> = BTreeMap::from([(4, ShardInfo::active(3))]);
    let mut plan = CompactionPlan {
        shape: BlobCompactionShape::Full,
        seed: Some(meta(1, 10, 19, MIB)),
        kind: MainCompactionKind::Full,
        patches: vec![],
        bound: 40,
        compact_through_lsn: 50,
        epoch_changes: vec![(20, 1)],
        emit_garbage_from_lsn: 5,
    };
    let full = snapshot_for_pass(&plan, infos.clone(), &jobs, &segments);
    assert_eq!(full.materialized_through_lsn, 40);
    assert_eq!(full.emit_garbage_from_lsn, 5);
    assert_eq!(full.epoch_changes, vec![(20, 1)]);
    assert_eq!(full.shard_infos, infos);
    assert!(full.bulk_reclaimed(1, shard));
    assert!(!full.bulk_reclaimed(2, shard));
    assert!(!full.bulk_reclaimed(3, shard));
    assert_eq!(full.shard_retirement(shard).map(|at| at.lsn), Some(33));

    plan.kind = MainCompactionKind::Minor;
    let minor = snapshot_for_pass(&plan, infos, &jobs, &segments);
    assert_eq!(minor.epoch_changes, vec![(20, 1)]);
    assert!(minor.shard_infos.is_empty());
    assert!(!minor.bulk_reclaimed(1, shard));
    assert!(minor.shard_retirement(shard).is_none());
}

#[test]
fn a_tier_merge_heals_no_reference_and_replaces_no_base() {
    assert_eq!(relocation_scan_limit(MainCompactionKind::Minor, Some(9)), None);
    assert_eq!(relocation_scan_limit(MainCompactionKind::Full, Some(0)), None);
    assert_eq!(relocation_scan_limit(MainCompactionKind::Full, None), None);
    assert_eq!(relocation_scan_limit(MainCompactionKind::Sweep, Some(9)), Some(9));
    let bases = vec![base(1, 10)];
    let patches = vec![patch(2, 20), patch(3, 30)];
    assert_eq!(ids(&replaced_tables(MainCompactionKind::Minor, &bases, &patches)), [2, 3]);
    assert_eq!(ids(&replaced_tables(MainCompactionKind::Full, &bases, &patches)), [1, 2, 3]);
    assert_eq!(written_bytes(&bases, &patches), 60);
}

#[test]
fn relocation_passes_follow_pressure() {
    let eight = (1..=8).map(|id| patch(id, MIB)).collect::<Vec<_>>();
    let partitions = vec![
        RelocationPartition { partition: 0, patches: vec![patch(1, MIB)], base: vec![] },
        RelocationPartition { partition: 1, patches: eight.clone(), base: vec![] },
        RelocationPartition {
            partition: 2,
            patches: vec![patch(1, LSM_COMPACTION_PATCH_BYTES)],
            base: vec![],
        },
    ];
    assert_eq!(
        pressured_partitions(&partitions),
        [(1, RelocationCompactionShape::Partial), (2, RelocationCompactionShape::Full)]
    );
    let segments = vec![
        segment(5, SegmentOwner::Store, SegmentFileState::Deleted),
        segment(6, SegmentOwner::Store, SegmentFileState::Sealed),
        segment(7, SegmentOwner::Store, SegmentFileState::Deleted),
    ];
    assert_eq!(
        plan_relocation_pass(RelocationCompactionShape::Partial, &eight, &segments),
        Some(RelocationPass::Merge { tier: eight.clone() })
    );
    // Only a fold drops entries, and only those into segments that are gone.
    assert_eq!(
        plan_relocation_pass(RelocationCompactionShape::Full, &eight, &segments),
        Some(RelocationPass::Fold { seed: patch(1, MIB), dead_segments: vec![5, 7] })
    );
    assert_eq!(plan_relocation_pass(RelocationCompactionShape::Full, &vec![], &segments), None);
    assert_eq!(
        replaced_by_pass(
            RelocationCompactionShape::Partial,
            &vec![patch(1, MIB)],
            &vec![patch(2, MIB)]
        ),
        [patch(2, MIB)]
    );
    assert_eq!(
        replaced_by_pass(
            RelocationCompactionShape::Full,
            &vec![patch(1, MIB)],
            &vec![patch(2, MIB)]
        ),
        [patch(1, MIB), patch(2, MIB)]
    );
    assert_eq!(bytes_of_outputs(&vec![patch(1, 3)], &vec![patch(2, 4)]), 7);
    assert_eq!(bytes_of_outputs(&vec![patch(1, u64::MAX)], &vec![patch(2, 4)]), u64::MAX);
    assert_eq!(frontier_after_passes(4, 9, true), 9);
    assert_eq!(frontier_after_passes(4, 9, false), 4);
}

#[test]
fn a_tier_is_the_same_however_the_patches_are_listed() {
    let patches = vec![
        meta(1, 10, 19, 30 * MIB),
        meta(2, 20, 29, 7 * MIB),
        meta(3, 30, 39, 7 * MIB),
        meta(4, 40, 49, 8 * MIB),
        meta(5, 50, 59, 6 * MIB),
        meta(6, 60, 69, MIB / 2),
    ];
    let mut listed = patches.clone();
    for turn in 0..patches.len() {
        listed.rotate_left(1);
        assert_eq!(ids(&select_blob_patch_tier(&listed)), [2, 3, 4, 5], "turned by {turn}");
        let mut reversed = listed.clone();
        reversed.reverse();
        assert_eq!(ids(&select_blob_patch_tier(&reversed)), [2, 3, 4, 5], "turned by {turn}");
    }
}
