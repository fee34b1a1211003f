//! Garbage collection: tuning, claims, publication and deletion.

use std::collections::BTreeMap;

use strata::blob_lsm::garbage::BlobKey;
use strata::gc::claims::{DrainStep, GcSourceClaims, SnapshotSegment};
use strata::gc::commit::{plan_gc_commit, GcCommitPlan};
use strata::gc::deletion::{
    apply_gc_metadata_action, gated_live_refs, plan_gc_deletions, publish_failure,
    reclaim_strategy, reclassify_gc_segment, relocation_activation_is_durable, DeletionEvidence,
    GcPublishCommitError, MetadataStep, PublishFailure,
};
use strata::gc::outputs::{
    attributed_output_bytes, gc_output_bytes_by_source, plan_gc_output_segments,
    published_output_bytes, source_segment_ids, GcError, GcPrepublishedOutputSegment, SourceShare,
};
use strata::gc::publish::{
    assign_gc_publish_fence, plan_gc_relocating_source_states, GcAction, GcPreparedPublish,
    SegmentGcSummary,
};
use strata::gc::reconcile::{
    copy_evidence, order_copied_records, reconcile_copies, CopyEvidence, GcCopyRecord, GcSkippedCopiedRecord,
    GcSkippedCopiedRecordKind, GcStagedCopiedRecord, OverlayRecordState,
};
use strata::gc::schedule::{continue_wakeup, failures_after, gc_failure_backoff};
use strata::gc::tuner::{
    decayed_latency_baseline, signal_improved, sync_impact_sample_nanos, tuning_window_cycles,
    GcConcurrencyConfig, GcConcurrencyController, GcTunerHealth, GcTuningMode, TunedSignal,
};
use strata::segments::{PlacementClass, SegmentFileState, SegmentOwner, SegmentState};
use strata::types::{BlobLifecycle, RecordRef, ShardKey};

const MILLI: u128 = 1_000_000;
const SECOND: u128 = 1_000_000_000;
const SHARD: ShardKey = ShardKey { id: 1, generation: 1 };

#[test]
fn backoff_doubles_up_to_sixteen_intervals() {
    let waits = (0..8).map(|failures| gc_failure_backoff(SECOND, failures) / SECOND);
    assert_eq!(waits.collect::<Vec<_>>(), [1, 1, 2, 4, 8, 16, 16, 16]);
    assert_eq!(failures_after(3, false), 4);
    assert_eq!(failures_after(u32::MAX, false), u32::MAX);
    assert_eq!(failures_after(3, true), 0);
    assert!(continue_wakeup(63, true));
    assert!(!continue_wakeup(64, true));
    assert!(!continue_wakeup(0, false));
}

#[test]
fn baselines_drop_at_once_and_rise_slowly() {
    assert_eq!(decayed_latency_baseline(100, 60), 60);
    assert_eq!(decayed_latency_baseline(6_400, 12_800), 6_500);
    // It moves by at least one, and never past what is seen.
    assert_eq!(decayed_latency_baseline(10, 20), 11);
    assert_eq!(decayed_latency_baseline(10, 11), 11);
}

#[test]
fn signals_degrade_above_the_floor_and_the_baseline() {
    let mut signal = TunedSignal::new();
    assert!(!signal.degraded(0));
    signal.observe(100);
    assert_eq!(signal.current(), Some(100));
    signal.observe(180);
    // (7 * 100 + 180) / 8
    assert_eq!(signal.current(), Some(110));
    assert!(!signal.degraded(105));
    // Far above the floor counts by itself.
    assert!(signal.degraded(50));
    assert!(signal_improved(94, 100));
    assert!(!signal_improved(95, 100));
    assert!(!signal_improved(0, 0));
}

#[test]
fn large_syncs_are_measured_per_mebibyte() {
    assert_eq!(sync_impact_sample_nanos(0, 0), 1);
    assert_eq!(sync_impact_sample_nanos(8 * MILLI, 4 << 20), 2 * MILLI);
    assert_eq!(sync_impact_sample_nanos(8 * MILLI, 1000), 8 * MILLI);
    assert_eq!(tuning_window_cycles(8, GcTuningMode::Probing), 8);
    let backing_off = GcTuningMode::BackingOff { previous_signal_nanos: 1 };
    assert_eq!(tuning_window_cycles(8, backing_off), 4);
    assert_eq!(tuning_window_cycles(0, backing_off), 1);
}

fn tuner() -> GcConcurrencyController {
    GcConcurrencyController::new(GcConcurrencyConfig {
        max_workers: 4,
        initial_workers: 2,
        tuning_window_cycles: 1,
        sync_impact_threshold: 10 * MILLI,
        max_io_bytes_per_sec: 64,
        min_io_bytes_per_sec: 8,
    })
}

#[test]
fn healthy_windows_admit_more_and_pressure_admits_less() {
    let mut tuner = tuner();
    assert_eq!((tuner.active_limit(), tuner.active_io_bytes_per_sec()), (2, 64));
    assert!(tuner.try_admit());
    assert!(tuner.try_admit());
    assert!(!tuner.try_admit());
    let outcome = tuner.finish_run().expect("the window is one attempt long");
    assert_eq!(outcome.health, GcTunerHealth::Cooldown);
    assert!(outcome.workers_changed && !outcome.io_budget_changed);
    assert_eq!(tuner.active_limit(), 3);

    // A sync far above the threshold while GC runs is GC's doing.
    tuner.observe_sync(100 * MILLI, 0);
    assert!(tuner.workload_pressured());
    let outcome = tuner.finish_run().unwrap();
    assert!(outcome.workers_changed && outcome.io_budget_changed);
    assert_eq!((tuner.active_limit(), tuner.active_io_bytes_per_sec()), (2, 32));
    assert_eq!(
        tuner.state.mode,
        GcTuningMode::BackingOff { previous_signal_nanos: 100 * MILLI }
    );

    // Without GC in flight the same pressure is nobody's fault.
    let outcome = tuner.finish_run().unwrap();
    assert_eq!(outcome.health, GcTunerHealth::Pressured);
    assert_eq!((tuner.active_limit(), tuner.active_io_bytes_per_sec()), (2, 32));
    assert_eq!(tuner.state.mode, GcTuningMode::Probing);
}

#[test]
fn seal_backpressure_is_pressure() {
    let mut tuner = tuner();
    assert!(!tuner.workload_pressured());
    tuner.set_seal_backpressure(true);
    assert!(tuner.workload_pressured());
    tuner.set_seal_backpressure(false);
    assert!(!tuner.workload_pressured());
    tuner.observe_write_queue_send(SECOND);
    assert!(tuner.workload_pressured());
    assert_eq!(
        [GcTunerHealth::Healthy, GcTunerHealth::Pressured, GcTunerHealth::Cooldown]
            .map(GcTunerHealth::metric_value),
        [0, 1, 2]
    );
}

#[test]
fn claims_are_all_or_nothing() {
    let mut claims = GcSourceClaims::new();
    assert!(claims.try_claim(&vec![1, 2]));
    assert!(!claims.try_claim(&vec![2, 3]));
    assert!(!claims.is_taken(3));
    claims.release(&vec![1, 2]);
    assert!(claims.try_claim(&vec![2, 3]));
    let mut snapshot = vec![
        SnapshotSegment { segment_id: 1, claimed: false },
        SnapshotSegment { segment_id: 2, claimed: false },
    ];
    claims.mark_snapshot(&mut snapshot);
    assert_eq!(snapshot.iter().map(|segment| segment.claimed).collect::<Vec<_>>(), [false, true]);
}

#[test]
fn cleanups_wait_for_their_segments() {
    let mut claims = GcSourceClaims::new();
    assert!(claims.try_claim(&vec![1]));
    claims.reserve_draining(&vec![1, 2]);
    // Nobody else gets a segment that a cleanup waits for.
    assert!(!claims.try_claim(&vec![2]));
    assert!(claims.is_taken(2));
    assert_eq!(claims.poll_draining(&vec![1, 2], 10, 25, false), DrainStep::Wait(15));
    claims.release(&vec![1]);
    assert_eq!(claims.poll_draining(&vec![1, 2], 12, 25, false), DrainStep::Claimed);
    claims.release(&vec![1, 2]);

    assert!(claims.try_claim(&vec![1]));
    claims.reserve_draining(&vec![1, 2]);
    assert_eq!(claims.poll_draining(&vec![1, 2], 30, 25, true), DrainStep::TimedOut);
    assert!(claims.try_claim(&vec![2]));
}

fn copied(segment_id: u64, offset: u64, staged_segment: u64, len: u64) -> GcStagedCopiedRecord {
    GcStagedCopiedRecord {
        source: GcCopyRecord {
            key: BlobKey::new(vec![offset as u8]),
            shard: SHARD,
            payload_lsn: 100 + offset,
            from: RecordRef { segment_id, offset, len },
            lifecycle: None,
        },
        staged: RecordRef { segment_id: staged_segment, offset: 0, len },
    }
}

fn output(staged_segment_id: u64, segment_id: u64, sealed_len: u64) -> GcPrepublishedOutputSegment {
    GcPrepublishedOutputSegment {
        staged_segment_id,
        segment_id,
        shard: SHARD,
        path: format!("/data/{segment_id}.data"),
        relative_path: format!("{segment_id}.data"),
        placement_class: PlacementClass::Spillover,
        sealed_len,
        sealed_sha256: [7; 32],
    }
}

fn source(segment_id: u64, state: SegmentFileState) -> SegmentState {
    SegmentState {
        owner: SegmentOwner::Store,
        segment_id,
        volume_id: 0,
        path: format!("{segment_id}.data"),
        placement_class: PlacementClass::Ingest,
        state,
        write_offset: 90,
        durable_offset: 90,
        min_lsn: Some(1),
        max_lsn: Some(2),
        sealed_before_lsn: Some(3),
        sealed_len: Some(90),
        sealed_sha256: None,
    }
}

#[test]
fn copies_are_revalidated_in_the_order_of_their_sources() {
    let mut records = vec![copied(2, 0, 9, 5), copied(1, 30, 9, 5), copied(1, 10, 9, 5)];
    order_copied_records(&mut records);
    let places = records
        .iter()
        .map(|record| (record.source.from.segment_id, record.source.from.offset))
        .collect::<Vec<_>>();
    assert_eq!(places, [(1, 10), (1, 30), (2, 0)]);
}

#[test]
fn every_copy_is_published_or_skipped() {
    let records = vec![copied(1, 0, 9, 5), copied(1, 5, 9, 5), copied(1, 10, 9, 5), copied(1, 15, 9, 5)];
    let lifecycle = Some(BlobLifecycle { logical_end_epoch: 8, extension_count: 0 });
    let seen = |generation_obsolete, overlay| CopyEvidence { generation_obsolete, overlay };
    let evidence = vec![
        seen(false, OverlayRecordState::CopyEligible { lifecycle }),
        seen(false, OverlayRecordState::Retired),
        seen(false, OverlayRecordState::Expired),
        // A fenced generation is dead, whatever else is known of it.
        seen(true, OverlayRecordState::CopyEligible { lifecycle }),
    ];
    let (survivors, skipped) = reconcile_copies(records, &evidence);
    assert_eq!(survivors.len(), 1);
    assert_eq!(survivors[0].source.lifecycle, lifecycle);
    assert_eq!(
        skipped.iter().map(|record| record.kind).collect::<Vec<_>>(),
        [
            GcSkippedCopiedRecordKind::Retired,
            GcSkippedCopiedRecordKind::Expired,
            GcSkippedCopiedRecordKind::Retired,
        ]
    );
}

#[test]
fn only_outputs_with_survivors_are_promoted() {
    let outputs = vec![output(100, 7, 10), output(101, 8, 20)];
    let survivors = vec![copied(3, 0, 101, 20), copied(2, 0, 101, 0)];
    assert_eq!(source_segment_ids(&survivors), vec![2, 3]);
    let plan = plan_gc_output_segments(&outputs, &survivors).unwrap();
    assert_eq!(plan.used_staged_ids, vec![101]);
    assert_eq!(plan.published_outputs.len(), 1);
    assert_eq!(plan.published_outputs[0].segment_id, 8);
    assert_eq!(plan.segment_states[0].state, SegmentFileState::Sealed);
    assert_eq!(published_output_bytes(&plan.published_outputs), Ok(20));
    assert_eq!(
        plan_gc_output_segments(&outputs, &vec![copied(3, 0, 102, 1)]).err(),
        Some(GcError::MissingStagedOutput { staged_segment_id: 102 })
    );
    assert_eq!(outputs[0].pending_state().state, SegmentFileState::PendingGcOutput);
    assert_eq!(outputs[0].deleted_state().state, SegmentFileState::Deleted);
}

#[test]
fn output_bytes_are_charged_to_their_sources() {
    let survivors = vec![copied(1, 0, 100, 10), copied(2, 0, 100, 4)];
    let skipped = vec![
        GcSkippedCopiedRecord {
            record: copied(1, 10, 100, 6),
            kind: GcSkippedCopiedRecordKind::Retired,
        },
        // Its output is not promoted, so nobody is charged.
        GcSkippedCopiedRecord {
            record: copied(1, 20, 101, 50),
            kind: GcSkippedCopiedRecordKind::Expired,
        },
    ];
    let rows = gc_output_bytes_by_source(&survivors, &skipped, &vec![100]).unwrap();
    assert_eq!(
        rows,
        vec![
            SourceShare { source_segment_id: 1, output_bytes: 16 },
            SourceShare { source_segment_id: 2, output_bytes: 4 },
        ]
    );
    assert_eq!(attributed_output_bytes(&rows), Ok(20));
    let overflow = vec![
        SourceShare { source_segment_id: 1, output_bytes: u64::MAX },
        SourceShare { source_segment_id: 2, output_bytes: 1 },
    ];
    assert_eq!(attributed_output_bytes(&overflow), Err(GcError::RangeOverflow));
}

#[test]
fn only_sealed_sources_are_fenced() {
    let rows = vec![source(1, SegmentFileState::Sealed), source(2, SegmentFileState::Open)];
    let states = plan_gc_relocating_source_states(&vec![1], &rows).unwrap();
    assert_eq!(states[0].state, SegmentFileState::GcRelocating);
    assert_eq!(states[0].write_offset, 90);
    assert_eq!(
        plan_gc_relocating_source_states(&vec![1, 2], &rows).err(),
        Some(GcError::SourceSegmentNotSealed { segment_id: 2, state: SegmentFileState::Open })
    );
    assert_eq!(
        plan_gc_relocating_source_states(&vec![3], &rows).err(),
        Some(GcError::MissingSourceSegment { segment_id: 3 })
    );
}

#[test]
fn survivors_carry_the_fence() {
    let names = BTreeMap::from([(100, 7)]);
    let published = assign_gc_publish_fence(55, vec![copied(1, 30, 100, 10)], &names).unwrap();
    assert_eq!(published[0].publish_lsn, 55);
    assert_eq!(published[0].to, RecordRef { segment_id: 7, offset: 0, len: 10 });
    assert_eq!(published[0].source.payload_lsn, 130);
    assert_eq!(
        assign_gc_publish_fence(55, vec![copied(1, 30, 101, 10)], &names).err(),
        Some(GcError::MissingStagedOutput { staged_segment_id: 101 })
    );
}

fn move_from(source_segment_id: u64) -> GcAction {
    GcAction::MoveLiveBytes { source_segment_id }
}

#[test]
fn a_publication_settles_every_output() {
    let prepared = GcPreparedPublish {
        action: move_from(1),
        outputs: vec![output(100, 7, 16), output(101, 8, 20)],
        survivors: vec![copied(1, 0, 100, 10)],
        skipped: vec![
            GcSkippedCopiedRecord {
                record: copied(1, 10, 100, 6),
                kind: GcSkippedCopiedRecordKind::Retired,
            },
            GcSkippedCopiedRecord {
                record: copied(1, 20, 101, 20),
                kind: GcSkippedCopiedRecordKind::Expired,
            },
        ],
    };
    let rows = vec![source(1, SegmentFileState::Sealed)];
    let publication = match plan_gc_commit(prepared, &vec![false], &rows, 55).unwrap() {
        GcCommitPlan::Publish(publication) => publication,
        other => panic!("unexpected plan {other:?}"),
    };
    assert_eq!(publication.published_output_bytes, 16);
    assert_eq!(
        publication.reclaim_rows,
        vec![SourceShare { source_segment_id: 1, output_bytes: 16 }]
    );
    assert_eq!(publication.output_states.len(), 1);
    assert_eq!(publication.output_states[0].segment_id, 7);
    assert_eq!(publication.output_states[0].min_lsn, Some(55));
    assert_eq!(publication.output_states[0].max_lsn, Some(55));
    assert_eq!(publication.deleted_states.len(), 1);
    assert_eq!(publication.deleted_states[0].segment_id, 8);
    assert_eq!(publication.relocating_states[0].segment_id, 1);
    assert_eq!(publication.relocation_entries.len(), 1);
    assert_eq!(publication.relocation_entries[0].payload_lsn, 100);
    assert_eq!(publication.relocation_garbage.len(), 1);
    assert_eq!(publication.skipped_delta.retired_bytes, 6);
    assert_eq!(publication.skipped_delta.expired_bytes, 0);
    assert_eq!(publication.skipped_delta.total_bytes, 6);
    assert_eq!(publication.births.len(), 1);
    assert_eq!(publication.births[0].summary.live_bytes, 10);
    assert_eq!(publication.births[0].summary.retired_bytes, 6);
    assert_eq!(publication.births[0].summary.total_bytes, 16);
}

#[test]
fn nothing_is_published_without_survivors() {
    let prepared = GcPreparedPublish {
        action: move_from(1),
        outputs: vec![output(100, 7, 16)],
        survivors: vec![],
        skipped: vec![],
    };
    match plan_gc_commit(prepared, &vec![], &vec![], 55).unwrap() {
        GcCommitPlan::Discard { deleted_states, .. } => {
            assert_eq!(deleted_states.len(), 1);
            assert_eq!(deleted_states[0].state, SegmentFileState::Deleted);
        }
        other => panic!("unexpected plan {other:?}"),
    }
}

#[test]
fn invalid_publications_are_refused() {
    let rows = vec![source(1, SegmentFileState::Sealed)];
    let mixed = GcPreparedPublish {
        action: GcAction::DeleteSegment { segment_id: 1 },
        outputs: vec![output(100, 7, 10)],
        survivors: vec![],
        skipped: vec![],
    };
    let error = plan_gc_commit(mixed, &vec![], &rows, 55).err().unwrap();
    assert_eq!(error, GcError::MetadataActionWithCopies);
    assert_eq!(
        error.fault().as_deref(),
        Some("metadata action cannot include staged outputs or copied records")
    );
    let metadata = GcPreparedPublish {
        action: GcAction::DeleteSegment { segment_id: 1 },
        outputs: vec![],
        survivors: vec![],
        skipped: vec![],
    };
    assert!(matches!(plan_gc_commit(metadata, &vec![], &rows, 55), Ok(GcCommitPlan::Metadata)));

    let copies = |sealed_len| GcPreparedPublish {
        action: move_from(1),
        outputs: vec![output(100, 7, sealed_len)],
        survivors: vec![copied(1, 0, 100, 10)],
        skipped: vec![],
    };
    let fenced = plan_gc_commit(copies(10), &vec![true], &rows, 55).err().unwrap();
    assert_eq!(fenced, GcError::ObsoleteGeneration);
    assert_eq!(
        fenced.fault().as_deref(),
        Some("copied shard generation became obsolete before publish")
    );
    let mismatch = plan_gc_commit(copies(11), &vec![false], &rows, 55).err().unwrap();
    assert_eq!(mismatch, GcError::ByteMismatch { published: 11, attributed: 10 });
    assert_eq!(
        mismatch.fault().as_deref(),
        Some("published GC output bytes 11 do not match source-attributed bytes 10")
    );
}

#[test]
fn the_first_fault_of_a_publication_is_told() {
    let unsealed = vec![source(1, SegmentFileState::Open), source(2, SegmentFileState::Open)];
    let prepared = |staged, sealed_len| GcPreparedPublish {
        action: move_from(1),
        outputs: vec![output(100, 7, sealed_len)],
        survivors: vec![copied(2, 0, staged, 10), copied(1, 0, 100, 10)],
        skipped: vec![],
    };
    let obsolete = vec![false, false];
    let fault = |prepared| plan_gc_commit(prepared, &obsolete, &unsealed, 55).err().unwrap();
    assert_eq!(fault(prepared(101, 11)), GcError::MissingStagedOutput { staged_segment_id: 101 });
    assert_eq!(fault(prepared(100, 21)), GcError::ByteMismatch { published: 21, attributed: 20 });
    assert_eq!(
        fault(prepared(100, 20)),
        GcError::SourceSegmentNotSealed { segment_id: 1, state: SegmentFileState::Open }
    );
}

fn evidence(segment_id: u64, state: Option<SegmentFileState>) -> DeletionEvidence {
    DeletionEvidence {
        segment_id,
        row: state.map(|state| source(segment_id, state)),
        summary: SegmentGcSummary {
            total_bytes: 90,
            live_bytes: 0,
            retired_bytes: 90,
            expired_bytes: 0,
            live_ref_count: 0,
            unknown_lifetime_bytes: 0,
            unknown_lifetime_ref_count: 0,
        },
        clock_expiry_epoch: None,
        live_after_epoch: 0,
        activation_lsn: None,
        snapshot_protects: false,
    }
}

#[test]
fn segments_are_deleted_once_nothing_can_reach_them() {
    let mut relocating = evidence(2, Some(SegmentFileState::GcRelocating));
    relocating.activation_lsn = Some(40);
    let mut early = evidence(3, Some(SegmentFileState::GcRelocating));
    early.activation_lsn = Some(41);
    let mut protected = evidence(4, Some(SegmentFileState::Sealed));
    protected.snapshot_protects = true;
    let round = vec![
        evidence(1, Some(SegmentFileState::Sealed)),
        relocating,
        early,
        protected,
        evidence(5, Some(SegmentFileState::Deleted)),
    ];
    let plan = plan_gc_deletions(&round, 40).unwrap();
    let ids = |rows: &[SegmentState]| rows.iter().map(|row| row.segment_id).collect::<Vec<_>>();
    assert_eq!(ids(&plan.states_to_commit), [1, 2]);
    assert!(plan
        .states_to_commit
        .iter()
        .all(|row| row.state == SegmentFileState::Deleted));
    // What an earlier round marked is unlinked again.
    assert_eq!(ids(&plan.states_to_unlink), [1, 2, 5]);
    assert_eq!(plan.summaries_to_remove.len(), 2);
    assert_eq!(plan.relocating_segments_to_remove, 1);
    assert!(relocation_activation_is_durable(Some(40), 40));
    assert!(!relocation_activation_is_durable(Some(41), 40));
}

#[test]
fn live_segments_are_not_deleted() {
    let mut live = evidence(1, Some(SegmentFileState::Sealed));
    live.summary.live_ref_count = 3;
    assert_eq!(
        plan_gc_deletions(&vec![live], 40).err(),
        Some(GcError::SourceSegmentNotEmpty { segment_id: 1, live_ref_count: 3 })
    );
    // The clock may know that what the summary counts has ended, or that some of it has not.
    let mut judged = evidence(1, Some(SegmentFileState::Sealed));
    judged.summary.live_ref_count = 3;
    judged.clock_expiry_epoch = Some(50);
    assert_eq!(plan_gc_deletions(&vec![judged], 40).unwrap().states_to_commit.len(), 1);
    let mut outliving = evidence(1, Some(SegmentFileState::Sealed));
    outliving.summary.live_ref_count = 3;
    outliving.clock_expiry_epoch = Some(50);
    outliving.live_after_epoch = 2;
    assert_eq!(gated_live_refs(Some(50), &outliving.summary, 2), 2);
    assert_eq!(gated_live_refs(None, &outliving.summary, 2), 3);
    assert_eq!(
        plan_gc_deletions(&vec![outliving], 40).err(),
        Some(GcError::SourceSegmentNotEmpty { segment_id: 1, live_ref_count: 2 })
    );
    assert_eq!(
        plan_gc_deletions(&vec![evidence(1, Some(SegmentFileState::Open))], 40).err(),
        Some(GcError::SourceSegmentNotSealed { segment_id: 1, state: SegmentFileState::Open })
    );
    let missing = plan_gc_deletions(&vec![evidence(1, None)], 40).err().unwrap();
    assert_eq!(missing, GcError::MissingSourceSegment { segment_id: 1 });
    assert_eq!(missing.fault(), None);
}

#[test]
fn deletions_are_charged_to_the_strategy_that_copied() {
    assert_eq!(reclaim_strategy(&Some("join".to_owned()), 0, "delete"), "join");
    assert_eq!(reclaim_strategy(&None, 0, "delete"), "delete");
    assert_eq!(reclaim_strategy(&None, 5, "delete"), "unknown");
}

#[test]
fn metadata_actions_move_no_bytes() {
    assert_eq!(
        apply_gc_metadata_action(&GcAction::DeleteSegments { segment_ids: vec![1, 2] }),
        Ok(MetadataStep::Delete { segment_ids: vec![1, 2] })
    );
    assert_eq!(
        apply_gc_metadata_action(&GcAction::DeleteSegment { segment_id: 3 }),
        Ok(MetadataStep::Delete { segment_ids: vec![3] })
    );
    assert!(!move_from(1).is_metadata());
    let error = apply_gc_metadata_action(&move_from(1)).unwrap_err();
    assert_eq!(error, GcError::CopyActionWithoutCopies);
    assert_eq!(error.fault().as_deref(), Some("copy action must use the copy publish path"));

    let sealed = source(1, SegmentFileState::Sealed);
    let class = PlacementClass::ExactEpoch(9);
    let change = reclassify_gc_segment(1, Some(&sealed), class).unwrap().unwrap();
    assert_eq!(change.placement_class, class);
    assert_eq!(reclassify_gc_segment(1, Some(&sealed), PlacementClass::Ingest), Ok(None));
    assert_eq!(
        reclassify_gc_segment(1, None, class),
        Err(GcError::MissingSourceSegment { segment_id: 1 })
    );
    let open = source(1, SegmentFileState::Open);
    assert_eq!(
        reclassify_gc_segment(1, Some(&open), class),
        Err(GcError::SourceSegmentNotSealed { segment_id: 1, state: SegmentFileState::Open })
    );
}

#[test]
fn a_failed_activation_halts_the_store() {
    assert_eq!(
        publish_failure(GcPublishCommitError::BeforeIndexBatch, "disk full"),
        PublishFailure::RemoveOrphanTables
    );
    assert_eq!(
        publish_failure(GcPublishCommitError::IndexCommit, "disk full"),
        PublishFailure::Halt {
            reason: "fatal GC relocation activation error: disk full".to_owned(),
        }
    );
}

#[test]
fn a_copy_without_an_overlay_lost_its_source() {
    let copy = copied(3, 0, 100, 10);
    assert_eq!(
        copy_evidence(&copy.source, true, None).err(),
        Some(GcError::MissingSourceSegment { segment_id: 3 })
    );
    assert_eq!(
        copy_evidence(&copy.source, true, Some(OverlayRecordState::Retired)).unwrap(),
        CopyEvidence { generation_obsolete: true, overlay: OverlayRecordState::Retired }
    );
}
