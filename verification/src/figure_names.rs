//! The names of a store's figures: no two are the same.

use vstd::prelude::*;

use crate::figures::{
    all_figures, compaction_figures, durability_figures, garbage_figures, range_figures,
    read_figures, recovery_figures, sealing_figures, segment_figures, worker_figures,
    write_figures,
};
use crate::metrics::StrataStoreMetrics;

verus! {

/// A number made of a name's length and of some of its letters.
spec fn mark(name: Seq<char>) -> int {
    let middle = name.len() as int / 2;
    ((name.len() * 1_000 + name[1] as int) * 1_000 + name[middle - 2] as int) * 1_000
        + name[middle] as int
}

/// The place of the figure whose name has a mark.
#[verifier::opaque]
spec fn place_of(mark: int) -> int {
    if mark == 21_117_114_116 {
        0
    } else if mark == 33_114_110_095 {
        1
    } else if mark == 29_114_115_110 {
        2
    } else if mark == 25_101_101_095 {
        3
    } else if mark == 15_117_097_108 {
        4
    } else if mark == 16_117_114_114 {
        5
    } else if mark == 20_117_116_111 {
        6
    } else if mark == 23_117_097_095 {
        7
    } else if mark == 22_117_100_098 {
        8
    } else if mark == 29_101_095_121 {
        9
    } else if mark == 32_101_121_101 {
        10
    } else if mark == 18_101_099_108 {
        11
    } else if mark == 19_101_101_114 {
        12
    } else if mark == 23_101_114_116 {
        13
    } else if mark == 16_121_097_108 {
        14
    } else if mark == 17_121_114_111 {
        15
    } else if mark == 21_121_097_105 {
        16
    } else if mark == 27_121_100_114 {
        17
    } else if mark == 34_097_115_095 {
        18
    } else if mark == 16_121_121_101 {
        19
    } else if mark == 26_117_119_108 {
        20
    } else if mark == 28_117_101_100 {
        21
    } else if mark == 32_117_100_110 {
        22
    } else if mark == 28_117_117_108 {
        23
    } else if mark == 15_101_097_108 {
        24
    } else if mark == 14_101_105_115 {
        25
    } else if mark == 16_101_115_101 {
        26
    } else if mark == 16_101_114_114 {
        27
    } else if mark == 20_101_116_111 {
        28
    } else if mark == 23_101_097_095 {
        29
    } else if mark == 31_101_099_101 {
        30
    } else if mark == 24_101_095_111 {
        31
    } else if mark == 34_101_117_095 {
        32
    } else if mark == 39_097_101_108 {
        33
    } else if mark == 32_097_110_100 {
        34
    } else if mark == 33_097_110_105 {
        35
    } else if mark == 34_097_095_117 {
        36
    } else if mark == 25_097_095_111 {
        37
    } else if mark == 24_097_099_109 {
        38
    } else if mark == 44_101_110_101 {
        39
    } else if mark == 43_101_111_095 {
        40
    } else if mark == 38_101_116_111 {
        41
    } else if mark == 39_101_116_111 {
        42
    } else if mark == 40_101_105_110 {
        43
    } else if mark == 34_101_097_116 {
        44
    } else if mark == 44_101_110_112 {
        45
    } else if mark == 22_097_100_099 {
        46
    } else if mark == 21_097_097_095 {
        47
    } else if mark == 23_097_100_109 {
        48
    } else if mark == 23_097_100_101 {
        49
    } else if mark == 27_097_100_114 {
        50
    } else if mark == 30_097_121_111 {
        51
    } else if mark == 18_116_099_108 {
        52
    } else if mark == 17_116_095_105 {
        53
    } else if mark == 19_116_109_115 {
        54
    } else if mark == 19_116_101_114 {
        55
    } else if mark == 23_116_114_116 {
        56
    } else if mark == 28_101_095_118 {
        57
    } else if mark == 30_114_101_116 {
        58
    } else if mark == 28_114_109_110 {
        59
    } else if mark == 17_099_095_101 {
        60
    } else if mark == 27_099_101_116 {
        61
    } else if mark == 29_099_110_095 {
        62
    } else if mark == 8_101_120_095 {
        63
    } else if mark == 13_117_105_104 {
        64
    } else if mark == 20_099_095_111 {
        65
    } else if mark == 19_099_110_108 {
        66
    } else if mark == 22_099_114_116 {
        67
    } else if mark == 22_099_101_112 {
        68
    } else if mark == 23_099_108_118 {
        69
    } else if mark == 22_099_116_110 {
        70
    } else if mark == 21_099_116_098 {
        71
    } else if mark == 29_099_108_116 {
        72
    } else if mark == 24_099_101_095 {
        73
    } else if mark == 26_099_095_101 {
        74
    } else if mark == 27_099_095_111 {
        75
    } else if mark == 30_099_117_112 {
        76
    } else if mark == 38_099_101_100 {
        77
    } else if mark == 33_099_099_097 {
        78
    } else if mark == 13_117_101_116 {
        79
    } else if mark == 17_101_103_108 {
        80
    } else if mark == 17_110_101_095 {
        81
    } else if mark == 21_101_101_109 {
        82
    } else if mark == 17_101_114_111 {
        83
    } else if mark == 29_101_115_117 {
        84
    } else if mark == 39_101_095_097 {
        85
    } else if mark == 25_101_114_115 {
        86
    } else if mark == 23_101_115_103 {
        87
    } else if mark == 32_101_101_101 {
        88
    } else if mark == 34_101_108_116 {
        89
    } else if mark == 22_101_114_099 {
        90
    } else if mark == 20_101_095_121 {
        91
    } else if mark == 33_101_114_101 {
        92
    } else if mark == 27_101_108_098 {
        93
    } else if mark == 27_101_115_095 {
        94
    } else if mark == 21_099_103_114 {
        95
    } else if mark == 22_099_095_111 {
        96
    } else if mark == 30_099_095_111 {
        97
    } else if mark == 23_099_095_121 {
        98
    } else if mark == 26_099_111_098 {
        99
    } else if mark == 20_099_105_104 {
        100
    } else if mark == 17_099_105_116 {
        101
    } else if mark == 21_099_097_108 {
        102
    } else if mark == 31_099_101_095 {
        103
    } else if mark == 27_099_105_101 {
        104
    } else if mark == 25_099_095_121 {
        105
    } else if mark == 24_099_110_114 {
        106
    } else if mark == 24_099_101_114 {
        107
    } else if mark == 21_099_095_101 {
        108
    } else {
        -1
    }
}

proof fn lemma_write_figures(metrics: &StrataStoreMetrics)
    ensures
        write_figures(metrics).len() == 11,
        forall|i: int|
            0 <= i < 11 ==> place_of(mark(#[trigger] write_figures(metrics)[i].name@)) == 0 + i,
{
    reveal(place_of);
    assert forall|i: int| 0 <= i < 11 implies place_of(
        mark(#[trigger] write_figures(metrics)[i].name@),
    ) == 0 + i by {
        if i == 0 {
            reveal_strlit("queued_write_commands");
        } else if i == 1 {
            reveal_strlit("write_queue_send_duration_seconds");
        } else if i == 2 {
            reveal_strlit("write_queue_send_errors_total");
        } else if i == 3 {
            reveal_strlit("requests_per_commit_group");
        } else if i == 4 {
            reveal_strlit("put_calls_total");
        } else if i == 5 {
            reveal_strlit("put_errors_total");
        } else if i == 6 {
            reveal_strlit("put_duration_seconds");
        } else if i == 7 {
            reveal_strlit("put_payload_bytes_total");
        } else if i == 8 {
            reveal_strlit("put_record_bytes_total");
        } else if i == 9 {
            reveal_strlit("segment_file_bytes_read_total");
        } else if i == 10 {
            reveal_strlit("segment_file_bytes_written_total");
        }
    }
}

proof fn lemma_durability_figures(metrics: &StrataStoreMetrics)
    ensures
        durability_figures(metrics).len() == 13,
        forall|i: int|
            0 <= i < 13 ==> place_of(mark(#[trigger] durability_figures(metrics)[i].name@)) == 11 + i,
{
    reveal(place_of);
    assert forall|i: int| 0 <= i < 13 implies place_of(
        mark(#[trigger] durability_figures(metrics)[i].name@),
    ) == 11 + i by {
        if i == 0 {
            reveal_strlit("delete_calls_total");
        } else if i == 1 {
            reveal_strlit("delete_errors_total");
        } else if i == 2 {
            reveal_strlit("delete_duration_seconds");
        } else if i == 3 {
            reveal_strlit("sync_calls_total");
        } else if i == 4 {
            reveal_strlit("sync_errors_total");
        } else if i == 5 {
            reveal_strlit("sync_duration_seconds");
        } else if i == 6 {
            reveal_strlit("sync_phase_duration_seconds");
        } else if i == 7 {
            reveal_strlit("wal_reclaim_phase_duration_seconds");
        } else if i == 8 {
            reveal_strlit("sync_bytes_total");
        } else if i == 9 {
            reveal_strlit("durability_wal_bytes_total");
        } else if i == 10 {
            reveal_strlit("durability_pending_wal_bytes");
        } else if i == 11 {
            reveal_strlit("durability_pending_segment_bytes");
        } else if i == 12 {
            reveal_strlit("durability_publish_in_flight");
        }
    }
}

proof fn lemma_read_figures(metrics: &StrataStoreMetrics)
    ensures
        read_figures(metrics).len() == 6,
        forall|i: int|
            0 <= i < 6 ==> place_of(mark(#[trigger] read_figures(metrics)[i].name@)) == 24 + i,
{
    reveal(place_of);
    assert forall|i: int| 0 <= i < 6 implies place_of(
        mark(#[trigger] read_figures(metrics)[i].name@),
    ) == 24 + i by {
        if i == 0 {
            reveal_strlit("get_calls_total");
        } else if i == 1 {
            reveal_strlit("get_hits_total");
        } else if i == 2 {
            reveal_strlit("get_misses_total");
        } else if i == 3 {
            reveal_strlit("get_errors_total");
        } else if i == 4 {
            reveal_strlit("get_duration_seconds");
        } else if i == 5 {
            reveal_strlit("get_payload_bytes_total");
        }
    }
}

proof fn lemma_compaction_figures(metrics: &StrataStoreMetrics)
    ensures
        compaction_figures(metrics).len() == 16,
        forall|i: int|
            0 <= i < 16 ==> place_of(mark(#[trigger] compaction_figures(metrics)[i].name@)) == 30 + i,
{
    reveal(place_of);
    assert forall|i: int| 0 <= i < 16 implies place_of(
        mark(#[trigger] compaction_figures(metrics)[i].name@),
    ) == 30 + i by {
        if i == 0 {
            reveal_strlit("relocation_cache_requests_total");
        } else if i == 1 {
            reveal_strlit("relocation_lookups_total");
        } else if i == 2 {
            reveal_strlit("relocation_lookup_duration_seconds");
        } else if i == 3 {
            reveal_strlit("main_compaction_healed_references_total");
        } else if i == 4 {
            reveal_strlit("main_compaction_duration_seconds");
        } else if i == 5 {
            reveal_strlit("main_compaction_input_bytes_total");
        } else if i == 6 {
            reveal_strlit("main_compaction_output_bytes_total");
        } else if i == 7 {
            reveal_strlit("main_minor_compaction_lsn");
        } else if i == 8 {
            reveal_strlit("main_full_compaction_lsn");
        } else if i == 9 {
            reveal_strlit("relocation_compaction_entries_examined_total");
        } else if i == 10 {
            reveal_strlit("relocation_compaction_entries_dropped_total");
        } else if i == 11 {
            reveal_strlit("relocation_compaction_duration_seconds");
        } else if i == 12 {
            reveal_strlit("relocation_compaction_input_bytes_total");
        } else if i == 13 {
            reveal_strlit("relocation_compaction_output_bytes_total");
        } else if i == 14 {
            reveal_strlit("relocation_compaction_passes_total");
        } else if i == 15 {
            reveal_strlit("relocation_compaction_pass_input_bytes_total");
        }
    }
}

proof fn lemma_range_figures(metrics: &StrataStoreMetrics)
    ensures
        range_figures(metrics).len() == 14,
        forall|i: int|
            0 <= i < 14 ==> place_of(mark(#[trigger] range_figures(metrics)[i].name@)) == 46 + i,
{
    reveal(place_of);
    assert forall|i: int| 0 <= i < 14 implies place_of(
        mark(#[trigger] range_figures(metrics)[i].name@),
    ) == 46 + i by {
        if i == 0 {
            reveal_strlit("range_read_calls_total");
        } else if i == 1 {
            reveal_strlit("range_read_hits_total");
        } else if i == 2 {
            reveal_strlit("range_read_misses_total");
        } else if i == 3 {
            reveal_strlit("range_read_errors_total");
        } else if i == 4 {
            reveal_strlit("range_read_duration_seconds");
        } else if i == 5 {
            reveal_strlit("range_read_payload_bytes_total");
        } else if i == 6 {
            reveal_strlit("stream_calls_total");
        } else if i == 7 {
            reveal_strlit("stream_hits_total");
        } else if i == 8 {
            reveal_strlit("stream_misses_total");
        } else if i == 9 {
            reveal_strlit("stream_errors_total");
        } else if i == 10 {
            reveal_strlit("stream_duration_seconds");
        } else if i == 11 {
            reveal_strlit("reader_cache_evictions_total");
        } else if i == 12 {
            reveal_strlit("orphaned_segment_records_total");
        } else if i == 13 {
            reveal_strlit("orphaned_segment_bytes_total");
        }
    }
}

proof fn lemma_segment_figures(metrics: &StrataStoreMetrics)
    ensures
        segment_figures(metrics).len() == 5,
        forall|i: int|
            0 <= i < 5 ==> place_of(mark(#[trigger] segment_figures(metrics)[i].name@)) == 60 + i,
{
    reveal(place_of);
    assert forall|i: int| 0 <= i < 5 implies place_of(
        mark(#[trigger] segment_figures(metrics)[i].name@),
    ) == 60 + i by {
        if i == 0 {
            reveal_strlit("active_segment_id");
        } else if i == 1 {
            reveal_strlit("active_segment_write_offset");
        } else if i == 2 {
            reveal_strlit("active_segment_durable_offset");
        } else if i == 3 {
            reveal_strlit("next_lsn");
        } else if i == 4 {
            reveal_strlit("published_lsn");
        }
    }
}

proof fn lemma_garbage_figures(metrics: &StrataStoreMetrics)
    ensures
        garbage_figures(metrics).len() == 14,
        forall|i: int|
            0 <= i < 14 ==> place_of(mark(#[trigger] garbage_figures(metrics)[i].name@)) == 65 + i,
{
    reveal(place_of);
    assert forall|i: int| 0 <= i < 14 implies place_of(
        mark(#[trigger] garbage_figures(metrics)[i].name@),
    ) == 65 + i by {
        if i == 0 {
            reveal_strlit("gc_known_total_bytes");
        } else if i == 1 {
            reveal_strlit("gc_known_live_bytes");
        } else if i == 2 {
            reveal_strlit("gc_known_retired_bytes");
        } else if i == 3 {
            reveal_strlit("gc_known_expired_bytes");
        } else if i == 4 {
            reveal_strlit("gc_known_live_ref_count");
        } else if i == 5 {
            reveal_strlit("gc_relocating_segments");
        } else if i == 6 {
            reveal_strlit("gc_output_bytes_total");
        } else if i == 7 {
            reveal_strlit("gc_source_deleted_bytes_total");
        } else if i == 8 {
            reveal_strlit("gc_reclaimed_bytes_total");
        } else if i == 9 {
            reveal_strlit("gc_strategy_selected_total");
        } else if i == 10 {
            reveal_strlit("gc_strategy_completed_total");
        } else if i == 11 {
            reveal_strlit("gc_strategy_output_bytes_total");
        } else if i == 12 {
            reveal_strlit("gc_strategy_source_deleted_bytes_total");
        } else if i == 13 {
            reveal_strlit("gc_strategy_reclaimed_bytes_total");
        }
    }
}

proof fn lemma_sealing_figures(metrics: &StrataStoreMetrics)
    ensures
        sealing_figures(metrics).len() == 8,
        forall|i: int|
            0 <= i < 8 ==> place_of(mark(#[trigger] sealing_figures(metrics)[i].name@)) == 79 + i,
{
    reveal(place_of);
    assert forall|i: int| 0 <= i < 8 implies place_of(
        mark(#[trigger] sealing_figures(metrics)[i].name@),
    ) == 79 + i by {
        if i == 0 {
            reveal_strlit("current_epoch");
        } else if i == 1 {
            reveal_strlit("pending_lsn_count");
        } else if i == 2 {
            reveal_strlit("unsealed_segments");
        } else if i == 3 {
            reveal_strlit("sealed_segments_total");
        } else if i == 4 {
            reveal_strlit("seal_errors_total");
        } else if i == 5 {
            reveal_strlit("seal_backpressure_waits_total");
        } else if i == 6 {
            reveal_strlit("seal_backpressure_wait_duration_seconds");
        } else if i == 7 {
            reveal_strlit("seal_backpressure_current");
        }
    }
}

proof fn lemma_recovery_figures(metrics: &StrataStoreMetrics)
    ensures
        recovery_figures(metrics).len() == 8,
        forall|i: int|
            0 <= i < 8 ==> place_of(mark(#[trigger] recovery_figures(metrics)[i].name@)) == 87 + i,
{
    reveal(place_of);
    assert forall|i: int| 0 <= i < 8 implies place_of(
        mark(#[trigger] recovery_figures(metrics)[i].name@),
    ) == 87 + i by {
        if i == 0 {
            reveal_strlit("recovery_segments_total");
        } else if i == 1 {
            reveal_strlit("recovery_complete_segments_total");
        } else if i == 2 {
            reveal_strlit("recovery_incomplete_segments_total");
        } else if i == 3 {
            reveal_strlit("recovery_records_total");
        } else if i == 4 {
            reveal_strlit("recovery_bytes_total");
        } else if i == 5 {
            reveal_strlit("recovery_discarded_segments_total");
        } else if i == 6 {
            reveal_strlit("recovery_rollback_ops_total");
        } else if i == 7 {
            reveal_strlit("recovery_last_rollback_from");
        }
    }
}

proof fn lemma_worker_figures(metrics: &StrataStoreMetrics)
    ensures
        worker_figures(metrics).len() == 14,
        forall|i: int|
            0 <= i < 14 ==> place_of(mark(#[trigger] worker_figures(metrics)[i].name@)) == 95 + i,
{
    reveal(place_of);
    assert forall|i: int| 0 <= i < 14 implies place_of(
        mark(#[trigger] worker_figures(metrics)[i].name@),
    ) == 95 + i by {
        if i == 0 {
            reveal_strlit("gc_configured_workers");
        } else if i == 1 {
            reveal_strlit("gc_active_worker_limit");
        } else if i == 2 {
            reveal_strlit("gc_configured_io_bytes_per_sec");
        } else if i == 3 {
            reveal_strlit("gc_min_io_bytes_per_sec");
        } else if i == 4 {
            reveal_strlit("gc_active_io_bytes_per_sec");
        } else if i == 5 {
            reveal_strlit("gc_in_flight_workers");
        } else if i == 6 {
            reveal_strlit("gc_admitted_total");
        } else if i == 7 {
            reveal_strlit("gc_run_failures_total");
        } else if i == 8 {
            reveal_strlit("gc_run_failures_by_reason_total");
        } else if i == 9 {
            reveal_strlit("gc_consecutive_run_failures");
        } else if i == 10 {
            reveal_strlit("gc_skipped_by_tuner_total");
        } else if i == 11 {
            reveal_strlit("gc_tuner_increases_total");
        } else if i == 12 {
            reveal_strlit("gc_tuner_decreases_total");
        } else if i == 13 {
            reveal_strlit("gc_tuner_health_state");
        }
    }
}

/// A figure's mark leads back to its place.
proof fn lemma_place(metrics: &StrataStoreMetrics, i: int)
    requires
        0 <= i < all_figures(metrics).len(),
    ensures
        place_of(mark(all_figures(metrics)[i].name@)) == i,
{
    lemma_write_figures(metrics);
    lemma_durability_figures(metrics);
    lemma_read_figures(metrics);
    lemma_compaction_figures(metrics);
    lemma_range_figures(metrics);
    lemma_segment_figures(metrics);
    lemma_garbage_figures(metrics);
    lemma_sealing_figures(metrics);
    lemma_recovery_figures(metrics);
    lemma_worker_figures(metrics);
    let all = all_figures(metrics);
    if i < 11 {
        assert(all[i] == write_figures(metrics)[i ]);
    } else if i < 24 {
        assert(all[i] == durability_figures(metrics)[i - 11]);
    } else if i < 30 {
        assert(all[i] == read_figures(metrics)[i - 24]);
    } else if i < 46 {
        assert(all[i] == compaction_figures(metrics)[i - 30]);
    } else if i < 60 {
        assert(all[i] == range_figures(metrics)[i - 46]);
    } else if i < 65 {
        assert(all[i] == segment_figures(metrics)[i - 60]);
    } else if i < 79 {
        assert(all[i] == garbage_figures(metrics)[i - 65]);
    } else if i < 87 {
        assert(all[i] == sealing_figures(metrics)[i - 79]);
    } else if i < 95 {
        assert(all[i] == recovery_figures(metrics)[i - 87]);
    } else {
        assert(all[i] == worker_figures(metrics)[i - 95]);
    }
}

/// No two figures of a store have the same name.
pub proof fn law_store_names_differ(metrics: &StrataStoreMetrics, i: int, j: int)
    requires
        0 <= i < j < all_figures(metrics).len(),
    ensures
        all_figures(metrics)[i].name@ != all_figures(metrics)[j].name@,
{
    lemma_place(metrics, i);
    lemma_place(metrics, j);
}

} // verus!
