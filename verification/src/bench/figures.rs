//! What the benchmark shows of itself: each figure with its name and its meaning.

use vstd::prelude::*;

use crate::text::joined;

verus! {

/// How finely spans of time are told apart.
#[derive(Clone, Copy, Debug, PartialEq, Eq, Structural)]
pub enum HarnessScale {
    /// Client operations: from ten microseconds to a minute.
    Operation,
    /// Lags of deletes: from a millisecond to ten minutes.
    DeleteLag,
}

/// The upper bounds of the spans that a scale tells apart, in nanoseconds.
pub open spec fn harness_scale_bounds(scale: HarnessScale) -> Seq<u64> {
    match scale {
        HarnessScale::Operation => seq![
            10_000u64, 25_000, 50_000, 100_000, 250_000, 500_000, 1_000_000, 2_000_000, 5_000_000,
            10_000_000, 20_000_000, 50_000_000, 100_000_000, 250_000_000, 500_000_000,
            1_000_000_000, 2_000_000_000, 5_000_000_000, 10_000_000_000, 30_000_000_000,
            60_000_000_000,
        ],
        HarnessScale::DeleteLag => seq![
            1_000_000u64, 5_000_000, 10_000_000, 50_000_000, 100_000_000, 500_000_000,
            1_000_000_000, 2_000_000_000, 5_000_000_000, 10_000_000_000, 30_000_000_000,
            60_000_000_000, 120_000_000_000, 300_000_000_000, 600_000_000_000,
        ],
    }
}

impl HarnessScale {
    /// The upper bounds of the spans that are told apart, in nanoseconds.
    pub fn bounds(self) -> (bounds: Vec<u64>)
        ensures
            bounds@ == harness_scale_bounds(self),
    {
        let bounds: Vec<u64> = match self {
            HarnessScale::Operation => vec![
                10_000u64, 25_000, 50_000, 100_000, 250_000, 500_000, 1_000_000, 2_000_000,
                5_000_000, 10_000_000, 20_000_000, 50_000_000, 100_000_000, 250_000_000,
                500_000_000, 1_000_000_000, 2_000_000_000, 5_000_000_000, 10_000_000_000,
                30_000_000_000, 60_000_000_000,
            ],
            HarnessScale::DeleteLag => vec![
                1_000_000u64, 5_000_000, 10_000_000, 50_000_000, 100_000_000, 500_000_000,
                1_000_000_000, 2_000_000_000, 5_000_000_000, 10_000_000_000, 30_000_000_000,
                60_000_000_000, 120_000_000_000, 300_000_000_000, 600_000_000_000,
            ],
        };
        assert(bounds@ =~= harness_scale_bounds(self));
        bounds
    }
}

/// What a figure shows.
#[derive(Clone, Copy, Debug, PartialEq, Eq, Structural)]
pub enum HarnessKind {
    Counter,
    /// A whole number that rises and falls.
    Gauge,
    /// A fraction that rises and falls.
    Measure,
    Spans { scale: HarnessScale },
}

/// A figure's name, its meaning and what it shows, by label where it has one.
#[derive(Clone, Copy, Debug)]
pub struct HarnessCollector {
    pub name: &'static str,
    pub help: &'static str,
    pub kind: HarnessKind,
    pub label: Option<&'static str>,
}

/// The figures of a benchmark.
#[derive(Clone, Copy, Debug, PartialEq, Eq, Structural)]
pub enum HarnessFigure {
    OperationAttempts,
    OperationSuccesses,
    OperationErrors,
    OperationDuration,
    PutPayloadBytes,
    RetiredPayloadBytes,
    EpochAdvances,
    NativeExpirations,
    ReadOutcomes,
    CorrectnessErrors,
    DeleteDue,
    DeleteTimely,
    DeleteLate,
    DeleteLag,
    LiveKeys,
    DeletedSampleKeys,
    LogicalLiveBytes,
    ActiveWriteWorkers,
    TargetPutOpsPerSecond,
    ClientLoadActive,
    ControllerHealthy,
    ControllerUnhealthy,
    ControllerDebounceStreakWindows,
    ControllerReadP99Seconds,
    ControllerReadOpsPerSecond,
    OverdueDeleteKeys,
    OldestOverdueSeconds,
    DirectoryApparentBytes,
    DirectoryAllocatedBytes,
    DirectoryFiles,
    StorageFileApparentBytes,
    StrataExactEpochBytes,
    StrataSpilloverBytes,
    StrataEpochDirectories,
    FilesystemAvailableBytes,
    FilesystemTotalBytes,
    SpaceAmplification,
    SpaceSampleErrors,
    BlobTotalBytes,
    BlobGarbageBytes,
    BlobFileBytesRead,
    BlobFileBytesWritten,
    BlobGcBytesRelocated,
    RocksdbWalBytesWritten,
}

/// How a figure is collected.
pub open spec fn harness_collector(figure: HarnessFigure) -> HarnessCollector {
    match figure {
        HarnessFigure::OperationAttempts => HarnessCollector {
            name: "operation_attempts_total",
            help: "Client operations attempted by type.",
            kind: HarnessKind::Counter,
            label: Some("operation"),
        },
        HarnessFigure::OperationSuccesses => HarnessCollector {
            name: "operation_successes_total",
            help: "Client operations completed successfully by type.",
            kind: HarnessKind::Counter,
            label: Some("operation"),
        },
        HarnessFigure::OperationErrors => HarnessCollector {
            name: "operation_errors_total",
            help: "Storage operation errors by type.",
            kind: HarnessKind::Counter,
            label: Some("operation"),
        },
        HarnessFigure::OperationDuration => HarnessCollector {
            name: "operation_duration_seconds",
            help: "Client-visible operation duration.",
            kind: HarnessKind::Spans { scale: HarnessScale::Operation },
            label: Some("operation"),
        },
        HarnessFigure::PutPayloadBytes => HarnessCollector {
            name: "put_payload_bytes_total",
            help: "Logical payload bytes accepted by successful puts.",
            kind: HarnessKind::Counter,
            label: None,
        },
        HarnessFigure::RetiredPayloadBytes => HarnessCollector {
            name: "retired_payload_bytes_total",
            help: "Logical payload bytes retired by native expiry or successful due deletes.",
            kind: HarnessKind::Counter,
            label: None,
        },
        HarnessFigure::EpochAdvances => HarnessCollector {
            name: "epoch_advances_total",
            help: "Logical epoch transitions completed by the benchmark.",
            kind: HarnessKind::Counter,
            label: None,
        },
        HarnessFigure::NativeExpirations => HarnessCollector {
            name: "native_expirations_total",
            help: "Keys retired by Strata epoch visibility without client tombstones.",
            kind: HarnessKind::Counter,
            label: None,
        },
        HarnessFigure::ReadOutcomes => HarnessCollector {
            name: "read_outcomes_total",
            help: "Validated read outcomes, including races.",
            kind: HarnessKind::Counter,
            label: Some("outcome"),
        },
        HarnessFigure::CorrectnessErrors => HarnessCollector {
            name: "correctness_errors_total",
            help: "Reads that violated the client reference model.",
            kind: HarnessKind::Counter,
            label: None,
        },
        HarnessFigure::DeleteDue => HarnessCollector {
            name: "delete_due_total",
            help: "Keys whose retention deadline has arrived.",
            kind: HarnessKind::Counter,
            label: None,
        },
        HarnessFigure::DeleteTimely => HarnessCollector {
            name: "delete_timely_total",
            help: "Deletes acknowledged within the configured lag SLO.",
            kind: HarnessKind::Counter,
            label: None,
        },
        HarnessFigure::DeleteLate => HarnessCollector {
            name: "delete_late_total",
            help: "Deletes acknowledged after the configured lag SLO.",
            kind: HarnessKind::Counter,
            label: None,
        },
        HarnessFigure::DeleteLag => HarnessCollector {
            name: "delete_lag_seconds",
            help: "Time from a key becoming due until delete acknowledgment.",
            kind: HarnessKind::Spans { scale: HarnessScale::DeleteLag },
            label: None,
        },
        HarnessFigure::LiveKeys => HarnessCollector {
            name: "live_keys",
            help: "Current logical live keys.",
            kind: HarnessKind::Gauge,
            label: None,
        },
        HarnessFigure::DeletedSampleKeys => HarnessCollector {
            name: "deleted_sample_keys",
            help: "Deleted keys retained in the client negative-read sample.",
            kind: HarnessKind::Gauge,
            label: None,
        },
        HarnessFigure::LogicalLiveBytes => HarnessCollector {
            name: "logical_live_bytes",
            help: "Current logical live payload bytes.",
            kind: HarnessKind::Gauge,
            label: None,
        },
        HarnessFigure::ActiveWriteWorkers => HarnessCollector {
            name: "active_write_workers",
            help: "Active writer concurrency; fixed at the configured maximum when a put rate is set.",
            kind: HarnessKind::Gauge,
            label: None,
        },
        HarnessFigure::TargetPutOpsPerSecond => HarnessCollector {
            name: "target_put_ops_per_second",
            help: "Configured global put rate; zero means AIMD-controlled unbounded puts.",
            kind: HarnessKind::Measure,
            label: None,
        },
        HarnessFigure::ClientLoadActive => HarnessCollector {
            name: "client_load_active",
            help: "One during the client workload and zero during the cleanup grace period.",
            kind: HarnessKind::Gauge,
            label: None,
        },
        HarnessFigure::ControllerHealthy => HarnessCollector {
            name: "controller_healthy",
            help: "One when the latest read/delete service window met its obligations.",
            kind: HarnessKind::Gauge,
            label: None,
        },
        HarnessFigure::ControllerUnhealthy => HarnessCollector {
            name: "controller_unhealthy",
            help: "One for each failed controller obligation in the latest control window.",
            kind: HarnessKind::Gauge,
            label: Some("reason"),
        },
        HarnessFigure::ControllerDebounceStreakWindows => HarnessCollector {
            name: "controller_debounce_streak_windows",
            help: "Consecutive controller windows with the current health result since the last writer-count change.",
            kind: HarnessKind::Gauge,
            label: None,
        },
        HarnessFigure::ControllerReadP99Seconds => HarnessCollector {
            name: "controller_read_p99_seconds",
            help: "Read p99 observed in the latest controller interval.",
            kind: HarnessKind::Measure,
            label: None,
        },
        HarnessFigure::ControllerReadOpsPerSecond => HarnessCollector {
            name: "controller_read_ops_per_second",
            help: "Reads completed per second in the latest controller interval.",
            kind: HarnessKind::Measure,
            label: None,
        },
        HarnessFigure::OverdueDeleteKeys => HarnessCollector {
            name: "overdue_delete_keys",
            help: "Due keys not yet delete-acknowledged.",
            kind: HarnessKind::Gauge,
            label: None,
        },
        HarnessFigure::OldestOverdueSeconds => HarnessCollector {
            name: "oldest_overdue_seconds",
            help: "Age past the retention deadline of the oldest outstanding delete.",
            kind: HarnessKind::Measure,
            label: None,
        },
        HarnessFigure::DirectoryApparentBytes => HarnessCollector {
            name: "directory_apparent_bytes",
            help: "Apparent bytes under the benchmark database root.",
            kind: HarnessKind::Gauge,
            label: None,
        },
        HarnessFigure::DirectoryAllocatedBytes => HarnessCollector {
            name: "directory_allocated_bytes",
            help: "Filesystem blocks allocated under the benchmark database root.",
            kind: HarnessKind::Gauge,
            label: None,
        },
        HarnessFigure::DirectoryFiles => HarnessCollector {
            name: "directory_files",
            help: "Files currently present under the benchmark database root.",
            kind: HarnessKind::Gauge,
            label: None,
        },
        HarnessFigure::StorageFileApparentBytes => HarnessCollector {
            name: "storage_file_apparent_bytes",
            help: "Apparent bytes in benchmark files classified by storage role.",
            kind: HarnessKind::Gauge,
            label: Some("file_type"),
        },
        HarnessFigure::StrataExactEpochBytes => HarnessCollector {
            name: "strata_exact_epoch_bytes",
            help: "Apparent bytes in Strata retention segments grouped into exact epoch directories.",
            kind: HarnessKind::Gauge,
            label: None,
        },
        HarnessFigure::StrataSpilloverBytes => HarnessCollector {
            name: "strata_spillover_bytes",
            help: "Apparent bytes in Strata spillover retention segments.",
            kind: HarnessKind::Gauge,
            label: None,
        },
        HarnessFigure::StrataEpochDirectories => HarnessCollector {
            name: "strata_epoch_directories",
            help: "Current number of Strata exact-epoch retention directories.",
            kind: HarnessKind::Gauge,
            label: None,
        },
        HarnessFigure::FilesystemAvailableBytes => HarnessCollector {
            name: "filesystem_available_bytes",
            help: "Bytes available to an unprivileged process on the root filesystem.",
            kind: HarnessKind::Gauge,
            label: None,
        },
        HarnessFigure::FilesystemTotalBytes => HarnessCollector {
            name: "filesystem_total_bytes",
            help: "Total bytes on the filesystem holding the benchmark root.",
            kind: HarnessKind::Gauge,
            label: None,
        },
        HarnessFigure::SpaceAmplification => HarnessCollector {
            name: "space_amplification_ratio",
            help: "Allocated database bytes divided by current logical live payload bytes.",
            kind: HarnessKind::Measure,
            label: None,
        },
        HarnessFigure::SpaceSampleErrors => HarnessCollector {
            name: "space_sample_errors_total",
            help: "Directory or filesystem space sampling failures.",
            kind: HarnessKind::Counter,
            label: None,
        },
        HarnessFigure::BlobTotalBytes => HarnessCollector {
            name: "blobdb_total_blob_file_bytes",
            help: "RocksDB-reported current BlobDB blob-file bytes.",
            kind: HarnessKind::Gauge,
            label: None,
        },
        HarnessFigure::BlobGarbageBytes => HarnessCollector {
            name: "blobdb_live_garbage_bytes",
            help: "RocksDB-reported garbage bytes in live blob files.",
            kind: HarnessKind::Gauge,
            label: None,
        },
        HarnessFigure::BlobFileBytesRead => HarnessCollector {
            name: "blobdb_blob_file_bytes_read",
            help: "Cumulative bytes read from BlobDB blob files.",
            kind: HarnessKind::Gauge,
            label: None,
        },
        HarnessFigure::BlobFileBytesWritten => HarnessCollector {
            name: "blobdb_blob_file_bytes_written",
            help: "Cumulative bytes submitted to BlobDB blob files.",
            kind: HarnessKind::Gauge,
            label: None,
        },
        HarnessFigure::BlobGcBytesRelocated => HarnessCollector {
            name: "blobdb_gc_bytes_relocated",
            help: "Cumulative live blob bytes relocated by BlobDB GC.",
            kind: HarnessKind::Gauge,
            label: None,
        },
        HarnessFigure::RocksdbWalBytesWritten => HarnessCollector {
            name: "rocksdb_wal_bytes_written",
            help: "Cumulative bytes RocksDB has appended to its WAL.",
            kind: HarnessKind::Gauge,
            label: None,
        },
    }
}

/// The name under which a figure is exported.
pub open spec fn exported_name(figure: HarnessFigure) -> Seq<char> {
    "strata_realistic_bench_"@ + harness_collector(figure).name@
}

impl HarnessFigure {
    /// How the figure is collected.
    pub fn collector(self) -> (collector: HarnessCollector)
        ensures
            collector == harness_collector(self),
    {
        match self {
            HarnessFigure::OperationAttempts => HarnessCollector {
                name: "operation_attempts_total",
                help: "Client operations attempted by type.",
                kind: HarnessKind::Counter,
                label: Some("operation"),
            },
            HarnessFigure::OperationSuccesses => HarnessCollector {
                name: "operation_successes_total",
                help: "Client operations completed successfully by type.",
                kind: HarnessKind::Counter,
                label: Some("operation"),
            },
            HarnessFigure::OperationErrors => HarnessCollector {
                name: "operation_errors_total",
                help: "Storage operation errors by type.",
                kind: HarnessKind::Counter,
                label: Some("operation"),
            },
            HarnessFigure::OperationDuration => HarnessCollector {
                name: "operation_duration_seconds",
                help: "Client-visible operation duration.",
                kind: HarnessKind::Spans { scale: HarnessScale::Operation },
                label: Some("operation"),
            },
            HarnessFigure::PutPayloadBytes => HarnessCollector {
                name: "put_payload_bytes_total",
                help: "Logical payload bytes accepted by successful puts.",
                kind: HarnessKind::Counter,
                label: None,
            },
            HarnessFigure::RetiredPayloadBytes => HarnessCollector {
                name: "retired_payload_bytes_total",
                help: "Logical payload bytes retired by native expiry or successful due deletes.",
                kind: HarnessKind::Counter,
                label: None,
            },
            HarnessFigure::EpochAdvances => HarnessCollector {
                name: "epoch_advances_total",
                help: "Logical epoch transitions completed by the benchmark.",
                kind: HarnessKind::Counter,
                label: None,
            },
            HarnessFigure::NativeExpirations => HarnessCollector {
                name: "native_expirations_total",
                help: "Keys retired by Strata epoch visibility without client tombstones.",
                kind: HarnessKind::Counter,
                label: None,
            },
            HarnessFigure::ReadOutcomes => HarnessCollector {
                name: "read_outcomes_total",
                help: "Validated read outcomes, including races.",
                kind: HarnessKind::Counter,
                label: Some("outcome"),
            },
            HarnessFigure::CorrectnessErrors => HarnessCollector {
                name: "correctness_errors_total",
                help: "Reads that violated the client reference model.",
                kind: HarnessKind::Counter,
                label: None,
            },
            HarnessFigure::DeleteDue => HarnessCollector {
                name: "delete_due_total",
                help: "Keys whose retention deadline has arrived.",
                kind: HarnessKind::Counter,
                label: None,
            },
            HarnessFigure::DeleteTimely => HarnessCollector {
                name: "delete_timely_total",
                help: "Deletes acknowledged within the configured lag SLO.",
                kind: HarnessKind::Counter,
                label: None,
            },
            HarnessFigure::DeleteLate => HarnessCollector {
                name: "delete_late_total",
                help: "Deletes acknowledged after the configured lag SLO.",
                kind: HarnessKind::Counter,
                label: None,
            },
            HarnessFigure::DeleteLag => HarnessCollector {
                name: "delete_lag_seconds",
                help: "Time from a key becoming due until delete acknowledgment.",
                kind: HarnessKind::Spans { scale: HarnessScale::DeleteLag },
                label: None,
            },
            HarnessFigure::LiveKeys => HarnessCollector {
                name: "live_keys",
                help: "Current logical live keys.",
                kind: HarnessKind::Gauge,
                label: None,
            },
            HarnessFigure::DeletedSampleKeys => HarnessCollector {
                name: "deleted_sample_keys",
                help: "Deleted keys retained in the client negative-read sample.",
                kind: HarnessKind::Gauge,
                label: None,
            },
            HarnessFigure::LogicalLiveBytes => HarnessCollector {
                name: "logical_live_bytes",
                help: "Current logical live payload bytes.",
                kind: HarnessKind::Gauge,
                label: None,
            },
            HarnessFigure::ActiveWriteWorkers => HarnessCollector {
                name: "active_write_workers",
                help: "Active writer concurrency; fixed at the configured maximum when a put rate is set.",
                kind: HarnessKind::Gauge,
                label: None,
            },
            HarnessFigure::TargetPutOpsPerSecond => HarnessCollector {
                name: "target_put_ops_per_second",
                help: "Configured global put rate; zero means AIMD-controlled unbounded puts.",
                kind: HarnessKind::Measure,
                label: None,
            },
            HarnessFigure::ClientLoadActive => HarnessCollector {
                name: "client_load_active",
                help: "One during the client workload and zero during the cleanup grace period.",
                kind: HarnessKind::Gauge,
                label: None,
            },
            HarnessFigure::ControllerHealthy => HarnessCollector {
                name: "controller_healthy",
                help: "One when the latest read/delete service window met its obligations.",
                kind: HarnessKind::Gauge,
                label: None,
            },
            HarnessFigure::ControllerUnhealthy => HarnessCollector {
                name: "controller_unhealthy",
                help: "One for each failed controller obligation in the latest control window.",
                kind: HarnessKind::Gauge,
                label: Some("reason"),
            },
            HarnessFigure::ControllerDebounceStreakWindows => HarnessCollector {
                name: "controller_debounce_streak_windows",
                help: "Consecutive controller windows with the current health result since the last writer-count change.",
                kind: HarnessKind::Gauge,
                label: None,
            },
            HarnessFigure::ControllerReadP99Seconds => HarnessCollector {
                name: "controller_read_p99_seconds",
                help: "Read p99 observed in the latest controller interval.",
                kind: HarnessKind::Measure,
                label: None,
            },
            HarnessFigure::ControllerReadOpsPerSecond => HarnessCollector {
                name: "controller_read_ops_per_second",
                help: "Reads completed per second in the latest controller interval.",
                kind: HarnessKind::Measure,
                label: None,
            },
            HarnessFigure::OverdueDeleteKeys => HarnessCollector {
                name: "overdue_delete_keys",
                help: "Due keys not yet delete-acknowledged.",
                kind: HarnessKind::Gauge,
                label: None,
            },
            HarnessFigure::OldestOverdueSeconds => HarnessCollector {
                name: "oldest_overdue_seconds",
                help: "Age past the retention deadline of the oldest outstanding delete.",
                kind: HarnessKind::Measure,
                label: None,
            },
            HarnessFigure::DirectoryApparentBytes => HarnessCollector {
                name: "directory_apparent_bytes",
                help: "Apparent bytes under the benchmark database root.",
                kind: HarnessKind::Gauge,
                label: None,
            },
            HarnessFigure::DirectoryAllocatedBytes => HarnessCollector {
                name: "directory_allocated_bytes",
                help: "Filesystem blocks allocated under the benchmark database root.",
                kind: HarnessKind::Gauge,
                label: None,
            },
            HarnessFigure::DirectoryFiles => HarnessCollector {
                name: "directory_files",
                help: "Files currently present under the benchmark database root.",
                kind: HarnessKind::Gauge,
                label: None,
            },
            HarnessFigure::StorageFileApparentBytes => HarnessCollector {
                name: "storage_file_apparent_bytes",
                help: "Apparent bytes in benchmark files classified by storage role.",
                kind: HarnessKind::Gauge,
                label: Some("file_type"),
            },
            HarnessFigure::StrataExactEpochBytes => HarnessCollector {
                name: "strata_exact_epoch_bytes",
                help: "Apparent bytes in Strata retention segments grouped into exact epoch directories.",
                kind: HarnessKind::Gauge,
                label: None,
            },
            HarnessFigure::StrataSpilloverBytes => HarnessCollector {
                name: "strata_spillover_bytes",
                help: "Apparent bytes in Strata spillover retention segments.",
                kind: HarnessKind::Gauge,
                label: None,
            },
            HarnessFigure::StrataEpochDirectories => HarnessCollector {
                name: "strata_epoch_directories",
                help: "Current number of Strata exact-epoch retention directories.",
                kind: HarnessKind::Gauge,
                label: None,
            },
            HarnessFigure::FilesystemAvailableBytes => HarnessCollector {
                name: "filesystem_available_bytes",
                help: "Bytes available to an unprivileged process on the root filesystem.",
                kind: HarnessKind::Gauge,
                label: None,
            },
            HarnessFigure::FilesystemTotalBytes => HarnessCollector {
                name: "filesystem_total_bytes",
                help: "Total bytes on the filesystem holding the benchmark root.",
                kind: HarnessKind::Gauge,
                label: None,
            },
            HarnessFigure::SpaceAmplification => HarnessCollector {
                name: "space_amplification_ratio",
                help: "Allocated database bytes divided by current logical live payload bytes.",
                kind: HarnessKind::Measure,
                label: None,
            },
            HarnessFigure::SpaceSampleErrors => HarnessCollector {
                name: "space_sample_errors_total",
                help: "Directory or filesystem space sampling failures.",
                kind: HarnessKind::Counter,
                label: None,
            },
            HarnessFigure::BlobTotalBytes => HarnessCollector {
                name: "blobdb_total_blob_file_bytes",
                help: "RocksDB-reported current BlobDB blob-file bytes.",
                kind: HarnessKind::Gauge,
                label: None,
            },
            HarnessFigure::BlobGarbageBytes => HarnessCollector {
                name: "blobdb_live_garbage_bytes",
                help: "RocksDB-reported garbage bytes in live blob files.",
                kind: HarnessKind::Gauge,
                label: None,
            },
            HarnessFigure::BlobFileBytesRead => HarnessCollector {
                name: "blobdb_blob_file_bytes_read",
                help: "Cumulative bytes read from BlobDB blob files.",
                kind: HarnessKind::Gauge,
                label: None,
            },
            HarnessFigure::BlobFileBytesWritten => HarnessCollector {
                name: "blobdb_blob_file_bytes_written",
                help: "Cumulative bytes submitted to BlobDB blob files.",
                kind: HarnessKind::Gauge,
                label: None,
            },
            HarnessFigure::BlobGcBytesRelocated => HarnessCollector {
                name: "blobdb_gc_bytes_relocated",
                help: "Cumulative live blob bytes relocated by BlobDB GC.",
                kind: HarnessKind::Gauge,
                label: None,
            },
            HarnessFigure::RocksdbWalBytesWritten => HarnessCollector {
                name: "rocksdb_wal_bytes_written",
                help: "Cumulative bytes RocksDB has appended to its WAL.",
                kind: HarnessKind::Gauge,
                label: None,
            },
        }
    }

    /// The name under which the figure is exported.
    pub fn exported_name(self) -> (name: String)
        ensures
            name@ == exported_name(self),
    {
        joined("strata_realistic_bench_", self.collector().name)
    }
}

/// A number made of a name's length and of some of its letters.
spec fn mark(name: Seq<char>) -> int {
    name.len() * 1_000_000 + name[0] as int * 1_000 + name[8] as int
}

/// The mark of a figure's name.
spec fn mark_of(figure: HarnessFigure) -> int {
    match figure {
        HarnessFigure::OperationAttempts => 24_111_110,
        HarnessFigure::OperationSuccesses => 25_111_110,
        HarnessFigure::OperationErrors => 22_111_110,
        HarnessFigure::OperationDuration => 26_111_110,
        HarnessFigure::PutPayloadBytes => 23_112_111,
        HarnessFigure::RetiredPayloadBytes => 27_114_112,
        HarnessFigure::EpochAdvances => 20_101_118,
        HarnessFigure::NativeExpirations => 24_110_120,
        HarnessFigure::ReadOutcomes => 19_114_099,
        HarnessFigure::CorrectnessErrors => 24_099_101,
        HarnessFigure::DeleteDue => 16_100_117,
        HarnessFigure::DeleteTimely => 19_100_105,
        HarnessFigure::DeleteLate => 17_100_097,
        HarnessFigure::DeleteLag => 18_100_097,
        HarnessFigure::LiveKeys => 9_108_115,
        HarnessFigure::DeletedSampleKeys => 19_100_115,
        HarnessFigure::LogicalLiveBytes => 18_108_108,
        HarnessFigure::ActiveWriteWorkers => 20_097_114,
        HarnessFigure::TargetPutOpsPerSecond => 25_116_117,
        HarnessFigure::ClientLoadActive => 18_099_111,
        HarnessFigure::ControllerHealthy => 18_099_101,
        HarnessFigure::ControllerUnhealthy => 20_099_101,
        HarnessFigure::ControllerDebounceStreakWindows => 34_099_101,
        HarnessFigure::ControllerReadP99Seconds => 27_099_101,
        HarnessFigure::ControllerReadOpsPerSecond => 30_099_101,
        HarnessFigure::OverdueDeleteKeys => 19_111_100,
        HarnessFigure::OldestOverdueSeconds => 22_111_118,
        HarnessFigure::DirectoryApparentBytes => 24_100_121,
        HarnessFigure::DirectoryAllocatedBytes => 25_100_121,
        HarnessFigure::DirectoryFiles => 15_100_121,
        HarnessFigure::StorageFileApparentBytes => 27_115_102,
        HarnessFigure::StrataExactEpochBytes => 24_115_120,
        HarnessFigure::StrataSpilloverBytes => 22_115_112,
        HarnessFigure::StrataEpochDirectories => 24_115_112,
        HarnessFigure::FilesystemAvailableBytes => 26_102_101,
        HarnessFigure::FilesystemTotalBytes => 22_102_101,
        HarnessFigure::SpaceAmplification => 25_115_112,
        HarnessFigure::SpaceSampleErrors => 25_115_109,
        HarnessFigure::BlobTotalBytes => 28_098_111,
        HarnessFigure::BlobGarbageBytes => 25_098_105,
        HarnessFigure::BlobFileBytesRead => 27_098_108,
        HarnessFigure::BlobFileBytesWritten => 30_098_108,
        HarnessFigure::BlobGcBytesRelocated => 25_098_099,
        HarnessFigure::RocksdbWalBytesWritten => 25_114_119,
    }
}

proof fn lemma_mark(figure: HarnessFigure)
    ensures
        mark(harness_collector(figure).name@) == mark_of(figure),
{
    match figure {
        HarnessFigure::OperationAttempts => {
            reveal_strlit("operation_attempts_total");
        },
        HarnessFigure::OperationSuccesses => {
            reveal_strlit("operation_successes_total");
        },
        HarnessFigure::OperationErrors => {
            reveal_strlit("operation_errors_total");
        },
        HarnessFigure::OperationDuration => {
            reveal_strlit("operation_duration_seconds");
        },
        HarnessFigure::PutPayloadBytes => {
            reveal_strlit("put_payload_bytes_total");
        },
        HarnessFigure::RetiredPayloadBytes => {
            reveal_strlit("retired_payload_bytes_total");
        },
        HarnessFigure::EpochAdvances => {
            reveal_strlit("epoch_advances_total");
        },
        HarnessFigure::NativeExpirations => {
            reveal_strlit("native_expirations_total");
        },
        HarnessFigure::ReadOutcomes => {
            reveal_strlit("read_outcomes_total");
        },
        HarnessFigure::CorrectnessErrors => {
            reveal_strlit("correctness_errors_total");
        },
        HarnessFigure::DeleteDue => {
            reveal_strlit("delete_due_total");
        },
        HarnessFigure::DeleteTimely => {
            reveal_strlit("delete_timely_total");
        },
        HarnessFigure::DeleteLate => {
            reveal_strlit("delete_late_total");
        },
        HarnessFigure::DeleteLag => {
            reveal_strlit("delete_lag_seconds");
        },
        HarnessFigure::LiveKeys => {
            reveal_strlit("live_keys");
        },
        HarnessFigure::DeletedSampleKeys => {
            reveal_strlit("deleted_sample_keys");
        },
        HarnessFigure::LogicalLiveBytes => {
            reveal_strlit("logical_live_bytes");
        },
        HarnessFigure::ActiveWriteWorkers => {
            reveal_strlit("active_write_workers");
        },
        HarnessFigure::TargetPutOpsPerSecond => {
            reveal_strlit("target_put_ops_per_second");
        },
        HarnessFigure::ClientLoadActive => {
            reveal_strlit("client_load_active");
        },
        HarnessFigure::ControllerHealthy => {
            reveal_strlit("controller_healthy");
        },
        HarnessFigure::ControllerUnhealthy => {
            reveal_strlit("controller_unhealthy");
        },
        HarnessFigure::ControllerDebounceStreakWindows => {
            reveal_strlit("controller_debounce_streak_windows");
        },
        HarnessFigure::ControllerReadP99Seconds => {
            reveal_strlit("controller_read_p99_seconds");
        },
        HarnessFigure::ControllerReadOpsPerSecond => {
            reveal_strlit("controller_read_ops_per_second");
        },
        HarnessFigure::OverdueDeleteKeys => {
            reveal_strlit("overdue_delete_keys");
        },
        HarnessFigure::OldestOverdueSeconds => {
            reveal_strlit("oldest_overdue_seconds");
        },
        HarnessFigure::DirectoryApparentBytes => {
            reveal_strlit("directory_apparent_bytes");
        },
        HarnessFigure::DirectoryAllocatedBytes => {
            reveal_strlit("directory_allocated_bytes");
        },
        HarnessFigure::DirectoryFiles => {
            reveal_strlit("directory_files");
        },
        HarnessFigure::StorageFileApparentBytes => {
            reveal_strlit("storage_file_apparent_bytes");
        },
        HarnessFigure::StrataExactEpochBytes => {
            reveal_strlit("strata_exact_epoch_bytes");
        },
        HarnessFigure::StrataSpilloverBytes => {
            reveal_strlit("strata_spillover_bytes");
        },
        HarnessFigure::StrataEpochDirectories => {
            reveal_strlit("strata_epoch_directories");
        },
        HarnessFigure::FilesystemAvailableBytes => {
            reveal_strlit("filesystem_available_bytes");
        },
        HarnessFigure::FilesystemTotalBytes => {
            reveal_strlit("filesystem_total_bytes");
        },
        HarnessFigure::SpaceAmplification => {
            reveal_strlit("space_amplification_ratio");
        },
        HarnessFigure::SpaceSampleErrors => {
            reveal_strlit("space_sample_errors_total");
        },
        HarnessFigure::BlobTotalBytes => {
            reveal_strlit("blobdb_total_blob_file_bytes");
        },
        HarnessFigure::BlobGarbageBytes => {
            reveal_strlit("blobdb_live_garbage_bytes");
        },
        HarnessFigure::BlobFileBytesRead => {
            reveal_strlit("blobdb_blob_file_bytes_read");
        },
        HarnessFigure::BlobFileBytesWritten => {
            reveal_strlit("blobdb_blob_file_bytes_written");
        },
        HarnessFigure::BlobGcBytesRelocated => {
            reveal_strlit("blobdb_gc_bytes_relocated");
        },
        HarnessFigure::RocksdbWalBytesWritten => {
            reveal_strlit("rocksdb_wal_bytes_written");
        },
    }
}

/// No two figures are exported under one name.
pub proof fn law_names_differ(one: HarnessFigure, other: HarnessFigure)
    requires
        one != other,
    ensures
        exported_name(one) != exported_name(other),
{
    lemma_mark(one);
    lemma_mark(other);
    let prefix = "strata_realistic_bench_"@;
    let a = harness_collector(one).name@;
    let b = harness_collector(other).name@;
    if prefix + a == prefix + b {
        assert(a =~= (prefix + a).skip(prefix.len() as int));
        assert(b =~= (prefix + b).skip(prefix.len() as int));
    }
}

} // verus!
