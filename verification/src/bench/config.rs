//! The configuration of a benchmark run, from its command line. Spans of time are in nanoseconds.

use vstd::prelude::*;

use crate::bench::options;
use crate::bench::options::{
    check_fraction, check_percent, parse_bool, parse_duration, parse_nonzero_usize, parse_size,
    parse_u64,
};
use crate::config::{
    GcPlannerConfig, SealedSegmentIntegrityPolicy, StrataRecoveryPolicy, StrataStoreConfig,
    DEFAULT_GC_INITIAL_WORKER_COUNT, DEFAULT_GC_INTERVAL, DEFAULT_GC_MIN_IO_BYTES_PER_SEC,
    DEFAULT_GC_SYNC_IMPACT_THRESHOLD, DEFAULT_GC_TUNING_WINDOW_CYCLES, DEFAULT_GC_WORKER_COUNT,
    DEFAULT_LSM_COMPACTION_PATCH_BYTES, DEFAULT_LSM_MEMTABLE_MAX_AGE, DEFAULT_LSM_PARTITION_COUNT,
    DEFAULT_SEGMENT_MAX_BYTES, DEFAULT_SEGMENT_READER_CACHE_CAPACITY,
    DEFAULT_SHARD_DROP_GC_DRAIN_TIMEOUT,
};
use crate::text::{joined, joined3, letters, same};
use crate::types::Epoch;

verus! {

pub const DEFAULT_NAMESPACE: &'static str = "realistic";

/// Half an hour.
pub const DEFAULT_DURATION: u128 = 1_800_000_000_000;

/// Five minutes.
pub const DEFAULT_RETENTION: u128 = 300_000_000_000;

/// Five minutes.
pub const DEFAULT_EPOCH_DURATION: u128 = 300_000_000_000;

pub const DEFAULT_FUTURE_EPOCHS: Epoch = 52;

pub const DEFAULT_LIFETIME_SEED: u64 = 0x5eed_1eaf_cafe_f00d;

/// Five minutes.
pub const DEFAULT_CLEANUP_GRACE: u128 = 300_000_000_000;

/// 1 MiB.
pub const DEFAULT_PAYLOAD_SIZE: usize = 1_048_576;

pub const DEFAULT_INITIAL_WRITE_WORKERS: usize = 1;

pub const DEFAULT_MIN_WRITE_WORKERS: usize = 1;

pub const DEFAULT_MAX_WRITE_WORKERS: usize = 64;

pub const DEFAULT_READ_WORKERS: usize = 4;

pub const DEFAULT_READ_OPS_PER_SECOND: u64 = 1_000;

/// A tenth of a second.
pub const DEFAULT_READ_P99_SLO: u128 = 100_000_000;

pub const DEFAULT_DELETE_WORKERS: usize = 4;

/// Half a minute.
pub const DEFAULT_DELETE_LAG_SLO: u128 = 30_000_000_000;

/// Five seconds.
pub const DEFAULT_CONTROL_INTERVAL: u128 = 5_000_000_000;

pub const DEFAULT_CONTROLLER_DEBOUNCE_WINDOWS: usize = 3;

pub const DEFAULT_WRITER_INCREASE_PERCENT: u64 = 25;

pub const DEFAULT_WRITER_DECREASE_PERCENT: u64 = 25;

/// Ten seconds.
pub const DEFAULT_SPACE_SAMPLE_INTERVAL: u128 = 10_000_000_000;

/// 1 GiB.
pub const STRATA_GC_IO_BYTES_PER_SEC: u64 = 1_073_741_824;

pub const DEFAULT_DELETED_SAMPLE_CAPACITY: usize = 1_000_000;

pub const DEFAULT_STARTING_EPOCH: Epoch = 1;

pub const DEFAULT_QUEUE_CAPACITY: usize = 1024;

pub const DEFAULT_MAX_UNSEALED_SEGMENTS: usize = 8;

pub const DEFAULT_ROCKSDB_MIN_BLOB_SIZE: u64 = 1;

/// 256 MiB.
pub const DEFAULT_ROCKSDB_BLOB_FILE_SIZE: u64 = 268_435_456;

/// 512 MiB.
pub const DEFAULT_ROCKSDB_WRITE_BUFFER_SIZE: usize = 536_870_912;

/// 1 GiB.
pub const DEFAULT_ROCKSDB_DB_WRITE_BUFFER_SIZE: usize = 1_073_741_824;

pub const DEFAULT_ROCKSDB_MAX_WRITE_BUFFER_NUMBER: usize = 2;

pub const DEFAULT_ROCKSDB_MAX_SUBCOMPACTIONS: usize = 1;

pub const DEFAULT_ROCKSDB_HIGH_PRI_THREADS: usize = 4;

pub const DEFAULT_ROCKSDB_LOW_PRI_THREADS: usize = 1;

pub const DEFAULT_RELOCATION_PROFILE_READS: usize = 0;

/// Ten minutes.
pub const DEFAULT_RELOCATION_PROFILE_TIMEOUT: u128 = 600_000_000_000;

/// Most epochs that a lifetime may last.
pub const MAX_FUTURE_EPOCHS: Epoch = 10_000;

/// The store under test.
#[derive(Clone, Copy, Debug, PartialEq, Eq, Structural)]
pub enum EngineKind {
    Strata,
    BlobDb,
}

/// What ends a key's life: its age, or the epoch given at its put.
#[derive(Clone, Copy, Debug, PartialEq, Eq, Structural)]
pub enum LifetimeMode {
    Retention,
    Epoch,
}

pub open spec fn spec_parse_mode(value: Seq<char>) -> Result<LifetimeMode, Seq<char>> {
    if value == "retention"@ || value == "manual-retention"@ {
        Ok(LifetimeMode::Retention)
    } else if value == "epoch"@ || value == "epochs"@ || value == "epoch-lifetime"@ {
        Ok(LifetimeMode::Epoch)
    } else {
        Err("unknown lifetime mode '"@ + value + "'"@)
    }
}

impl LifetimeMode {
    pub fn parse(value: &str) -> (result: Result<LifetimeMode, String>)
        ensures
            options::agrees(result, spec_parse_mode(value@)),
    {
        if same(value, "retention") || same(value, "manual-retention") {
            Ok(LifetimeMode::Retention)
        } else if same(value, "epoch") || same(value, "epochs") || same(value, "epoch-lifetime") {
            Ok(LifetimeMode::Epoch)
        } else {
            Err(joined3("unknown lifetime mode '", value, "'"))
        }
    }

    pub fn as_str(self) -> (name: &'static str)
        ensures
            name == (match self {
                LifetimeMode::Retention => "retention",
                LifetimeMode::Epoch => "epoch",
            }),
    {
        match self {
            LifetimeMode::Retention => "retention",
            LifetimeMode::Epoch => "epoch",
        }
    }
}

pub open spec fn spec_parse_engine(value: Seq<char>) -> Result<EngineKind, Seq<char>> {
    if value == "strata"@ {
        Ok(EngineKind::Strata)
    } else if value == "blobdb"@ || value == "rocksdb-blobdb"@ {
        Ok(EngineKind::BlobDb)
    } else {
        Err("unknown engine '"@ + value + "'"@)
    }
}

impl EngineKind {
    pub fn parse(value: &str) -> (result: Result<EngineKind, String>)
        ensures
            options::agrees(result, spec_parse_engine(value@)),
    {
        if same(value, "strata") {
            Ok(EngineKind::Strata)
        } else if same(value, "blobdb") || same(value, "rocksdb-blobdb") {
            Ok(EngineKind::BlobDb)
        } else {
            Err(joined3("unknown engine '", value, "'"))
        }
    }

    pub fn as_str(self) -> (name: &'static str)
        ensures
            name == (match self {
                EngineKind::Strata => "strata",
                EngineKind::BlobDb => "blobdb",
            }),
    {
        match self {
            EngineKind::Strata => "strata",
            EngineKind::BlobDb => "blobdb",
        }
    }
}

/// Everything that a run is told. Percentages and fractions are checked, and stay as they were
/// written.
#[derive(Clone, Debug)]
pub struct Config {
    pub engine: EngineKind,
    pub root_dir: String,
    pub namespace: String,
    /// Length of the write, read and delete phase.
    pub duration: u128,
    pub lifetime_mode: LifetimeMode,
    /// Age at which a key is due, in retention mode.
    pub retention: u128,
    /// Half-width, in percent of `retention`, of the uniform per-key jitter applied to it.
    pub retention_jitter_percent: u64,
    pub epoch_duration: u128,
    /// Upper bound of the lifetimes, in epochs, in epoch mode.
    pub future_epochs: Epoch,
    /// Lower bound of the lifetimes.
    pub min_future_epoch_offset: Epoch,
    pub lifetime_seed: u64,
    /// Whether keys are spread over the key space instead of in the order of their ids.
    pub hashed_keys: bool,
    /// Length of the phase without traffic.
    pub cleanup_grace: u128,
    pub payload_size: usize,
    /// Global put rate; zero leaves it to the controller.
    pub put_ops_per_second: u64,
    pub initial_write_workers: usize,
    pub min_write_workers: usize,
    pub max_write_workers: usize,
    pub read_workers: usize,
    /// Aggregate read obligation; zero disables reads.
    pub read_ops_per_second: u64,
    /// As given; a percentage.
    pub read_deleted_percent: Option<String>,
    pub read_p99_slo: u128,
    /// As given; a percentage.
    pub read_attainment_percent: Option<String>,
    pub delete_workers: usize,
    pub delete_lag_slo: u128,
    /// As given; a percentage.
    pub delete_timely_percent: Option<String>,
    pub control_interval: u128,
    pub controller_debounce_windows: usize,
    pub writer_increase_percent: u64,
    pub writer_decrease_percent: u64,
    /// Cadence of explicit syncs; zero disables them.
    pub sync_interval: u128,
    pub space_sample_interval: u128,
    pub deleted_sample_capacity: usize,
    /// Address of the metrics endpoint, where there is one.
    pub metrics_listen: Option<String>,
    pub queue_capacity: usize,
    pub max_unsealed_segments: usize,
    pub segment_max_bytes: u64,
    pub strata_gc: bool,
    pub strata_gc_min_epoch_copy_distance: Option<Epoch>,
    /// Overrides the planner's cap on the bytes that one plan copies.
    pub strata_gc_max_copy_bytes_per_plan: Option<u64>,
    pub strata_gc_workers: Option<usize>,
    pub strata_lsm_partitions: Option<u32>,
    pub strata_memtable_max_age: Option<u128>,
    pub strata_relocation_writeback: Option<usize>,
    pub relocation_profile_reads: usize,
    pub relocation_profile_timeout: u128,
    pub rocksdb_min_blob_size: u64,
    pub rocksdb_blob_file_size: u64,
    pub rocksdb_write_buffer_size: usize,
    pub rocksdb_db_write_buffer_size: usize,
    pub rocksdb_max_write_buffer_number: usize,
    pub rocksdb_max_background_flushes: Option<usize>,
    pub rocksdb_max_subcompactions: usize,
    pub rocksdb_high_pri_threads: usize,
    pub rocksdb_low_pri_threads: usize,
    pub rocksdb_blob_gc: bool,
    /// As given; a fraction.
    pub rocksdb_blob_gc_age_cutoff: Option<String>,
    /// As given; a fraction.
    pub rocksdb_blob_gc_force_threshold: Option<String>,
}

/// An option that takes a value.
#[derive(Clone, Copy, Debug, PartialEq, Eq, Structural)]
pub enum Flag {
    Engine,
    Root,
    Namespace,
    Duration,
    LifetimeMode,
    Retention,
    RetentionJitterPercent,
    EpochDuration,
    FutureEpochs,
    MinFutureEpochOffset,
    LifetimeSeed,
    HashedKeys,
    CleanupGrace,
    PayloadSize,
    PutOpsPerSecond,
    InitialWriteWorkers,
    MinWriteWorkers,
    MaxWriteWorkers,
    ReadWorkers,
    ReadOpsPerSecond,
    ReadDeletedPercent,
    ReadP99Slo,
    ReadAttainmentPercent,
    DeleteWorkers,
    DeleteLagSlo,
    DeleteTimelyPercent,
    ControlInterval,
    ControllerDebounceWindows,
    WriterIncreasePercent,
    WriterDecreasePercent,
    SyncInterval,
    SpaceSampleInterval,
    DeletedSampleCapacity,
    MetricsListen,
    QueueCapacity,
    MaxUnsealedSegments,
    SegmentMaxBytes,
    StrataGc,
    StrataGcMinEpochCopyDistance,
    StrataGcMaxCopyBytesPerPlan,
    StrataGcWorkers,
    StrataLsmPartitions,
    StrataMemtableMaxAge,
    StrataRelocationWriteback,
    RelocationProfileReads,
    RelocationProfileTimeout,
    RocksdbMinBlobSize,
    RocksdbBlobFileSize,
    RocksdbWriteBufferSize,
    RocksdbDbWriteBufferSize,
    RocksdbMaxWriteBufferNumber,
    RocksdbMaxBackgroundFlushes,
    RocksdbMaxSubcompactions,
    RocksdbHighPriThreads,
    RocksdbLowPriThreads,
    RocksdbBlobGc,
    RocksdbBlobGcAgeCutoff,
    RocksdbBlobGcForceThreshold,
}

/// The option of a name.
pub open spec fn flag_named(name: Seq<char>) -> Option<Flag> {
    if name == "--engine"@ {
        Some(Flag::Engine)
    } else if name == "--root"@ {
        Some(Flag::Root)
    } else if name == "--namespace"@ {
        Some(Flag::Namespace)
    } else if name == "--duration"@ {
        Some(Flag::Duration)
    } else if name == "--lifetime-mode"@ {
        Some(Flag::LifetimeMode)
    } else if name == "--retention"@ {
        Some(Flag::Retention)
    } else if name == "--retention-jitter-percent"@ {
        Some(Flag::RetentionJitterPercent)
    } else if name == "--epoch-duration"@ {
        Some(Flag::EpochDuration)
    } else if name == "--future-epochs"@ {
        Some(Flag::FutureEpochs)
    } else if name == "--min-future-epoch-offset"@ {
        Some(Flag::MinFutureEpochOffset)
    } else if name == "--lifetime-seed"@ {
        Some(Flag::LifetimeSeed)
    } else if name == "--hashed-keys"@ {
        Some(Flag::HashedKeys)
    } else if name == "--cleanup-grace"@ {
        Some(Flag::CleanupGrace)
    } else if name == "--payload-size"@ {
        Some(Flag::PayloadSize)
    } else if name == "--put-ops-per-second"@ {
        Some(Flag::PutOpsPerSecond)
    } else if name == "--initial-write-workers"@ {
        Some(Flag::InitialWriteWorkers)
    } else if name == "--min-write-workers"@ {
        Some(Flag::MinWriteWorkers)
    } else if name == "--max-write-workers"@ {
        Some(Flag::MaxWriteWorkers)
    } else if name == "--read-workers"@ {
        Some(Flag::ReadWorkers)
    } else if name == "--read-ops-per-second"@ {
        Some(Flag::ReadOpsPerSecond)
    } else if name == "--read-deleted-percent"@ {
        Some(Flag::ReadDeletedPercent)
    } else if name == "--read-p99-slo"@ {
        Some(Flag::ReadP99Slo)
    } else if name == "--read-attainment-percent"@ {
        Some(Flag::ReadAttainmentPercent)
    } else if name == "--delete-workers"@ {
        Some(Flag::DeleteWorkers)
    } else if name == "--delete-lag-slo"@ {
        Some(Flag::DeleteLagSlo)
    } else if name == "--delete-timely-percent"@ {
        Some(Flag::DeleteTimelyPercent)
    } else if name == "--control-interval"@ {
        Some(Flag::ControlInterval)
    } else if name == "--controller-debounce-windows"@ {
        Some(Flag::ControllerDebounceWindows)
    } else if name == "--writer-increase-percent"@ {
        Some(Flag::WriterIncreasePercent)
    } else if name == "--writer-decrease-percent"@ {
        Some(Flag::WriterDecreasePercent)
    } else if name == "--sync-interval"@ {
        Some(Flag::SyncInterval)
    } else if name == "--space-sample-interval"@ {
        Some(Flag::SpaceSampleInterval)
    } else if name == "--deleted-sample-capacity"@ {
        Some(Flag::DeletedSampleCapacity)
    } else if name == "--metrics-listen"@ {
        Some(Flag::MetricsListen)
    } else if name == "--queue-capacity"@ {
        Some(Flag::QueueCapacity)
    } else if name == "--max-unsealed-segments"@ {
        Some(Flag::MaxUnsealedSegments)
    } else if name == "--segment-max-bytes"@ {
        Some(Flag::SegmentMaxBytes)
    } else if name == "--strata-gc"@ {
        Some(Flag::StrataGc)
    } else if name == "--strata-gc-min-epoch-copy-distance"@ {
        Some(Flag::StrataGcMinEpochCopyDistance)
    } else if name == "--strata-gc-max-copy-bytes-per-plan"@ {
        Some(Flag::StrataGcMaxCopyBytesPerPlan)
    } else if name == "--strata-gc-workers"@ {
        Some(Flag::StrataGcWorkers)
    } else if name == "--strata-lsm-partitions"@ {
        Some(Flag::StrataLsmPartitions)
    } else if name == "--strata-memtable-max-age"@ {
        Some(Flag::StrataMemtableMaxAge)
    } else if name == "--strata-relocation-writeback"@ {
        Some(Flag::StrataRelocationWriteback)
    } else if name == "--relocation-profile-reads"@ {
        Some(Flag::RelocationProfileReads)
    } else if name == "--relocation-profile-timeout"@ {
        Some(Flag::RelocationProfileTimeout)
    } else if name == "--rocksdb-min-blob-size"@ {
        Some(Flag::RocksdbMinBlobSize)
    } else if name == "--rocksdb-blob-file-size"@ {
        Some(Flag::RocksdbBlobFileSize)
    } else if name == "--rocksdb-write-buffer-size"@ {
        Some(Flag::RocksdbWriteBufferSize)
    } else if name == "--rocksdb-db-write-buffer-size"@ {
        Some(Flag::RocksdbDbWriteBufferSize)
    } else if name == "--rocksdb-max-write-buffer-number"@ {
        Some(Flag::RocksdbMaxWriteBufferNumber)
    } else if name == "--rocksdb-max-background-flushes"@ {
        Some(Flag::RocksdbMaxBackgroundFlushes)
    } else if name == "--rocksdb-max-subcompactions"@ {
        Some(Flag::RocksdbMaxSubcompactions)
    } else if name == "--rocksdb-high-pri-threads"@ {
        Some(Flag::RocksdbHighPriThreads)
    } else if name == "--rocksdb-low-pri-threads"@ {
        Some(Flag::RocksdbLowPriThreads)
    } else if name == "--rocksdb-blob-gc"@ {
        Some(Flag::RocksdbBlobGc)
    } else if name == "--rocksdb-blob-gc-age-cutoff"@ {
        Some(Flag::RocksdbBlobGcAgeCutoff)
    } else if name == "--rocksdb-blob-gc-force-threshold"@ {
        Some(Flag::RocksdbBlobGcForceThreshold)
    } else {
        None
    }
}

fn flag_of(name: &str) -> (flag: Option<Flag>)
    ensures
        flag == flag_named(name@),
{
    if same(name, "--engine") {
        Some(Flag::Engine)
    } else if same(name, "--root") {
        Some(Flag::Root)
    } else if same(name, "--namespace") {
        Some(Flag::Namespace)
    } else if same(name, "--duration") {
        Some(Flag::Duration)
    } else if same(name, "--lifetime-mode") {
        Some(Flag::LifetimeMode)
    } else if same(name, "--retention") {
        Some(Flag::Retention)
    } else if same(name, "--retention-jitter-percent") {
        Some(Flag::RetentionJitterPercent)
    } else if same(name, "--epoch-duration") {
        Some(Flag::EpochDuration)
    } else if same(name, "--future-epochs") {
        Some(Flag::FutureEpochs)
    } else if same(name, "--min-future-epoch-offset") {
        Some(Flag::MinFutureEpochOffset)
    } else if same(name, "--lifetime-seed") {
        Some(Flag::LifetimeSeed)
    } else if same(name, "--hashed-keys") {
        Some(Flag::HashedKeys)
    } else if same(name, "--cleanup-grace") {
        Some(Flag::CleanupGrace)
    } else if same(name, "--payload-size") {
        Some(Flag::PayloadSize)
    } else if same(name, "--put-ops-per-second") {
        Some(Flag::PutOpsPerSecond)
    } else if same(name, "--initial-write-workers") {
        Some(Flag::InitialWriteWorkers)
    } else if same(name, "--min-write-workers") {
        Some(Flag::MinWriteWorkers)
    } else if same(name, "--max-write-workers") {
        Some(Flag::MaxWriteWorkers)
    } else if same(name, "--read-workers") {
        Some(Flag::ReadWorkers)
    } else if same(name, "--read-ops-per-second") {
        Some(Flag::ReadOpsPerSecond)
    } else if same(name, "--read-deleted-percent") {
        Some(Flag::ReadDeletedPercent)
    } else if same(name, "--read-p99-slo") {
        Some(Flag::ReadP99Slo)
    } else if same(name, "--read-attainment-percent") {
        Some(Flag::ReadAttainmentPercent)
    } else if same(name, "--delete-workers") {
        Some(Flag::DeleteWorkers)
    } else if same(name, "--delete-lag-slo") {
        Some(Flag::DeleteLagSlo)
    } else if same(name, "--delete-timely-percent") {
        Some(Flag::DeleteTimelyPercent)
    } else if same(name, "--control-interval") {
        Some(Flag::ControlInterval)
    } else if same(name, "--controller-debounce-windows") {
        Some(Flag::ControllerDebounceWindows)
    } else if same(name, "--writer-increase-percent") {
        Some(Flag::WriterIncreasePercent)
    } else if same(name, "--writer-decrease-percent") {
        Some(Flag::WriterDecreasePercent)
    } else if same(name, "--sync-interval") {
        Some(Flag::SyncInterval)
    } else if same(name, "--space-sample-interval") {
        Some(Flag::SpaceSampleInterval)
    } else if same(name, "--deleted-sample-capacity") {
        Some(Flag::DeletedSampleCapacity)
    } else if same(name, "--metrics-listen") {
        Some(Flag::MetricsListen)
    } else if same(name, "--queue-capacity") {
        Some(Flag::QueueCapacity)
    } else if same(name, "--max-unsealed-segments") {
        Some(Flag::MaxUnsealedSegments)
    } else if same(name, "--segment-max-bytes") {
        Some(Flag::SegmentMaxBytes)
    } else if same(name, "--strata-gc") {
        Some(Flag::StrataGc)
    } else if same(name, "--strata-gc-min-epoch-copy-distance") {
        Some(Flag::StrataGcMinEpochCopyDistance)
    } else if same(name, "--strata-gc-max-copy-bytes-per-plan") {
        Some(Flag::StrataGcMaxCopyBytesPerPlan)
    } else if same(name, "--strata-gc-workers") {
        Some(Flag::StrataGcWorkers)
    } else if same(name, "--strata-lsm-partitions") {
        Some(Flag::StrataLsmPartitions)
    } else if same(name, "--strata-memtable-max-age") {
        Some(Flag::StrataMemtableMaxAge)
    } else if same(name, "--strata-relocation-writeback") {
        Some(Flag::StrataRelocationWriteback)
    } else if same(name, "--relocation-profile-reads") {
        Some(Flag::RelocationProfileReads)
    } else if same(name, "--relocation-profile-timeout") {
        Some(Flag::RelocationProfileTimeout)
    } else if same(name, "--rocksdb-min-blob-size") {
        Some(Flag::RocksdbMinBlobSize)
    } else if same(name, "--rocksdb-blob-file-size") {
        Some(Flag::RocksdbBlobFileSize)
    } else if same(name, "--rocksdb-write-buffer-size") {
        Some(Flag::RocksdbWriteBufferSize)
    } else if same(name, "--rocksdb-db-write-buffer-size") {
        Some(Flag::RocksdbDbWriteBufferSize)
    } else if same(name, "--rocksdb-max-write-buffer-number") {
        Some(Flag::RocksdbMaxWriteBufferNumber)
    } else if same(name, "--rocksdb-max-background-flushes") {
        Some(Flag::RocksdbMaxBackgroundFlushes)
    } else if same(name, "--rocksdb-max-subcompactions") {
        Some(Flag::RocksdbMaxSubcompactions)
    } else if same(name, "--rocksdb-high-pri-threads") {
        Some(Flag::RocksdbHighPriThreads)
    } else if same(name, "--rocksdb-low-pri-threads") {
        Some(Flag::RocksdbLowPriThreads)
    } else if same(name, "--rocksdb-blob-gc") {
        Some(Flag::RocksdbBlobGc)
    } else if same(name, "--rocksdb-blob-gc-age-cutoff") {
        Some(Flag::RocksdbBlobGcAgeCutoff)
    } else if same(name, "--rocksdb-blob-gc-force-threshold") {
        Some(Flag::RocksdbBlobGcForceThreshold)
    } else {
        None
    }
}

/// What a run is told where nothing is said.
pub open spec fn has_defaults(config: Config) -> bool {
    &&& config.root_dir@ == ""@
    &&& config.namespace@ == DEFAULT_NAMESPACE@
    &&& config.engine == EngineKind::Strata
    &&& config.duration == DEFAULT_DURATION
    &&& config.lifetime_mode == LifetimeMode::Retention
    &&& config.retention == DEFAULT_RETENTION
    &&& config.retention_jitter_percent == 0
    &&& config.epoch_duration == DEFAULT_EPOCH_DURATION
    &&& config.future_epochs == DEFAULT_FUTURE_EPOCHS
    &&& config.min_future_epoch_offset == 1
    &&& config.lifetime_seed == DEFAULT_LIFETIME_SEED
    &&& !config.hashed_keys
    &&& config.cleanup_grace == DEFAULT_CLEANUP_GRACE
    &&& config.payload_size == DEFAULT_PAYLOAD_SIZE
    &&& config.put_ops_per_second == 0
    &&& config.initial_write_workers == DEFAULT_INITIAL_WRITE_WORKERS
    &&& config.min_write_workers == DEFAULT_MIN_WRITE_WORKERS
    &&& config.max_write_workers == DEFAULT_MAX_WRITE_WORKERS
    &&& config.read_workers == DEFAULT_READ_WORKERS
    &&& config.read_ops_per_second == DEFAULT_READ_OPS_PER_SECOND
    &&& config.read_deleted_percent is None
    &&& config.read_p99_slo == DEFAULT_READ_P99_SLO
    &&& config.read_attainment_percent is None
    &&& config.delete_workers == DEFAULT_DELETE_WORKERS
    &&& config.delete_lag_slo == DEFAULT_DELETE_LAG_SLO
    &&& config.delete_timely_percent is None
    &&& config.control_interval == DEFAULT_CONTROL_INTERVAL
    &&& config.controller_debounce_windows == DEFAULT_CONTROLLER_DEBOUNCE_WINDOWS
    &&& config.writer_increase_percent == DEFAULT_WRITER_INCREASE_PERCENT
    &&& config.writer_decrease_percent == DEFAULT_WRITER_DECREASE_PERCENT
    &&& config.sync_interval == 0
    &&& config.space_sample_interval == DEFAULT_SPACE_SAMPLE_INTERVAL
    &&& config.deleted_sample_capacity == DEFAULT_DELETED_SAMPLE_CAPACITY
    &&& config.metrics_listen is None
    &&& config.queue_capacity == DEFAULT_QUEUE_CAPACITY
    &&& config.max_unsealed_segments == DEFAULT_MAX_UNSEALED_SEGMENTS
    &&& config.segment_max_bytes == DEFAULT_SEGMENT_MAX_BYTES
    &&& config.strata_gc
    &&& config.strata_gc_min_epoch_copy_distance is None
    &&& config.strata_gc_max_copy_bytes_per_plan is None
    &&& config.strata_gc_workers is None
    &&& config.strata_lsm_partitions is None
    &&& config.strata_memtable_max_age is None
    &&& config.strata_relocation_writeback is None
    &&& config.relocation_profile_reads == DEFAULT_RELOCATION_PROFILE_READS
    &&& config.relocation_profile_timeout == DEFAULT_RELOCATION_PROFILE_TIMEOUT
    &&& config.rocksdb_min_blob_size == DEFAULT_ROCKSDB_MIN_BLOB_SIZE
    &&& config.rocksdb_blob_file_size == DEFAULT_ROCKSDB_BLOB_FILE_SIZE
    &&& config.rocksdb_write_buffer_size == DEFAULT_ROCKSDB_WRITE_BUFFER_SIZE
    &&& config.rocksdb_db_write_buffer_size == DEFAULT_ROCKSDB_DB_WRITE_BUFFER_SIZE
    &&& config.rocksdb_max_write_buffer_number == DEFAULT_ROCKSDB_MAX_WRITE_BUFFER_NUMBER
    &&& config.rocksdb_max_background_flushes is None
    &&& config.rocksdb_max_subcompactions == DEFAULT_ROCKSDB_MAX_SUBCOMPACTIONS
    &&& config.rocksdb_high_pri_threads == DEFAULT_ROCKSDB_HIGH_PRI_THREADS
    &&& config.rocksdb_low_pri_threads == DEFAULT_ROCKSDB_LOW_PRI_THREADS
    &&& config.rocksdb_blob_gc
    &&& config.rocksdb_blob_gc_age_cutoff is None
    &&& config.rocksdb_blob_gc_force_threshold is None
}

impl Default for Config {
    fn default() -> (config: Config)
        ensures
            has_defaults(config),
    {
        Config {
            engine: EngineKind::Strata,
            root_dir: "".to_owned(),
            namespace: DEFAULT_NAMESPACE.to_owned(),
            duration: DEFAULT_DURATION,
            lifetime_mode: LifetimeMode::Retention,
            retention: DEFAULT_RETENTION,
            retention_jitter_percent: 0,
            epoch_duration: DEFAULT_EPOCH_DURATION,
            future_epochs: DEFAULT_FUTURE_EPOCHS,
            min_future_epoch_offset: 1,
            lifetime_seed: DEFAULT_LIFETIME_SEED,
            hashed_keys: false,
            cleanup_grace: DEFAULT_CLEANUP_GRACE,
            payload_size: DEFAULT_PAYLOAD_SIZE,
            put_ops_per_second: 0,
            initial_write_workers: DEFAULT_INITIAL_WRITE_WORKERS,
            min_write_workers: DEFAULT_MIN_WRITE_WORKERS,
            max_write_workers: DEFAULT_MAX_WRITE_WORKERS,
            read_workers: DEFAULT_READ_WORKERS,
            read_ops_per_second: DEFAULT_READ_OPS_PER_SECOND,
            read_deleted_percent: None,
            read_p99_slo: DEFAULT_READ_P99_SLO,
            read_attainment_percent: None,
            delete_workers: DEFAULT_DELETE_WORKERS,
            delete_lag_slo: DEFAULT_DELETE_LAG_SLO,
            delete_timely_percent: None,
            control_interval: DEFAULT_CONTROL_INTERVAL,
            controller_debounce_windows: DEFAULT_CONTROLLER_DEBOUNCE_WINDOWS,
            writer_increase_percent: DEFAULT_WRITER_INCREASE_PERCENT,
            writer_decrease_percent: DEFAULT_WRITER_DECREASE_PERCENT,
            sync_interval: 0,
            space_sample_interval: DEFAULT_SPACE_SAMPLE_INTERVAL,
            deleted_sample_capacity: DEFAULT_DELETED_SAMPLE_CAPACITY,
            metrics_listen: None,
            queue_capacity: DEFAULT_QUEUE_CAPACITY,
            max_unsealed_segments: DEFAULT_MAX_UNSEALED_SEGMENTS,
            segment_max_bytes: DEFAULT_SEGMENT_MAX_BYTES,
            strata_gc: true,
            strata_gc_min_epoch_copy_distance: None,
            strata_gc_max_copy_bytes_per_plan: None,
            strata_gc_workers: None,
            strata_lsm_partitions: None,
            strata_memtable_max_age: None,
            strata_relocation_writeback: None,
            relocation_profile_reads: DEFAULT_RELOCATION_PROFILE_READS,
            relocation_profile_timeout: DEFAULT_RELOCATION_PROFILE_TIMEOUT,
            rocksdb_min_blob_size: DEFAULT_ROCKSDB_MIN_BLOB_SIZE,
            rocksdb_blob_file_size: DEFAULT_ROCKSDB_BLOB_FILE_SIZE,
            rocksdb_write_buffer_size: DEFAULT_ROCKSDB_WRITE_BUFFER_SIZE,
            rocksdb_db_write_buffer_size: DEFAULT_ROCKSDB_DB_WRITE_BUFFER_SIZE,
            rocksdb_max_write_buffer_number: DEFAULT_ROCKSDB_MAX_WRITE_BUFFER_NUMBER,
            rocksdb_max_background_flushes: None,
            rocksdb_max_subcompactions: DEFAULT_ROCKSDB_MAX_SUBCOMPACTIONS,
            rocksdb_high_pri_threads: DEFAULT_ROCKSDB_HIGH_PRI_THREADS,
            rocksdb_low_pri_threads: DEFAULT_ROCKSDB_LOW_PRI_THREADS,
            rocksdb_blob_gc: true,
            rocksdb_blob_gc_age_cutoff: None,
            rocksdb_blob_gc_force_threshold: None,
        }
    }
}

// Values with rules of their own.

pub open spec fn spec_parse_partitions(value: Seq<char>) -> Result<u32, Seq<char>> {
    match options::spec_parse_u64(value) {
        Ok(count) => if 0 < count <= u32::MAX {
            Ok(count as u32)
        } else {
            Err("--strata-lsm-partitions must be between 1 and u32::MAX"@)
        },
        Err(message) => Err(message),
    }
}

fn parse_partitions(value: &str) -> (result: Result<u32, String>)
    ensures
        options::agrees(result, spec_parse_partitions(value@)),
{
    let count: u64 = parse_u64(value)?;
    if count == 0 || count > u32::MAX as u64 {
        return Err("--strata-lsm-partitions must be between 1 and u32::MAX".to_owned());
    }
    Ok(count as u32)
}

pub open spec fn spec_parse_age(value: Seq<char>) -> Result<u128, Seq<char>> {
    match options::spec_parse_duration(value) {
        Ok(age) => if age == 0 {
            Err("--strata-memtable-max-age must be non-zero"@)
        } else {
            Ok(age)
        },
        Err(message) => Err(message),
    }
}

fn parse_age(value: &str) -> (result: Result<u128, String>)
    ensures
        options::agrees(result, spec_parse_age(value@)),
{
    let age: u128 = parse_duration(value)?;
    if age == 0 {
        return Err("--strata-memtable-max-age must be non-zero".to_owned());
    }
    Ok(age)
}

pub open spec fn spec_parse_writeback(value: Seq<char>) -> Result<Option<usize>, Seq<char>> {
    if value == "off"@ {
        Ok(None)
    } else {
        match options::spec_parse_nonzero_usize(value) {
            Ok(count) => Ok(Some(count)),
            Err(message) => Err(message),
        }
    }
}

fn parse_writeback(value: &str) -> (result: Result<Option<usize>, String>)
    ensures
        options::agrees(result, spec_parse_writeback(value@)),
{
    if same(value, "off") {
        return Ok(None);
    }
    let count: usize = parse_nonzero_usize(value)?;
    Ok(Some(count))
}

/// An address, or nothing where the endpoint is switched off.
pub open spec fn listen_address(value: String) -> Option<String> {
    if value@ == "off"@ || value@ == "none"@ {
        None
    } else {
        Some(value)
    }
}

fn address_to_listen_on(value: String) -> (address: Option<String>)
    ensures
        address == listen_address(value),
{
    if same(value.as_str(), "off") || same(value.as_str(), "none") {
        None
    } else {
        Some(value)
    }
}

/// The configuration after one more option.
pub open spec fn assigned(config: Config, flag: Flag, value: String) -> Result<
    Config,
    Seq<char>,
> {
    match flag {
        Flag::Engine => match spec_parse_engine(value@) {
            Ok(parsed) => Ok(Config { engine: parsed, ..config }),
            Err(message) => Err(message),
        },
        Flag::Root => Ok(Config { root_dir: value, ..config }),
        Flag::Namespace => Ok(Config { namespace: value, ..config }),
        Flag::Duration => match options::spec_parse_duration(value@) {
            Ok(parsed) => Ok(Config { duration: parsed, ..config }),
            Err(message) => Err(message),
        },
        Flag::LifetimeMode => match spec_parse_mode(value@) {
            Ok(parsed) => Ok(Config { lifetime_mode: parsed, ..config }),
            Err(message) => Err(message),
        },
        Flag::Retention => match options::spec_parse_duration(value@) {
            Ok(parsed) => Ok(Config { retention: parsed, ..config }),
            Err(message) => Err(message),
        },
        Flag::RetentionJitterPercent => match options::spec_parse_u64(value@) {
            Ok(parsed) => Ok(Config { retention_jitter_percent: parsed, ..config }),
            Err(message) => Err(message),
        },
        Flag::EpochDuration => match options::spec_parse_duration(value@) {
            Ok(parsed) => Ok(Config { epoch_duration: parsed, ..config }),
            Err(message) => Err(message),
        },
        Flag::FutureEpochs => match options::spec_parse_u64(value@) {
            Ok(parsed) => Ok(Config { future_epochs: parsed, ..config }),
            Err(message) => Err(message),
        },
        Flag::MinFutureEpochOffset => match options::spec_parse_u64(value@) {
            Ok(parsed) => Ok(Config { min_future_epoch_offset: parsed, ..config }),
            Err(message) => Err(message),
        },
        Flag::LifetimeSeed => match options::spec_parse_u64(value@) {
            Ok(parsed) => Ok(Config { lifetime_seed: parsed, ..config }),
            Err(message) => Err(message),
        },
        Flag::HashedKeys => match options::spec_parse_bool(value@) {
            Ok(parsed) => Ok(Config { hashed_keys: parsed, ..config }),
            Err(message) => Err(message),
        },
        Flag::CleanupGrace => match options::spec_parse_duration(value@) {
            Ok(parsed) => Ok(Config { cleanup_grace: parsed, ..config }),
            Err(message) => Err(message),
        },
        Flag::PayloadSize => match options::spec_parse_size(value@) {
            Ok(parsed) => Ok(Config { payload_size: parsed, ..config }),
            Err(message) => Err(message),
        },
        Flag::PutOpsPerSecond => match options::spec_parse_u64(value@) {
            Ok(parsed) => Ok(Config { put_ops_per_second: parsed, ..config }),
            Err(message) => Err(message),
        },
        Flag::InitialWriteWorkers => match options::spec_parse_nonzero_usize(value@) {
            Ok(parsed) => Ok(Config { initial_write_workers: parsed, ..config }),
            Err(message) => Err(message),
        },
        Flag::MinWriteWorkers => match options::spec_parse_nonzero_usize(value@) {
            Ok(parsed) => Ok(Config { min_write_workers: parsed, ..config }),
            Err(message) => Err(message),
        },
        Flag::MaxWriteWorkers => match options::spec_parse_nonzero_usize(value@) {
            Ok(parsed) => Ok(Config { max_write_workers: parsed, ..config }),
            Err(message) => Err(message),
        },
        Flag::ReadWorkers => match options::spec_parse_nonzero_usize(value@) {
            Ok(parsed) => Ok(Config { read_workers: parsed, ..config }),
            Err(message) => Err(message),
        },
        Flag::ReadOpsPerSecond => match options::spec_parse_u64(value@) {
            Ok(parsed) => Ok(Config { read_ops_per_second: parsed, ..config }),
            Err(message) => Err(message),
        },
        Flag::ReadDeletedPercent => match options::spec_check_percent(value@) {
            Ok(_) => Ok(Config { read_deleted_percent: Some(value), ..config }),
            Err(message) => Err(message),
        },
        Flag::ReadP99Slo => match options::spec_parse_duration(value@) {
            Ok(parsed) => Ok(Config { read_p99_slo: parsed, ..config }),
            Err(message) => Err(message),
        },
        Flag::ReadAttainmentPercent => match options::spec_check_percent(value@) {
            Ok(_) => Ok(Config { read_attainment_percent: Some(value), ..config }),
            Err(message) => Err(message),
        },
        Flag::DeleteWorkers => match options::spec_parse_nonzero_usize(value@) {
            Ok(parsed) => Ok(Config { delete_workers: parsed, ..config }),
            Err(message) => Err(message),
        },
        Flag::DeleteLagSlo => match options::spec_parse_duration(value@) {
            Ok(parsed) => Ok(Config { delete_lag_slo: parsed, ..config }),
            Err(message) => Err(message),
        },
        Flag::DeleteTimelyPercent => match options::spec_check_percent(value@) {
            Ok(_) => Ok(Config { delete_timely_percent: Some(value), ..config }),
            Err(message) => Err(message),
        },
        Flag::ControlInterval => match options::spec_parse_duration(value@) {
            Ok(parsed) => Ok(Config { control_interval: parsed, ..config }),
            Err(message) => Err(message),
        },
        Flag::ControllerDebounceWindows => match options::spec_parse_nonzero_usize(value@) {
            Ok(parsed) => Ok(Config { controller_debounce_windows: parsed, ..config }),
            Err(message) => Err(message),
        },
        Flag::WriterIncreasePercent => match options::spec_parse_u64(value@) {
            Ok(parsed) => Ok(Config { writer_increase_percent: parsed, ..config }),
            Err(message) => Err(message),
        },
        Flag::WriterDecreasePercent => match options::spec_parse_u64(value@) {
            Ok(parsed) => Ok(Config { writer_decrease_percent: parsed, ..config }),
            Err(message) => Err(message),
        },
        Flag::SyncInterval => match options::spec_parse_duration(value@) {
            Ok(parsed) => Ok(Config { sync_interval: parsed, ..config }),
            Err(message) => Err(message),
        },
        Flag::SpaceSampleInterval => match options::spec_parse_duration(value@) {
            Ok(parsed) => Ok(Config { space_sample_interval: parsed, ..config }),
            Err(message) => Err(message),
        },
        Flag::DeletedSampleCapacity => match options::spec_parse_nonzero_usize(value@) {
            Ok(parsed) => Ok(Config { deleted_sample_capacity: parsed, ..config }),
            Err(message) => Err(message),
        },
        Flag::MetricsListen => Ok(Config { metrics_listen: listen_address(value), ..config }),
        Flag::QueueCapacity => match options::spec_parse_nonzero_usize(value@) {
            Ok(parsed) => Ok(Config { queue_capacity: parsed, ..config }),
            Err(message) => Err(message),
        },
        Flag::MaxUnsealedSegments => match options::spec_parse_nonzero_usize(value@) {
            Ok(parsed) => Ok(Config { max_unsealed_segments: parsed, ..config }),
            Err(message) => Err(message),
        },
        Flag::SegmentMaxBytes => match options::spec_parse_size(value@) {
            Ok(parsed) => Ok(Config { segment_max_bytes: parsed as u64, ..config }),
            Err(message) => Err(message),
        },
        Flag::StrataGc => match options::spec_parse_bool(value@) {
            Ok(parsed) => Ok(Config { strata_gc: parsed, ..config }),
            Err(message) => Err(message),
        },
        Flag::StrataGcMinEpochCopyDistance => match options::spec_parse_u64(value@) {
            Ok(parsed) => Ok(Config { strata_gc_min_epoch_copy_distance: Some(parsed), ..config }),
            Err(message) => Err(message),
        },
        Flag::StrataGcMaxCopyBytesPerPlan => match options::spec_parse_size(value@) {
            Ok(parsed) => Ok(
                Config { strata_gc_max_copy_bytes_per_plan: Some(parsed as u64), ..config },
            ),
            Err(message) => Err(message),
        },
        Flag::StrataGcWorkers => match options::spec_parse_nonzero_usize(value@) {
            Ok(parsed) => Ok(Config { strata_gc_workers: Some(parsed), ..config }),
            Err(message) => Err(message),
        },
        Flag::StrataLsmPartitions => match spec_parse_partitions(value@) {
            Ok(parsed) => Ok(Config { strata_lsm_partitions: Some(parsed), ..config }),
            Err(message) => Err(message),
        },
        Flag::StrataMemtableMaxAge => match spec_parse_age(value@) {
            Ok(parsed) => Ok(Config { strata_memtable_max_age: Some(parsed), ..config }),
            Err(message) => Err(message),
        },
        Flag::StrataRelocationWriteback => match spec_parse_writeback(value@) {
            Ok(parsed) => Ok(Config { strata_relocation_writeback: parsed, ..config }),
            Err(message) => Err(message),
        },
        Flag::RelocationProfileReads => match options::spec_parse_nonzero_usize(value@) {
            Ok(parsed) => Ok(Config { relocation_profile_reads: parsed, ..config }),
            Err(message) => Err(message),
        },
        Flag::RelocationProfileTimeout => match options::spec_parse_duration(value@) {
            Ok(parsed) => Ok(Config { relocation_profile_timeout: parsed, ..config }),
            Err(message) => Err(message),
        },
        Flag::RocksdbMinBlobSize => match options::spec_parse_size(value@) {
            Ok(parsed) => Ok(Config { rocksdb_min_blob_size: parsed as u64, ..config }),
            Err(message) => Err(message),
        },
        Flag::RocksdbBlobFileSize => match options::spec_parse_size(value@) {
            Ok(parsed) => Ok(Config { rocksdb_blob_file_size: parsed as u64, ..config }),
            Err(message) => Err(message),
        },
        Flag::RocksdbWriteBufferSize => match options::spec_parse_size(value@) {
            Ok(parsed) => Ok(Config { rocksdb_write_buffer_size: parsed, ..config }),
            Err(message) => Err(message),
        },
        Flag::RocksdbDbWriteBufferSize => match options::spec_parse_size(value@) {
            Ok(parsed) => Ok(Config { rocksdb_db_write_buffer_size: parsed, ..config }),
            Err(message) => Err(message),
        },
        Flag::RocksdbMaxWriteBufferNumber => match options::spec_parse_nonzero_usize(value@) {
            Ok(parsed) => Ok(Config { rocksdb_max_write_buffer_number: parsed, ..config }),
            Err(message) => Err(message),
        },
        Flag::RocksdbMaxBackgroundFlushes => match options::spec_parse_nonzero_usize(value@) {
            Ok(parsed) => Ok(Config { rocksdb_max_background_flushes: Some(parsed), ..config }),
            Err(message) => Err(message),
        },
        Flag::RocksdbMaxSubcompactions => match options::spec_parse_nonzero_usize(value@) {
            Ok(parsed) => Ok(Config { rocksdb_max_subcompactions: parsed, ..config }),
            Err(message) => Err(message),
        },
        Flag::RocksdbHighPriThreads => match options::spec_parse_nonzero_usize(value@) {
            Ok(parsed) => Ok(Config { rocksdb_high_pri_threads: parsed, ..config }),
            Err(message) => Err(message),
        },
        Flag::RocksdbLowPriThreads => match options::spec_parse_nonzero_usize(value@) {
            Ok(parsed) => Ok(Config { rocksdb_low_pri_threads: parsed, ..config }),
            Err(message) => Err(message),
        },
        Flag::RocksdbBlobGc => match options::spec_parse_bool(value@) {
            Ok(parsed) => Ok(Config { rocksdb_blob_gc: parsed, ..config }),
            Err(message) => Err(message),
        },
        Flag::RocksdbBlobGcAgeCutoff => match options::spec_check_fraction(value@) {
            Ok(_) => Ok(Config { rocksdb_blob_gc_age_cutoff: Some(value), ..config }),
            Err(message) => Err(message),
        },
        Flag::RocksdbBlobGcForceThreshold => match options::spec_check_fraction(value@) {
            Ok(_) => Ok(Config { rocksdb_blob_gc_force_threshold: Some(value), ..config }),
            Err(message) => Err(message),
        },
    }
}

fn assign(config: Config, flag: Flag, value: String) -> (result: Result<Config, String>)
    ensures
        options::agrees(result, assigned(config, flag, value)),
{
    match flag {
        Flag::Engine => {
            let parsed: EngineKind = EngineKind::parse(value.as_str())?;
            Ok(Config { engine: parsed, ..config })
        },
        Flag::Root => Ok(Config { root_dir: value, ..config }),
        Flag::Namespace => Ok(Config { namespace: value, ..config }),
        Flag::Duration => {
            let parsed: u128 = parse_duration(value.as_str())?;
            Ok(Config { duration: parsed, ..config })
        },
        Flag::LifetimeMode => {
            let parsed: LifetimeMode = LifetimeMode::parse(value.as_str())?;
            Ok(Config { lifetime_mode: parsed, ..config })
        },
        Flag::Retention => {
            let parsed: u128 = parse_duration(value.as_str())?;
            Ok(Config { retention: parsed, ..config })
        },
        Flag::RetentionJitterPercent => {
            let parsed: u64 = parse_u64(value.as_str())?;
            Ok(Config { retention_jitter_percent: parsed, ..config })
        },
        Flag::EpochDuration => {
            let parsed: u128 = parse_duration(value.as_str())?;
            Ok(Config { epoch_duration: parsed, ..config })
        },
        Flag::FutureEpochs => {
            let parsed: u64 = parse_u64(value.as_str())?;
            Ok(Config { future_epochs: parsed, ..config })
        },
        Flag::MinFutureEpochOffset => {
            let parsed: u64 = parse_u64(value.as_str())?;
            Ok(Config { min_future_epoch_offset: parsed, ..config })
        },
        Flag::LifetimeSeed => {
            let parsed: u64 = parse_u64(value.as_str())?;
            Ok(Config { lifetime_seed: parsed, ..config })
        },
        Flag::HashedKeys => {
            let parsed: bool = parse_bool(value.as_str())?;
            Ok(Config { hashed_keys: parsed, ..config })
        },
        Flag::CleanupGrace => {
            let parsed: u128 = parse_duration(value.as_str())?;
            Ok(Config { cleanup_grace: parsed, ..config })
        },
        Flag::PayloadSize => {
            let parsed: usize = parse_size(value.as_str())?;
            Ok(Config { payload_size: parsed, ..config })
        },
        Flag::PutOpsPerSecond => {
            let parsed: u64 = parse_u64(value.as_str())?;
            Ok(Config { put_ops_per_second: parsed, ..config })
        },
        Flag::InitialWriteWorkers => {
            let parsed: usize = parse_nonzero_usize(value.as_str())?;
            Ok(Config { initial_write_workers: parsed, ..config })
        },
        Flag::MinWriteWorkers => {
            let parsed: usize = parse_nonzero_usize(value.as_str())?;
            Ok(Config { min_write_workers: parsed, ..config })
        },
        Flag::MaxWriteWorkers => {
            let parsed: usize = parse_nonzero_usize(value.as_str())?;
            Ok(Config { max_write_workers: parsed, ..config })
        },
        Flag::ReadWorkers => {
            let parsed: usize = parse_nonzero_usize(value.as_str())?;
            Ok(Config { read_workers: parsed, ..config })
        },
        Flag::ReadOpsPerSecond => {
            let parsed: u64 = parse_u64(value.as_str())?;
            Ok(Config { read_ops_per_second: parsed, ..config })
        },
        Flag::ReadDeletedPercent => {
            check_percent(value.as_str())?;
            Ok(Config { read_deleted_percent: Some(value), ..config })
        },
        Flag::ReadP99Slo => {
            let parsed: u128 = parse_duration(value.as_str())?;
            Ok(Config { read_p99_slo: parsed, ..config })
        },
        Flag::ReadAttainmentPercent => {
            check_percent(value.as_str())?;
            Ok(Config { read_attainment_percent: Some(value), ..config })
        },
        Flag::DeleteWorkers => {
            let parsed: usize = parse_nonzero_usize(value.as_str())?;
            Ok(Config { delete_workers: parsed, ..config })
        },
        Flag::DeleteLagSlo => {
            let parsed: u128 = parse_duration(value.as_str())?;
            Ok(Config { delete_lag_slo: parsed, ..config })
        },
        Flag::DeleteTimelyPercent => {
            check_percent(value.as_str())?;
            Ok(Config { delete_timely_percent: Some(value), ..config })
        },
        Flag::ControlInterval => {
            let parsed: u128 = parse_duration(value.as_str())?;
            Ok(Config { control_interval: parsed, ..config })
        },
        Flag::ControllerDebounceWindows => {
            let parsed: usize = parse_nonzero_usize(value.as_str())?;
            Ok(Config { controller_debounce_windows: parsed, ..config })
        },
        Flag::WriterIncreasePercent => {
            let parsed: u64 = parse_u64(value.as_str())?;
            Ok(Config { writer_increase_percent: parsed, ..config })
        },
        Flag::WriterDecreasePercent => {
            let parsed: u64 = parse_u64(value.as_str())?;
            Ok(Config { writer_decrease_percent: parsed, ..config })
        },
        Flag::SyncInterval => {
            let parsed: u128 = parse_duration(value.as_str())?;
            Ok(Config { sync_interval: parsed, ..config })
        },
        Flag::SpaceSampleInterval => {
            let parsed: u128 = parse_duration(value.as_str())?;
            Ok(Config { space_sample_interval: parsed, ..config })
        },
        Flag::DeletedSampleCapacity => {
            let parsed: usize = parse_nonzero_usize(value.as_str())?;
            Ok(Config { deleted_sample_capacity: parsed, ..config })
        },
        Flag::MetricsListen => Ok(Config { metrics_listen: address_to_listen_on(value), ..config }),
        Flag::QueueCapacity => {
            let parsed: usize = parse_nonzero_usize(value.as_str())?;
            Ok(Config { queue_capacity: parsed, ..config })
        },
        Flag::MaxUnsealedSegments => {
            let parsed: usize = parse_nonzero_usize(value.as_str())?;
            Ok(Config { max_unsealed_segments: parsed, ..config })
        },
        Flag::SegmentMaxBytes => {
            let parsed: usize = parse_size(value.as_str())?;
            Ok(Config { segment_max_bytes: parsed as u64, ..config })
        },
        Flag::StrataGc => {
            let parsed: bool = parse_bool(value.as_str())?;
            Ok(Config { strata_gc: parsed, ..config })
        },
        Flag::StrataGcMinEpochCopyDistance => {
            let parsed: u64 = parse_u64(value.as_str())?;
            Ok(Config { strata_gc_min_epoch_copy_distance: Some(parsed), ..config })
        },
        Flag::StrataGcMaxCopyBytesPerPlan => {
            let parsed: usize = parse_size(value.as_str())?;
            Ok(Config { strata_gc_max_copy_bytes_per_plan: Some(parsed as u64), ..config })
        },
        Flag::StrataGcWorkers => {
            let parsed: usize = parse_nonzero_usize(value.as_str())?;
            Ok(Config { strata_gc_workers: Some(parsed), ..config })
        },
        Flag::StrataLsmPartitions => {
            let parsed: u32 = parse_partitions(value.as_str())?;
            Ok(Config { strata_lsm_partitions: Some(parsed), ..config })
        },
        Flag::StrataMemtableMaxAge => {
            let parsed: u128 = parse_age(value.as_str())?;
            Ok(Config { strata_memtable_max_age: Some(parsed), ..config })
        },
        Flag::StrataRelocationWriteback => {
            let parsed: Option<usize> = parse_writeback(value.as_str())?;
            Ok(Config { strata_relocation_writeback: parsed, ..config })
        },
        Flag::RelocationProfileReads => {
            let parsed: usize = parse_nonzero_usize(value.as_str())?;
            Ok(Config { relocation_profile_reads: parsed, ..config })
        },
        Flag::RelocationProfileTimeout => {
            let parsed: u128 = parse_duration(value.as_str())?;
            Ok(Config { relocation_profile_timeout: parsed, ..config })
        },
        Flag::RocksdbMinBlobSize => {
            let parsed: usize = parse_size(value.as_str())?;
            Ok(Config { rocksdb_min_blob_size: parsed as u64, ..config })
        },
        Flag::RocksdbBlobFileSize => {
            let parsed: usize = parse_size(value.as_str())?;
            Ok(Config { rocksdb_blob_file_size: parsed as u64, ..config })
        },
        Flag::RocksdbWriteBufferSize => {
            let parsed: usize = parse_size(value.as_str())?;
            Ok(Config { rocksdb_write_buffer_size: parsed, ..config })
        },
        Flag::RocksdbDbWriteBufferSize => {
            let parsed: usize = parse_size(value.as_str())?;
            Ok(Config { rocksdb_db_write_buffer_size: parsed, ..config })
        },
        Flag::RocksdbMaxWriteBufferNumber => {
            let parsed: usize = parse_nonzero_usize(value.as_str())?;
            Ok(Config { rocksdb_max_write_buffer_number: parsed, ..config })
        },
        Flag::RocksdbMaxBackgroundFlushes => {
            let parsed: usize = parse_nonzero_usize(value.as_str())?;
            Ok(Config { rocksdb_max_background_flushes: Some(parsed), ..config })
        },
        Flag::RocksdbMaxSubcompactions => {
            let parsed: usize = parse_nonzero_usize(value.as_str())?;
            Ok(Config { rocksdb_max_subcompactions: parsed, ..config })
        },
        Flag::RocksdbHighPriThreads => {
            let parsed: usize = parse_nonzero_usize(value.as_str())?;
            Ok(Config { rocksdb_high_pri_threads: parsed, ..config })
        },
        Flag::RocksdbLowPriThreads => {
            let parsed: usize = parse_nonzero_usize(value.as_str())?;
            Ok(Config { rocksdb_low_pri_threads: parsed, ..config })
        },
        Flag::RocksdbBlobGc => {
            let parsed: bool = parse_bool(value.as_str())?;
            Ok(Config { rocksdb_blob_gc: parsed, ..config })
        },
        Flag::RocksdbBlobGcAgeCutoff => {
            check_fraction(value.as_str())?;
            Ok(Config { rocksdb_blob_gc_age_cutoff: Some(value), ..config })
        },
        Flag::RocksdbBlobGcForceThreshold => {
            check_fraction(value.as_str())?;
            Ok(Config { rocksdb_blob_gc_force_threshold: Some(value), ..config })
        },
    }
}

/// What the command line makes of a configuration, and whether it names the engine.
pub open spec fn applied(config: Config, engine_set: bool, args: Seq<String>) -> Result<
    (Config, bool),
    Seq<char>,
>
    decreases args.len(),
{
    if args.len() == 0 {
        Ok((config, engine_set))
    } else if args[0]@ == "--help"@ || args[0]@ == "-h"@ {
        Err("help requested"@)
    } else {
        match flag_named(args[0]@) {
            None => Err("unknown argument '"@ + args[0]@ + "'"@),
            Some(flag) => if args.len() == 1 {
                Err(args[0]@ + " requires a value"@)
            } else {
                match assigned(config, flag, args[1]) {
                    Ok(next) => applied(next, engine_set || flag is Engine, args.skip(2)),
                    Err(message) => Err(message),
                }
            },
        }
    }
}

fn apply(defaults: Config, args: &Vec<String>) -> (result: Result<(Config, bool), String>)
    ensures
        options::agrees(result, applied(defaults, false, args@)),
{
    let mut config: Config = defaults;
    let mut engine_set: bool = false;
    let mut i: usize = 0;
    assert(args@.skip(0) =~= args@);
    while i < args.len()
        invariant
            i <= args@.len(),
            applied(defaults, false, args@) == applied(config, engine_set, args@.skip(i as int)),
        decreases args@.len() - i,
    {
        let name: &str = args[i].as_str();
        let ghost rest = args@.skip(i as int);
        assert(rest[0] == args@[i as int]);
        if same(name, "--help") || same(name, "-h") {
            return Err("help requested".to_owned());
        }
        let flag: Flag = match flag_of(name) {
            Some(flag) => flag,
            None => {
                return Err(joined3("unknown argument '", name, "'"));
            },
        };
        if args.len() - i == 1 {
            return Err(joined(name, " requires a value"));
        }
        assert(rest[1] == args@[i + 1]);
        let value: String = args[i + 1].clone();
        config = assign(config, flag, value)?;
        engine_set = engine_set || matches!(flag, Flag::Engine);
        assert(rest.skip(2) =~= args@.skip(i + 2));
        i = i + 2;
    }
    Ok((config, engine_set))
}

// What a run may be told.

/// Why a configuration cannot be run, where it cannot: the first rule that it breaks.
pub open spec fn timing_fault(config: Config) -> Option<Seq<char>> {
    if config.root_dir@.len() == 0 {
        Some("--root is required"@)
    } else if config.duration == 0 {
        Some("--duration must be non-zero"@)
    } else if config.read_p99_slo == 0 {
        Some("--read-p99-slo must be non-zero"@)
    } else if config.delete_lag_slo == 0 {
        Some("--delete-lag-slo must be non-zero"@)
    } else if config.control_interval == 0 {
        Some("--control-interval must be non-zero"@)
    } else if config.space_sample_interval == 0 {
        Some("--space-sample-interval must be non-zero"@)
    } else if config.retention_jitter_percent > 100 {
        Some("--retention-jitter-percent must not exceed 100"@)
    } else {
        None
    }
}

/// Why the lifetimes of epoch mode cannot be given, where they cannot.
pub open spec fn lifetime_fault(config: Config) -> Option<Seq<char>> {
    if config.lifetime_mode != LifetimeMode::Epoch {
        None
    } else if config.epoch_duration == 0 {
        Some("--epoch-duration must be non-zero in epoch lifetime mode"@)
    } else if config.future_epochs == 0 {
        Some("--future-epochs must be non-zero in epoch lifetime mode"@)
    } else if config.future_epochs > MAX_FUTURE_EPOCHS {
        Some("--future-epochs must not exceed 10000"@)
    } else if config.min_future_epoch_offset == 0 {
        Some("--min-future-epoch-offset must be non-zero in epoch lifetime mode"@)
    } else if config.min_future_epoch_offset > config.future_epochs {
        Some("--min-future-epoch-offset must not exceed --future-epochs"@)
    } else {
        None
    }
}

/// Why sizes, counts and engine settings do not fit, where they do not.
pub open spec fn sizing_fault(config: Config) -> Option<Seq<char>> {
    if config.payload_size == 0 {
        Some("--payload-size must be non-zero"@)
    } else if config.segment_max_bytes == 0 {
        Some("--segment-max-bytes must be non-zero"@)
    } else if config.max_unsealed_segments < 2 {
        Some("--max-unsealed-segments must be at least 2"@)
    } else if config.min_write_workers > config.initial_write_workers || config.initial_write_workers > config.max_write_workers {
        Some("write worker counts must satisfy min <= initial <= max"@)
    } else if config.writer_increase_percent == 0 {
        Some("--writer-increase-percent must be non-zero"@)
    } else if config.writer_decrease_percent == 0 || config.writer_decrease_percent >= 100 {
        Some("--writer-decrease-percent must be between 1 and 99"@)
    } else if config.rocksdb_min_blob_size == 0 || config.rocksdb_blob_file_size == 0 || config.rocksdb_write_buffer_size == 0 {
        Some("RocksDB blob and write-buffer sizes must be non-zero"@)
    } else if config.rocksdb_max_write_buffer_number < 2 || config.rocksdb_max_write_buffer_number > 2_147_483_647 {
        Some("--rocksdb-max-write-buffer-number must be between 2 and i32::MAX"@)
    } else if config.rocksdb_max_background_flushes matches Some(flushes) && flushes > 536_870_911 {
        Some("--rocksdb-max-background-flushes must not exceed i32::MAX / 4"@)
    } else if config.rocksdb_max_subcompactions > u32::MAX {
        Some("--rocksdb-max-subcompactions must not exceed u32::MAX"@)
    } else if config.rocksdb_high_pri_threads > 2_147_483_647 || config.rocksdb_low_pri_threads > 2_147_483_647 {
        Some("RocksDB background thread counts must not exceed i32::MAX"@)
    } else if config.relocation_profile_reads > 0 && config.engine != EngineKind::Strata {
        Some("--relocation-profile-reads requires --engine strata"@)
    } else if config.strata_gc_min_epoch_copy_distance is Some && config.engine != EngineKind::Strata {
        Some("--strata-gc-min-epoch-copy-distance requires --engine strata"@)
    } else if config.strata_gc_workers is Some && config.engine != EngineKind::Strata {
        Some("--strata-gc-workers requires --engine strata"@)
    } else if config.strata_lsm_partitions is Some && config.engine != EngineKind::Strata {
        Some("--strata-lsm-partitions requires --engine strata"@)
    } else if config.strata_memtable_max_age is Some && config.engine != EngineKind::Strata {
        Some("--strata-memtable-max-age requires --engine strata"@)
    } else if config.strata_gc_max_copy_bytes_per_plan is Some && config.engine != EngineKind::Strata {
        Some("--strata-gc-max-copy-bytes-per-plan requires --engine strata"@)
    } else if config.strata_relocation_writeback is Some && config.engine != EngineKind::Strata {
        Some("--strata-relocation-writeback requires --engine strata"@)
    } else if config.relocation_profile_reads > 0 && config.relocation_profile_timeout == 0 {
        Some("--relocation-profile-timeout must be non-zero"@)
    } else {
        None
    }
}

/// Why a configuration cannot be run, where it cannot.
pub open spec fn config_fault(config: Config) -> Option<Seq<char>> {
    match timing_fault(config) {
        Some(message) => Some(message),
        None => match lifetime_fault(config) {
            Some(message) => Some(message),
            None => sizing_fault(config),
        },
    }
}

/// The configuration that a command line stands for, over given defaults.
pub open spec fn parsed(defaults: Config, args: Seq<String>) -> Result<Config, Seq<char>> {
    match applied(defaults, false, args) {
        Err(message) => Err(message),
        Ok((config, engine_set)) => if !engine_set {
            Err("--engine is required"@)
        } else {
            match config_fault(config) {
                Some(message) => Err(message),
                None => Ok(config),
            }
        },
    }
}

/// A check passes, or names what is wrong.
pub open spec fn passes(result: Result<(), String>, fault: Option<Seq<char>>) -> bool {
    match (result, fault) {
        (Ok(_), None) => true,
        (Err(message), Some(words)) => message@ == words,
        _ => false,
    }
}

fn too_many(count: Option<usize>, most: usize) -> (result: bool)
    ensures
        result == (count matches Some(count) && count > most),
{
    match count {
        Some(count) => count > most,
        None => false,
    }
}

impl Config {
    /// The configuration that a command line stands for.
    pub fn parse(args: &Vec<String>) -> (result: Result<Config, String>)
        ensures
            exists|defaults: Config| #[trigger]
                has_defaults(defaults) && options::agrees(result, parsed(defaults, args@)),
            result matches Ok(config) ==> config_fault(config) is None,
    {
        let defaults: Config = Config::default();
        let ghost base = defaults;
        assert(has_defaults(base));
        let (config, engine_set): (Config, bool) = match apply(defaults, args) {
            Ok(applied) => applied,
            Err(message) => {
                return Err(message);
            },
        };
        if !engine_set {
            return Err("--engine is required".to_owned());
        }
        match config.validate() {
            Ok(()) => Ok(config),
            Err(message) => Err(message),
        }
    }

    /// Checks that the configuration can be run.
    pub fn validate(&self) -> (result: Result<(), String>)
        ensures
            passes(result, config_fault(*self)),
    {
        if letters(self.root_dir.as_str()).len() == 0 {
            return Err("--root is required".to_owned());
        }
        if self.duration == 0 {
            return Err("--duration must be non-zero".to_owned());
        }
        if self.read_p99_slo == 0 {
            return Err("--read-p99-slo must be non-zero".to_owned());
        }
        if self.delete_lag_slo == 0 {
            return Err("--delete-lag-slo must be non-zero".to_owned());
        }
        if self.control_interval == 0 {
            return Err("--control-interval must be non-zero".to_owned());
        }
        if self.space_sample_interval == 0 {
            return Err("--space-sample-interval must be non-zero".to_owned());
        }
        if self.retention_jitter_percent > 100 {
            return Err("--retention-jitter-percent must not exceed 100".to_owned());
        }
        if self.lifetime_mode == LifetimeMode::Epoch {
            if self.epoch_duration == 0 {
                return Err("--epoch-duration must be non-zero in epoch lifetime mode".to_owned());
            }
            if self.future_epochs == 0 {
                return Err("--future-epochs must be non-zero in epoch lifetime mode".to_owned());
            }
            if self.future_epochs > MAX_FUTURE_EPOCHS {
                return Err("--future-epochs must not exceed 10000".to_owned());
            }
            if self.min_future_epoch_offset == 0 {
                return Err(
                    "--min-future-epoch-offset must be non-zero in epoch lifetime mode".to_owned(),
                );
            }
            if self.min_future_epoch_offset > self.future_epochs {
                return Err("--min-future-epoch-offset must not exceed --future-epochs".to_owned());
            }
        }
        if self.payload_size == 0 {
            return Err("--payload-size must be non-zero".to_owned());
        }
        if self.segment_max_bytes == 0 {
            return Err("--segment-max-bytes must be non-zero".to_owned());
        }
        if self.max_unsealed_segments < 2 {
            return Err("--max-unsealed-segments must be at least 2".to_owned());
        }
        if self.min_write_workers > self.initial_write_workers || self.initial_write_workers > self.max_write_workers {
            return Err("write worker counts must satisfy min <= initial <= max".to_owned());
        }
        if self.writer_increase_percent == 0 {
            return Err("--writer-increase-percent must be non-zero".to_owned());
        }
        if self.writer_decrease_percent == 0 || self.writer_decrease_percent >= 100 {
            return Err("--writer-decrease-percent must be between 1 and 99".to_owned());
        }
        if self.rocksdb_min_blob_size == 0 || self.rocksdb_blob_file_size == 0 || self.rocksdb_write_buffer_size == 0 {
            return Err("RocksDB blob and write-buffer sizes must be non-zero".to_owned());
        }
        if self.rocksdb_max_write_buffer_number < 2 || self.rocksdb_max_write_buffer_number > 2_147_483_647 {
            return Err(
                "--rocksdb-max-write-buffer-number must be between 2 and i32::MAX".to_owned(),
            );
        }
        if too_many(self.rocksdb_max_background_flushes, 536_870_911) {
            return Err("--rocksdb-max-background-flushes must not exceed i32::MAX / 4".to_owned());
        }
        if self.rocksdb_max_subcompactions as u64 > u32::MAX as u64 {
            return Err("--rocksdb-max-subcompactions must not exceed u32::MAX".to_owned());
        }
        if self.rocksdb_high_pri_threads > 2_147_483_647 || self.rocksdb_low_pri_threads > 2_147_483_647 {
            return Err("RocksDB background thread counts must not exceed i32::MAX".to_owned());
        }
        if self.relocation_profile_reads > 0 && self.engine != EngineKind::Strata {
            return Err("--relocation-profile-reads requires --engine strata".to_owned());
        }
        if self.strata_gc_min_epoch_copy_distance.is_some() && self.engine != EngineKind::Strata {
            return Err("--strata-gc-min-epoch-copy-distance requires --engine strata".to_owned());
        }
        if self.strata_gc_workers.is_some() && self.engine != EngineKind::Strata {
            return Err("--strata-gc-workers requires --engine strata".to_owned());
        }
        if self.strata_lsm_partitions.is_some() && self.engine != EngineKind::Strata {
            return Err("--strata-lsm-partitions requires --engine strata".to_owned());
        }
        if self.strata_memtable_max_age.is_some() && self.engine != EngineKind::Strata {
            return Err("--strata-memtable-max-age requires --engine strata".to_owned());
        }
        if self.strata_gc_max_copy_bytes_per_plan.is_some() && self.engine != EngineKind::Strata {
            return Err("--strata-gc-max-copy-bytes-per-plan requires --engine strata".to_owned());
        }
        if self.strata_relocation_writeback.is_some() && self.engine != EngineKind::Strata {
            return Err("--strata-relocation-writeback requires --engine strata".to_owned());
        }
        if self.relocation_profile_reads > 0 && self.relocation_profile_timeout == 0 {
            return Err("--relocation-profile-timeout must be non-zero".to_owned());
        }
        Ok(())
    }

    /// The planner settings of a run: the planner's own, or such that every collectable segment is
    /// rewritten where relocations are to be profiled; then what was asked for.
    pub open spec fn planner_settings(&self) -> GcPlannerConfig {
        let base = if self.relocation_profile_reads == 0 {
            GcPlannerConfig::spec_default()
        } else {
            GcPlannerConfig {
                max_copy_bytes_per_plan: Some(u64::MAX),
                max_l0_copy_bytes_per_plan: Some(u64::MAX),
                min_l0_rewrite_epoch_distance: Some(1),
                min_l0_rewrite_useful_ratio_bps: Some(1),
                min_reclaim_bytes: Some(1),
                min_garbage_ratio_bps: Some(1),
                min_exact_epoch_bucket_bytes: Some(u64::MAX),
                min_exact_epoch_distance: Some(1),
                max_exact_epoch_extension_count: Some(1),
                min_join_output_bytes: Some(u64::MAX),
                max_join_sources: Some(2),
            }
        };
        let routed = match self.strata_gc_min_epoch_copy_distance {
            Some(distance) => GcPlannerConfig {
                min_l0_rewrite_epoch_distance: Some(distance),
                min_exact_epoch_distance: Some(distance),
                ..base
            },
            None => base,
        };
        match self.strata_gc_max_copy_bytes_per_plan {
            Some(cap) => GcPlannerConfig { max_copy_bytes_per_plan: Some(cap), ..routed },
            None => routed,
        }
    }

    fn planner_config(&self) -> (config: GcPlannerConfig)
        ensures
            config == self.planner_settings(),
    {
        let mut config: GcPlannerConfig = if self.relocation_profile_reads == 0 {
            GcPlannerConfig::default()
        } else {
            GcPlannerConfig {
                max_copy_bytes_per_plan: Some(u64::MAX),
                max_l0_copy_bytes_per_plan: Some(u64::MAX),
                min_l0_rewrite_epoch_distance: Some(1),
                min_l0_rewrite_useful_ratio_bps: Some(1),
                min_reclaim_bytes: Some(1),
                min_garbage_ratio_bps: Some(1),
                min_exact_epoch_bucket_bytes: Some(u64::MAX),
                min_exact_epoch_distance: Some(1),
                max_exact_epoch_extension_count: Some(1),
                min_join_output_bytes: Some(u64::MAX),
                max_join_sources: Some(2),
            }
        };
        if let Some(distance) = self.strata_gc_min_epoch_copy_distance {
            config.min_l0_rewrite_epoch_distance = Some(distance);
            config.min_exact_epoch_distance = Some(distance);
        }
        if let Some(cap) = self.strata_gc_max_copy_bytes_per_plan {
            config.max_copy_bytes_per_plan = Some(cap);
        }
        config
    }

    /// The store that a run opens. Background collection is off while relocations are profiled.
    pub open spec fn store_settings(&self) -> StrataStoreConfig {
        StrataStoreConfig {
            root_dir: self.root_dir,
            namespace: self.namespace,
            segment_max_bytes: self.segment_max_bytes,
            write_queue_capacity: self.queue_capacity,
            max_unsealed_segments: self.max_unsealed_segments,
            segment_reader_cache_capacity: DEFAULT_SEGMENT_READER_CACHE_CAPACITY,
            lsm_partition_count: match self.strata_lsm_partitions {
                Some(count) => count,
                None => DEFAULT_LSM_PARTITION_COUNT,
            },
            lsm_compaction_patch_bytes: DEFAULT_LSM_COMPACTION_PATCH_BYTES,
            lsm_memtable_max_age: match self.strata_memtable_max_age {
                Some(age) => age,
                None => DEFAULT_LSM_MEMTABLE_MAX_AGE,
            },
            recovery_policy: StrataRecoveryPolicy::PointInTime,
            sealed_segment_integrity_policy: SealedSegmentIntegrityPolicy::MetadataOnly,
            gc_workers_enabled: self.strata_gc && self.relocation_profile_reads == 0,
            gc_interval: DEFAULT_GC_INTERVAL,
            gc_worker_count: match self.strata_gc_workers {
                Some(count) => count,
                None => DEFAULT_GC_WORKER_COUNT,
            },
            gc_initial_worker_count: match self.strata_gc_workers {
                Some(count) => count,
                None => DEFAULT_GC_INITIAL_WORKER_COUNT,
            },
            gc_tuning_window_cycles: DEFAULT_GC_TUNING_WINDOW_CYCLES,
            gc_sync_impact_threshold: DEFAULT_GC_SYNC_IMPACT_THRESHOLD,
            gc_io_bytes_per_sec: STRATA_GC_IO_BYTES_PER_SEC,
            gc_min_io_bytes_per_sec: DEFAULT_GC_MIN_IO_BYTES_PER_SEC,
            gc_planner_config: self.planner_settings(),
            shard_drop_gc_drain_timeout: DEFAULT_SHARD_DROP_GC_DRAIN_TIMEOUT,
            starting_epoch: DEFAULT_STARTING_EPOCH,
            relocation_writeback_chunk: self.strata_relocation_writeback,
        }
    }

    /// The configuration of the store that a run opens.
    pub fn store_config(&self) -> (config: StrataStoreConfig)
        ensures
            config == self.store_settings(),
    {
        StrataStoreConfig {
            root_dir: self.root_dir.clone(),
            namespace: self.namespace.clone(),
            segment_max_bytes: self.segment_max_bytes,
            write_queue_capacity: self.queue_capacity,
            max_unsealed_segments: self.max_unsealed_segments,
            segment_reader_cache_capacity: DEFAULT_SEGMENT_READER_CACHE_CAPACITY,
            lsm_partition_count: match self.strata_lsm_partitions {
                Some(count) => count,
                None => DEFAULT_LSM_PARTITION_COUNT,
            },
            lsm_compaction_patch_bytes: DEFAULT_LSM_COMPACTION_PATCH_BYTES,
            lsm_memtable_max_age: match self.strata_memtable_max_age {
                Some(age) => age,
                None => DEFAULT_LSM_MEMTABLE_MAX_AGE,
            },
            recovery_policy: StrataRecoveryPolicy::PointInTime,
            sealed_segment_integrity_policy: SealedSegmentIntegrityPolicy::MetadataOnly,
            gc_workers_enabled: self.strata_gc && self.relocation_profile_reads == 0,
            gc_interval: DEFAULT_GC_INTERVAL,
            gc_worker_count: match self.strata_gc_workers {
                Some(count) => count,
                None => DEFAULT_GC_WORKER_COUNT,
            },
            gc_initial_worker_count: match self.strata_gc_workers {
                Some(count) => count,
                None => DEFAULT_GC_INITIAL_WORKER_COUNT,
            },
            gc_tuning_window_cycles: DEFAULT_GC_TUNING_WINDOW_CYCLES,
            gc_sync_impact_threshold: DEFAULT_GC_SYNC_IMPACT_THRESHOLD,
            gc_io_bytes_per_sec: STRATA_GC_IO_BYTES_PER_SEC,
            gc_min_io_bytes_per_sec: DEFAULT_GC_MIN_IO_BYTES_PER_SEC,
            gc_planner_config: self.planner_config(),
            shard_drop_gc_drain_timeout: DEFAULT_SHARD_DROP_GC_DRAIN_TIMEOUT,
            starting_epoch: DEFAULT_STARTING_EPOCH,
            relocation_writeback_chunk: self.strata_relocation_writeback,
        }
    }
}

// Laws.

/// A configuration that can be run gives lifetimes a window: in epoch mode the lower bound is at
/// least one epoch and at most the upper, which no epoch arithmetic can overflow.
pub proof fn law_lifetime_window_is_open(config: Config)
    requires
        config_fault(config) is None,
        config.lifetime_mode == LifetimeMode::Epoch,
    ensures
        1 <= config.min_future_epoch_offset <= config.future_epochs <= MAX_FUTURE_EPOCHS,
        config.epoch_duration > 0,
        DEFAULT_STARTING_EPOCH + config.future_epochs <= u64::MAX,
{
}

/// The first words of a command line that are understood do not depend on what follows: what comes
/// last wins over what came before.
pub proof fn law_command_lines_are_read_in_order(
    config: Config,
    engine_set: bool,
    first: Seq<String>,
    then: Seq<String>,
)
    requires
        applied(config, engine_set, first) is Ok,
    ensures
        ({
            let (middle, middle_set) = applied(config, engine_set, first)->Ok_0;
            applied(config, engine_set, first + then) == applied(middle, middle_set, then)
        }),
    decreases first.len(),
{
    if first.len() == 0 {
        assert(first + then =~= then);
    } else {
        let all = first + then;
        assert(all[0] == first[0]);
        if first.len() > 1 {
            assert(all[1] == first[1]);
            assert(all.skip(2) =~= first.skip(2) + then);
            let flag = flag_named(first[0]@)->0;
            let next = assigned(config, flag, first[1])->Ok_0;
            law_command_lines_are_read_in_order(
                next,
                engine_set || flag is Engine,
                first.skip(2),
                then,
            );
        }
    }
}

} // verus!
