//! Runtime configuration of one store namespace. Spans of time are in nanoseconds.

use vstd::prelude::*;

use crate::gc::tuner::GcConcurrencyConfig;
use crate::text::{joined, letters};
use crate::types::Epoch;

verus! {

pub const DEFAULT_SEGMENT_READER_CACHE_CAPACITY: usize = 64_000;

/// One minute.
pub const DEFAULT_GC_INTERVAL: u128 = 60_000_000_000;

pub const DEFAULT_GC_WORKER_COUNT: usize = 1;

pub const DEFAULT_GC_INITIAL_WORKER_COUNT: usize = 1;

pub const DEFAULT_GC_TUNING_WINDOW_CYCLES: u64 = 8;

/// A quarter of a second.
pub const DEFAULT_GC_SYNC_IMPACT_THRESHOLD: u128 = 250_000_000;

/// 32 MiB.
pub const DEFAULT_GC_IO_BYTES_PER_SEC: u64 = 33_554_432;

/// 4 MiB.
pub const DEFAULT_GC_MIN_IO_BYTES_PER_SEC: u64 = 4_194_304;

/// Half a minute.
pub const DEFAULT_SHARD_DROP_GC_DRAIN_TIMEOUT: u128 = 30_000_000_000;

/// 1 GiB.
pub const DEFAULT_SEGMENT_MAX_BYTES: u64 = 1_073_741_824;

pub const DEFAULT_LSM_PARTITION_COUNT: u32 = 1;

/// 64 MiB.
pub const DEFAULT_LSM_COMPACTION_PATCH_BYTES: u64 = 67_108_864;

/// One second.
pub const DEFAULT_LSM_MEMTABLE_MAX_AGE: u128 = 1_000_000_000;

pub const DEFAULT_WRITE_QUEUE_CAPACITY: usize = 1024;

pub const DEFAULT_MAX_UNSEALED_SEGMENTS: usize = 8;

/// What recovery does with unsealed segments after a crash.
#[derive(Clone, Copy, Debug, PartialEq, Eq, Structural)]
pub enum StrataRecoveryPolicy {
    /// Recover the longest ordered prefix of unsealed segment data.
    PointInTime,
    /// Fail to open where unsealed segment files do not exactly match indexed offsets.
    AbsoluteConsistency,
}

/// How sealed segment files are verified when the store opens.
#[derive(Clone, Copy, Debug, PartialEq, Eq, Structural)]
pub enum SealedSegmentIntegrityPolicy {
    /// The file exists and has the indexed length.
    MetadataOnly,
    /// The file also has the indexed digest.
    Checksum,
}

/// Knobs of the GC planner; what is left out keeps the planner's own default.
#[derive(Clone, Copy, Debug, PartialEq, Eq, Structural)]
pub struct GcPlannerConfig {
    pub max_copy_bytes_per_plan: Option<u64>,
    pub max_l0_copy_bytes_per_plan: Option<u64>,
    pub min_l0_rewrite_epoch_distance: Option<u64>,
    /// In hundredths of a percent.
    pub min_l0_rewrite_useful_ratio_bps: Option<u64>,
    pub min_reclaim_bytes: Option<u64>,
    /// In hundredths of a percent.
    pub min_garbage_ratio_bps: Option<u64>,
    pub min_exact_epoch_bucket_bytes: Option<u64>,
    pub min_exact_epoch_distance: Option<u64>,
    pub max_exact_epoch_extension_count: Option<u64>,
    pub min_join_output_bytes: Option<u64>,
    pub max_join_sources: Option<u64>,
}

/// Share of useful bytes, in hundredths of a percent, from which a first rewrite pays.
pub const DEFAULT_MIN_L0_REWRITE_USEFUL_RATIO_BPS: u64 = 6_600;

impl GcPlannerConfig {
    pub open spec fn spec_default() -> GcPlannerConfig {
        GcPlannerConfig {
            max_copy_bytes_per_plan: None,
            max_l0_copy_bytes_per_plan: None,
            min_l0_rewrite_epoch_distance: None,
            min_l0_rewrite_useful_ratio_bps: Some(DEFAULT_MIN_L0_REWRITE_USEFUL_RATIO_BPS),
            min_reclaim_bytes: None,
            min_garbage_ratio_bps: None,
            min_exact_epoch_bucket_bytes: None,
            min_exact_epoch_distance: None,
            max_exact_epoch_extension_count: None,
            min_join_output_bytes: None,
            max_join_sources: None,
        }
    }
}

impl Default for GcPlannerConfig {
    fn default() -> (config: GcPlannerConfig)
        ensures
            config == GcPlannerConfig::spec_default(),
    {
        GcPlannerConfig {
            max_copy_bytes_per_plan: None,
            max_l0_copy_bytes_per_plan: None,
            min_l0_rewrite_epoch_distance: None,
            min_l0_rewrite_useful_ratio_bps: Some(DEFAULT_MIN_L0_REWRITE_USEFUL_RATIO_BPS),
            min_reclaim_bytes: None,
            min_garbage_ratio_bps: None,
            min_exact_epoch_bucket_bytes: None,
            min_exact_epoch_distance: None,
            max_exact_epoch_extension_count: None,
            min_join_output_bytes: None,
            max_join_sources: None,
        }
    }
}

/// Runtime configuration for one Strata store namespace.
#[derive(Clone, Debug, PartialEq, Eq)]
pub struct StrataStoreConfig {
    pub root_dir: String,
    pub namespace: String,
    pub segment_max_bytes: u64,
    pub write_queue_capacity: usize,
    pub max_unsealed_segments: usize,
    pub segment_reader_cache_capacity: usize,
    /// Number of hash partitions shared by the main and relocation LSMs. An existing namespace
    /// cannot be opened with another value.
    pub lsm_partition_count: u32,
    /// Patch bytes per blob-LSM partition that trigger a full pass while the base is small, and the
    /// size under which a whole partition is folded on the periodic tick.
    pub lsm_compaction_patch_bytes: u64,
    /// Oldest a memtable may grow before it is frozen and flushed.
    pub lsm_memtable_max_age: u128,
    pub recovery_policy: StrataRecoveryPolicy,
    pub sealed_segment_integrity_policy: SealedSegmentIntegrityPolicy,
    /// Whether background GC workers are started.
    pub gc_workers_enabled: bool,
    /// Cadence of background GC attempts.
    pub gc_interval: u128,
    /// Most GC workers that work on disjoint source segments at the same time.
    pub gc_worker_count: usize,
    /// GC workers that are admitted at first.
    pub gc_initial_worker_count: usize,
    /// Completed GC attempts per tuner decision.
    pub gc_tuning_window_cycles: u64,
    /// Foreground sync latency above which GC concurrency starts being treated as suspicious.
    pub gc_sync_impact_threshold: u128,
    /// Byte budget for GC disk I/O, shared by all workers.
    pub gc_io_bytes_per_sec: u64,
    /// Lower bound of that budget under foreground latency pressure.
    pub gc_min_io_bytes_per_sec: u64,
    pub gc_planner_config: GcPlannerConfig,
    /// Longest that one shard-cleanup attempt waits for readers of retention segments.
    pub shard_drop_gc_drain_timeout: u128,
    /// Epoch of a new namespace.
    pub starting_epoch: Epoch,
    /// Batch size in which published relocations are pushed through the foreground writer as well;
    /// without it, healing is left to compaction.
    pub relocation_writeback_chunk: Option<usize>,
}

/// A path below a directory: an absolute path stands for itself, and no separator is doubled.
pub open spec fn path_join(dir: Seq<char>, below: Seq<char>) -> Seq<char> {
    if below.len() > 0 && below[0] == '/' {
        below
    } else if dir.len() == 0 || dir.last() == '/' {
        dir + below
    } else {
        dir + "/"@ + below
    }
}

/// A path below a directory.
pub fn join_path(dir: &str, below: &str) -> (path: String)
    ensures
        path@ == path_join(dir@, below@),
{
    let inner: Vec<char> = letters(below);
    if inner.len() > 0 && inner[0] == '/' {
        return below.to_owned();
    }
    let outer: Vec<char> = letters(dir);
    if outer.len() == 0 || outer[outer.len() - 1] == '/' {
        return joined(dir, below);
    }
    let open: String = joined(dir, "/");
    joined(open.as_str(), below)
}

impl StrataStoreConfig {
    /// Everything but the directory and the namespace has its default.
    pub open spec fn has_defaults(&self) -> bool {
        &&& self.segment_max_bytes == DEFAULT_SEGMENT_MAX_BYTES
        &&& self.write_queue_capacity == DEFAULT_WRITE_QUEUE_CAPACITY
        &&& self.max_unsealed_segments == DEFAULT_MAX_UNSEALED_SEGMENTS
        &&& self.segment_reader_cache_capacity == DEFAULT_SEGMENT_READER_CACHE_CAPACITY
        &&& self.lsm_partition_count == DEFAULT_LSM_PARTITION_COUNT
        &&& self.lsm_compaction_patch_bytes == DEFAULT_LSM_COMPACTION_PATCH_BYTES
        &&& self.lsm_memtable_max_age == DEFAULT_LSM_MEMTABLE_MAX_AGE
        &&& self.recovery_policy == StrataRecoveryPolicy::PointInTime
        &&& self.sealed_segment_integrity_policy == SealedSegmentIntegrityPolicy::MetadataOnly
        &&& self.gc_workers_enabled
        &&& self.gc_interval == DEFAULT_GC_INTERVAL
        &&& self.gc_worker_count == DEFAULT_GC_WORKER_COUNT
        &&& self.gc_initial_worker_count == DEFAULT_GC_INITIAL_WORKER_COUNT
        &&& self.gc_tuning_window_cycles == DEFAULT_GC_TUNING_WINDOW_CYCLES
        &&& self.gc_sync_impact_threshold == DEFAULT_GC_SYNC_IMPACT_THRESHOLD
        &&& self.gc_io_bytes_per_sec == DEFAULT_GC_IO_BYTES_PER_SEC
        &&& self.gc_min_io_bytes_per_sec == DEFAULT_GC_MIN_IO_BYTES_PER_SEC
        &&& self.gc_planner_config == GcPlannerConfig::spec_default()
        &&& self.shard_drop_gc_drain_timeout == DEFAULT_SHARD_DROP_GC_DRAIN_TIMEOUT
        &&& self.starting_epoch == 0
        &&& self.relocation_writeback_chunk is None
    }

    /// Creates a configuration with production defaults for a namespace under `root_dir`.
    ///
    /// The directory and the namespace say where durable data lives, so the caller supplies them;
    /// the other settings can be overridden on the result.
    pub fn new(root_dir: String, namespace: String) -> (config: StrataStoreConfig)
        ensures
            config.root_dir == root_dir,
            config.namespace == namespace,
            config.has_defaults(),
    {
        StrataStoreConfig {
            root_dir,
            namespace,
            segment_max_bytes: DEFAULT_SEGMENT_MAX_BYTES,
            write_queue_capacity: DEFAULT_WRITE_QUEUE_CAPACITY,
            max_unsealed_segments: DEFAULT_MAX_UNSEALED_SEGMENTS,
            segment_reader_cache_capacity: DEFAULT_SEGMENT_READER_CACHE_CAPACITY,
            lsm_partition_count: DEFAULT_LSM_PARTITION_COUNT,
            lsm_compaction_patch_bytes: DEFAULT_LSM_COMPACTION_PATCH_BYTES,
            lsm_memtable_max_age: DEFAULT_LSM_MEMTABLE_MAX_AGE,
            recovery_policy: StrataRecoveryPolicy::PointInTime,
            sealed_segment_integrity_policy: SealedSegmentIntegrityPolicy::MetadataOnly,
            gc_workers_enabled: true,
            gc_interval: DEFAULT_GC_INTERVAL,
            gc_worker_count: DEFAULT_GC_WORKER_COUNT,
            gc_initial_worker_count: DEFAULT_GC_INITIAL_WORKER_COUNT,
            gc_tuning_window_cycles: DEFAULT_GC_TUNING_WINDOW_CYCLES,
            gc_sync_impact_threshold: DEFAULT_GC_SYNC_IMPACT_THRESHOLD,
            gc_io_bytes_per_sec: DEFAULT_GC_IO_BYTES_PER_SEC,
            gc_min_io_bytes_per_sec: DEFAULT_GC_MIN_IO_BYTES_PER_SEC,
            gc_planner_config: GcPlannerConfig::default(),
            shard_drop_gc_drain_timeout: DEFAULT_SHARD_DROP_GC_DRAIN_TIMEOUT,
            starting_epoch: 0,
            relocation_writeback_chunk: None,
        }
    }

    pub open spec fn spec_namespace_dir(&self) -> Seq<char> {
        path_join(self.root_dir@, self.namespace@)
    }

    /// The directory of the namespace.
    pub fn namespace_dir(&self) -> (path: String)
        ensures
            path@ == self.spec_namespace_dir(),
    {
        join_path(self.root_dir.as_str(), self.namespace.as_str())
    }

    /// The directory of ingest segments.
    pub fn ingest_dir(&self) -> (path: String)
        ensures
            path@ == path_join(self.spec_namespace_dir(), "ingest"@),
    {
        join_path(self.namespace_dir().as_str(), "ingest")
    }

    /// The directory of the index where it is not shared with another database.
    pub fn standalone_index_dir(&self) -> (path: String)
        ensures
            path@ == path_join(self.spec_namespace_dir(), "index"@),
    {
        join_path(self.namespace_dir().as_str(), "index")
    }

    /// The directory of relocation tables.
    pub fn relocation_dir(&self) -> (path: String)
        ensures
            path@ == path_join(self.spec_namespace_dir(), "relocations"@),
    {
        join_path(self.namespace_dir().as_str(), "relocations")
    }

    /// The directory of the global garbage log.
    pub fn garbage_log_dir(&self) -> (path: String)
        ensures
            path@ == path_join(self.spec_namespace_dir(), "garbage-log"@),
    {
        join_path(self.namespace_dir().as_str(), "garbage-log")
    }

    /// What the names of the namespace's column families begin with.
    pub fn index_cf_prefix(&self) -> (prefix: String)
        ensures
            prefix@ == "strata/"@ + self.namespace@,
    {
        joined("strata/", self.namespace.as_str())
    }
}

impl GcConcurrencyConfig {
    /// The part of the configuration that bounds GC concurrency.
    pub fn from_store_config(config: &StrataStoreConfig) -> (bounds: GcConcurrencyConfig)
        ensures
            bounds == (GcConcurrencyConfig {
                max_workers: config.gc_worker_count,
                initial_workers: config.gc_initial_worker_count,
                tuning_window_cycles: config.gc_tuning_window_cycles,
                sync_impact_threshold: config.gc_sync_impact_threshold,
                max_io_bytes_per_sec: config.gc_io_bytes_per_sec,
                min_io_bytes_per_sec: config.gc_min_io_bytes_per_sec,
            }),
    {
        GcConcurrencyConfig {
            max_workers: config.gc_worker_count,
            initial_workers: config.gc_initial_worker_count,
            tuning_window_cycles: config.gc_tuning_window_cycles,
            sync_impact_threshold: config.gc_sync_impact_threshold,
            max_io_bytes_per_sec: config.gc_io_bytes_per_sec,
            min_io_bytes_per_sec: config.gc_min_io_bytes_per_sec,
        }
    }
}

} // verus!
