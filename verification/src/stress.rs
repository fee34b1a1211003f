//! The worker of a crash test: what it is told, and what it writes.

use vstd::prelude::*;

use crate::bench::lifetimes;
use crate::bench::lifetimes::push_decimal;
use crate::bench::options;
use crate::bench::random;
use crate::bench::random::mix64;
use crate::bytes;
use crate::bytes::push_u64;
use crate::config::{
    GcPlannerConfig, SealedSegmentIntegrityPolicy, StrataRecoveryPolicy, StrataStoreConfig,
    DEFAULT_GC_INITIAL_WORKER_COUNT, DEFAULT_GC_IO_BYTES_PER_SEC, DEFAULT_GC_MIN_IO_BYTES_PER_SEC,
    DEFAULT_GC_SYNC_IMPACT_THRESHOLD, DEFAULT_GC_TUNING_WINDOW_CYCLES, DEFAULT_GC_WORKER_COUNT,
    DEFAULT_LSM_COMPACTION_PATCH_BYTES, DEFAULT_LSM_MEMTABLE_MAX_AGE, DEFAULT_LSM_PARTITION_COUNT,
    DEFAULT_SHARD_DROP_GC_DRAIN_TIMEOUT,
};
use crate::text;
use crate::text::{joined, joined3, same};
use crate::types::Epoch;

verus! {

// What the worker is told.

/// Options as they are read. Two of them must be given.
#[derive(Clone, Debug)]
pub struct StressOptions {
    pub root_dir: Option<String>,
    pub namespace: String,
    pub run_id: Option<u64>,
    pub seed: u64,
    pub writer_threads: usize,
    pub reader_threads: usize,
    pub payload_bytes: usize,
    pub segment_max_bytes: u64,
    pub write_queue_capacity: usize,
    pub max_unsealed_segments: usize,
    pub starting_epoch: Epoch,
}

/// What the worker is told.
#[derive(Clone, Debug)]
pub struct StressConfig {
    pub root_dir: String,
    pub namespace: String,
    pub run_id: u64,
    pub seed: u64,
    pub writer_threads: usize,
    pub reader_threads: usize,
    pub payload_bytes: usize,
    pub segment_max_bytes: u64,
    pub write_queue_capacity: usize,
    pub max_unsealed_segments: usize,
    pub starting_epoch: Epoch,
}

/// An option.
#[derive(Clone, Copy, Debug, PartialEq, Eq, Structural)]
pub enum StressFlag {
    Root,
    Namespace,
    RunId,
    Seed,
    WriterThreads,
    ReaderThreads,
    PayloadBytes,
    SegmentMaxBytes,
    WriteQueueCapacity,
    MaxUnsealedSegments,
    StartingEpoch,
}

/// The option of a name.
pub open spec fn stress_flag_named(name: Seq<char>) -> Option<StressFlag> {
    if name == "--root"@ {
        Some(StressFlag::Root)
    } else if name == "--namespace"@ {
        Some(StressFlag::Namespace)
    } else if name == "--run-id"@ {
        Some(StressFlag::RunId)
    } else if name == "--seed"@ {
        Some(StressFlag::Seed)
    } else if name == "--writer-threads"@ {
        Some(StressFlag::WriterThreads)
    } else if name == "--reader-threads"@ {
        Some(StressFlag::ReaderThreads)
    } else if name == "--payload-bytes"@ {
        Some(StressFlag::PayloadBytes)
    } else if name == "--segment-max-bytes"@ {
        Some(StressFlag::SegmentMaxBytes)
    } else if name == "--write-queue-capacity"@ {
        Some(StressFlag::WriteQueueCapacity)
    } else if name == "--max-unsealed-segments"@ {
        Some(StressFlag::MaxUnsealedSegments)
    } else if name == "--starting-epoch"@ {
        Some(StressFlag::StartingEpoch)
    } else {
        None
    }
}

fn stress_flag_of(name: &str) -> (flag: Option<StressFlag>)
    ensures
        flag == stress_flag_named(name@),
{
    if same(name, "--root") {
        Some(StressFlag::Root)
    } else if same(name, "--namespace") {
        Some(StressFlag::Namespace)
    } else if same(name, "--run-id") {
        Some(StressFlag::RunId)
    } else if same(name, "--seed") {
        Some(StressFlag::Seed)
    } else if same(name, "--writer-threads") {
        Some(StressFlag::WriterThreads)
    } else if same(name, "--reader-threads") {
        Some(StressFlag::ReaderThreads)
    } else if same(name, "--payload-bytes") {
        Some(StressFlag::PayloadBytes)
    } else if same(name, "--segment-max-bytes") {
        Some(StressFlag::SegmentMaxBytes)
    } else if same(name, "--write-queue-capacity") {
        Some(StressFlag::WriteQueueCapacity)
    } else if same(name, "--max-unsealed-segments") {
        Some(StressFlag::MaxUnsealedSegments)
    } else if same(name, "--starting-epoch") {
        Some(StressFlag::StartingEpoch)
    } else {
        None
    }
}

/// A number within its type's range, or a complaint that names the option.
pub open spec fn stress_number(name: Seq<char>, value: Seq<char>, most: int) -> Result<
    u64,
    Seq<char>,
> {
    match text::number(value, most) {
        Ok(number) => Ok(number as u64),
        Err(_) => Err("invalid value for "@ + name + ": "@ + value),
    }
}

fn parse_stress_number(name: &str, value: &str, most: u64) -> (result: Result<u64, String>)
    ensures
        options::agrees(result, stress_number(name@, value@, most as int)),
        result matches Ok(number) ==> number <= most,
{
    match text::parse_number(value, most) {
        Ok(number) => Ok(number),
        Err(_) => {
            let open: String = joined3("invalid value for ", name, ": ");
            Err(joined(open.as_str(), value))
        },
    }
}

/// The options after one more.
pub open spec fn stress_assigned(
    given: StressOptions,
    flag: StressFlag,
    name: Seq<char>,
    value: String,
) -> Result<StressOptions, Seq<char>> {
    match flag {
        StressFlag::Root => Ok(StressOptions { root_dir: Some(value), ..given }),
        StressFlag::Namespace => Ok(StressOptions { namespace: value, ..given }),
        StressFlag::RunId => match stress_number(name, value@, u64::MAX as int) {
            Ok(number) => Ok(StressOptions { run_id: Some(number), ..given }),
            Err(message) => Err(message),
        },
        StressFlag::Seed => match stress_number(name, value@, u64::MAX as int) {
            Ok(number) => Ok(StressOptions { seed: number, ..given }),
            Err(message) => Err(message),
        },
        StressFlag::WriterThreads => match stress_number(name, value@, usize::MAX as int) {
            Ok(number) => Ok(StressOptions { writer_threads: number as usize, ..given }),
            Err(message) => Err(message),
        },
        StressFlag::ReaderThreads => match stress_number(name, value@, usize::MAX as int) {
            Ok(number) => Ok(StressOptions { reader_threads: number as usize, ..given }),
            Err(message) => Err(message),
        },
        StressFlag::PayloadBytes => match stress_number(name, value@, usize::MAX as int) {
            Ok(number) => Ok(StressOptions { payload_bytes: number as usize, ..given }),
            Err(message) => Err(message),
        },
        StressFlag::SegmentMaxBytes => match stress_number(name, value@, u64::MAX as int) {
            Ok(number) => Ok(StressOptions { segment_max_bytes: number, ..given }),
            Err(message) => Err(message),
        },
        StressFlag::WriteQueueCapacity => match stress_number(name, value@, usize::MAX as int) {
            Ok(number) => Ok(StressOptions { write_queue_capacity: number as usize, ..given }),
            Err(message) => Err(message),
        },
        StressFlag::MaxUnsealedSegments => match stress_number(name, value@, usize::MAX as int) {
            Ok(number) => Ok(StressOptions { max_unsealed_segments: number as usize, ..given }),
            Err(message) => Err(message),
        },
        StressFlag::StartingEpoch => match stress_number(name, value@, u64::MAX as int) {
            Ok(number) => Ok(StressOptions { starting_epoch: number, ..given }),
            Err(message) => Err(message),
        },
    }
}

fn stress_assign(given: StressOptions, flag: StressFlag, name: &str, value: String) -> (result:
    Result<StressOptions, String>)
    ensures
        options::agrees(result, stress_assigned(given, flag, name@, value)),
{
    match flag {
        StressFlag::Root => Ok(StressOptions { root_dir: Some(value), ..given }),
        StressFlag::Namespace => Ok(StressOptions { namespace: value, ..given }),
        StressFlag::RunId => {
            let number: u64 = parse_stress_number(name, value.as_str(), u64::MAX)?;
            Ok(StressOptions { run_id: Some(number), ..given })
        },
        StressFlag::Seed => {
            let number: u64 = parse_stress_number(name, value.as_str(), u64::MAX)?;
            Ok(StressOptions { seed: number, ..given })
        },
        StressFlag::WriterThreads => {
            let number: u64 = parse_stress_number(name, value.as_str(), usize::MAX as u64)?;
            Ok(StressOptions { writer_threads: number as usize, ..given })
        },
        StressFlag::ReaderThreads => {
            let number: u64 = parse_stress_number(name, value.as_str(), usize::MAX as u64)?;
            Ok(StressOptions { reader_threads: number as usize, ..given })
        },
        StressFlag::PayloadBytes => {
            let number: u64 = parse_stress_number(name, value.as_str(), usize::MAX as u64)?;
            Ok(StressOptions { payload_bytes: number as usize, ..given })
        },
        StressFlag::SegmentMaxBytes => {
            let number: u64 = parse_stress_number(name, value.as_str(), u64::MAX)?;
            Ok(StressOptions { segment_max_bytes: number, ..given })
        },
        StressFlag::WriteQueueCapacity => {
            let number: u64 = parse_stress_number(name, value.as_str(), usize::MAX as u64)?;
            Ok(StressOptions { write_queue_capacity: number as usize, ..given })
        },
        StressFlag::MaxUnsealedSegments => {
            let number: u64 = parse_stress_number(name, value.as_str(), usize::MAX as u64)?;
            Ok(StressOptions { max_unsealed_segments: number as usize, ..given })
        },
        StressFlag::StartingEpoch => {
            let number: u64 = parse_stress_number(name, value.as_str(), u64::MAX)?;
            Ok(StressOptions { starting_epoch: number, ..given })
        },
    }
}

/// What the command line makes of some options.
pub open spec fn stress_applied(given: StressOptions, args: Seq<String>) -> Result<
    StressOptions,
    Seq<char>,
>
    decreases args.len(),
{
    if args.len() == 0 {
        Ok(given)
    } else {
        match stress_flag_named(args[0]@) {
            None => Err("unknown argument "@ + args[0]@),
            Some(flag) => if args.len() == 1 {
                Err(args[0]@ + " requires a value"@)
            } else {
                match stress_assigned(given, flag, args[0]@, args[1]) {
                    Ok(next) => stress_applied(next, args.skip(2)),
                    Err(message) => Err(message),
                }
            },
        }
    }
}

fn stress_apply(defaults: StressOptions, args: &Vec<String>) -> (result: Result<
    StressOptions,
    String,
>)
    ensures
        options::agrees(result, stress_applied(defaults, args@)),
{
    let mut given: StressOptions = defaults;
    let mut i: usize = 0;
    assert(args@.skip(0) =~= args@);
    while i < args.len()
        invariant
            i <= args@.len(),
            stress_applied(defaults, args@) == stress_applied(given, args@.skip(i as int)),
        decreases args@.len() - i,
    {
        let name: &str = args[i].as_str();
        let ghost rest = args@.skip(i as int);
        assert(rest[0] == args@[i as int]);
        let flag: StressFlag = match stress_flag_of(name) {
            Some(flag) => flag,
            None => {
                return Err(joined("unknown argument ", name));
            },
        };
        if args.len() - i == 1 {
            return Err(joined(name, " requires a value"));
        }
        assert(rest[1] == args@[i + 1]);
        let value: String = args[i + 1].clone();
        given = stress_assign(given, flag, name, value)?;
        assert(rest.skip(2) =~= args@.skip(i + 2));
        i = i + 2;
    }
    Ok(given)
}

/// What holds where nothing is said.
pub open spec fn stress_defaults(given: StressOptions) -> bool {
    &&& given.namespace@ == "default"@
    &&& given.root_dir is None
    &&& given.run_id is None
    &&& given.seed == 1
    &&& given.writer_threads == 8
    &&& given.reader_threads == 4
    &&& given.payload_bytes == 128
    &&& given.segment_max_bytes == 512
    &&& given.write_queue_capacity == 4
    &&& given.max_unsealed_segments == 3
    &&& given.starting_epoch == 1
}

/// The configuration that options make up, where they do.
pub open spec fn stress_checked(given: StressOptions) -> Result<StressConfig, Seq<char>> {
    if given.root_dir is None {
        Err("--root is required"@)
    } else if given.run_id is None {
        Err("--run-id is required"@)
    } else if given.writer_threads == 0 {
        Err("--writer-threads must be non-zero"@)
    } else if given.payload_bytes == 0 {
        Err("--payload-bytes must be non-zero"@)
    } else if given.max_unsealed_segments < 2 {
        Err("--max-unsealed-segments must be at least 2"@)
    } else {
        Ok(
            StressConfig {
                root_dir: given.root_dir->0,
                namespace: given.namespace,
                run_id: given.run_id->0,
                seed: given.seed,
                writer_threads: given.writer_threads,
                reader_threads: given.reader_threads,
                payload_bytes: given.payload_bytes,
                segment_max_bytes: given.segment_max_bytes,
                write_queue_capacity: given.write_queue_capacity,
                max_unsealed_segments: given.max_unsealed_segments,
                starting_epoch: given.starting_epoch,
            },
        )
    }
}

/// The configuration that a command line stands for.
pub open spec fn stress_parsed(defaults: StressOptions, args: Seq<String>) -> Result<
    StressConfig,
    Seq<char>,
> {
    match stress_applied(defaults, args) {
        Ok(given) => stress_checked(given),
        Err(message) => Err(message),
    }
}

impl StressConfig {
    /// The configuration that a command line stands for.
    pub fn parse(args: &Vec<String>) -> (result: Result<StressConfig, String>)
        ensures
            exists|defaults: StressOptions| #[trigger]
                stress_defaults(defaults) && options::agrees(
                    result,
                    stress_parsed(defaults, args@),
                ),
    {
        let defaults: StressOptions = StressOptions {
            root_dir: None,
            namespace: "default".to_owned(),
            run_id: None,
            seed: 1,
            writer_threads: 8,
            reader_threads: 4,
            payload_bytes: 128,
            segment_max_bytes: 512,
            write_queue_capacity: 4,
            max_unsealed_segments: 3,
            starting_epoch: 1,
        };
        let ghost base = defaults;
        assert(stress_defaults(base));
        let given: StressOptions = match stress_apply(defaults, args) {
            Ok(given) => given,
            Err(message) => {
                return Err(message);
            },
        };
        let root_dir: String = match given.root_dir {
            Some(root_dir) => root_dir,
            None => {
                return Err("--root is required".to_owned());
            },
        };
        let run_id: u64 = match given.run_id {
            Some(run_id) => run_id,
            None => {
                return Err("--run-id is required".to_owned());
            },
        };
        if given.writer_threads == 0 {
            return Err("--writer-threads must be non-zero".to_owned());
        }
        if given.payload_bytes == 0 {
            return Err("--payload-bytes must be non-zero".to_owned());
        }
        if given.max_unsealed_segments < 2 {
            return Err("--max-unsealed-segments must be at least 2".to_owned());
        }
        Ok(
            StressConfig {
                root_dir,
                namespace: given.namespace,
                run_id,
                seed: given.seed,
                writer_threads: given.writer_threads,
                reader_threads: given.reader_threads,
                payload_bytes: given.payload_bytes,
                segment_max_bytes: given.segment_max_bytes,
                write_queue_capacity: given.write_queue_capacity,
                max_unsealed_segments: given.max_unsealed_segments,
                starting_epoch: given.starting_epoch,
            },
        )
    }

    /// The store that the worker opens.
    pub open spec fn store_settings(&self) -> StrataStoreConfig {
        StrataStoreConfig {
            root_dir: self.root_dir,
            namespace: self.namespace,
            segment_max_bytes: self.segment_max_bytes,
            write_queue_capacity: self.write_queue_capacity,
            max_unsealed_segments: self.max_unsealed_segments,
            segment_reader_cache_capacity: STRESS_READER_CACHE_CAPACITY,
            lsm_partition_count: DEFAULT_LSM_PARTITION_COUNT,
            lsm_compaction_patch_bytes: DEFAULT_LSM_COMPACTION_PATCH_BYTES,
            lsm_memtable_max_age: DEFAULT_LSM_MEMTABLE_MAX_AGE,
            recovery_policy: StrataRecoveryPolicy::PointInTime,
            sealed_segment_integrity_policy: SealedSegmentIntegrityPolicy::MetadataOnly,
            gc_workers_enabled: true,
            gc_interval: STRESS_GC_INTERVAL,
            gc_worker_count: DEFAULT_GC_WORKER_COUNT,
            gc_initial_worker_count: DEFAULT_GC_INITIAL_WORKER_COUNT,
            gc_tuning_window_cycles: DEFAULT_GC_TUNING_WINDOW_CYCLES,
            gc_sync_impact_threshold: DEFAULT_GC_SYNC_IMPACT_THRESHOLD,
            gc_io_bytes_per_sec: DEFAULT_GC_IO_BYTES_PER_SEC,
            gc_min_io_bytes_per_sec: DEFAULT_GC_MIN_IO_BYTES_PER_SEC,
            gc_planner_config: GcPlannerConfig::spec_default(),
            shard_drop_gc_drain_timeout: DEFAULT_SHARD_DROP_GC_DRAIN_TIMEOUT,
            starting_epoch: self.starting_epoch,
            relocation_writeback_chunk: None,
        }
    }

    /// The configuration of the store that the worker opens.
    pub fn store_config(&self) -> (config: StrataStoreConfig)
        ensures
            config == self.store_settings(),
    {
        StrataStoreConfig {
            root_dir: self.root_dir.clone(),
            namespace: self.namespace.clone(),
            segment_max_bytes: self.segment_max_bytes,
            write_queue_capacity: self.write_queue_capacity,
            max_unsealed_segments: self.max_unsealed_segments,
            segment_reader_cache_capacity: STRESS_READER_CACHE_CAPACITY,
            lsm_partition_count: DEFAULT_LSM_PARTITION_COUNT,
            lsm_compaction_patch_bytes: DEFAULT_LSM_COMPACTION_PATCH_BYTES,
            lsm_memtable_max_age: DEFAULT_LSM_MEMTABLE_MAX_AGE,
            recovery_policy: StrataRecoveryPolicy::PointInTime,
            sealed_segment_integrity_policy: SealedSegmentIntegrityPolicy::MetadataOnly,
            gc_workers_enabled: true,
            gc_interval: STRESS_GC_INTERVAL,
            gc_worker_count: DEFAULT_GC_WORKER_COUNT,
            gc_initial_worker_count: DEFAULT_GC_INITIAL_WORKER_COUNT,
            gc_tuning_window_cycles: DEFAULT_GC_TUNING_WINDOW_CYCLES,
            gc_sync_impact_threshold: DEFAULT_GC_SYNC_IMPACT_THRESHOLD,
            gc_io_bytes_per_sec: DEFAULT_GC_IO_BYTES_PER_SEC,
            gc_min_io_bytes_per_sec: DEFAULT_GC_MIN_IO_BYTES_PER_SEC,
            gc_planner_config: GcPlannerConfig::default(),
            shard_drop_gc_drain_timeout: DEFAULT_SHARD_DROP_GC_DRAIN_TIMEOUT,
            starting_epoch: self.starting_epoch,
            relocation_writeback_chunk: None,
        }
    }
}

pub const STRESS_READER_CACHE_CAPACITY: usize = 8;

/// One hour.
pub const STRESS_GC_INTERVAL: u128 = 3_600_000_000_000;

// What the worker writes.

/// Which put of which thread of which run a key belongs to.
#[derive(Clone, Copy, Debug, PartialEq, Eq, Structural)]
pub struct KeySpec {
    pub run_id: u64,
    pub thread_id: u64,
    pub sequence: u64,
}

/// `stress:`
pub open spec fn stress_prefix() -> Seq<u8> {
    seq![0x73u8, 0x74, 0x72, 0x65, 0x73, 0x73, 0x3a]
}

/// The key of a put: its numbers in decimal, with colons between them.
pub open spec fn stress_key(spec: KeySpec) -> Seq<u8> {
    stress_prefix() + (lifetimes::decimal_bytes(spec.run_id as int) + (seq![0x3au8] + (
    lifetimes::decimal_bytes(spec.thread_id as int) + (seq![0x3au8] + lifetimes::decimal_bytes(
        spec.sequence as int,
    )))))
}

pub fn key_for(spec: KeySpec) -> (key: Vec<u8>)
    ensures
        key@ == stress_key(spec),
{
    let mut key: Vec<u8> = vec![0x73, 0x74, 0x72, 0x65, 0x73, 0x73, 0x3a];
    push_decimal(&mut key, spec.run_id);
    key.push(0x3a);
    push_decimal(&mut key, spec.thread_id);
    key.push(0x3a);
    push_decimal(&mut key, spec.sequence);
    assert(key@ =~= stress_key(spec));
    key
}

/// A number with its bits turned to the left.
pub open spec fn turned(value: u64, places: u64) -> u64 {
    (value << places) | (value >> ((64 - places) as u64))
}

fn turn(value: u64, places: u64) -> (result: u64)
    requires
        0 < places < 64,
    ensures
        result == turned(value, places),
{
    (value << places) | (value >> (64 - places))
}

/// What a payload grows from.
pub open spec fn payload_seed(spec: KeySpec, seed: u64) -> u64 {
    seed ^ turned(spec.run_id, 17) ^ turned(spec.thread_id, 31) ^ turned(spec.sequence, 43)
}

/// The payload that grows from a state: the bytes of one number after another.
pub open spec fn payload_from(state: u64, len: nat) -> Seq<u8>
    decreases len,
{
    let next = random::mixed(state);
    let word = bytes::le(next as nat, 8);
    if len <= 8 {
        if len == 0 {
            Seq::empty()
        } else {
            word.take(len as int)
        }
    } else {
        word + payload_from(next, (len - 8) as nat)
    }
}

/// The payload of a put. It can be computed again to check what is read.
pub fn payload_for(spec: KeySpec, seed: u64, len: usize) -> (payload: Vec<u8>)
    ensures
        payload@ == payload_from(payload_seed(spec, seed), len as nat),
        payload@.len() == len,
{
    let mut state: u64 = seed ^ turn(spec.run_id, 17) ^ turn(spec.thread_id, 31) ^ turn(
        spec.sequence,
        43,
    );
    let ghost start = state;
    let mut payload: Vec<u8> = Vec::new();
    assert(payload@ + payload_from(state, len as nat) =~= payload_from(start, len as nat));
    while len - payload.len() > 8
        invariant
            payload@.len() <= len,
            payload@ + payload_from(state, (len - payload@.len()) as nat) == payload_from(
                start,
                len as nat,
            ),
        decreases len - payload@.len(),
    {
        let ghost before = payload@;
        let ghost rest = (len - before.len()) as nat;
        state = mix64(state);
        proof {
            bytes::lemma_le_len(state as nat, 8);
        }
        push_u64(&mut payload, state);
        assert(before + (bytes::le(state as nat, 8) + payload_from(state, (rest - 8) as nat))
            =~= payload@ + payload_from(state, (rest - 8) as nat));
    }
    let left: usize = len - payload.len();
    if left > 0 {
        let ghost before = payload@;
        state = mix64(state);
        proof {
            bytes::lemma_le_len(state as nat, 8);
        }
        push_u64(&mut payload, state);
        payload.truncate(len);
        assert(payload@ =~= before + bytes::le(state as nat, 8).take(left as int));
    } else {
        assert(payload@ + payload_from(state, 0) =~= payload@);
    }
    payload
}

/// How long the sync thread waits before its next sync, in milliseconds.
pub fn sync_delay_millis(seed: u64, run_id: u64, count: u64) -> (millis: u64)
    ensures
        millis == 3 + random::mixed(seed ^ run_id ^ count) % 13,
{
    3 + mix64(seed ^ run_id ^ count) % 13
}

/// How many of the last puts readers choose from.
pub const PUBLISHED_WINDOW: usize = 4_096;

/// Adds a put to those that readers choose from; the oldest leave.
pub fn publish(published: &mut Vec<KeySpec>, spec: KeySpec)
    requires
        old(published)@.len() <= PUBLISHED_WINDOW,
    ensures
        final(published)@ == (if old(published)@.len() < PUBLISHED_WINDOW {
            old(published)@.push(spec)
        } else {
            old(published)@.push(spec).skip(1)
        }),
        final(published)@.len() <= PUBLISHED_WINDOW,
{
    let ghost before = published@;
    published.push(spec);
    if published.len() > PUBLISHED_WINDOW {
        let _ = published.remove(0);
        assert(published@ =~= before.push(spec).skip(1));
    }
}

/// How many puts come to one that is read back at once.
pub const PUTS_PER_READ: u64 = 5;

/// Whether a writer reads a put back at once.
pub fn reads_back(sequence: u64) -> (result: bool)
    ensures
        result == (sequence % PUTS_PER_READ == 0),
{
    sequence % PUTS_PER_READ == 0
}

/// The put that a reader looks at when it has come this far, where there is any.
pub fn chosen_put(published: &Vec<KeySpec>, step: usize) -> (spec: Option<KeySpec>)
    ensures
        spec == (if published@.len() == 0 {
            None
        } else {
            Some(published@[step as int % published@.len() as int])
        }),
{
    if published.len() == 0 {
        None
    } else {
        Some(published[step % published.len()])
    }
}

// Laws.

/// Different puts have different keys.
pub proof fn law_stress_keys_differ(a: KeySpec, b: KeySpec)
    requires
        a != b,
    ensures
        stress_key(a) != stress_key(b),
{
    if stress_key(a) == stress_key(b) {
        let (ra, rb) = (
            lifetimes::decimal_bytes(a.run_id as int),
            lifetimes::decimal_bytes(b.run_id as int),
        );
        let (ta, tb) = (
            lifetimes::decimal_bytes(a.thread_id as int),
            lifetimes::decimal_bytes(b.thread_id as int),
        );
        let (sa, sb) = (
            lifetimes::decimal_bytes(a.sequence as int),
            lifetimes::decimal_bytes(b.sequence as int),
        );
        let (xa, xb) = (
            ra + (seq![0x3au8] + (ta + (seq![0x3au8] + sa))),
            rb + (seq![0x3au8] + (tb + (seq![0x3au8] + sb))),
        );
        assert(stress_key(a).skip(7) =~= xa);
        assert(stress_key(b).skip(7) =~= xb);
        lemma_digits_only(a.run_id as int);
        lemma_digits_only(b.run_id as int);
        lemma_digits_only(a.thread_id as int);
        lemma_digits_only(b.thread_id as int);
        lemma_split(ra, rb, ta + (seq![0x3au8] + sa), tb + (seq![0x3au8] + sb));
        lemma_split(ta, tb, sa, sb);
        lifetimes::lemma_decimal_injective(a.run_id as int, b.run_id as int);
        lifetimes::lemma_decimal_injective(a.thread_id as int, b.thread_id as int);
        lifetimes::lemma_decimal_injective(a.sequence as int, b.sequence as int);
    }
}

proof fn lemma_digits_only(value: int)
    requires
        value >= 0,
    ensures
        forall|i: int|
            0 <= i < lifetimes::decimal_bytes(value).len() ==> #[trigger] lifetimes::decimal_bytes(
                value,
            )[i] != 0x3a,
    decreases value,
{
    let all = lifetimes::decimal_bytes(value);
    if value >= 10 {
        lemma_digits_only(value / 10);
        let front = lifetimes::decimal_bytes(value / 10);
        assert forall|i: int| 0 <= i < all.len() implies #[trigger] all[i] != 0x3a by {
            if i < front.len() {
                assert(all[i] == front[i]);
            }
        }
    } else {
        assert(all =~= seq![lifetimes::digit_byte(value)]);
    }
}

proof fn lemma_split(a: Seq<u8>, b: Seq<u8>, behind_a: Seq<u8>, behind_b: Seq<u8>)
    requires
        a + (seq![0x3au8] + behind_a) == b + (seq![0x3au8] + behind_b),
        forall|i: int| 0 <= i < a.len() ==> #[trigger] a[i] != 0x3a,
        forall|i: int| 0 <= i < b.len() ==> #[trigger] b[i] != 0x3a,
    ensures
        a == b,
        behind_a == behind_b,
{
    let x = a + (seq![0x3au8] + behind_a);
    let y = b + (seq![0x3au8] + behind_b);
    assert(x[a.len() as int] == 0x3a);
    assert(y[b.len() as int] == 0x3a);
    if a.len() < b.len() {
        assert(y[a.len() as int] == b[a.len() as int]);
    } else if b.len() < a.len() {
        assert(x[b.len() as int] == a[b.len() as int]);
    }
    assert forall|i: int| 0 <= i < a.len() implies a[i] == b[i] by {
        assert(x[i] == a[i] && y[i] == b[i]);
    }
    assert(a =~= b);
    assert(x.skip(a.len() as int + 1) =~= behind_a);
    assert(y.skip(b.len() as int + 1) =~= behind_b);
}

/// A payload begins like a longer one of the same put.
pub proof fn law_payloads_extend(state: u64, short: nat, long: nat)
    requires
        short <= long,
    ensures
        payload_from(state, long).len() == long,
        payload_from(state, long).take(short as int) =~= payload_from(state, short),
    decreases long,
{
    let next = random::mixed(state);
    bytes::lemma_le_len(next as nat, 8);
    if long > 8 {
        law_payloads_extend(next, if short > 8 {
            (short - 8) as nat
        } else {
            0
        }, (long - 8) as nat);
        if short > 8 {
            let tail = payload_from(next, (long - 8) as nat);
            let word = bytes::le(next as nat, 8);
            assert(payload_from(state, long).take(short as int) =~= word + tail.take(short - 8));
        }
    }
}

} // verus!
