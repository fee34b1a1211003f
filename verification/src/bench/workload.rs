//! What workload threads decide between their calls into the store: when the next operation is
//! due, and what came of the last. Times and spans of time are in nanoseconds.

use vstd::prelude::*;

use crate::bench::config::{Config, EngineKind, LifetimeMode, DEFAULT_STARTING_EPOCH};
use crate::bench::lifetimes::EpochClock;
use crate::bench::random::{SplitMix64, GAMMA};
use crate::bytes::same_bytes;
use crate::num;
use crate::num::{max_u128, max_u64, min_u128, saturating_mul_u64};
use crate::types::Epoch;

verus! {

/// A later time, or the same where it cannot be told.
pub open spec fn later(at: int, span: int) -> int {
    if at + span > u128::MAX {
        at
    } else {
        at + span
    }
}

pub fn time_after(at: u128, span: u128) -> (result: u128)
    ensures
        result == later(at as int, span as int),
{
    match at.checked_add(span) {
        Some(result) => result,
        None => at,
    }
}

/// How long after `earlier` it is; nothing where it is before.
pub open spec fn elapsed(now: int, earlier: int) -> int {
    num::at_least(now - earlier, 0)
}

pub fn elapsed_since(now: u128, earlier: u128) -> (span: u128)
    ensures
        span == elapsed(now as int, earlier as int),
{
    if now > earlier {
        now - earlier
    } else {
        0
    }
}

/// The longest that a thread sleeps before it looks whether to stop.
pub const NAP: u128 = 100_000_000;

/// What a thread does that waits for a time.
#[derive(Clone, Copy, Debug, PartialEq, Eq, Structural)]
pub enum WaitStep {
    Stopped,
    Over,
    Sleep { span: u128 },
}

/// Waits for a time in naps, unless the workload ends.
pub fn wait_step(stopped: bool, now: u128, deadline: u128) -> (step: WaitStep)
    ensures
        step == (if stopped {
            WaitStep::Stopped
        } else if now >= deadline {
            WaitStep::Over
        } else {
            WaitStep::Sleep { span: num::at_most(deadline - now, NAP as int) as u128 }
        }),
{
    if stopped {
        WaitStep::Stopped
    } else if now >= deadline {
        WaitStep::Over
    } else {
        WaitStep::Sleep { span: min_u128(deadline - now, NAP) }
    }
}

/// What is to be done about the directory of a run.
#[derive(Clone, Copy, Debug, PartialEq, Eq, Structural)]
pub enum RootStep {
    Create,
    Use,
    /// There is something else at that path.
    NotADirectory,
    NotEmpty,
}

/// A run needs a fresh directory.
pub fn root_step(exists: bool, is_dir: bool, has_entries: bool) -> (step: RootStep)
    ensures
        step == (if !exists {
            RootStep::Create
        } else if !is_dir {
            RootStep::NotADirectory
        } else if has_entries {
            RootStep::NotEmpty
        } else {
            RootStep::Use
        }),
{
    if !exists {
        RootStep::Create
    } else if !is_dir {
        RootStep::NotADirectory
    } else if has_entries {
        RootStep::NotEmpty
    } else {
        RootStep::Use
    }
}

// Writers.

/// Nanoseconds between two operations of a rate: at least one.
pub open spec fn interval_of(ops_per_second: int) -> int {
    num::at_least(1_000_000_000int / ops_per_second, 1)
}

/// The time between two puts, where puts have a fixed rate.
pub fn put_interval(ops_per_second: u64) -> (interval: Option<u64>)
    ensures
        ops_per_second == 0 <==> interval is None,
        interval matches Some(interval) ==> interval == interval_of(ops_per_second as int),
{
    if ops_per_second == 0 {
        return None;
    }
    Some(max_u64(1_000_000_000 / ops_per_second, 1))
}

/// Takes the next place in the shared schedule of puts: not before now, and the one behind it an
/// interval later.
pub fn schedule_put(next_put_at: &mut u128, now: u128, interval: u64) -> (scheduled_at: u128)
    ensures
        scheduled_at == num::at_least(*old(next_put_at) as int, now as int),
        *final(next_put_at) == later(scheduled_at as int, interval as int),
{
    let scheduled_at: u128 = max_u128(*next_put_at, now);
    *next_put_at = time_after(scheduled_at, interval as u128);
    scheduled_at
}

// Readers.

/// The longest that a reader sleeps at a time.
pub const READER_NAP: u128 = 50_000_000;

/// What a reader does next.
#[derive(Clone, Copy, Debug, PartialEq, Eq, Structural)]
pub enum ReaderStep {
    Sleep { span: u128 },
    Read,
}

/// When one of several readers reads. Together they keep a rate, one after the other.
#[derive(Clone, Copy, Debug, PartialEq, Eq, Structural)]
pub struct ReaderPace {
    pub interval: u64,
    pub next_operation_at: u128,
}

impl ReaderPace {
    /// A reader's pace: as often as all readers share, each shifted by its index.
    pub fn begin(ops_per_second: u64, workers: usize, worker_index: usize, now: u128) -> (pace:
        ReaderPace)
        requires
            ops_per_second > 0,
        ensures
            pace.interval == num::at_most(
                interval_of(ops_per_second as int) * workers,
                u64::MAX as int,
            ),
            pace.next_operation_at == later(
                now as int,
                num::at_most(
                    interval_of(ops_per_second as int) * worker_index,
                    u64::MAX as int,
                ),
            ),
    {
        let shared: u64 = max_u64(1_000_000_000 / ops_per_second, 1);
        ReaderPace {
            interval: saturating_mul_u64(shared, workers as u64),
            next_operation_at: time_after(
                now,
                saturating_mul_u64(shared, worker_index as u64) as u128,
            ),
        }
    }

    /// Sleeps until the next read is due, in naps; a late reader does not catch up.
    pub fn step(&mut self, now: u128) -> (step: ReaderStep)
        ensures
            final(self).interval == old(self).interval,
            now < old(self).next_operation_at ==> {
                &&& step == (ReaderStep::Sleep {
                    span: num::at_most(
                        old(self).next_operation_at - now,
                        READER_NAP as int,
                    ) as u128,
                })
                &&& final(self).next_operation_at == old(self).next_operation_at
            },
            now >= old(self).next_operation_at ==> {
                &&& step == ReaderStep::Read
                &&& final(self).next_operation_at == num::at_least(
                    if old(self).next_operation_at + old(self).interval > u128::MAX {
                        now as int
                    } else {
                        old(self).next_operation_at + old(self).interval
                    },
                    now as int,
                )
            },
    {
        if now < self.next_operation_at {
            return ReaderStep::Sleep { span: min_u128(self.next_operation_at - now, READER_NAP) };
        }
        let next: u128 = match self.next_operation_at.checked_add(self.interval as u128) {
            Some(next) => next,
            None => now,
        };
        self.next_operation_at = max_u128(next, now);
        ReaderStep::Read
    }
}

/// The generator of one reader.
pub fn reader_rng(worker_index: u64) -> (rng: SplitMix64)
    ensures
        rng.state == 0xa11c_e5ed_5eedu64.wrapping_add(worker_index.wrapping_mul(GAMMA)),
{
    SplitMix64::new(0xa11c_e5ed_5eedu64.wrapping_add(worker_index.wrapping_mul(GAMMA)))
}

/// Whether a read looks for a deleted key: so many hundredths of a percent of all draws do.
pub fn prefers_deleted(draw: u64, deleted_bps: u64) -> (result: bool)
    ensures
        result == (draw % 10_000 < deleted_bps),
{
    draw % 10_000 < deleted_bps
}

/// What the reference model says of a key that is read.
#[derive(Clone, Copy, Debug, PartialEq, Eq, Structural)]
pub enum ReadExpectation {
    Live,
    Deleted,
}

impl ReadExpectation {
    /// The operation's name in metrics.
    pub fn operation(&self) -> (name: &'static str)
        ensures
            name@ == (match self {
                ReadExpectation::Live => "read_live"@,
                ReadExpectation::Deleted => "read_deleted"@,
            }),
    {
        match self {
            ReadExpectation::Live => "read_live",
            ReadExpectation::Deleted => "read_deleted",
        }
    }
}

/// Where a key is in its life.
#[derive(Clone, Copy, Debug, PartialEq, Eq, Structural)]
pub enum KeyState {
    Live,
    Deleting,
    Deleted,
}

/// What a read found.
#[derive(Clone, Copy, Debug, PartialEq, Eq, Structural)]
pub enum Sight {
    Nothing,
    /// A value; whether it is the one that was put.
    Value { intact: bool },
}

/// What came of a read.
#[derive(Clone, Copy, Debug, PartialEq, Eq, Structural)]
pub enum ReadOutcome {
    LiveHit,
    /// The key was deleted while it was read.
    DeleteRace,
    DeletedMiss,
    LivePayloadMismatch,
    LiveKeyMissing,
    DeletedKeyVisible,
}

impl ReadOutcome {
    pub open spec fn spec_is_correct(&self) -> bool {
        self is LiveHit || self is DeleteRace || self is DeletedMiss
    }

    /// Whether the store may answer so.
    pub fn is_correct(&self) -> (result: bool)
        ensures
            result == self.spec_is_correct(),
    {
        match self {
            ReadOutcome::LiveHit | ReadOutcome::DeleteRace | ReadOutcome::DeletedMiss => true,
            ReadOutcome::LivePayloadMismatch
            | ReadOutcome::LiveKeyMissing
            | ReadOutcome::DeletedKeyVisible => false,
        }
    }

    pub open spec fn spec_label(&self) -> Seq<char> {
        match self {
            ReadOutcome::LiveHit => "live_hit"@,
            ReadOutcome::DeleteRace => "delete_race"@,
            ReadOutcome::DeletedMiss => "deleted_miss"@,
            ReadOutcome::LivePayloadMismatch => "live_payload_mismatch"@,
            ReadOutcome::LiveKeyMissing => "live_key_missing"@,
            ReadOutcome::DeletedKeyVisible => "deleted_key_visible"@,
        }
    }

    /// The outcome's name in metrics.
    pub fn label(&self) -> (name: &'static str)
        ensures
            name@ == self.spec_label(),
    {
        match self {
            ReadOutcome::LiveHit => "live_hit",
            ReadOutcome::DeleteRace => "delete_race",
            ReadOutcome::DeletedMiss => "deleted_miss",
            ReadOutcome::LivePayloadMismatch => "live_payload_mismatch",
            ReadOutcome::LiveKeyMissing => "live_key_missing",
            ReadOutcome::DeletedKeyVisible => "deleted_key_visible",
        }
    }
}

/// What came of a read, from what was expected before it and the key's state after it.
pub open spec fn read_outcome(
    expectation: ReadExpectation,
    sight: Sight,
    state_after: KeyState,
) -> ReadOutcome {
    match (expectation, sight) {
        (ReadExpectation::Live, Sight::Value { intact }) => if intact {
            ReadOutcome::LiveHit
        } else {
            ReadOutcome::LivePayloadMismatch
        },
        (ReadExpectation::Live, Sight::Nothing) => if state_after == KeyState::Live {
            ReadOutcome::LiveKeyMissing
        } else {
            ReadOutcome::DeleteRace
        },
        (ReadExpectation::Deleted, Sight::Nothing) => ReadOutcome::DeletedMiss,
        (ReadExpectation::Deleted, Sight::Value { .. }) => ReadOutcome::DeletedKeyVisible,
    }
}

/// What a read found, held against the payload that was put.
pub open spec fn spec_sighted(value: Option<Vec<u8>>, expected: Seq<u8>) -> Sight {
    match value {
        None => Sight::Nothing,
        Some(value) => Sight::Value { intact: value@ == expected },
    }
}

/// What a read found, held against the payload that was put.
pub fn sighted(value: &Option<Vec<u8>>, expected: &Vec<u8>) -> (sight: Sight)
    ensures
        sight == spec_sighted(*value, expected@),
{
    match value {
        None => Sight::Nothing,
        Some(value) => Sight::Value { intact: same_bytes(value, expected) },
    }
}

pub fn judge_read(expectation: ReadExpectation, sight: Sight, state_after: KeyState) -> (outcome:
    ReadOutcome)
    ensures
        outcome == read_outcome(expectation, sight, state_after),
{
    match (expectation, sight) {
        (ReadExpectation::Live, Sight::Value { intact }) => {
            if intact {
                ReadOutcome::LiveHit
            } else {
                ReadOutcome::LivePayloadMismatch
            }
        },
        (ReadExpectation::Live, Sight::Nothing) => match state_after {
            KeyState::Live => ReadOutcome::LiveKeyMissing,
            _ => ReadOutcome::DeleteRace,
        },
        (ReadExpectation::Deleted, Sight::Nothing) => ReadOutcome::DeletedMiss,
        (ReadExpectation::Deleted, Sight::Value { .. }) => ReadOutcome::DeletedKeyVisible,
    }
}

// Deleters.

/// Whether a delete came in time.
#[derive(Clone, Copy, Debug, PartialEq, Eq, Structural)]
pub struct DeleteScore {
    pub lag: u128,
    pub timely: bool,
}

/// How late a delete was acknowledged, and whether that is within the service level.
pub fn score_delete(acknowledged_at: u128, due_at: u128, lag_slo: u128) -> (score: DeleteScore)
    ensures
        score.lag == elapsed(acknowledged_at as int, due_at as int),
        score.timely == (score.lag <= lag_slo),
{
    let lag: u128 = elapsed_since(acknowledged_at, due_at);
    DeleteScore { lag, timely: lag <= lag_slo }
}

// Epochs.

/// How many keys that expired by themselves leave the sample under one lock.
pub const NATIVE_EXPIRATION_CLEANUP_BATCH_SIZE: usize = 256;

/// What the epoch thread does next.
#[derive(Clone, Copy, Debug, PartialEq, Eq, Structural)]
pub enum EpochStep {
    /// The transition is not due, or the workload has ended.
    Wait,
    /// There is no epoch behind the current one.
    Overflow,
    /// The store moves on. Keys of the store under test that end there are detached first where
    /// it expires them by itself.
    Advance { epoch: Epoch, detach: bool },
}

/// Decides about the next transition.
pub fn epoch_step(clock: &EpochClock, now: u128, stopped: bool, engine: EngineKind) -> (step:
    EpochStep)
    ensures
        step == (if now < clock.next_transition_at || stopped {
            EpochStep::Wait
        } else if clock.current_epoch == u64::MAX {
            EpochStep::Overflow
        } else {
            EpochStep::Advance {
                epoch: (clock.current_epoch + 1) as u64,
                detach: engine == EngineKind::Strata,
            }
        }),
{
    if now < clock.next_transition_at || stopped {
        return EpochStep::Wait;
    }
    match clock.current_epoch.checked_add(1) {
        Some(epoch) => EpochStep::Advance { epoch, detach: engine == EngineKind::Strata },
        None => EpochStep::Overflow,
    }
}

/// The clock after a transition: the next one is an epoch after this one was due, or now where
/// that time cannot be told.
pub fn clock_after(clock: &EpochClock, epoch: Epoch, epoch_duration: u128, now: u128) -> (next:
    EpochClock)
    ensures
        next.current_epoch == epoch,
        next.next_transition_at == (if clock.next_transition_at + epoch_duration > u128::MAX {
            now as int
        } else {
            clock.next_transition_at + epoch_duration
        }),
{
    EpochClock {
        current_epoch: epoch,
        next_transition_at: match clock.next_transition_at.checked_add(epoch_duration) {
            Some(at) => at,
            None => now,
        },
    }
}

/// The clock at the start of a run.
pub fn starting_clock(mode: LifetimeMode, store_epoch: Option<Epoch>, now: u128, epoch_duration:
    u128) -> (clock: EpochClock)
    ensures
        clock.current_epoch == (match (mode, store_epoch) {
            (LifetimeMode::Epoch, Some(epoch)) => epoch,
            _ => DEFAULT_STARTING_EPOCH,
        }),
        clock.next_transition_at == later(now as int, epoch_duration as int),
{
    let current_epoch: Epoch = match (mode, store_epoch) {
        (LifetimeMode::Epoch, Some(epoch)) => epoch,
        _ => DEFAULT_STARTING_EPOCH,
    };
    EpochClock { current_epoch, next_transition_at: time_after(now, epoch_duration) }
}

// Workers.

/// Which threads a run starts.
#[derive(Clone, Copy, Debug, PartialEq, Eq, Structural)]
pub struct WorkerPlan {
    pub writers: usize,
    /// Writers that work at first.
    pub active_writers: usize,
    pub deleters: usize,
    pub readers: usize,
    pub epoch_advancer: bool,
    pub syncer: bool,
}

/// Which threads a configuration asks for. The store under test expires keys by itself in epoch
/// mode; a fixed put rate uses all writers from the start.
pub open spec fn worker_plan(config: &Config) -> WorkerPlan {
    WorkerPlan {
        writers: config.max_write_workers,
        active_writers: if config.put_ops_per_second == 0 {
            config.initial_write_workers
        } else {
            config.max_write_workers
        },
        deleters: if config.lifetime_mode == LifetimeMode::Retention || config.engine
            == EngineKind::BlobDb {
            config.delete_workers
        } else {
            0
        },
        readers: if config.read_ops_per_second > 0 {
            config.read_workers
        } else {
            0
        },
        epoch_advancer: config.lifetime_mode == LifetimeMode::Epoch,
        syncer: config.sync_interval != 0,
    }
}

pub fn plan_workers(config: &Config) -> (plan: WorkerPlan)
    ensures
        plan == worker_plan(config),
{
    WorkerPlan {
        writers: config.max_write_workers,
        active_writers: if config.put_ops_per_second == 0 {
            config.initial_write_workers
        } else {
            config.max_write_workers
        },
        deleters: if config.lifetime_mode == LifetimeMode::Retention || config.engine
            == EngineKind::BlobDb {
            config.delete_workers
        } else {
            0
        },
        readers: if config.read_ops_per_second > 0 {
            config.read_workers
        } else {
            0
        },
        epoch_advancer: config.lifetime_mode == LifetimeMode::Epoch,
        syncer: config.sync_interval != 0,
    }
}

/// The first failure of a run.
#[derive(Clone, Debug)]
pub struct FatalState {
    pub message: Option<String>,
}

impl Default for FatalState {
    fn default() -> (state: FatalState)
        ensures
            state.message is None,
    {
        FatalState { message: None }
    }
}

impl FatalState {
    /// Keeps the first failure; later ones are dropped.
    pub fn set(&mut self, message: String)
        ensures
            final(self).message == (match old(self).message {
                Some(first) => Some(first),
                None => Some(message),
            }),
    {
        if self.message.is_none() {
            self.message = Some(message);
        }
    }
}

// Laws.

/// A read is judged wrong exactly where the store lost, changed or revived a key: a live key that
/// is gone although nothing was deleting it, a value that was not put, or a value of a deleted
/// key.
pub proof fn law_only_wrong_answers_are_errors(
    expectation: ReadExpectation,
    sight: Sight,
    state_after: KeyState,
)
    ensures
        !read_outcome(expectation, sight, state_after).spec_is_correct() <==> {
            ||| expectation is Live && sight is Nothing && state_after is Live
            ||| expectation is Live && sight == (Sight::Value { intact: false })
            ||| expectation is Deleted && sight is Value
        },
{
}

/// In epoch mode, something retires the keys that reach their end: the store under test by itself,
/// or deleters.
pub proof fn law_every_key_is_retired(config: &Config)
    requires
        config.delete_workers > 0,
    ensures
        config.lifetime_mode == LifetimeMode::Retention ==> worker_plan(config).deleters > 0,
        config.lifetime_mode == LifetimeMode::Epoch ==> worker_plan(config).epoch_advancer,
        config.lifetime_mode == LifetimeMode::Epoch && config.engine == EngineKind::BlobDb
            ==> worker_plan(config).deleters > 0,
{
}

} // verus!
