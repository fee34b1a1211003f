//! What a run promises of its keys, its clocks, its latencies and its load.

use vstd::prelude::*;

use super::config::{Config, EngineKind, LifetimeMode};
use super::control;
use super::control::{ControllerDebounce, HealthReport};
use super::http;
use super::latency;
use super::latency::Latency;
use super::lifetimes;
use super::lifetimes::EpochClock;
use super::profile;
use super::profile::{MovedKey, PassCounts, ReadPass};
use super::records::KeyRecord;
use super::space;
use super::space::{EntryKind, SpaceSnapshot};
use super::workload;
use super::workload::{KeyState, ReadExpectation, ReadOutcome, Sight};
use crate::double;
use crate::keys;
use crate::num;
use crate::sorting;
use crate::types::{Epoch, SegmentId};

verus! {

// Keys.

/// Keys begin with the words that mark them.
pub proof fn law_keys_are_marked(at: int)
    requires
        0 <= at < 14,
    ensures
        lifetimes::key_prefix().len() == 14,
        lifetimes::key_prefix()[at] == "realistic-key-"@[at] as u8,
{
    reveal_strlit("realistic-key-");
}

/// A number is written in decimal without leading zeros: one more digit is ten times as much and
/// the digit.
pub proof fn law_numbers_are_written_in_decimal(value: int, digit: int)
    requires
        0 <= value,
        0 <= digit < 10,
    ensures
        lifetimes::decimal_bytes(digit) == seq![('0' as int + digit) as u8],
        value > 0 ==> lifetimes::decimal_bytes(10 * value + digit) == lifetimes::decimal_bytes(
            value,
        ).push(('0' as int + digit) as u8),
{
}

/// A hash is written in a fixed number of lower-case hexadecimal digits: one more digit is sixteen
/// times as much and the digit.
pub proof fn law_hashes_are_written_in_hexadecimal(value: int, digit: int, places: nat)
    requires
        0 <= value,
        0 <= digit < 16,
    ensures
        lifetimes::hex_bytes(value, 0) == Seq::<u8>::empty(),
        lifetimes::hex_bytes(16 * value + digit, places + 1) == lifetimes::hex_bytes(
            value,
            places,
        ).push(
            if digit < 10 {
                ('0' as int + digit) as u8
            } else {
                ('a' as int + digit - 10) as u8
            },
        ),
{
}

/// A key is the mark and the number, or the mark and the number's hash in sixteen digits.
pub proof fn law_keys_name_their_number(id: u64)
    ensures
        lifetimes::key_of(id, false) == lifetimes::key_prefix() + lifetimes::decimal_bytes(
            id as int,
        ),
        lifetimes::key_of(id, true) == lifetimes::key_prefix() + lifetimes::hex_bytes(
            super::random::spec_splitmix64(id) as int,
            16,
        ),
{
}

// Lifetimes.

/// Offsets go round: they start at the least and take up the draw modulo the number of offsets,
/// which is one where the window is empty.
pub proof fn law_offsets_go_round(config: &Config, key_id: u64)
    ensures
        ({
            let least = config.min_future_epoch_offset as int;
            let most = config.future_epochs as int;
            let count = if most > least {
                most - least + 1
            } else {
                1
            };
            let offset = lifetimes::offset_of(config, key_id);
            let draw = lifetimes::lifetime_draw(config.lifetime_seed, key_id) as int;
            &&& least <= offset < least + count
            &&& (draw - (offset - least)) % count == 0
        }),
{
    let least = config.min_future_epoch_offset as int;
    let count = lifetimes::offset_count(config);
    let draw = lifetimes::lifetime_draw(config.lifetime_seed, key_id) as int;
    let rest = draw % count;
    assert((draw - rest) % count == 0) by {
        vstd::arithmetic::div_mod::lemma_fundamental_div_mod(draw, count);
        vstd::arithmetic::div_mod::lemma_mod_multiples_basic(draw / count, count);
        assert(draw - rest == (draw / count) * count) by (nonlinear_arith)
            requires
                draw == count * (draw / count) + rest,
        ;
    }
}

/// A lifetime of one epoch is due at the next transition, and each further epoch one duration later.
pub proof fn law_epochs_come_due_one_by_one(clock: EpochClock, duration: int, offset: int)
    requires
        offset >= 1,
        duration >= 0,
        duration * offset <= num::DURATION_MAX_NANOS,
        clock.next_transition_at + duration * offset <= u128::MAX,
    ensures
        lifetimes::due_after(clock, duration, 0) == clock.next_transition_at,
        lifetimes::due_after(clock, duration, 1) == clock.next_transition_at,
        lifetimes::due_after(clock, duration, offset + 1) - lifetimes::due_after(
            clock,
            duration,
            offset,
        ) == duration,
{
    assert(duration * offset == duration * (offset - 1) + duration) by (nonlinear_arith);
    assert(duration * 0 == 0);
    assert(duration * (offset + 1 - 1) == duration * offset);
}

/// A draw further up never shortens a retention, and without jitter no draw changes it.
pub proof fn law_draws_stretch_in_order(retention: nat, percent: nat, lower: int, upper: int)
    requires
        0 < percent <= 100,
        0 <= lower <= upper < 9_007_199_254_740_992,
    ensures
        ({
            let less = lifetimes::jittered(retention, percent, lower);
            let more = lifetimes::jittered(retention, percent, upper);
            more is Some ==> less is Some && less->Some_0 <= more->Some_0
        }),
        lifetimes::jittered(retention, 0, lower) == Some(retention),
{
    let a = lifetimes::jitter_factor(percent, lower);
    let b = lifetimes::jitter_factor(percent, upper);
    lemma_factor(percent, lower);
    lemma_factor(percent, upper);
    let one = double::nearest(1, 1);
    let s = lifetimes::jitter_share(percent, lower);
    let t = lifetimes::jitter_share(percent, upper);
    if lower >= double::LEAST {
        lemma_shares_ordered(percent, lower - double::LEAST, upper - double::LEAST);
        double::lemma_plus_le(one, s, t);
    } else if upper < double::LEAST {
        lemma_shares_ordered(percent, double::LEAST - upper, double::LEAST - lower);
        double::lemma_minus_le(one, t, s);
    }
    assert(a.le(b));
    let seconds = double::seconds_of(retention);
    double::lemma_times_le(a, b, seconds);
    double::lemma_times_le(b, b, seconds);
    double::lemma_nanos_le(a.times(seconds), b.times(seconds));
}

/// Jitter of `percent` at a distance of `away` from the middle.
spec fn share_at(percent: nat, away: int) -> double::Number {
    double::nearest(away as nat, double::LEAST as nat).times(double::nearest(percent, 1)).over(
        double::nearest(100, 1),
    )
}

proof fn lemma_shares_ordered(percent: nat, near: int, far: int)
    requires
        0 <= near <= far,
    ensures
        share_at(percent, near).le(share_at(percent, far)),
        share_at(percent, near).wf() && share_at(percent, far).wf(),
{
    let least = double::LEAST as nat;
    let asked = double::nearest(percent, 1);
    let hundred = double::nearest(100, 1);
    double::lemma_nearest(100, 1);
    double::lemma_nearest_wf(near as nat, least);
    double::lemma_nearest_wf(far as nat, least);
    assert(near * least <= far * least) by (nonlinear_arith)
        requires
            near <= far,
            least > 0,
    ;
    double::lemma_ordered(near as nat, least, far as nat, least);
    double::lemma_times_le(double::nearest(near as nat, least), double::nearest(far as nat, least), asked);
    double::lemma_times_le(double::nearest(far as nat, least), double::nearest(far as nat, least), asked);
    double::lemma_over_le(
        double::nearest(near as nat, least).times(asked),
        double::nearest(far as nat, least).times(asked),
        hundred,
    );
    double::lemma_over_le(
        double::nearest(far as nat, least).times(asked),
        double::nearest(far as nat, least).times(asked),
        hundred,
    );
}

proof fn lemma_factor(percent: nat, step: int)
    requires
        percent <= 100,
        0 <= step < 9_007_199_254_740_992,
    ensures
        ({
            let one = double::nearest(1, 1);
            let share = lifetimes::jitter_share(percent, step);
            let factor = lifetimes::jitter_factor(percent, step);
            &&& one.wf() && share.wf() && factor.wf()
            &&& share.le(one)
            &&& step >= double::LEAST ==> factor == one.plus(share) && one.le(factor)
            &&& step < double::LEAST ==> factor == one.minus(share) && factor.le(one)
        }),
{
    let least = double::LEAST as nat;
    let one = double::nearest(1, 1);
    let zero = double::nearest(0, 1);
    let asked = double::nearest(percent, 1);
    let hundred = double::nearest(100, 1);
    let away = if step >= double::LEAST {
        step - double::LEAST
    } else {
        double::LEAST - step
    };
    let unit = double::nearest(away as nat, least);
    let share = share_at(percent, away);
    double::lemma_nearest_wf(1, 1);
    double::lemma_nearest_wf(0, 1);
    double::lemma_nearest_wf(percent, 1);
    double::lemma_nearest_wf(100, 1);
    double::lemma_nearest_wf(away as nat, least);
    double::lemma_nearest(1, 1);
    double::lemma_nearest(100, 1);
    double::lemma_ordered(away as nat, least, 1, 1);
    double::lemma_times_le(unit, one, asked);
    double::lemma_times_one(asked);
    double::lemma_over_le(unit.times(asked), asked, hundred);
    double::lemma_ordered(percent, 1, 100, 1);
    double::lemma_over_le(asked, hundred, hundred);
    double::lemma_over_itself(hundred);
    lemma_shares_ordered(percent, away, away);
    assert(share.le(one));
    double::lemma_plus_zero(one);
    double::lemma_plus_le(one, zero, share);
    double::lemma_plus_le(one, share, share);
    double::lemma_minus_le(one, zero, share);
}

/// A share above one takes all of it away.
pub proof fn law_no_factor_is_negative(share: double::Number)
    requires
        !share.le(double::nearest(1, 1)),
    ensures
        lifetimes::one_moved(false, share) == double::nearest(0, 1),
{
}

// Times.

/// A time later adds its span where that can be told, and stays where it cannot; what has passed is
/// never negative.
pub proof fn law_times_add_up(at: int, span: int)
    requires
        0 <= at <= u128::MAX,
        0 <= span,
    ensures
        at + span <= u128::MAX ==> workload::later(at, span) == at + span
            && workload::elapsed(workload::later(at, span), at) == span,
        at + span > u128::MAX ==> workload::later(at, span) == at,
        workload::elapsed(at, at + span) == 0,
{
}

/// Operations come as often as asked: so many intervals fit in a second, and no more; an interval is
/// never empty.
pub proof fn law_intervals_fill_a_second(rate: int)
    requires
        rate > 0,
    ensures
        workload::interval_of(rate) >= 1,
        rate <= 1_000_000_000 ==> rate * workload::interval_of(rate) <= 1_000_000_000 < rate * (
        workload::interval_of(rate) + 1),
        rate > 1_000_000_000 ==> workload::interval_of(rate) == 1,
{
    let whole = 1_000_000_000int / rate;
    assert(rate * whole <= 1_000_000_000 < rate * (whole + 1)) by (nonlinear_arith)
        requires
            rate > 0,
            whole == 1_000_000_000int / rate,
    ;
    if rate <= 1_000_000_000 {
        assert(whole >= 1) by (nonlinear_arith)
            requires
                0 < rate <= 1_000_000_000,
                1_000_000_000 < rate * (whole + 1),
        ;
    } else {
        assert(whole == 0) by (nonlinear_arith)
            requires
                rate > 1_000_000_000,
                rate * whole <= 1_000_000_000 < rate * (whole + 1),
        ;
    }
}

// Reads.

/// Each read is judged by what it expected and saw: a live key that is gone is missing only if it is
/// live still.
pub proof fn law_reads_are_judged_by_what_they_saw(after: KeyState, intact: bool)
    ensures
        workload::read_outcome(ReadExpectation::Live, Sight::Value { intact: true }, after)
            == ReadOutcome::LiveHit,
        workload::read_outcome(ReadExpectation::Live, Sight::Value { intact: false }, after)
            == ReadOutcome::LivePayloadMismatch,
        workload::read_outcome(ReadExpectation::Live, Sight::Nothing, KeyState::Live)
            == ReadOutcome::LiveKeyMissing,
        after != KeyState::Live ==> workload::read_outcome(
            ReadExpectation::Live,
            Sight::Nothing,
            after,
        ) == ReadOutcome::DeleteRace,
        workload::read_outcome(ReadExpectation::Deleted, Sight::Nothing, after)
            == ReadOutcome::DeletedMiss,
        workload::read_outcome(ReadExpectation::Deleted, Sight::Value { intact }, after)
            == ReadOutcome::DeletedKeyVisible,
{
}

/// A read value is intact exactly where it is what was written.
pub proof fn law_values_are_intact_or_not(value: Vec<u8>, expected: Seq<u8>)
    ensures
        workload::spec_sighted(None, expected) == Sight::Nothing,
        value@ == expected ==> workload::spec_sighted(Some(value), expected) == (Sight::Value {
            intact: true,
        }),
        value@ != expected ==> workload::spec_sighted(Some(value), expected) == (Sight::Value {
            intact: false,
        }),
{
}

/// Outcomes are labelled by what they are.
pub proof fn law_outcomes_are_labelled()
    ensures
        ReadOutcome::LiveHit.spec_label() == "live_hit"@,
        ReadOutcome::DeleteRace.spec_label() == "delete_race"@,
        ReadOutcome::DeletedMiss.spec_label() == "deleted_miss"@,
        ReadOutcome::LivePayloadMismatch.spec_label() == "live_payload_mismatch"@,
        ReadOutcome::LiveKeyMissing.spec_label() == "live_key_missing"@,
        ReadOutcome::DeletedKeyVisible.spec_label() == "deleted_key_visible"@,
{
}

/// Writers are all started, and all active where puts are paced. Deleters run where keys have a
/// retention or the store cannot expire them, readers where reads are asked for, an epoch advancer
/// where lifetimes are epochs, a syncer where syncs are.
pub proof fn law_workers_follow_the_mode(config: &Config)
    ensures
        ({
            let plan = workload::worker_plan(config);
            let deletes = config.lifetime_mode == LifetimeMode::Retention || config.engine
                == EngineKind::BlobDb;
            &&& plan.writers == config.max_write_workers
            &&& config.put_ops_per_second == 0 ==> plan.active_writers
                == config.initial_write_workers
            &&& config.put_ops_per_second > 0 ==> plan.active_writers == config.max_write_workers
            &&& deletes ==> plan.deleters == config.delete_workers
            &&& !deletes ==> plan.deleters == 0
            &&& config.read_ops_per_second > 0 ==> plan.readers == config.read_workers
            &&& config.read_ops_per_second == 0 ==> plan.readers == 0
            &&& plan.epoch_advancer <==> config.lifetime_mode == LifetimeMode::Epoch
            &&& plan.syncer <==> config.sync_interval > 0
        }),
{
}

// Records of keys.

/// Records come in the order of their due time, and of their keys among equals.
pub proof fn law_records_come_due_in_order(a: KeyRecord, b: KeyRecord)
    ensures
        a.due_at < b.due_at ==> a.before(b) && !b.before(a),
        a.due_at == b.due_at ==> a.before(b) == keys::key_before(a.key@, b.key@),
        a.alike(b) <==> a.due_at == b.due_at && a.key@ == b.key@,
{
}

/// A key is due once its time has come and, where it has an end epoch, the epoch has reached it.
pub proof fn law_keys_come_due(record: KeyRecord, now: u128, epoch: Epoch)
    ensures
        now < record.due_at ==> !record.spec_is_due(now, Some(epoch)) && !record.spec_is_due(
            now,
            None,
        ),
        now >= record.due_at && record.logical_end_epoch is None ==> record.spec_is_due(
            now,
            Some(epoch),
        ) && record.spec_is_due(now, None) && !record.spec_has_ended(epoch),
        record.logical_end_epoch matches Some(end) ==> {
            &&& !record.spec_is_due(now, None)
            &&& now >= record.due_at ==> (record.spec_is_due(now, Some(epoch)) <==> epoch >= end)
            &&& record.spec_has_ended(epoch) <==> epoch >= end
        },
{
}

// Latencies.

/// A latency counts its whole microseconds.
pub proof fn law_latencies_count_whole_microseconds(nanos: int)
    requires
        0 <= nanos,
    ensures
        latency::micros_of(nanos) <= u64::MAX,
        nanos < 1_000 * (u64::MAX + 1) ==> 1_000 * latency::micros_of(nanos) <= nanos < 1_000 * (
        latency::micros_of(nanos) + 1),
        nanos >= 1_000 * u64::MAX ==> latency::micros_of(nanos) == u64::MAX,
{
}

/// Buckets go from ten microseconds to an hour, and the last holds everything.
pub proof fn law_buckets_go_up_to_an_hour(bucket: int)
    ensures
        ({
            let bounds: Seq<u64> = seq![
                10,
                25,
                50,
                100,
                250,
                500,
                1_000,
                2_000,
                5_000,
                10_000,
                20_000,
                50_000,
                100_000,
                250_000,
                500_000,
                1_000_000,
                2_000_000,
                5_000_000,
                10_000_000,
                20_000_000,
                30_000_000,
                60_000_000,
                120_000_000,
                300_000_000,
                600_000_000,
                1_200_000_000,
                3_600_000_000,
                u64::MAX,
            ];
            &&& latency::BUCKETS == bounds.len()
            &&& 0 <= bucket < 28 ==> latency::latency_bound(bucket) == bounds[bucket]
            &&& 0 < bucket < 28 ==> latency::latency_bound(bucket - 1) < latency::latency_bound(
                bucket,
            )
        }),
{
}

/// A quantile is the bound of the first bucket that, with those before it, holds so many samples as
/// are asked for, one at least; the last bucket stands for the mean. Without samples it is zero.
pub proof fn law_quantiles_are_reached(latency: Latency, percent: nat, bucket: int)
    requires
        latency.wf(),
        0 <= bucket < 28,
    ensures
        latency.count == 0 ==> latency.spec_quantile(percent) == 0,
        ({
            let asked = double::share_of(latency.count as nat, percent);
            let target = if asked < 1 {
                1
            } else {
                asked
            };
            let before = latency::held(latency.buckets@, bucket as nat);
            let upto = latency::held(latency.buckets@, (bucket + 1) as nat);
            &&& upto == before + latency.buckets@[bucket]
            &&& latency::held(latency.buckets@, 0) == 0
            &&& latency.count > 0 && before < target <= upto && bucket < 27
                ==> latency.spec_quantile(percent) == 1_000 * latency::latency_bound(bucket)
            &&& latency.count > 0 && before < target <= upto && bucket == 27
                ==> latency.spec_quantile(percent) == 1_000 * (latency.sum_micros as int
                / latency.count as int)
        }),
{
    let target = latency::quantile_target(latency.count as nat, percent);
    let before = latency::held(latency.buckets@, bucket as nat);
    if before < target && target <= latency::held(latency.buckets@, (bucket + 1) as nat) {
        lemma_reaching(latency.buckets@, 0, bucket, target);
    }
}

proof fn lemma_reaching(buckets: Seq<u64>, from: int, at: int, target: int)
    requires
        0 <= from <= at < 28,
        latency::held(buckets, at as nat) < target <= latency::held(buckets, (at + 1) as nat),
    ensures
        latency::bucket_reaching(buckets, from, target) == Some(at),
    decreases at - from,
{
    if from < at {
        lemma_held_grows(buckets, (from + 1) as nat, at as nat);
        lemma_reaching(buckets, from + 1, at, target);
    }
}

proof fn lemma_held_grows(buckets: Seq<u64>, fewer: nat, more: nat)
    requires
        fewer <= more,
    ensures
        latency::held(buckets, fewer) <= latency::held(buckets, more),
    decreases more,
{
    if fewer < more {
        lemma_held_grows(buckets, fewer, (more - 1) as nat);
    }
}

// Load.

/// The window's ninety-ninth percentile is one of its latencies: of the sorted ones that which the
/// share falls on, the first at least and the last at most. Without reads it is zero.
pub proof fn law_percentiles_are_observed(latencies: Seq<u64>)
    ensures
        control::p99_of(Seq::empty()) == 0,
        latencies.len() > 0 ==> {
            let ordered = sorting::in_order(latencies);
            let share = double::share_of(latencies.len(), 99);
            &&& share < 1 ==> control::p99_of(latencies) == 1_000 * ordered[0]
            &&& 1 <= share <= latencies.len() ==> control::p99_of(latencies) == 1_000
                * ordered[share - 1]
            &&& share > latencies.len() ==> control::p99_of(latencies) == 1_000 * ordered.last()
            &&& ordered.len() == latencies.len() && sorting::is_ordered(ordered)
        },
{
    sorting::law_sorted(latencies);
}

/// A window is healthy where no obligation was violated.
pub proof fn law_any_violation_is_unhealthy(report: HealthReport)
    ensures
        report.spec_healthy() <==> forall|i: int|
            0 <= i < report.spec_obligations().len() ==> !(#[trigger] report.spec_obligations()[i]).1,
        report.spec_obligations().len() == 7,
        report.low_read_rate ==> !report.spec_healthy(),
        report.high_read_latency ==> !report.spec_healthy(),
        report.overdue_deletes ==> !report.spec_healthy(),
        report.read_errors ==> !report.spec_healthy(),
        report.correctness_errors ==> !report.spec_healthy(),
        report.put_errors ==> !report.spec_healthy(),
        report.delete_errors ==> !report.spec_healthy(),
{
    let all = report.spec_obligations();
    assert(all[0].1 == report.low_read_rate && all[1].1 == report.high_read_latency && all[2].1
        == report.overdue_deletes && all[3].1 == report.read_errors && all[4].1
        == report.correctness_errors && all[5].1 == report.put_errors && all[6].1
        == report.delete_errors);
}

/// A healthy load grows by its percentage, rounded up, one writer at least; an unhealthy one shrinks
/// to what its percentage leaves, rounded down; both within their bounds.
pub proof fn law_load_moves_by_its_percentage(
    current: int,
    minimum: int,
    maximum: int,
    increase: int,
    decrease: int,
)
    requires
        0 <= current,
        0 <= minimum <= maximum,
        0 <= increase,
        0 <= decrease <= 100,
    ensures
        ({
            let more = control::writers_after(current, true, minimum, maximum, increase, decrease);
            let fewer = control::writers_after(current, false, minimum, maximum, increase, decrease);
            let grown = current * increase;
            let kept = current * (100 - decrease);
            &&& minimum <= more <= maximum && minimum <= fewer <= maximum
            &&& minimum < more < maximum && more > current + 1 ==> 100 * (more - current) >= grown
                > 100 * (more - current - 1)
            &&& minimum < more < maximum && grown <= 100 ==> more == current + 1
            &&& more == maximum && maximum > minimum && maximum > current + 1 ==> grown > 100 * (
            maximum - current - 1)
            &&& more == minimum && minimum < maximum && minimum > current + 1 ==> grown <= 100 * (
            minimum - current)
            &&& minimum < fewer < maximum ==> 100 * fewer <= kept < 100 * (fewer + 1)
            &&& fewer == maximum && maximum > minimum ==> kept >= 100 * maximum
            &&& fewer == minimum && minimum < maximum ==> kept < 100 * (minimum + 1)
        }),
{
    assert(current * increase >= 0) by (nonlinear_arith)
        requires
            current >= 0,
            increase >= 0,
    ;
}

/// A window like the last one lengthens the streak, and another starts a new one.
pub proof fn law_streaks_count_like_windows(debounce: ControllerDebounce, healthy: bool)
    ensures
        debounce.observed(healthy).last_healthy == Some(healthy),
        debounce.last_healthy == Some(healthy) && debounce.streak_windows < usize::MAX
            ==> debounce.observed(healthy).streak_windows == debounce.streak_windows + 1,
        debounce.last_healthy != Some(healthy) ==> debounce.observed(healthy).streak_windows == 1,
        ControllerDebounce::fresh().streak_windows == 0,
        ControllerDebounce::fresh().last_healthy is None,
{
}

/// Metrics are asked for by a request that begins with their method and path.
pub proof fn law_metrics_are_asked_for_by_path(request: Seq<u8>, at: int)
    requires
        0 <= at < 13,
    ensures
        http::metrics_request().len() == 13,
        http::metrics_request()[at] == "GET /metrics "@[at] as u8,
        http::asks_for_metrics(request) ==> request.len() >= 13 && request[at]
            == "GET /metrics "@[at] as u8,
        request.len() >= 13 && request.take(13) == http::metrics_request()
            ==> http::asks_for_metrics(request),
{
    reveal_strlit("GET /metrics ");
    if request.len() >= 13 && request.take(13) == http::metrics_request() {
        assert(request.subrange(0, 13) =~= request.take(13));
    }
}

// Relocation profile.

/// A moved key is listed once, under its first move.
pub proof fn law_first_moves_count(moved: Seq<MovedKey>, batch: Seq<MovedKey>, next: MovedKey)
    ensures
        profile::with_moves(moved, Seq::empty()) == moved,
        ({
            let before = profile::with_moves(moved, batch);
            let seen = exists|i: int| 0 <= i < before.len() && (#[trigger] before[i]).key@ == next.key@;
            &&& seen ==> profile::with_moves(moved, batch.push(next)) == before
            &&& !seen ==> profile::with_moves(moved, batch.push(next)) == before.push(next)
        }),
{
    assert(batch.push(next).drop_last() =~= batch);
}

/// Stale are the first moved keys, up to the limit, whose source is deleted.
pub proof fn law_keys_of_deleted_sources_are_stale(
    moved: Seq<MovedKey>,
    next: MovedKey,
    deleted: Seq<SegmentId>,
    limit: int,
)
    ensures
        profile::stale_keys(Seq::empty(), deleted, limit).len() == 0,
        ({
            let before = profile::stale_keys(moved, deleted, limit);
            let after = profile::stale_keys(moved.push(next), deleted, limit);
            let stale = exists|i: int| 0 <= i < deleted.len() && deleted[i] == next.source;
            &&& stale && before.len() < limit ==> after == before.push(next.key)
            &&& !stale || before.len() >= limit ==> after == before
        }),
{
    assert(moved.push(next).drop_last() =~= moved);
    if exists|i: int| 0 <= i < deleted.len() && deleted[i] == next.source {
        let i = choose|i: int| 0 <= i < deleted.len() && deleted[i] == next.source;
        assert(deleted.contains(deleted[i]));
    }
}

/// A cold pass looks every key up and caches none of them before, a warm one finds every key in the
/// cache, and a healed one needs neither.
pub proof fn law_passes_read_as_expected(keys: u64)
    ensures
        profile::expected_counts(ReadPass::Cold, keys) == profile::expected_counts(
            ReadPass::BlockWarm,
            keys,
        ),
        profile::expected_counts(ReadPass::Cold, keys) == (PassCounts {
            lookup_hits: keys,
            lookup_misses: 0,
            lookup_errors: 0,
            cache_hits: 0,
            cache_misses: keys,
        }),
        profile::expected_counts(ReadPass::CacheWarm, keys) == (PassCounts {
            lookup_hits: 0,
            lookup_misses: 0,
            lookup_errors: 0,
            cache_hits: keys,
            cache_misses: 0,
        }),
        profile::expected_counts(ReadPass::Healed, keys) == (PassCounts {
            lookup_hits: 0,
            lookup_misses: 0,
            lookup_errors: 0,
            cache_hits: 0,
            cache_misses: 0,
        }),
        ReadPass::Cold.spec_name() == "cold"@,
        ReadPass::BlockWarm.spec_name() == "block_warm"@,
        ReadPass::CacheWarm.spec_name() == "cache_warm"@,
        ReadPass::Healed.spec_name() == "healed"@,
{
}

// Space.

/// A path's components are what lies between its slashes, without empty ones and single dots.
pub proof fn law_paths_split_at_slashes(head: Seq<char>, rest: Seq<char>)
    requires
        forall|i: int| 0 <= i < head.len() ==> #[trigger] head[i] != '/',
    ensures
        ({
            let counts = head.len() > 0 && head != seq!['.'];
            &&& counts ==> space::components(head) == seq![head]
            &&& !counts ==> space::components(head) == Seq::<Seq<char>>::empty()
            &&& space::components(head + seq!['/'] + rest) == space::components(head)
                + space::components(rest)
        }),
{
    lemma_slash_behind(head, Seq::empty());
    assert(head + Seq::<char>::empty() =~= head);
    assert(head.take(head.len() as int) =~= head);
    let whole = head + seq!['/'] + rest;
    assert(whole =~= head + (seq!['/'] + rest));
    lemma_slash_behind(head, seq!['/'] + rest);
    assert(whole.take(head.len() as int) =~= head);
    assert(whole.skip(head.len() as int + 1) =~= rest);
    assert(space::components(head) + space::components(rest) =~= space::components(whole));
}

proof fn lemma_slash_behind(head: Seq<char>, rest: Seq<char>)
    requires
        forall|i: int| 0 <= i < head.len() ==> #[trigger] head[i] != '/',
        rest.len() > 0 ==> rest[0] == '/',
    ensures
        space::slash(head + rest) == head.len(),
    decreases head.len(),
{
    let whole = head + rest;
    if head.len() > 0 {
        assert(whole[0] == head[0]);
        let tail = head.skip(1);
        assert forall|i: int| 0 <= i < tail.len() implies #[trigger] tail[i] != '/' by {
            assert(tail[i] == head[i + 1]);
        }
        lemma_slash_behind(tail, rest);
        assert(whole.skip(1) =~= tail + rest);
    } else if rest.len() > 0 {
        assert(whole[0] == rest[0]);
    }
}

/// An extension is what follows the last dot of the last component, unless that begins with it.
pub proof fn law_extensions_follow_the_last_dot(path: Seq<char>, stem: Seq<char>, end: Seq<char>)
    requires
        space::components(path).len() > 0,
        forall|i: int| 0 <= i < end.len() ==> #[trigger] end[i] != '.',
    ensures
        space::components(path).last() == stem + seq!['.'] + end && stem.len() > 0 && (stem
            != seq!['.'] || end.len() > 0) ==> space::extension_of(path) == Some(end),
        space::components(path).last() == seq!['.'] + end ==> space::extension_of(path) is None,
        space::components(path).last() == end ==> space::extension_of(path) is None,
{
    let last = space::components(path).last();
    if last == stem + seq!['.'] + end {
        assert(last =~= (stem + seq!['.']) + end);
        lemma_last_dot(stem + seq!['.'], end);
        assert((stem + seq!['.']).drop_last() =~= stem);
        assert((stem + seq!['.']).last() == '.');
        assert(last.skip(stem.len() as int + 1) =~= end);
        if stem.len() > 0 && (stem != seq!['.'] || end.len() > 0) {
            assert(last != seq!['.', '.']) by {
                if last == seq!['.', '.'] {
                    assert(last.len() == 2);
                    assert(stem.len() == 1 && end.len() == 0);
                    assert(stem[0] == last[0]);
                    assert(stem =~= seq!['.']);
                }
            }
        }
    }
    if last == seq!['.'] + end {
        lemma_last_dot(seq!['.'], end);
        assert(seq!['.'].last() == '.');
    }
    if last == end {
        lemma_last_dot(Seq::empty(), end);
        assert(Seq::<char>::empty() + end =~= end);
    }
}

proof fn lemma_last_dot(front: Seq<char>, end: Seq<char>)
    requires
        forall|i: int| 0 <= i < end.len() ==> #[trigger] end[i] != '.',
    ensures
        space::last_dot(front + end) == space::last_dot(front),
    decreases end.len(),
{
    if end.len() > 0 {
        let init = end.drop_last();
        assert forall|i: int| 0 <= i < init.len() implies #[trigger] init[i] != '.' by {
            assert(init[i] == end[i]);
        }
        lemma_last_dot(front, init);
        assert((front + end).drop_last() =~= front + init);
        assert((front + end).last() == end[end.len() - 1]);
    } else {
        assert(front + end =~= front);
    }
}

/// Files are told apart by their extension, tables also by where they lie.
pub proof fn law_files_are_told_apart(path: Seq<char>)
    ensures
        ({
            let found = space::spec_storage_file_type(path);
            let of_store = exists|i: int|
                0 <= i < space::components(path).len() && (#[trigger] space::components(path)[i]
                    == "lsm"@ || space::components(path)[i] == "relocations"@);
            &&& space::extension_of(path) is None ==> found is None
            &&& space::extension_of(path) == Some("data"@) ==> found == Some(0usize)
            &&& space::extension_of(path) == Some("sst"@) && of_store ==> found == Some(1usize)
            &&& space::extension_of(path) == Some("sst"@) && !of_store ==> found == Some(2usize)
            &&& space::extension_of(path) == Some("blob"@) ==> found == Some(3usize)
            &&& found is Some ==> space::extension_of(path) == Some("data"@)
                || space::extension_of(path) == Some("sst"@) || space::extension_of(path) == Some(
                "blob"@,
            )
        }),
{
    reveal_strlit("data");
    reveal_strlit("sst");
    reveal_strlit("blob");
    assert("data"@[0] != "sst"@[0] && "data"@[0] != "blob"@[0] && "sst"@[0] != "blob"@[0]);
    let parts = space::components(path);
    if exists|i: int| 0 <= i < parts.len() && (#[trigger] parts[i] == "lsm"@ || parts[i]
        == "relocations"@) {
        let i = choose|i: int|
            0 <= i < parts.len() && (#[trigger] parts[i] == "lsm"@ || parts[i] == "relocations"@);
        assert(parts.contains(parts[i]));
    }
}

/// Every entry adds its length and its blocks; only a file counts as one and adds its length to its
/// type; segment files also count by where they lie; an epoch's directory counts as such.
pub proof fn law_entries_add_their_size(
    snapshot: SpaceSnapshot,
    path: Seq<char>,
    kind: EntryKind,
    len: u64,
    blocks: u64,
)
    requires
        snapshot.apparent_bytes + len <= u64::MAX,
        snapshot.allocated_bytes + blocks * 512 <= u64::MAX,
        snapshot.files < u64::MAX,
        snapshot.segment_bytes + len <= u64::MAX,
        snapshot.strata_lsm_table_bytes + len <= u64::MAX,
        snapshot.rocksdb_sst_bytes + len <= u64::MAX,
        snapshot.rocksdb_blob_bytes + len <= u64::MAX,
        snapshot.strata_exact_epoch_bytes + len <= u64::MAX,
        snapshot.strata_spillover_bytes + len <= u64::MAX,
        snapshot.strata_epoch_directories < u64::MAX,
    ensures
        ({
            let after = snapshot.with_entry(path, kind, len, blocks);
            let parts = space::components(path);
            let file = kind == EntryKind::File;
            let found = space::spec_storage_file_type(path);
            let added = |here: bool|
                if here {
                    len as int
                } else {
                    0
                };
            let data = file && space::extension_of(path) == Some("data"@);
            let epoch = exists|i: int|
                0 <= i < parts.len() && space::is_epoch_name(#[trigger] parts[i]);
            let spilled = parts.contains("spillover"@);
            &&& after.apparent_bytes == snapshot.apparent_bytes + len
            &&& after.allocated_bytes == snapshot.allocated_bytes + 512 * blocks
            &&& after.files == snapshot.files + (if file {
                1int
            } else {
                0
            })
            &&& after.segment_bytes == snapshot.segment_bytes + added(file && found == Some(0usize))
            &&& after.strata_lsm_table_bytes == snapshot.strata_lsm_table_bytes + added(
                file && found == Some(1usize),
            )
            &&& after.rocksdb_sst_bytes == snapshot.rocksdb_sst_bytes + added(
                file && found == Some(2usize),
            )
            &&& after.rocksdb_blob_bytes == snapshot.rocksdb_blob_bytes + added(
                file && found == Some(3usize),
            )
            &&& after.strata_exact_epoch_bytes == snapshot.strata_exact_epoch_bytes + added(
                data && epoch,
            )
            &&& after.strata_spillover_bytes == snapshot.strata_spillover_bytes + added(
                data && !epoch && spilled,
            )
            &&& after.strata_epoch_directories == snapshot.strata_epoch_directories + (if kind
                == EntryKind::Directory && parts.len() > 0 && space::is_epoch_name(parts.last()) {
                1int
            } else {
                0
            })
            &&& after.filesystem_available_bytes == snapshot.filesystem_available_bytes
            &&& after.filesystem_total_bytes == snapshot.filesystem_total_bytes
        }),
{
}

/// A snapshot starts without anything counted.
pub proof fn law_a_snapshot_starts_empty()
    ensures
        ({
            let snapshot = SpaceSnapshot::empty();
            &&& snapshot.apparent_bytes == 0 && snapshot.allocated_bytes == 0 && snapshot.files == 0
            &&& snapshot.filesystem_available_bytes == 0 && snapshot.filesystem_total_bytes == 0
            &&& snapshot.segment_bytes == 0 && snapshot.strata_lsm_table_bytes == 0
            &&& snapshot.rocksdb_sst_bytes == 0 && snapshot.rocksdb_blob_bytes == 0
            &&& snapshot.strata_exact_epoch_bytes == 0 && snapshot.strata_spillover_bytes == 0
            &&& snapshot.strata_epoch_directories == 0
        }),
{
}

/// An epoch's directory is named after it.
pub proof fn law_epochs_are_named(name: Seq<char>)
    ensures
        space::is_epoch_name("epoch-"@ + name),
        space::is_epoch_name(name) ==> name == "epoch-"@ + name.skip(6),
{
    reveal_strlit("epoch-");
    assert(("epoch-"@ + name).take(6) =~= seq!['e', 'p', 'o', 'c', 'h', '-']);
    if space::is_epoch_name(name) {
        assert("epoch-"@ =~= name.take(6));
        assert(name =~= name.take(6) + name.skip(6));
    }
}

} // verus!
