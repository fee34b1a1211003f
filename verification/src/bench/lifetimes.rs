//! Keys, payloads and how long keys live. Times and spans of time are in nanoseconds.

use vstd::prelude::*;

use crate::bench::config::Config;
use crate::bench::random;
use crate::bench::random::{splitmix64, SplitMix64};
use crate::double;
use crate::double::{Double, Number, LEAST};
use crate::num;
use crate::num::DURATION_MAX_NANOS;
use crate::types::Epoch;

verus! {

/// What all keys begin with: `realistic-key-`.
pub open spec fn key_prefix() -> Seq<u8> {
    seq![
        0x72u8,
        0x65,
        0x61,
        0x6c,
        0x69,
        0x73,
        0x74,
        0x69,
        0x63,
        0x2d,
        0x6b,
        0x65,
        0x79,
        0x2d,
    ]
}

/// The ASCII code of a digit.
pub open spec fn digit_byte(value: int) -> u8 {
    (0x30 + value) as u8
}

/// A number in decimal, as ASCII.
pub open spec fn decimal_bytes(value: int) -> Seq<u8>
    decreases value,
{
    if value < 10 {
        seq![digit_byte(value)]
    } else {
        decimal_bytes(value / 10).push(digit_byte(value % 10))
    }
}

pub fn push_decimal(bytes: &mut Vec<u8>, value: u64)
    ensures
        final(bytes)@ == old(bytes)@ + decimal_bytes(value as int),
    decreases value,
{
    let ghost before = bytes@;
    if value < 10 {
        bytes.push(0x30 + value as u8);
    } else {
        push_decimal(bytes, value / 10);
        bytes.push(0x30 + (value % 10) as u8);
    }
    assert(bytes@ =~= before + decimal_bytes(value as int));
}

/// The ASCII code of a hexadecimal digit.
pub open spec fn hex_byte(value: int) -> u8 {
    if value < 10 {
        (0x30 + value) as u8
    } else {
        (0x61 + value - 10) as u8
    }
}

/// The last `places` hexadecimal digits of a number, as ASCII.
pub open spec fn hex_bytes(value: int, places: nat) -> Seq<u8>
    decreases places,
{
    if places == 0 {
        Seq::empty()
    } else {
        hex_bytes(value / 16, (places - 1) as nat).push(hex_byte(value % 16))
    }
}

fn push_hex(bytes: &mut Vec<u8>, value: u64, places: u8)
    ensures
        final(bytes)@ == old(bytes)@ + hex_bytes(value as int, places as nat),
    decreases places,
{
    let ghost before = bytes@;
    if places > 0 {
        push_hex(bytes, value / 16, places - 1);
        let digit: u8 = (value % 16) as u8;
        bytes.push(
            if digit < 10 {
                0x30 + digit
            } else {
                0x61 + (digit - 10)
            },
        );
    }
    assert(bytes@ =~= before + hex_bytes(value as int, places as nat));
}

/// The key of an id.
pub open spec fn key_of(id: u64, hashed: bool) -> Seq<u8> {
    key_prefix() + (if hashed {
        hex_bytes(random::spec_splitmix64(id) as int, 16)
    } else {
        decimal_bytes(id as int)
    })
}

/// The key of an id: in the order of ids, or spread over the key space.
///
/// Sequential keys sort in id order, so a memtable flush overlaps only the newest base file.
/// Hashed keys sort like blob ids: every flush spans the whole key space.
pub fn make_key(id: u64, hashed: bool) -> (key: Vec<u8>)
    ensures
        key@ == key_of(id, hashed),
{
    let mut bytes: Vec<u8> = vec![
        0x72,
        0x65,
        0x61,
        0x6c,
        0x69,
        0x73,
        0x74,
        0x69,
        0x63,
        0x2d,
        0x6b,
        0x65,
        0x79,
        0x2d,
    ];
    assert(bytes@ =~= key_prefix());
    if hashed {
        push_hex(&mut bytes, splitmix64(id), 16);
    } else {
        push_decimal(&mut bytes, id);
    }
    bytes
}

/// The payload of every put: a pattern that repeats after 251 bytes.
pub fn make_payload(size: usize) -> (payload: Vec<u8>)
    ensures
        payload@.len() == size,
        forall|i: int| 0 <= i < size ==> #[trigger] payload@[i] == i % 251,
{
    let mut payload: Vec<u8> = Vec::new();
    let mut i: usize = 0;
    while i < size
        invariant
            i <= size,
            payload@.len() == i,
            forall|k: int| 0 <= k < i ==> #[trigger] payload@[k] == k % 251,
        decreases size - i,
    {
        payload.push((i % 251) as u8);
        i = i + 1;
    }
    payload
}

/// The number that decides about one key's lifetime.
pub open spec fn lifetime_draw(seed: u64, key_id: u64) -> u64 {
    random::spec_splitmix64(seed.wrapping_add(key_id.wrapping_mul(random::GAMMA)))
}

fn draw_lifetime(seed: u64, key_id: u64) -> (draw: u64)
    ensures
        draw == lifetime_draw(seed, key_id),
{
    let mut rng: SplitMix64 = SplitMix64::new(
        seed.wrapping_add(key_id.wrapping_mul(random::GAMMA)),
    );
    rng.next_u64()
}

/// How far a draw lies from the middle, as a share of the half-width: from the lower half down to
/// minus one, from the upper half up to one. The share is exact; its sign is told by the half.
pub open spec fn jitter_unit(step: int) -> Number {
    double::nearest(
        (if step >= LEAST {
            step - LEAST
        } else {
            LEAST - step
        }) as nat,
        LEAST as nat,
    )
}

/// How far a draw moves a retention, as a share of it.
pub open spec fn jitter_share(percent: nat, step: int) -> Number {
    jitter_unit(step).times(double::nearest(percent, 1)).over(double::nearest(100, 1))
}

/// One more or less a share; never less than nothing.
pub open spec fn one_moved(up: bool, share: Number) -> Number {
    let one = double::nearest(1, 1);
    if up {
        one.plus(share)
    } else if share.le(one) {
        one.minus(share)
    } else {
        double::nearest(0, 1)
    }
}

/// What a retention is multiplied by.
pub open spec fn jitter_factor(percent: nat, step: int) -> Number {
    one_moved(step >= LEAST, jitter_share(percent, step))
}

/// A span times a factor, where that is still a span.
pub open spec fn stretched(span: nat, factor: Number) -> Option<nat> {
    double::nanos_of(factor.times(double::seconds_of(span)))
}

/// A retention with its jitter.
pub open spec fn jittered(retention: nat, percent: nat, step: int) -> Option<nat> {
    if percent == 0 {
        Some(retention)
    } else {
        stretched(retention, jitter_factor(percent, step))
    }
}

/// The step of a draw: its upper 53 bits.
pub open spec fn jitter_step(draw: u64) -> u64 {
    draw >> 11
}

/// The retention one key gets, where it is still a span.
pub open spec fn key_retention(config: Config, key_id: u64) -> Option<nat> {
    jittered(
        config.retention as nat,
        config.retention_jitter_percent as nat,
        jitter_step(lifetime_draw(config.lifetime_seed, key_id)) as int,
    )
}

/// The retention one key gets: the configured retention, widened by a uniform jitter of up to
/// `retention_jitter_percent` either way, drawn from the lifetime seed and the key id so a run is
/// reproducible. Without jitter every key is deleted in write order and whole segments die
/// together; with it, deletion order decorrelates from write order and segments become partially
/// dead. Nothing where the product is no span of time.
pub fn checked_retention(config: &Config, key_id: u64) -> (retention: Option<u128>)
    requires
        config.retention <= DURATION_MAX_NANOS,
    ensures
        match retention {
            Some(retention) => key_retention(*config, key_id) == Some(retention as nat),
            None => key_retention(*config, key_id) is None,
        },
{
    if config.retention_jitter_percent == 0 {
        return Some(config.retention);
    }
    let draw: u64 = draw_lifetime(config.lifetime_seed, key_id);
    let step: u64 = draw >> 11;
    assert(step < 9_007_199_254_740_992) by (bit_vector)
        requires
            step == draw >> 11,
    ;
    let up: bool = step >= LEAST;
    let away: u64 = if up {
        step - LEAST
    } else {
        LEAST - step
    };
    proof {
        double::lemma_nearest(100, 1);
        double::lemma_nearest(1, 1);
    }
    let unit: Double = Double::of_ratio(away as u128, LEAST as u128);
    let percent: Double = Double::of_int(config.retention_jitter_percent);
    let share: Double = unit.times(percent).over(Double::of_int(100));
    let one: Double = Double::of_int(1);
    let factor: Double = if up {
        one.plus(share)
    } else if share.at_most(one) {
        one.minus(share)
    } else {
        Double::zero()
    };
    factor.times(Double::of_nanos(config.retention)).nanos()
}

/// The retention one key gets, of a configuration whose retention is still a span when it is
/// widened.
pub fn jittered_retention(config: &Config, key_id: u64) -> (retention: u128)
    requires
        config.retention <= DURATION_MAX_NANOS,
        key_retention(*config, key_id) is Some,
    ensures
        key_retention(*config, key_id) == Some(retention as nat),
{
    match checked_retention(config, key_id) {
        Some(retention) => retention,
        None => config.retention,
    }
}

/// When a key that is put now ends.
#[derive(Clone, Copy, Debug, PartialEq, Eq, Structural)]
pub struct LifetimeAssignment {
    /// Epochs from now.
    pub offset: Epoch,
    pub logical_end_epoch: Epoch,
    pub due_at: u128,
}

/// The epoch, and when the next one begins.
#[derive(Clone, Copy, Debug, PartialEq, Eq, Structural)]
pub struct EpochClock {
    pub current_epoch: Epoch,
    pub next_transition_at: u128,
}

/// How many offsets there are to draw from.
pub open spec fn offset_count(config: &Config) -> int {
    num::at_least(config.future_epochs - config.min_future_epoch_offset, 0) + 1
}

/// The offset of a key: uniform over the window.
pub open spec fn offset_of(config: &Config, key_id: u64) -> int {
    config.min_future_epoch_offset + lifetime_draw(config.lifetime_seed, key_id) as int
        % offset_count(config)
}

/// When an offset is over: so many whole epochs after the next transition, or at that transition
/// where the time cannot be told.
pub open spec fn due_after(clock: EpochClock, epoch_duration: int, offset: int) -> int {
    let later = epoch_duration * num::at_least(offset - 1, 0);
    if later > DURATION_MAX_NANOS || clock.next_transition_at + later > u128::MAX {
        clock.next_transition_at as int
    } else {
        clock.next_transition_at + later
    }
}

impl EpochClock {
    /// The lifetime of a key that is put now.
    pub fn assignment(&self, key_id: u64, config: &Config) -> (lifetime: LifetimeAssignment)
        requires
            num::at_least(
                config.future_epochs as int,
                config.min_future_epoch_offset as int,
            ) <= 4_294_967_296,
        ensures
            lifetime.offset == offset_of(config, key_id),
            lifetime.logical_end_epoch == num::at_most(
                self.current_epoch + lifetime.offset,
                u64::MAX as int,
            ),
            lifetime.due_at == due_after(
                *self,
                config.epoch_duration as int,
                lifetime.offset as int,
            ),
    {
        let draw: u64 = draw_lifetime(config.lifetime_seed, key_id);
        let count: u64 = if config.future_epochs > config.min_future_epoch_offset {
            config.future_epochs - config.min_future_epoch_offset + 1
        } else {
            1
        };
        let offset: u64 = config.min_future_epoch_offset + draw % count;
        let logical_end_epoch: u64 = self.current_epoch.saturating_add(offset);
        let intervals: u128 = if offset > 1 {
            (offset - 1) as u128
        } else {
            0
        };
        let due_at: u128 = match config.epoch_duration.checked_mul(intervals) {
            Some(later) => {
                if later > DURATION_MAX_NANOS {
                    self.next_transition_at
                } else {
                    match self.next_transition_at.checked_add(later) {
                        Some(due_at) => due_at,
                        None => self.next_transition_at,
                    }
                }
            },
            None => self.next_transition_at,
        };
        LifetimeAssignment { offset, logical_end_epoch, due_at }
    }
}

/// How often each offset was drawn.
#[derive(Clone, Debug)]
pub struct LifetimeOffsetCounts {
    /// The first is for offset one.
    pub counts: Vec<u64>,
}

impl LifetimeOffsetCounts {
    pub fn new(future_epochs: usize) -> (counts: LifetimeOffsetCounts)
        ensures
            counts.counts@ == Seq::new(future_epochs as nat, |i: int| 0u64),
    {
        let mut counts: Vec<u64> = Vec::new();
        let mut i: usize = 0;
        while i < future_epochs
            invariant
                i <= future_epochs,
                counts@ == Seq::new(i as nat, |i: int| 0u64),
            decreases future_epochs - i,
        {
            counts.push(0);
            i = i + 1;
            assert(counts@ =~= Seq::new(i as nat, |i: int| 0u64));
        }
        LifetimeOffsetCounts { counts }
    }

    /// Counts an offset; one outside the window is not counted.
    pub fn record(&mut self, offset: Epoch)
        ensures
            final(self).counts@ == (if 1 <= offset <= old(self).counts@.len() {
                old(self).counts@.update(
                    offset - 1,
                    old(self).counts@[offset - 1].wrapping_add(1),
                )
            } else {
                old(self).counts@
            }),
    {
        if offset >= 1 && offset - 1 < self.counts.len() as u64 {
            let at: usize = (offset - 1) as usize;
            let count: u64 = self.counts[at].wrapping_add(1);
            self.counts.set(at, count);
        }
    }

    pub fn snapshot(&self) -> (counts: Vec<u64>)
        ensures
            counts@ == self.counts@,
    {
        let counts: Vec<u64> = self.counts.clone();
        assert(counts@ =~= self.counts@);
        counts
    }
}

// Laws.

/// Jitter is bounded by the configured half-width: a retention lies between the configured one
/// times one less the half-width and times one more the half-width, as far as those are spans; and
/// zero jitter leaves the retention untouched.
pub proof fn law_jitter_is_bounded(retention: nat, percent: nat, draw: u64)
    requires
        percent <= 100,
    ensures
        ({
            let half_width = double::nearest(percent, 1).over(double::nearest(100, 1));
            let least = stretched(retention, one_moved(false, half_width));
            let most = stretched(retention, one_moved(true, half_width));
            let drawn = jittered(retention, percent, jitter_step(draw) as int);
            percent > 0 && most is Some ==> drawn is Some && least is Some && least->Some_0
                <= drawn->Some_0 <= most->Some_0
        }),
        jittered(retention, 0, jitter_step(draw) as int) == Some(retention),
{
    let step = jitter_step(draw);
    assert(step < 9_007_199_254_740_992) by (bit_vector)
        requires
            step == draw >> 11,
    ;
    let one = double::nearest(1, 1);
    let zero = double::nearest(0, 1);
    let hundred = double::nearest(100, 1);
    let asked = double::nearest(percent, 1);
    let unit = jitter_unit(step as int);
    let half_width = asked.over(hundred);
    let share = jitter_share(percent, step as int);
    let away = (if step >= LEAST {
        step - LEAST
    } else {
        LEAST - step
    }) as nat;
    double::lemma_nearest_wf(1, 1);
    double::lemma_nearest_wf(0, 1);
    double::lemma_nearest_wf(100, 1);
    double::lemma_nearest_wf(percent, 1);
    double::lemma_nearest_wf(away, LEAST as nat);
    double::lemma_nearest(1, 1);
    double::lemma_nearest(100, 1);
    // The unit is at most one, so the share is at most the half-width, and that at most one.
    double::lemma_ordered(away, LEAST as nat, 1, 1);
    double::lemma_times_le(unit, one, asked);
    double::lemma_times_one(asked);
    double::lemma_over_le(unit.times(asked), asked, hundred);
    double::lemma_ordered(percent, 1, 100, 1);
    double::lemma_over_le(asked, hundred, hundred);
    double::lemma_over_itself(hundred);
    // So the factor lies between the two extremes.
    let least = one_moved(false, half_width);
    let most = one_moved(true, half_width);
    let factor = jitter_factor(percent, step as int);
    double::lemma_plus_le(one, zero, share);
    double::lemma_plus_le(one, share, half_width);
    double::lemma_plus_zero(one);
    double::lemma_minus_le(one, share, half_width);
    double::lemma_minus_le(one, zero, share);
    double::lemma_minus_le(one, zero, half_width);
    double::lemma_plus_le(one, half_width, half_width);
    assert(least.le(factor) && factor.le(most));
    // And so do the products, and their nanoseconds.
    let seconds = double::seconds_of(retention);
    double::lemma_times_le(least, factor, seconds);
    double::lemma_times_le(factor, most, seconds);
    double::lemma_times_le(most, most, seconds);
    double::lemma_nanos_le(factor.times(seconds), most.times(seconds));
    double::lemma_nanos_le(least.times(seconds), factor.times(seconds));
}

/// A lifetime lies in the configured window, and it is over no earlier than the next transition.
pub proof fn law_lifetimes_lie_in_the_window(clock: EpochClock, config: &Config, key_id: u64)
    requires
        1 <= config.min_future_epoch_offset <= config.future_epochs,
    ensures
        config.min_future_epoch_offset <= offset_of(config, key_id) <= config.future_epochs,
        due_after(clock, config.epoch_duration as int, offset_of(config, key_id))
            >= clock.next_transition_at,
{
    let draw = lifetime_draw(config.lifetime_seed, key_id) as int;
    vstd::arithmetic::div_mod::lemma_mod_bound(draw, offset_count(config));
    let offset = offset_of(config, key_id);
    assert(config.epoch_duration * num::at_least(offset - 1, 0) >= 0) by (nonlinear_arith)
        requires
            num::at_least(offset - 1, 0) >= 0,
    ;
}

/// Different ids have different keys, in sequential order and spread over the key space.
pub proof fn law_keys_differ(a: u64, b: u64, hashed: bool)
    requires
        a != b,
    ensures
        key_of(a, hashed) != key_of(b, hashed),
{
    if key_of(a, hashed) == key_of(b, hashed) {
        if hashed {
            let x = random::spec_splitmix64(a);
            let y = random::spec_splitmix64(b);
            assert(hex_bytes(x as int, 16) =~= key_of(a, hashed).skip(14));
            assert(hex_bytes(y as int, 16) =~= key_of(b, hashed).skip(14));
            assert(x < sixteens(16) && y < sixteens(16)) by {
                reveal_with_fuel(sixteens, 17);
            }
            lemma_hex_injective(x as int, y as int, 16);
            random::law_first_numbers_differ(a, b);
        } else {
            assert(decimal_bytes(a as int) =~= key_of(a, hashed).skip(14));
            assert(decimal_bytes(b as int) =~= key_of(b, hashed).skip(14));
            lemma_decimal_injective(a as int, b as int);
        }
    }
}

spec fn sixteens(places: nat) -> int
    decreases places,
{
    if places == 0 {
        1
    } else {
        16 * sixteens((places - 1) as nat)
    }
}

proof fn lemma_hex_injective(a: int, b: int, places: nat)
    requires
        0 <= a < sixteens(places),
        0 <= b < sixteens(places),
        hex_bytes(a, places) == hex_bytes(b, places),
    ensures
        a == b,
    decreases places,
{
    if places > 0 {
        let x = hex_bytes(a, places);
        let y = hex_bytes(b, places);
        assert(x.last() == hex_byte(a % 16) && y.last() == hex_byte(b % 16));
        assert(x.drop_last() =~= hex_bytes(a / 16, (places - 1) as nat));
        assert(y.drop_last() =~= hex_bytes(b / 16, (places - 1) as nat));
        lemma_hex_injective(a / 16, b / 16, (places - 1) as nat);
    }
}

proof fn lemma_decimal_len(value: int)
    ensures
        decimal_bytes(value).len() >= 1,
        value >= 10 ==> decimal_bytes(value).len() >= 2,
    decreases value,
{
    if value >= 10 {
        lemma_decimal_len(value / 10);
    }
}

pub proof fn lemma_decimal_injective(a: int, b: int)
    requires
        a >= 0,
        b >= 0,
        decimal_bytes(a) == decimal_bytes(b),
    ensures
        a == b,
    decreases a,
{
    lemma_decimal_len(a);
    lemma_decimal_len(b);
    let x = decimal_bytes(a);
    let y = decimal_bytes(b);
    assert(x.last() == digit_byte(a % 10) && y.last() == digit_byte(b % 10));
    if a >= 10 {
        assert(b >= 10);
        assert(x.drop_last() =~= decimal_bytes(a / 10));
        assert(y.drop_last() =~= decimal_bytes(b / 10));
        lemma_decimal_injective(a / 10, b / 10);
    }
}

} // verus!
