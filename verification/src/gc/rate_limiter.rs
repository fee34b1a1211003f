//! Token bucket for background GC disk I/O.
//!
//! Time is counted in nanoseconds from a fixed origin. Tokens are counted in billionths of a byte,
//! so that one nanosecond at one byte per second adds one.

use vstd::prelude::*;

use crate::num;
use crate::num::{div_ceil_u128, min_u128, min_u64, saturating_mul_u128, NANOS_PER_SEC};

verus! {

/// The bucket's contents.
#[derive(Clone, Copy, Debug, PartialEq, Eq, Structural)]
pub struct GcIoLimiterState {
    pub bytes_per_sec: u64,
    pub burst_bytes: u64,
    pub available_scaled: u128,
    pub last_refill: u128,
}

/// What a request for bytes is answered.
#[derive(Clone, Copy, Debug, PartialEq, Eq, Structural)]
pub enum GcIoReservation {
    Acquired,
    /// Not before this many nanoseconds have passed.
    Wait(u64),
}

/// The tokens that `bytes` cost.
pub open spec fn token_cost(bytes: u64) -> int {
    bytes * 1_000_000_000
}

/// The nanoseconds in which `bytes_per_sec` adds `tokens`, rounded up to whole ones.
pub open spec fn refill_time(tokens: int, bytes_per_sec: u64) -> int {
    num::at_most(num::ceil_div(tokens, bytes_per_sec as int), u64::MAX as int)
}

impl GcIoLimiterState {
    /// The rate and the burst are not zero, and the bucket never holds more than its burst.
    pub open spec fn wf(self) -> bool {
        &&& self.bytes_per_sec > 0
        &&& self.burst_bytes > 0
        &&& self.available_scaled <= token_cost(self.burst_bytes)
    }

    /// The bucket at a later time: the rate has added tokens, up to the burst.
    pub open spec fn refilled(self, now: u128) -> GcIoLimiterState {
        if now <= self.last_refill {
            self
        } else {
            GcIoLimiterState {
                available_scaled: num::at_most(
                    self.available_scaled + (now - self.last_refill) * self.bytes_per_sec,
                    token_cost(self.burst_bytes),
                ) as u128,
                last_refill: now,
                ..self
            }
        }
    }

    /// The bucket after a request.
    pub open spec fn after_reserve(self, now: u128, bytes: u64) -> GcIoLimiterState {
        let full = self.refilled(now);
        if bytes == 0 {
            self
        } else if full.available_scaled >= token_cost(bytes) {
            GcIoLimiterState {
                available_scaled: (full.available_scaled - token_cost(bytes)) as u128,
                ..full
            }
        } else {
            full
        }
    }

    /// The answer to a request: granted where the tokens are there, else the time in which the
    /// missing ones are added.
    pub open spec fn reservation(self, now: u128, bytes: u64) -> GcIoReservation {
        let full = self.refilled(now);
        if bytes == 0 || full.available_scaled >= token_cost(bytes) {
            GcIoReservation::Acquired
        } else {
            GcIoReservation::Wait(
                refill_time(token_cost(bytes) - full.available_scaled, self.bytes_per_sec) as u64,
            )
        }
    }

    /// The bucket after its rate was changed; the burst is one second of the new rate.
    pub open spec fn with_rate(self, now: u128, bytes_per_sec: u64) -> GcIoLimiterState {
        let full = self.refilled(now);
        GcIoLimiterState {
            bytes_per_sec,
            burst_bytes: bytes_per_sec,
            available_scaled: num::at_most(
                full.available_scaled as int,
                token_cost(bytes_per_sec),
            ) as u128,
            last_refill: full.last_refill,
        }
    }

    /// A full bucket.
    pub fn new(bytes_per_sec: u64, burst_bytes: u64, now: u128) -> (state: GcIoLimiterState)
        requires
            bytes_per_sec > 0,
            burst_bytes > 0,
        ensures
            state.wf(),
            state.bytes_per_sec == bytes_per_sec,
            state.burst_bytes == burst_bytes,
            state.available_scaled == token_cost(burst_bytes),
            state.last_refill == now,
    {
        GcIoLimiterState {
            bytes_per_sec,
            burst_bytes,
            available_scaled: scaled_bytes(burst_bytes),
            last_refill: now,
        }
    }

    /// Takes `bytes` out of the bucket, or says how long to wait for them.
    pub fn reserve(&mut self, now: u128, bytes: u64) -> (answer: GcIoReservation)
        requires
            old(self).wf(),
            bytes <= old(self).burst_bytes,
        ensures
            final(self).wf(),
            *final(self) == old(self).after_reserve(now, bytes),
            answer == old(self).reservation(now, bytes),
    {
        if bytes == 0 {
            return GcIoReservation::Acquired;
        }
        self.refill(now);
        let needed: u128 = scaled_bytes(bytes);
        if self.available_scaled >= needed {
            self.available_scaled = self.available_scaled - needed;
            return GcIoReservation::Acquired;
        }
        let deficit: u128 = needed - self.available_scaled;
        GcIoReservation::Wait(duration_for_scaled_bytes(deficit, self.bytes_per_sec))
    }

    /// Adds the tokens of the time that has passed.
    pub fn refill(&mut self, now: u128)
        requires
            old(self).wf(),
        ensures
            final(self).wf(),
            *final(self) == old(self).refilled(now),
    {
        if now <= self.last_refill {
            return ;
        }
        let elapsed: u128 = now - self.last_refill;
        let added: u128 = saturating_mul_u128(elapsed, self.bytes_per_sec as u128);
        let capacity: u128 = scaled_bytes(self.burst_bytes);
        self.available_scaled = min_u128(self.available_scaled.saturating_add(added), capacity);
        self.last_refill = now;
    }

    /// Changes the rate. Tokens beyond the new burst are lost.
    pub fn set_bytes_per_sec(&mut self, now: u128, bytes_per_sec: u64)
        requires
            old(self).wf(),
            bytes_per_sec > 0,
        ensures
            final(self).wf(),
            *final(self) == old(self).with_rate(now, bytes_per_sec),
    {
        self.refill(now);
        self.bytes_per_sec = bytes_per_sec;
        self.burst_bytes = bytes_per_sec;
        self.available_scaled = min_u128(self.available_scaled, scaled_bytes(self.burst_bytes));
    }
}

/// The tokens that `bytes` cost.
pub fn scaled_bytes(bytes: u64) -> (tokens: u128)
    ensures
        tokens == token_cost(bytes),
{
    bytes as u128 * NANOS_PER_SEC
}

/// The nanoseconds in which `bytes_per_sec` adds `scaled_bytes` tokens.
pub fn duration_for_scaled_bytes(scaled_bytes: u128, bytes_per_sec: u64) -> (nanos: u64)
    requires
        bytes_per_sec > 0,
    ensures
        nanos == refill_time(scaled_bytes as int, bytes_per_sec),
{
    let nanos: u128 = div_ceil_u128(scaled_bytes, bytes_per_sec as u128);
    proof {
        num::lemma_ceil_div(scaled_bytes as int, bytes_per_sec as int);
    }
    min_u128(nanos, u64::MAX as u128) as u64
}

/// The bucket shared by every GC worker of a store, so that more workers cannot multiply the rate.
#[derive(Clone, Copy, Debug, PartialEq, Eq, Structural)]
pub struct GcIoLimiter {
    pub state: GcIoLimiterState,
}

/// How far one step of an acquisition got.
#[derive(Clone, Copy, Debug, PartialEq, Eq, Structural)]
pub struct GcIoStep {
    /// Bytes still to be acquired.
    pub remaining: u64,
    /// Nanoseconds to sleep before the next step.
    pub wait: Option<u64>,
}

impl GcIoLimiter {
    pub open spec fn wf(self) -> bool {
        self.state.wf()
    }

    /// The part of a request that is asked for at once: at most the burst.
    pub open spec fn chunk(self, remaining: u64) -> u64 {
        num::at_most(remaining as int, self.state.burst_bytes as int) as u64
    }

    /// A limiter with a burst of one second.
    pub fn new(bytes_per_sec: u64, now: u128) -> (limiter: GcIoLimiter)
        requires
            bytes_per_sec > 0,
        ensures
            limiter.wf(),
            limiter.state.bytes_per_sec == bytes_per_sec,
            limiter.state.burst_bytes == bytes_per_sec,
            limiter.state.available_scaled == token_cost(bytes_per_sec),
            limiter.state.last_refill == now,
    {
        GcIoLimiter { state: GcIoLimiterState::new(bytes_per_sec, bytes_per_sec, now) }
    }

    /// One step towards acquiring `remaining` bytes: a chunk of them is granted, or a wait is due.
    pub fn acquire_step(&mut self, now: u128, remaining: u64) -> (step: GcIoStep)
        requires
            old(self).wf(),
        ensures
            final(self).wf(),
            final(self).state == old(self).state.after_reserve(now, old(self).chunk(remaining)),
            match old(self).state.reservation(now, old(self).chunk(remaining)) {
                GcIoReservation::Acquired => step.wait is None && step.remaining == remaining - old(
                    self,
                ).chunk(remaining),
                GcIoReservation::Wait(nanos) => step.wait == Some(nanos) && step.remaining
                    == remaining,
            },
            remaining > 0 && step.wait is None ==> step.remaining < remaining,
    {
        let chunk: u64 = min_u64(remaining, self.state.burst_bytes);
        match self.state.reserve(now, chunk) {
            GcIoReservation::Acquired => GcIoStep { remaining: remaining - chunk, wait: None },
            GcIoReservation::Wait(nanos) => GcIoStep { remaining, wait: Some(nanos) },
        }
    }

    /// Changes the rate.
    pub fn set_bytes_per_sec(&mut self, now: u128, bytes_per_sec: u64)
        requires
            old(self).wf(),
            bytes_per_sec > 0,
        ensures
            final(self).wf(),
            final(self).state == old(self).state.with_rate(now, bytes_per_sec),
    {
        self.state.set_bytes_per_sec(now, bytes_per_sec);
    }
}

// Laws.

/// A caller that waits as long as it was told finds its bytes there, unless another caller took
/// tokens meanwhile.
pub proof fn law_wait_suffices(state: GcIoLimiterState, now: u128, bytes: u64, later: u128)
    requires
        state.wf(),
        bytes <= state.burst_bytes,
        state.reservation(now, bytes) is Wait,
        // The wait was not cut off at what it can hold.
        num::ceil_div(
            token_cost(bytes) - state.refilled(now).available_scaled,
            state.bytes_per_sec as int,
        ) <= u64::MAX,
        later >= state.refilled(now).last_refill + state.reservation(now, bytes)->Wait_0,
    ensures
        state.after_reserve(now, bytes).reservation(later, bytes) == GcIoReservation::Acquired,
{
    let full = state.refilled(now);
    let rate = state.bytes_per_sec as int;
    let missing = token_cost(bytes) - full.available_scaled;
    num::lemma_ceil_div(missing, rate);
    let wait = num::ceil_div(missing, rate);
    assert((later - full.last_refill) * rate >= wait * rate) by (nonlinear_arith)
        requires
            later - full.last_refill >= wait,
            rate > 0,
    ;
    if later <= full.last_refill {
        assert(wait == 0);
        assert(wait * rate == 0) by (nonlinear_arith)
            requires
                wait == 0,
        ;
    }
}

/// A caller is never told to wait longer than needed: a nanosecond earlier its bytes are not
/// there.
pub proof fn law_wait_is_needed(state: GcIoLimiterState, now: u128, bytes: u64, earlier: u128)
    requires
        state.wf(),
        bytes <= state.burst_bytes,
        state.reservation(now, bytes) is Wait,
        earlier < state.refilled(now).last_refill + state.reservation(now, bytes)->Wait_0,
    ensures
        state.after_reserve(now, bytes).reservation(earlier, bytes) is Wait,
{
    let full = state.refilled(now);
    let rate = state.bytes_per_sec as int;
    let missing = token_cost(bytes) - full.available_scaled;
    num::lemma_ceil_div(missing, rate);
    let wait = num::ceil_div(missing, rate);
    let span = earlier - full.last_refill;
    if earlier > full.last_refill {
        assert(span * rate <= (wait - 1) * rate) by (nonlinear_arith)
            requires
                span <= wait - 1,
                rate > 0,
        ;
        assert((wait - 1) * rate == wait * rate - rate) by (nonlinear_arith);
        assert(span * rate < missing);
    }
}

/// The tokens that a request takes.
pub open spec fn granted(state: GcIoLimiterState, now: u128, bytes: u64) -> int {
    if state.reservation(now, bytes) is Acquired {
        token_cost(bytes)
    } else {
        0
    }
}

/// The state after a series of requests.
pub open spec fn after_all(state: GcIoLimiterState, requests: Seq<(u128, u64)>) -> GcIoLimiterState
    decreases requests.len(),
{
    if requests.len() == 0 {
        state
    } else {
        after_all(state, requests.drop_last()).after_reserve(requests.last().0, requests.last().1)
    }
}

/// The tokens that a series of requests takes.
pub open spec fn granted_to_all(state: GcIoLimiterState, requests: Seq<(u128, u64)>) -> int
    decreases requests.len(),
{
    if requests.len() == 0 {
        0
    } else {
        granted_to_all(state, requests.drop_last()) + granted(
            after_all(state, requests.drop_last()),
            requests.last().0,
            requests.last().1,
        )
    }
}

/// However many callers ask, and whenever, they are granted no more than what the bucket held and
/// what its rate added meanwhile.
pub proof fn law_rate_is_kept(state: GcIoLimiterState, requests: Seq<(u128, u64)>)
    requires
        state.wf(),
        forall|i: int|
            0 <= i < requests.len() ==> (#[trigger] requests[i]).1 <= state.burst_bytes,
    ensures
        ({
            let after = after_all(state, requests);
            &&& after.wf()
            &&& after.bytes_per_sec == state.bytes_per_sec
            &&& after.burst_bytes == state.burst_bytes
            &&& after.last_refill >= state.last_refill
            &&& granted_to_all(state, requests) + after.available_scaled <= state.available_scaled
                + (after.last_refill - state.last_refill) * state.bytes_per_sec
        }),
    decreases requests.len(),
{
    let rate = state.bytes_per_sec as int;
    if requests.len() == 0 {
        assert((state.last_refill - state.last_refill) * rate == 0) by (nonlinear_arith);
    } else {
        let init = requests.drop_last();
        assert forall|i: int| 0 <= i < init.len() implies (#[trigger] init[i]).1
            <= state.burst_bytes by {
            assert(init[i] == requests[i]);
        }
        law_rate_is_kept(state, init);
        let between = after_all(state, init);
        let (now, bytes) = requests[requests.len() - 1];
        let full = between.refilled(now);
        let after = between.after_reserve(now, bytes);
        if now > between.last_refill {
            assert((now - between.last_refill) * rate + (between.last_refill - state.last_refill)
                * rate == (now - state.last_refill) * rate) by (nonlinear_arith);
            assert((now - between.last_refill) * rate >= 0) by (nonlinear_arith)
                requires
                    now > between.last_refill,
                    rate > 0,
            ;
        }
    }
}

/// Refilling twice is refilling once, at the later time.
pub proof fn law_refills_add_up(state: GcIoLimiterState, sooner: u128, later: u128)
    requires
        state.wf(),
        sooner <= later,
    ensures
        state.refilled(sooner).refilled(later) == state.refilled(later),
{
    if state.last_refill < sooner && sooner < later {
        let rate = state.bytes_per_sec as int;
        let first = sooner - state.last_refill;
        let second = later - sooner;
        assert((first + second) * rate == first * rate + second * rate) by (nonlinear_arith);
        assert(first * rate >= 0 && second * rate >= 0) by (nonlinear_arith)
            requires
                first >= 0,
                second >= 0,
                rate >= 0,
        ;
    }
}

} // verus!
