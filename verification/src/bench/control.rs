//! Control of the write load: additive increase while all obligations hold, multiplicative decrease
//! while one does not. Spans of time are in nanoseconds.

use vstd::prelude::*;

use crate::bench::config::Config;
use crate::bench::latency;
use crate::bench::latency::whole_micros;
use crate::double;
use crate::double::Double;
use crate::num;
use crate::num::{max_usize, min_u128, min_usize};
use crate::sorting;
use crate::sorting::{sort, Precedes};

verus! {

impl Precedes for u64 {
    open spec fn precedes(self, other: u64) -> bool {
        self < other
    }

    proof fn order_is_weak(a: u64, b: u64, c: u64) {
    }

    fn comes_before(&self, other: &u64) -> bool {
        *self < *other
    }
}

/// What happened since the controller last looked.
#[derive(Clone, Debug)]
pub struct ControlWindow {
    pub read_latencies_us: Vec<u64>,
    pub read_ops: u64,
    pub read_errors: u64,
    pub correctness_errors: u64,
    pub put_errors: u64,
    pub delete_errors: u64,
}

impl Default for ControlWindow {
    fn default() -> (window: ControlWindow)
        ensures
            window.read_latencies_us@ == Seq::<u64>::empty(),
            window.read_ops == 0,
            window.read_errors == 0,
            window.correctness_errors == 0,
            window.put_errors == 0,
            window.delete_errors == 0,
    {
        ControlWindow {
            read_latencies_us: Vec::new(),
            read_ops: 0,
            read_errors: 0,
            correctness_errors: 0,
            put_errors: 0,
            delete_errors: 0,
        }
    }
}

/// The place, among so many in order, of the one that 99 percent do not exceed.
pub open spec fn p99_place(len: nat) -> int {
    num::at_most(num::at_least(double::share_of(len, 99) - 1, 0), len - 1)
}

/// The latency that 99 percent do not exceed, in nanoseconds.
pub open spec fn p99_of(latencies_us: Seq<u64>) -> int {
    if latencies_us.len() == 0 {
        0
    } else {
        sorting::in_order(latencies_us)[p99_place(latencies_us.len())] * 1_000
    }
}

impl ControlWindow {
    pub fn record_read(&mut self, elapsed: u128)
        ensures
            final(self).read_latencies_us@ == old(self).read_latencies_us@.push(
                latency::micros_of(elapsed as int) as u64,
            ),
            final(self).read_ops == num::at_most(old(self).read_ops + 1, u64::MAX as int),
            final(self).read_errors == old(self).read_errors,
            final(self).correctness_errors == old(self).correctness_errors,
            final(self).put_errors == old(self).put_errors,
            final(self).delete_errors == old(self).delete_errors,
    {
        self.read_ops = self.read_ops.saturating_add(1);
        self.read_latencies_us.push(whole_micros(elapsed));
    }

    /// The read latency that 99 percent of the window do not exceed.
    pub fn p99(&self) -> (nanos: u128)
        ensures
            nanos == p99_of(self.read_latencies_us@),
    {
        let len: usize = self.read_latencies_us.len();
        if len == 0 {
            return 0;
        }
        let mut ordered: Vec<u64> = self.read_latencies_us.clone();
        assert(ordered@ =~= self.read_latencies_us@);
        sort(&mut ordered);
        proof {
            sorting::law_sorted(self.read_latencies_us@);
        }
        let share: u64 = Double::share(len as u64, 99);
        let index: usize = num::min_u64(share.saturating_sub(1), (len - 1) as u64) as usize;
        ordered[index] as u128 * 1_000
    }
}

/// Which obligations a window broke.
#[derive(Clone, Copy, Debug, PartialEq, Eq, Structural)]
pub struct HealthReport {
    pub low_read_rate: bool,
    pub high_read_latency: bool,
    pub overdue_deletes: bool,
    pub read_errors: bool,
    pub correctness_errors: bool,
    pub put_errors: bool,
    pub delete_errors: bool,
}

impl HealthReport {
    pub open spec fn spec_healthy(&self) -> bool {
        !(self.low_read_rate || self.high_read_latency || self.overdue_deletes || self.read_errors
            || self.correctness_errors || self.put_errors || self.delete_errors)
    }

    /// Whether no obligation was broken.
    pub fn healthy(&self) -> (result: bool)
        ensures
            result == self.spec_healthy(),
    {
        !(self.low_read_rate || self.high_read_latency || self.overdue_deletes || self.read_errors
            || self.correctness_errors || self.put_errors || self.delete_errors)
    }

    /// The name of each obligation, with whether it was broken.
    pub open spec fn spec_obligations(&self) -> Seq<(&'static str, bool)> {
        seq![
            ("low_read_rate", self.low_read_rate),
            ("high_read_latency", self.high_read_latency),
            ("overdue_deletes", self.overdue_deletes),
            ("read_errors", self.read_errors),
            ("correctness_errors", self.correctness_errors),
            ("put_errors", self.put_errors),
            ("delete_errors", self.delete_errors),
        ]
    }

    /// The name of each obligation, with whether it was broken.
    pub fn obligations(&self) -> (result: Vec<(&'static str, bool)>)
        ensures
            result@ == self.spec_obligations(),
    {
        let result: Vec<(&'static str, bool)> = vec![
            ("low_read_rate", self.low_read_rate),
            ("high_read_latency", self.high_read_latency),
            ("overdue_deletes", self.overdue_deletes),
            ("read_errors", self.read_errors),
            ("correctness_errors", self.correctness_errors),
            ("put_errors", self.put_errors),
            ("delete_errors", self.delete_errors),
        ];
        assert(result@ =~= self.spec_obligations());
        result
    }
}

/// What a window says about the obligations. Whether reads fell short of their rate is judged by
/// the caller.
pub fn assess_window(
    window: &ControlWindow,
    low_read_rate: bool,
    read_p99: u128,
    read_p99_slo: u128,
    matured_overdue_keys: u64,
) -> (report: HealthReport)
    ensures
        report == (HealthReport {
            low_read_rate,
            high_read_latency: read_p99 > read_p99_slo,
            overdue_deletes: matured_overdue_keys != 0,
            read_errors: window.read_errors != 0,
            correctness_errors: window.correctness_errors != 0,
            put_errors: window.put_errors != 0,
            delete_errors: window.delete_errors != 0,
        }),
{
    HealthReport {
        low_read_rate,
        high_read_latency: read_p99 > read_p99_slo,
        overdue_deletes: matured_overdue_keys != 0,
        read_errors: window.read_errors != 0,
        correctness_errors: window.correctness_errors != 0,
        put_errors: window.put_errors != 0,
        delete_errors: window.delete_errors != 0,
    }
}

/// Counts consecutive windows of equal health.
#[derive(Clone, Copy, Debug, PartialEq, Eq, Structural)]
pub struct ControllerDebounce {
    pub last_healthy: Option<bool>,
    pub streak_windows: usize,
}

impl Default for ControllerDebounce {
    fn default() -> (debounce: ControllerDebounce)
        ensures
            debounce == ControllerDebounce::fresh(),
    {
        ControllerDebounce { last_healthy: None, streak_windows: 0 }
    }
}

impl ControllerDebounce {
    pub open spec fn fresh() -> ControllerDebounce {
        ControllerDebounce { last_healthy: None, streak_windows: 0 }
    }

    /// After one more window.
    pub open spec fn observed(self, healthy: bool) -> ControllerDebounce {
        ControllerDebounce {
            last_healthy: Some(healthy),
            streak_windows: if self.last_healthy == Some(healthy) {
                num::at_most(self.streak_windows + 1, usize::MAX as int) as usize
            } else {
                1
            },
        }
    }

    /// Takes one more window in; whether there were enough of equal health to act.
    pub fn observe(&mut self, healthy: bool, required_windows: usize) -> (enough: bool)
        ensures
            *final(self) == old(self).observed(healthy),
            enough == (final(self).streak_windows >= required_windows),
    {
        let same: bool = match self.last_healthy {
            Some(last) => last == healthy,
            None => false,
        };
        if same {
            self.streak_windows = self.streak_windows.saturating_add(1);
        } else {
            self.last_healthy = Some(healthy);
            self.streak_windows = 1;
        }
        self.streak_windows >= required_windows
    }

    /// Starts counting anew.
    pub fn reset_streak(&mut self)
        ensures
            *final(self) == (ControllerDebounce { streak_windows: 0, ..*old(self) }),
    {
        self.streak_windows = 0;
    }
}

/// `value` within its bounds.
pub open spec fn clamped(value: int, minimum: int, maximum: int) -> int {
    num::at_most(num::at_least(value, minimum), maximum)
}

/// The number of writers after a decision.
pub open spec fn writers_after(
    current: int,
    healthy: bool,
    minimum: int,
    maximum: int,
    increase_percent: int,
    decrease_percent: int,
) -> int {
    if healthy {
        let step = num::at_least(num::ceil_div(current * increase_percent, 100), 1);
        clamped(current + step, minimum, maximum)
    } else {
        let kept = num::at_least(100 - decrease_percent, 0);
        clamped((current * kept) / 100, minimum, maximum)
    }
}

/// The number of writers after a decision: more by a share of the current number, at least one,
/// or fewer by a share of it; always within bounds.
pub fn next_writer_count(
    current: usize,
    healthy: bool,
    minimum: usize,
    maximum: usize,
    increase_percent: u64,
    decrease_percent: u64,
) -> (next: usize)
    requires
        minimum <= maximum,
    ensures
        next == writers_after(
            current as int,
            healthy,
            minimum as int,
            maximum as int,
            increase_percent as int,
            decrease_percent as int,
        ),
{
    if healthy {
        assert(0 <= current * increase_percent <= u64::MAX * u64::MAX) by (nonlinear_arith)
            requires
                0 <= current <= u64::MAX,
                0 <= increase_percent <= u64::MAX,
        ;
        let share: u128 = num::div_ceil_u128(current as u128 * increase_percent as u128, 100);
        let step: usize = max_usize(min_u128(share, usize::MAX as u128) as usize, 1);
        min_usize(max_usize(current.saturating_add(step), minimum), maximum)
    } else {
        let kept: u64 = if decrease_percent > 100 {
            0
        } else {
            100 - decrease_percent
        };
        assert(0 <= current * kept <= current * 100) by (nonlinear_arith)
            requires
                0 <= current,
                0 <= kept <= 100,
        ;
        let decreased: usize = (current as u128 * kept as u128 / 100) as usize;
        min_usize(max_usize(decreased, minimum), maximum)
    }
}

/// What the controller does with one window.
#[derive(Clone, Copy, Debug, PartialEq, Eq, Structural)]
pub struct ControlDecision {
    /// The length of the streak, where the controller is in charge of the load.
    pub streak_windows: Option<usize>,
    /// The new number of writers, where it changes.
    pub writers: Option<usize>,
}

/// Takes one window in. A fixed put rate leaves the number of writers alone; otherwise it changes
/// once enough windows of equal health have followed one another.
pub fn control(
    debounce: &mut ControllerDebounce,
    healthy: bool,
    current: usize,
    config: &Config,
) -> (decision: ControlDecision)
    requires
        config.min_write_workers <= config.max_write_workers,
    ensures
        ({
            let seen = old(debounce).observed(healthy);
            if config.put_ops_per_second != 0 {
                &&& *final(debounce) == *old(debounce)
                &&& decision == (ControlDecision { streak_windows: None, writers: None })
            } else if seen.streak_windows < config.controller_debounce_windows {
                &&& *final(debounce) == seen
                &&& decision == (ControlDecision {
                    streak_windows: Some(seen.streak_windows),
                    writers: None,
                })
            } else {
                &&& *final(debounce) == (ControllerDebounce { streak_windows: 0, ..seen })
                &&& decision == (ControlDecision {
                    streak_windows: Some(seen.streak_windows),
                    writers: Some(
                        writers_after(
                            current as int,
                            healthy,
                            config.min_write_workers as int,
                            config.max_write_workers as int,
                            config.writer_increase_percent as int,
                            config.writer_decrease_percent as int,
                        ) as usize,
                    ),
                })
            }
        }),
{
    if config.put_ops_per_second != 0 {
        return ControlDecision { streak_windows: None, writers: None };
    }
    let enough: bool = debounce.observe(healthy, config.controller_debounce_windows);
    let streak: usize = debounce.streak_windows;
    if !enough {
        return ControlDecision { streak_windows: Some(streak), writers: None };
    }
    let next: usize = next_writer_count(
        current,
        healthy,
        config.min_write_workers,
        config.max_write_workers,
        config.writer_increase_percent,
        config.writer_decrease_percent,
    );
    debounce.reset_streak();
    ControlDecision { streak_windows: Some(streak), writers: Some(next) }
}

// Laws.

/// The number of writers stays within its bounds. From within them it grows in good health until
/// it is at its maximum, and shrinks in bad health until it is at its minimum.
pub proof fn law_load_follows_health(
    current: int,
    healthy: bool,
    minimum: int,
    maximum: int,
    increase_percent: int,
    decrease_percent: int,
)
    requires
        0 <= minimum <= current <= maximum,
        0 < increase_percent,
        0 < decrease_percent,
    ensures
        ({
            let next = writers_after(
                current,
                healthy,
                minimum,
                maximum,
                increase_percent,
                decrease_percent,
            );
            &&& minimum <= next <= maximum
            &&& healthy && current < maximum ==> next > current
            &&& healthy && current == maximum ==> next == current
            &&& !healthy && current > minimum ==> next < current
            &&& !healthy && current == minimum ==> next == current
        }),
{
    if healthy {
    } else {
        let kept = num::at_least(100 - decrease_percent, 0);
        assert(0 <= current * kept <= current * 99) by (nonlinear_arith)
            requires
                0 <= kept <= 99,
                0 <= current,
        ;
    }
}

/// The windows that were taken in, without a decision between them.
pub open spec fn after_windows(windows: Seq<bool>) -> ControllerDebounce
    decreases windows.len(),
{
    if windows.len() == 0 {
        ControllerDebounce::fresh()
    } else {
        after_windows(windows.drop_last()).observed(windows.last())
    }
}

/// The controller acts exactly where the last `required` windows were of equal health.
pub proof fn law_decisions_need_equal_windows(windows: Seq<bool>, required: usize)
    requires
        0 < windows.len() <= usize::MAX,
        required > 0,
    ensures
        after_windows(windows).streak_windows >= required <==> (required <= windows.len() && forall|
            i: int,
        |
            windows.len() - required <= i < windows.len() ==> #[trigger] windows[i]
                == windows.last()),
{
    lemma_streak(windows);
    let streak = after_windows(windows).streak_windows;
    if streak < required && required <= windows.len() {
        assert(windows[windows.len() - streak - 1] != windows.last());
    }
}

/// The streak is the longest run of equal windows at the end.
proof fn lemma_streak(windows: Seq<bool>)
    requires
        0 < windows.len() <= usize::MAX,
    ensures
        ({
            let debounce = after_windows(windows);
            let streak = debounce.streak_windows;
            &&& debounce.last_healthy == Some(windows.last())
            &&& 1 <= streak <= windows.len()
            &&& forall|i: int|
                windows.len() - streak <= i < windows.len() ==> #[trigger] windows[i]
                    == windows.last()
            &&& streak < windows.len() ==> windows[windows.len() - streak - 1] != windows.last()
        }),
    decreases windows.len(),
{
    let init = windows.drop_last();
    if init.len() == 0 {
        assert(after_windows(init) == ControllerDebounce::fresh());
    } else {
        lemma_streak(init);
        let before = after_windows(init).streak_windows;
        let after = after_windows(windows).streak_windows;
        assert(windows[windows.len() - 2] == init.last());
        if init.last() == windows.last() {
            assert(after == before + 1);
            assert forall|i: int| windows.len() - after <= i < windows.len() implies #[trigger]
                windows[i] == windows.last() by {
                if i < init.len() {
                    assert(init[i] == windows[i]);
                }
            }
            if after < windows.len() {
                assert(init[init.len() - before - 1] == windows[windows.len() - after - 1]);
            }
        }
    }
}

/// Further windows, without a decision between them.
pub open spec fn windows_after(debounce: ControllerDebounce, windows: Seq<bool>) -> ControllerDebounce
    decreases windows.len(),
{
    if windows.len() == 0 {
        debounce
    } else {
        windows_after(debounce, windows.drop_last()).observed(windows.last())
    }
}

/// A decision starts the count again: once the streak was reset, it counts only the windows since,
/// whatever came before.
pub proof fn law_streaks_restart_at_a_reset(debounce: ControllerDebounce, windows: Seq<bool>)
    requires
        windows.len() > 0,
    ensures
        windows_after(
            ControllerDebounce { streak_windows: 0, ..debounce },
            windows,
        ) == after_windows(windows),
    decreases windows.len(),
{
    let reset = ControllerDebounce { streak_windows: 0, ..debounce };
    let init = windows.drop_last();
    if init.len() > 0 {
        law_streaks_restart_at_a_reset(debounce, init);
    } else {
        assert(windows_after(reset, init) == reset);
        assert(after_windows(init) == ControllerDebounce::fresh());
    }
}

} // verus!
