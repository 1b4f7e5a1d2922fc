//! The press / hold / repeat state machine that every binding runs on every
//! device, one step per poll tick.

use vstd::prelude::*;

verus! {

/// How long a combination must stay held before it starts to repeat, in
/// milliseconds.
pub const HOLD_DELAY_MS: u64 = 320;

/// The hold delay in poll ticks: the delay divided by the poll interval,
/// rounded up.
pub open spec fn spec_hold_threshold(delay_ms: u64) -> int {
    (HOLD_DELAY_MS + delay_ms - 1) / (delay_ms as int)
}

/// The hold delay in poll ticks for a poll interval of `delay_ms`
/// milliseconds. The result is at least one tick.
pub fn hold_threshold(delay_ms: u64) -> (t: u64)
    requires
        delay_ms > 0,
    ensures
        t == spec_hold_threshold(delay_ms),
        1 <= t <= HOLD_DELAY_MS,
{
    if delay_ms >= HOLD_DELAY_MS {
        assert((HOLD_DELAY_MS + delay_ms - 1) / (delay_ms as int) == 1) by (nonlinear_arith)
            requires
                delay_ms >= HOLD_DELAY_MS,
                HOLD_DELAY_MS == 320,
        ;
        1
    } else {
        let t: u64 = (HOLD_DELAY_MS + delay_ms - 1) / delay_ms;
        assert(1 <= (HOLD_DELAY_MS + delay_ms - 1) / (delay_ms as int) <= 320)
            by (nonlinear_arith)
            requires
                0 < delay_ms < HOLD_DELAY_MS,
                HOLD_DELAY_MS == 320,
        ;
        t
    }
}

/// The timer state of one binding on one device.
///
/// `activation_tick` is 0 while the combination is not fully pressed, and
/// otherwise the tick at which the current press began. `last_fire_tick` is
/// the tick at which the command was last launched.
#[derive(Clone, Copy, Debug, PartialEq, Eq, Structural)]
pub struct BindingRuntimeState {
    pub activation_tick: u64,
    pub last_fire_tick: u64,
}

impl BindingRuntimeState {
    /// Whether the combination is currently not held.
    pub open spec fn is_idle(self) -> bool {
        self.activation_tick == 0
    }

    /// One step of the machine at `tick`, given whether the combination is
    /// fully pressed: the next state, and whether the command is launched.
    ///
    /// A fresh press launches at once. A continued press launches again on
    /// every tick from the one that lies `threshold` ticks after the start
    /// of the press. A release returns to idle without launching.
    pub open spec fn step(self, tick: u64, threshold: u64, active: bool) -> (
        BindingRuntimeState,
        bool,
    ) {
        if !active {
            (
                BindingRuntimeState {
                    activation_tick: 0,
                    last_fire_tick: self.last_fire_tick,
                },
                false,
            )
        } else if self.activation_tick == 0 {
            (BindingRuntimeState { activation_tick: tick, last_fire_tick: tick }, true)
        } else if tick.wrapping_sub(self.activation_tick) >= threshold && tick
            > self.last_fire_tick {
            (
                BindingRuntimeState {
                    activation_tick: self.activation_tick,
                    last_fire_tick: tick,
                },
                true,
            )
        } else {
            (self, false)
        }
    }

    /// The state of a binding that has never been pressed.
    pub fn idle() -> (s: BindingRuntimeState)
        ensures
            s == (BindingRuntimeState { activation_tick: 0, last_fire_tick: 0 }),
            s.is_idle(),
    {
        BindingRuntimeState { activation_tick: 0, last_fire_tick: 0 }
    }

    /// Advances the machine by one tick and tells whether the command is to
    /// be launched on this tick.
    pub fn advance(&mut self, tick: u64, threshold: u64, active: bool) -> (fired: bool)
        ensures
            (*final(self), fired) == old(self).step(tick, threshold, active),
    {
        if !active {
            self.activation_tick = 0;
            false
        } else if self.activation_tick == 0 {
            self.activation_tick = tick;
            self.last_fire_tick = tick;
            true
        } else if tick.wrapping_sub(self.activation_tick) >= threshold && tick
            > self.last_fire_tick {
            self.last_fire_tick = tick;
            true
        } else {
            false
        }
    }
}

/// How often the command is launched while the combination stays fully
/// pressed for `n` consecutive ticks, the first of them `first_tick`.
pub open spec fn fires_while_held(
    s: BindingRuntimeState,
    first_tick: u64,
    threshold: u64,
    n: nat,
) -> nat
    decreases n,
{
    if n == 0 {
        0
    } else {
        let (next, fired) = s.step(first_tick, threshold, true);
        let rest = fires_while_held(next, first_tick.wrapping_add(1), threshold, (n - 1) as nat);
        if fired {
            1 + rest
        } else {
            rest
        }
    }
}

/// The number of ticks in `[from, from + n)` that lie at least `threshold`
/// ticks after `start`.
pub open spec fn repeats_in_window(start: int, threshold: int, from: int, n: int) -> int {
    let first = if from >= start + threshold {
        from
    } else {
        start + threshold
    };
    if from + n > first {
        from + n - first
    } else {
        0
    }
}

/// While a press that began at `s.activation_tick` goes on, the command is
/// launched on exactly those ticks that lie at least `threshold` ticks after
/// its start.
pub proof fn fires_in_continued_hold(
    s: BindingRuntimeState,
    tick: u64,
    threshold: u64,
    n: nat,
)
    requires
        1 <= s.activation_tick <= s.last_fire_tick < tick,
        tick + n <= u64::MAX + 1,
    ensures
        fires_while_held(s, tick, threshold, n) == repeats_in_window(
            s.activation_tick as int,
            threshold as int,
            tick as int,
            n as int,
        ),
    decreases n,
{
    if n > 0 {
        let (next, fired) = s.step(tick, threshold, true);
        assert(tick.wrapping_sub(s.activation_tick) == tick - s.activation_tick);
        if n > 1 {
            assert(tick.wrapping_add(1) == tick + 1);
            fires_in_continued_hold(next, (tick + 1) as u64, threshold, (n - 1) as nat);
        } else {
            assert(fires_while_held(next, tick.wrapping_add(1), threshold, 0) == 0);
        }
    }
}

/// A combination that becomes fully pressed and then stays so for `n`
/// consecutive ticks launches its command once at the first of them and
/// then once on every tick from the `threshold`-th after it: `1 + (n -
/// threshold)` times when `n` reaches the threshold, and once otherwise.
pub proof fn fires_in_fresh_hold(
    s: BindingRuntimeState,
    first_tick: u64,
    threshold: u64,
    n: nat,
)
    requires
        s.is_idle(),
        first_tick >= 1,
        threshold >= 1,
        n >= 1,
        first_tick + n <= u64::MAX + 1,
    ensures
        n >= threshold ==> fires_while_held(s, first_tick, threshold, n) == 1 + (n - threshold),
        n < threshold ==> fires_while_held(s, first_tick, threshold, n) == 1,
{
    let (next, fired) = s.step(first_tick, threshold, true);
    assert(fired);
    if n > 1 {
        assert(first_tick.wrapping_add(1) == first_tick + 1);
        fires_in_continued_hold(next, (first_tick + 1) as u64, threshold, (n - 1) as nat);
    } else {
        assert(fires_while_held(next, first_tick.wrapping_add(1), threshold, 0) == 0);
    }
}

/// Releasing a combination returns its machine to idle, and the next full
/// press launches the command at once and restarts the hold timer at the
/// tick of that press, whatever the state was before the release.
pub proof fn repress_fires_afresh(
    s: BindingRuntimeState,
    release_tick: u64,
    press_tick: u64,
    threshold: u64,
)
    ensures
        s.step(release_tick, threshold, false).0.is_idle(),
        !s.step(release_tick, threshold, false).1,
        s.step(release_tick, threshold, false).0.step(press_tick, threshold, true) == (
            BindingRuntimeState { activation_tick: press_tick, last_fire_tick: press_tick },
            true,
        ),
{
}

/// A machine that is not idle launches at most once per tick and never
/// before the hold threshold has passed: a step on a continued press with
/// fewer than `threshold` ticks elapsed changes nothing.
pub proof fn no_fire_before_threshold(s: BindingRuntimeState, tick: u64, threshold: u64)
    requires
        !s.is_idle(),
        s.activation_tick <= tick,
        tick - s.activation_tick < threshold,
    ensures
        s.step(tick, threshold, true) == (s, false),
{
    assert(tick.wrapping_sub(s.activation_tick) == tick - s.activation_tick);
}

} // verus!
