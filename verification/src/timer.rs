//! The fixed-interval timers of the game.
//!
//! What a timer knows is held in plain values: its interval, the time
//! elapsed on it, whether it repeats, and whether a one-shot timer has run
//! out. Each step is computed by a `Timer` of `bevy`, which is made from
//! these values, ticked once and read back.

use bevy::time::{Timer, TimerMode};
use std::time::Duration;
use vstd::arithmetic::div_mod::{lemma_div_pos_is_pos, lemma_fundamental_div_mod, lemma_mod_pos_bound};
use vstd::prelude::*;

verus! {

/// Delay before a level is built, in milliseconds.
pub const GAME_BUILD_DELAY_MILLIS: u64 = 50;

/// Length of one simulation tick, in milliseconds.
pub const GAME_REFRESH_FRAME_MILLIS: u64 = 10;

/// Interval at which repeated input is let through, in milliseconds.
pub const GAME_THROTTLE_MILLIS: u64 = 200;

/// Interval at which the scoreboard is refreshed, in milliseconds.
pub const GAME_SCOREBOARD_MILLIS: u64 = 10;

/// Nanoseconds in a millisecond.
pub const NANOS_PER_MILLI: u64 = 1_000_000;

/// The time on a timer after a step of `delta` nanoseconds.
///
/// A repeating timer wraps around its interval. A one-shot timer stops at
/// its interval.
pub open spec fn elapsed_after_tick(duration: u64, repeating: bool, elapsed: u64, delta: u64) -> int {
    let total = elapsed + delta;
    if repeating {
        if duration == 0 {
            0
        } else {
            total % (duration as int)
        }
    } else {
        if total >= duration {
            duration as int
        } else {
            total
        }
    }
}

/// Whether a timer finishes during a step of `delta` nanoseconds.
///
/// A one-shot timer finishes when the time on it reaches its interval. A
/// repeating timer finishes when the number of intervals completed during
/// the step is not zero; that number is kept in 32 bits, and a repeating
/// timer without an interval always finishes.
pub open spec fn finishes_on_tick(duration: u64, repeating: bool, elapsed: u64, delta: u64) -> bool {
    let total = elapsed + delta;
    if repeating {
        if duration == 0 {
            true
        } else {
            (total / (duration as int)) % 0x1_0000_0000 != 0
        }
    } else {
        total >= duration
    }
}

/// Trusted wrapper of `Timer::tick`: a timer of `bevy` is made with
/// `Timer::new` and `Timer::set_elapsed` from the interval, the mode and
/// the time elapsed, ticked by the step, and read back with
/// `Timer::elapsed` and `Timer::just_finished`. The contract says, of a
/// timer that is neither paused nor finished, what the source of `tick`
/// computes. All durations come from 64-bit nanoseconds, so their sum is far
/// below what a `Duration` holds.
#[verifier::external_body]
fn timer_tick(duration_nanos: u64, repeating: bool, elapsed_nanos: u64, delta_nanos: u64) -> (after: (
    u64,
    bool,
))
    ensures
        after.0 == elapsed_after_tick(duration_nanos, repeating, elapsed_nanos, delta_nanos),
        after.1 == finishes_on_tick(duration_nanos, repeating, elapsed_nanos, delta_nanos),
{
    let mode = if repeating { TimerMode::Repeating } else { TimerMode::Once };
    let mut timer = Timer::new(Duration::from_nanos(duration_nanos), mode);
    timer.set_elapsed(Duration::from_nanos(elapsed_nanos));
    timer.tick(Duration::from_nanos(delta_nanos));
    (timer.elapsed().as_nanos() as u64, timer.just_finished())
}

/// A timer with a fixed interval.
#[derive(Clone, Copy, Debug, PartialEq, Eq, Structural)]
pub struct IntervalTimer {
    /// The interval, in nanoseconds.
    pub duration_nanos: u64,
    /// The time elapsed on the timer, in nanoseconds.
    pub elapsed_nanos: u64,
    /// The timer starts over each time it has finished.
    pub repeating: bool,
    /// A one-shot timer has reached its interval; it stays so.
    pub finished: bool,
}

impl IntervalTimer {
    /// A timer of `millis` milliseconds on which no time has elapsed.
    pub open spec fn spec_new(millis: u64, repeating: bool) -> IntervalTimer {
        IntervalTimer {
            duration_nanos: (millis * NANOS_PER_MILLI) as u64,
            elapsed_nanos: 0,
            repeating,
            finished: false,
        }
    }

    /// The timer after a step of `delta` nanoseconds, and whether it
    /// finished during that step. A one-shot timer that has finished stays
    /// as it is and does not finish again.
    pub open spec fn spec_tick(self, delta: u64) -> (IntervalTimer, bool) {
        if !self.repeating && self.finished {
            (self, false)
        } else {
            let just = finishes_on_tick(
                self.duration_nanos,
                self.repeating,
                self.elapsed_nanos,
                delta,
            );
            (
                IntervalTimer {
                    elapsed_nanos: elapsed_after_tick(
                        self.duration_nanos,
                        self.repeating,
                        self.elapsed_nanos,
                        delta,
                    ) as u64,
                    finished: if self.repeating {
                        self.finished
                    } else {
                        just
                    },
                    ..self
                },
                just,
            )
        }
    }

    /// A timer of `millis` milliseconds on which no time has elapsed.
    pub fn new(millis: u64, repeating: bool) -> (timer: IntervalTimer)
        requires
            millis * NANOS_PER_MILLI <= u64::MAX,
        ensures
            timer == IntervalTimer::spec_new(millis, repeating),
    {
        IntervalTimer {
            duration_nanos: millis * NANOS_PER_MILLI,
            elapsed_nanos: 0,
            repeating,
            finished: false,
        }
    }

    /// Advances the timer by `delta_nanos` and tells whether it finished
    /// during this step.
    pub fn tick(&mut self, delta_nanos: u64) -> (just_finished: bool)
        ensures
            *final(self) == old(self).spec_tick(delta_nanos).0,
            just_finished == old(self).spec_tick(delta_nanos).1,
    {
        if !self.repeating && self.finished {
            return false;
        }
        let (elapsed, just_finished) = timer_tick(
            self.duration_nanos,
            self.repeating,
            self.elapsed_nanos,
            delta_nanos,
        );
        self.elapsed_nanos = elapsed;
        if !self.repeating {
            self.finished = just_finished;
        }
        just_finished
    }
}

/// A repeating timer keeps the time that a step leaves over: while less
/// time has elapsed than the interval, and the step is shorter than two to
/// the power of 32 intervals, the timer finishes exactly when the time on
/// it reaches the interval, and what is beyond whole intervals stays on it.
pub proof fn lemma_repeating_timer_finishes(timer: IntervalTimer, delta: u64)
    requires
        timer.repeating,
        timer.elapsed_nanos < timer.duration_nanos,
        timer.elapsed_nanos + delta < timer.duration_nanos * 0x1_0000_0000,
    ensures
        timer.spec_tick(delta).1 <==> timer.elapsed_nanos + delta >= timer.duration_nanos,
        timer.spec_tick(delta).0.elapsed_nanos < timer.duration_nanos,
        !timer.spec_tick(delta).1 ==> timer.spec_tick(delta).0.elapsed_nanos == timer.elapsed_nanos
            + delta,
        timer.elapsed_nanos + delta < 2 * timer.duration_nanos && timer.spec_tick(delta).1
            ==> timer.spec_tick(delta).0.elapsed_nanos == timer.elapsed_nanos + delta
            - timer.duration_nanos,
{
    let total = timer.elapsed_nanos + delta;
    let d = timer.duration_nanos as int;
    lemma_fundamental_div_mod(total, d);
    lemma_mod_pos_bound(total, d);
    lemma_div_pos_is_pos(total, d);
    let q = total / d;
    assert(q < 0x1_0000_0000) by (nonlinear_arith)
        requires
            total == d * q + total % d,
            0 <= total % d,
            total < d * 0x1_0000_0000,
            d > 0,
    ;
    assert(q >= 1 <==> total >= d) by (nonlinear_arith)
        requires
            total == d * q + total % d,
            0 <= total % d < d,
            q >= 0,
            d > 0,
    ;
    assert(total < 2 * d ==> q <= 1) by (nonlinear_arith)
        requires
            total == d * q + total % d,
            0 <= total % d,
            d > 0,
    ;
    assert(q == 0 ==> d * q == 0) by (nonlinear_arith);
    assert(q == 1 ==> d * q == d) by (nonlinear_arith);
}

/// Gates the simulation: one tick each time it finishes.
pub struct GameRefreshTimer(pub IntervalTimer);

/// Delays the building of a level.
pub struct GameBuildTimer(pub IntervalTimer);

/// Throttles repeated input.
pub struct GameThrottleTimer(pub IntervalTimer);

/// Paces the scoreboard.
pub struct GameScoreboardTimer(pub IntervalTimer);

impl GameRefreshTimer {
    /// A repeating timer of one simulation tick.
    pub fn new() -> (timer: GameRefreshTimer)
        ensures
            timer.0 == IntervalTimer::spec_new(GAME_REFRESH_FRAME_MILLIS, true),
    {
        GameRefreshTimer(IntervalTimer::new(GAME_REFRESH_FRAME_MILLIS, true))
    }

    /// Advances the timer and tells whether it finished during this step.
    pub fn tick(&mut self, delta_nanos: u64) -> (just_finished: bool)
        ensures
            final(self).0 == old(self).0.spec_tick(delta_nanos).0,
            just_finished == old(self).0.spec_tick(delta_nanos).1,
    {
        self.0.tick(delta_nanos)
    }
}

impl GameBuildTimer {
    /// A one-shot timer of the build delay.
    pub fn new() -> (timer: GameBuildTimer)
        ensures
            timer.0 == IntervalTimer::spec_new(GAME_BUILD_DELAY_MILLIS, false),
    {
        GameBuildTimer(IntervalTimer::new(GAME_BUILD_DELAY_MILLIS, false))
    }

    /// Advances the timer and tells whether it finished during this step.
    pub fn tick(&mut self, delta_nanos: u64) -> (just_finished: bool)
        ensures
            final(self).0 == old(self).0.spec_tick(delta_nanos).0,
            just_finished == old(self).0.spec_tick(delta_nanos).1,
    {
        self.0.tick(delta_nanos)
    }
}

impl GameThrottleTimer {
    /// A repeating timer of the throttle interval.
    pub fn new() -> (timer: GameThrottleTimer)
        ensures
            timer.0 == IntervalTimer::spec_new(GAME_THROTTLE_MILLIS, true),
    {
        GameThrottleTimer(IntervalTimer::new(GAME_THROTTLE_MILLIS, true))
    }

    /// Advances the timer and tells whether it finished during this step.
    pub fn tick(&mut self, delta_nanos: u64) -> (just_finished: bool)
        ensures
            final(self).0 == old(self).0.spec_tick(delta_nanos).0,
            just_finished == old(self).0.spec_tick(delta_nanos).1,
    {
        self.0.tick(delta_nanos)
    }
}

impl GameScoreboardTimer {
    /// A repeating timer of the scoreboard interval.
    pub fn new() -> (timer: GameScoreboardTimer)
        ensures
            timer.0 == IntervalTimer::spec_new(GAME_SCOREBOARD_MILLIS, true),
    {
        GameScoreboardTimer(IntervalTimer::new(GAME_SCOREBOARD_MILLIS, true))
    }

    /// Advances the timer and tells whether it finished during this step.
    pub fn tick(&mut self, delta_nanos: u64) -> (just_finished: bool)
        ensures
            final(self).0 == old(self).0.spec_tick(delta_nanos).0,
            just_finished == old(self).0.spec_tick(delta_nanos).1,
    {
        self.0.tick(delta_nanos)
    }
}

} // verus!
