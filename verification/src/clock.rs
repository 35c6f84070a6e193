//! Timers: a stretch of time that fills up as ticks arrive.
//!
//! A tick is carried out by bevy's `Timer`. This module keeps the state of a
//! timer as plain integers, hands them to bevy for each tick, and states what
//! comes back.

use vstd::prelude::*;
use std::time::Duration;

verus! {

/// What a timer does once its period has filled up.
#[derive(Clone, Copy, Debug, PartialEq, Eq, Structural)]
pub enum TimerMode {
    /// The timer stays full until it is reset.
    Once,
    /// The timer starts over, keeping what ran past the period.
    Repeating,
}

/// Time accumulated by a timer after a tick of `delta` nanoseconds.
///
/// While the period is not reached the time simply adds up. Once it is reached a
/// one-shot timer stops at the period and a repeating timer wraps around it.
pub open spec fn elapsed_after_tick(period: u64, mode: TimerMode, elapsed: u64, delta: u64) -> int {
    let total = elapsed + delta;
    if total < period {
        total
    } else {
        match mode {
            TimerMode::Once => period as int,
            TimerMode::Repeating => if period == 0 {
                0
            } else {
                total % (period as int)
            },
        }
    }
}

/// Whether a tick of `delta` nanoseconds fills the period.
pub open spec fn finishes(period: u64, elapsed: u64, delta: u64) -> bool {
    elapsed + delta >= period
}

/// Ticks a bevy timer once.
///
/// Builds a `bevy::time::Timer` of the given period and mode with `Timer::new`,
/// puts `elapsed` into it with `Timer::set_elapsed`, calls `Timer::tick` with
/// `delta`, and hands back what `Timer::elapsed` and `Timer::finished` then say.
///
/// The contract is not proved. It states what the source of `Timer::tick` does
/// to a timer that is neither paused nor marked as finished, which is how
/// `Timer::new` makes one: the time adds up; the timer is finished exactly when
/// the sum has reached the period; and where it is finished, a one-shot timer is
/// left at its period and a repeating one at the remainder of the sum by the
/// period, or at zero if the period is zero. Every count here is below 2^65
/// nanoseconds, far from the range of a `Duration`, so nothing can overflow.
#[verifier::external_body]
fn bevy_timer_tick(period: u64, mode: TimerMode, elapsed: u64, delta: u64) -> (after: (u64, bool))
    ensures
        after.0 == elapsed_after_tick(period, mode, elapsed, delta),
        after.1 == finishes(period, elapsed, delta),
{
    let mode = match mode {
        TimerMode::Once => bevy::time::TimerMode::Once,
        TimerMode::Repeating => bevy::time::TimerMode::Repeating,
    };
    let mut timer = bevy::time::Timer::new(Duration::from_nanos(period), mode);
    timer.set_elapsed(Duration::from_nanos(elapsed));
    timer.tick(Duration::from_nanos(delta));
    (timer.elapsed().as_nanos() as u64, timer.finished())
}

/// A timer: how long its period is, how it behaves when full, and how much time
/// it has gathered.
#[derive(Clone, Copy, Debug, PartialEq, Eq, Structural)]
pub struct Timer {
    /// Length of the period, in nanoseconds.
    pub period: u64,
    /// What happens when the period has filled up.
    pub mode: TimerMode,
    /// Time gathered so far, in nanoseconds.
    pub elapsed: u64,
}

impl Timer {
    /// The timer after a tick of `delta` nanoseconds.
    pub open spec fn ticked(self, delta: u64) -> Timer {
        Timer {
            period: self.period,
            mode: self.mode,
            elapsed: elapsed_after_tick(self.period, self.mode, self.elapsed, delta) as u64,
        }
    }

    /// Whether a tick of `delta` nanoseconds fills the period.
    pub open spec fn finishes_in(self, delta: u64) -> bool {
        finishes(self.period, self.elapsed, delta)
    }

    /// The timer with nothing gathered.
    pub open spec fn rewound(self) -> Timer {
        Timer { period: self.period, mode: self.mode, elapsed: 0 }
    }

    /// A timer with nothing gathered.
    pub fn new(period: u64, mode: TimerMode) -> (timer: Timer)
        ensures
            timer == (Timer { period, mode, elapsed: 0 }),
    {
        Timer { period, mode, elapsed: 0 }
    }

    /// Advances the timer by `delta` nanoseconds and tells whether the period
    /// filled up during this tick.
    pub fn tick(&mut self, delta: u64) -> (finished: bool)
        ensures
            *final(self) == old(self).ticked(delta),
            finished == old(self).finishes_in(delta),
            final(self).elapsed == elapsed_after_tick(
                old(self).period,
                old(self).mode,
                old(self).elapsed,
                delta,
            ),
    {
        let after = bevy_timer_tick(self.period, self.mode, self.elapsed, delta);
        self.elapsed = after.0;
        after.1
    }

    /// Empties the timer.
    pub fn reset(&mut self)
        ensures
            *final(self) == old(self).rewound(),
    {
        self.elapsed = 0;
    }
}

} // verus!
