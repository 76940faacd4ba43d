//! The delay and sound timers.

use vstd::prelude::*;

verus! {

/// Timers count down sixty times a second.
pub const TIMER_HZ: u64 = 60;

/// Microseconds between two timer ticks, rounded down.
pub const TIMER_PERIOD_MICROS: u64 = 1_000_000 / TIMER_HZ;

/// Instructions executed per second at the usual speed.
pub const EXEC_SPEED: u32 = 700;

/// One step of a counter that counts down and stops at zero.
pub open spec fn count_down(t: u8) -> u8 {
    if t > 0 {
        (t - 1) as u8
    } else {
        0
    }
}

/// A counter after `n` steps down from `t`.
pub open spec fn count_down_by(t: u8, n: nat) -> u8
    decreases n,
{
    if n == 0 {
        t
    } else {
        count_down_by(count_down(t), (n - 1) as nat)
    }
}

/// Two independent 8-bit counters. Instructions set them to absolute
/// values; `tick` is the only thing that lowers them.
#[derive(Clone, Copy, Debug, PartialEq, Eq, Structural)]
pub struct Timers {
    pub delay: u8,
    pub sound: u8,
}

impl Timers {
    /// Both counters at rest.
    pub fn new() -> (timers: Timers)
        ensures
            timers.delay == 0,
            timers.sound == 0,
    {
        Timers { delay: 0, sound: 0 }
    }

    /// Lowers each counter by one, never below zero.
    pub fn tick(&mut self)
        ensures
            final(self).delay == count_down(old(self).delay),
            final(self).sound == count_down(old(self).sound),
    {
        if self.delay > 0 {
            self.delay = self.delay - 1;
        }
        if self.sound > 0 {
            self.sound = self.sound - 1;
        }
    }

    /// Whether a tick is due once `elapsed_micros` microseconds have passed
    /// since the last one: strictly more than one sixtieth of a second.
    pub fn due(elapsed_micros: u64) -> (due: bool)
        ensures
            due == (elapsed_micros > TIMER_PERIOD_MICROS),
    {
        elapsed_micros > TIMER_PERIOD_MICROS
    }
}

/// Counting down `n` times from `t` reaches `t - n`, or zero once `n` is at
/// least `t`; from zero every further step stays at zero.
pub proof fn lemma_count_down_by(t: u8, n: nat)
    ensures
        count_down_by(t, n) == (if n >= t {
            0
        } else {
            t - n
        }),
    decreases n,
{
    if n > 0 {
        lemma_count_down_by(count_down(t), (n - 1) as nat);
    }
}

} // verus!
