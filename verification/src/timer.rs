//! Repeating countdowns.

use vstd::prelude::*;

verus! {

/// A countdown that starts over each time it runs out. Time is counted in
/// milliseconds.
#[derive(Clone, Copy, PartialEq, Eq, Debug)]
pub struct RepeatingTimer {
    pub period: u32,
    pub elapsed: u32,
    pub finished: bool,
}

/// The timer after `dt` more milliseconds: once the period is reached the
/// timer fires and starts again from zero.
pub open spec fn ticked(t: RepeatingTimer, dt: u32) -> RepeatingTimer {
    if t.elapsed + dt >= t.period {
        RepeatingTimer { period: t.period, elapsed: 0, finished: true }
    } else {
        RepeatingTimer { period: t.period, elapsed: (t.elapsed + dt) as u32, finished: false }
    }
}

impl RepeatingTimer {
    /// A fresh timer that fires every `period` milliseconds.
    pub fn new(period: u32) -> (t: RepeatingTimer)
        ensures
            t == (RepeatingTimer { period, elapsed: 0, finished: false }),
    {
        RepeatingTimer { period, elapsed: 0, finished: false }
    }

    /// Advances the timer by `dt` milliseconds.
    pub fn tick(&mut self, dt: u32)
        ensures
            *final(self) == ticked(*old(self), dt),
    {
        let total: u64 = self.elapsed as u64 + dt as u64;
        if total >= self.period as u64 {
            self.elapsed = 0;
            self.finished = true;
        } else {
            self.elapsed = total as u32;
            self.finished = false;
        }
    }

    /// Whether the last tick made the timer fire.
    pub fn just_finished(&self) -> (fired: bool)
        ensures
            fired == self.finished,
    {
        self.finished
    }
}

impl Default for RepeatingTimer {
    /// A timer with period zero, which fires on every tick.
    fn default() -> (t: RepeatingTimer)
        ensures
            t == (RepeatingTimer { period: 0, elapsed: 0, finished: false }),
    {
        RepeatingTimer { period: 0, elapsed: 0, finished: false }
    }
}

} // verus!
