use vstd::prelude::*;

verus! {

/// An alarm at an absolute tick.
#[derive(Clone, Copy, PartialEq, Eq, Structural, Debug)]
pub struct Timer {
    pub alarm: u64,
}

impl Timer {
    pub fn new(alarm: u64) -> (r: Timer)
        ensures
            r.alarm == alarm,
    {
        Timer { alarm }
    }

    /// Rings `duration` ticks after `now` (at the last tick, if that lies beyond `u64`).
    pub fn set_alarm(&mut self, now: u64, duration: u64)
        ensures
            final(self).alarm == (if now + duration > u64::MAX {
                u64::MAX as int
            } else {
                now + duration
            }),
    {
        self.alarm = now.saturating_add(duration);
    }

    pub fn just_finished(&self, now: u64) -> (r: bool)
        ensures
            r == (now == self.alarm),
    {
        now == self.alarm
    }

    pub fn finished(&self, now: u64) -> (r: bool)
        ensures
            r == (now >= self.alarm),
    {
        now >= self.alarm
    }
}

} // verus!
