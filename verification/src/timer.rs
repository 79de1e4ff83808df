//! An 8-bit countdown timer, decremented by an externally driven 60 Hz clock
//! and floored at zero.

use vstd::prelude::*;

verus! {

/// One countdown timer. The machine owns two independent instances: the
/// delay timer (readable by a program) and the sound timer (nonzero means
/// the audio collaborator should emit a tone).
pub struct Timer {
    pub current_time: u8,
}

/// The value of a timer after one tick: down by one, floored at zero.
pub open spec fn ticked(t: u8) -> u8 {
    if t > 0 {
        (t - 1) as u8
    } else {
        0
    }
}

impl Timer {
    /// A timer that starts counting down from `start_time`.
    pub fn new(start_time: u8) -> (t: Self)
        ensures
            t.current_time == start_time,
    {
        Self { current_time: start_time }
    }

    /// One tick of the external clock: decrement if positive, otherwise do
    /// nothing. The value never wraps below zero.
    pub fn tick(&mut self)
        ensures
            final(self).current_time == ticked(old(self).current_time),
    {
        if self.current_time > 0 {
            self.current_time = self.current_time - 1;
        }
    }
}

} // verus!
