//! The busy-wait delay timer: a count-down whose period is a number of
//! microseconds. The library keeps the period; the delay itself is performed
//! by whoever owns the hardware.

use vstd::prelude::*;

verus! {

/// A count-down timer that waits by spinning for a fixed number of
/// microseconds.
pub struct EtsTimer {
    delay: u32,
}

impl EtsTimer {
    /// The period, in microseconds, that one wait lasts.
    pub closed spec fn view(&self) -> u32 {
        self.delay
    }

    /// A timer whose waits last `delay_us` microseconds.
    pub fn new(delay_us: u32) -> (timer: Self)
        ensures
            timer@ == delay_us,
    {
        Self { delay: delay_us }
    }

    /// Restarts the count-down with a new period of `count` microseconds.
    pub fn start(&mut self, count: u32)
        ensures
            final(self)@ == count,
    {
        self.delay = count;
    }

    /// The period of the next wait, in microseconds.
    pub fn delay_us(&self) -> (us: u32)
        ensures
            us == self@,
    {
        self.delay
    }
}

} // verus!
