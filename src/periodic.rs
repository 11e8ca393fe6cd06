//! A software timer that fires once a period has passed.
use vstd::prelude::*;

verus! {

/// Times in nanoseconds.
#[derive(Debug, Clone, Copy)]
pub struct Timer {
    pub period: u64,
    pub timer: u64,
}

impl Timer {
    pub fn new(period: u64) -> (r: Self)
        ensures
            r.period == period,
            r.timer == 0,
    {
        Timer { period, timer: 0 }
    }

    /// Passes `dt`, then checks and resets: true when more than a period
    /// has passed, and the timer starts over.
    pub fn pcr(&mut self, dt: u64) -> (r: bool)
        ensures
            final(self).period == old(self).period,
            r == (sat_add_u64(old(self).timer, dt) > old(self).period),
            final(self).timer == if r {
                0
            } else {
                sat_add_u64(old(self).timer, dt)
            },
    {
        self.timer = if self.timer <= u64::MAX - dt {
            self.timer + dt
        } else {
            u64::MAX
        };
        self.cr()
    }

    /// Passes `dt`, then checks: true when more than a period has passed.
    pub fn pc(&mut self, dt: u64) -> (r: bool)
        ensures
            final(self).period == old(self).period,
            final(self).timer == sat_add_u64(old(self).timer, dt),
            r == (final(self).timer > final(self).period),
    {
        self.timer = if self.timer <= u64::MAX - dt {
            self.timer + dt
        } else {
            u64::MAX
        };
        self.c()
    }

    /// Checks and resets: true when more than a period has passed, and the
    /// timer starts over.
    pub fn cr(&mut self) -> (r: bool)
        ensures
            r == (old(self).timer > old(self).period),
            final(self).period == old(self).period,
            final(self).timer == if r {
                0
            } else {
                old(self).timer
            },
    {
        if self.timer > self.period {
            self.timer = 0;
            true
        } else {
            false
        }
    }

    /// Checks: true when more than a period has passed.
    pub fn c(&self) -> (r: bool)
        ensures
            r == (self.timer > self.period),
    {
        self.timer > self.period
    }
}

pub open spec fn sat_add_u64(a: u64, b: u64) -> u64 {
    if a + b <= u64::MAX {
        (a + b) as u64
    } else {
        u64::MAX
    }
}

} // verus!
