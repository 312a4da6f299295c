//! Doing something at regular intervals.

use vstd::prelude::*;

verus! {

/// A timer that fires whenever another period has gone by.
#[derive(Clone, Copy, Debug, PartialEq, Eq, Structural)]
pub struct Interval {
    /// The length of a period, in milliseconds.
    pub period: u32,
    /// The time gone by since the last period ended, in milliseconds.
    pub elapsed: u32,
}

impl Interval {
    /// Whether the timer fires when `dt` more milliseconds have gone by: a
    /// period, or more than one, ends within them. A timer without a period
    /// fires always.
    pub open spec fn fires(self, dt: u32) -> bool {
        self.elapsed + dt >= self.period
    }

    /// The timer after `dt` more milliseconds: what is left over of the
    /// time gone by once the periods that ended are taken off.
    pub open spec fn after(self, dt: u32) -> Interval {
        Interval {
            period: self.period,
            elapsed: if self.period == 0 {
                0
            } else {
                ((self.elapsed + dt) % (self.period as int)) as u32
            },
        }
    }

    /// A timer with the given period at the start of a period.
    pub fn new(period: u32) -> (r: Interval)
        ensures
            r == (Interval { period, elapsed: 0 }),
    {
        Interval { period, elapsed: 0 }
    }

    /// Lets `dt` milliseconds go by and tells whether the timer fires.
    pub fn tick(&mut self, dt: u32) -> (fired: bool)
        ensures
            fired == old(self).fires(dt),
            *final(self) == old(self).after(dt),
            final(self).period > 0 ==> final(self).elapsed < final(self).period,
    {
        let total: u64 = self.elapsed as u64 + dt as u64;
        let fired = total >= self.period as u64;
        if self.period == 0 {
            self.elapsed = 0;
        } else {
            self.elapsed = (total % self.period as u64) as u32;
        }
        fired
    }
}

} // verus!
