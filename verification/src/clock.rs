//! The machine's monotone clock: a global step counter, advanced once per
//! interpreted control-flow step.

use vstd::prelude::*;

verus! {

/// The monotone clock.
pub struct Clock {
    /// Number of control-flow steps executed so far.
    pub now: u64,
}

impl Clock {
    /// A clock that has seen no step yet.
    pub fn new() -> (r: Clock)
        ensures
            r.now == 0,
    {
        Clock { now: 0 }
    }

    /// Make sure some time passes: advance by one step.
    pub fn tick(&mut self)
        requires
            old(self).now < u64::MAX,
        ensures
            final(self).now == old(self).now + 1,
    {
        self.now = self.now + 1;
    }

    /// The current step count.
    pub fn get(&self) -> (r: u64)
        ensures
            r == self.now,
    {
        self.now
    }
}

} // verus!
