//! Vector clocks.
//!
//! A vector clock maps each thread to the number of that thread's epochs it
//! has knowledge of. Entries beyond the stored length count as zero, so a
//! clock is conceptually infinite and clocks of different stored lengths
//! compare fine.

use vstd::prelude::*;

verus! {

/// A vector clock.
pub struct VClock {
    pub entries: Vec<u64>,
}

impl VClock {
    /// The entry for thread `i`; zero where nothing is stored.
    pub open spec fn get(self, i: int) -> u64 {
        if 0 <= i < self.entries@.len() {
            self.entries@[i]
        } else {
            0
        }
    }

    /// Clock `a` is no later than clock `b` in every component.
    pub open spec fn le(self, other: VClock) -> bool {
        forall|i: int| #![trigger self.get(i)] self.get(i) <= other.get(i)
    }

    /// The all-zero clock.
    pub fn new() -> (r: VClock)
        ensures
            forall|i: int| r.get(i) == 0,
    {
        VClock { entries: Vec::new() }
    }

    /// The entry for thread `i`.
    pub fn entry(&self, i: usize) -> (r: u64)
        ensures
            r == self.get(i as int),
    {
        if i < self.entries.len() {
            self.entries[i]
        } else {
            0
        }
    }

    /// Advance this clock's entry for thread `i` by one: the thread begins
    /// a new epoch.
    pub fn advance(&mut self, i: usize)
        requires
            old(self).get(i as int) < u64::MAX,
        ensures
            final(self).get(i as int) == old(self).get(i as int) + 1,
            forall|j: int| j != i ==> final(self).get(j) == old(self).get(j),
    {
        while self.entries.len() <= i
            invariant
                forall|j: int| self.get(j) == old(self).get(j),
                old(self).get(i as int) < u64::MAX,
            decreases i + 1 - self.entries.len(),
        {
            self.entries.push(0);
        }
        let v = self.entries[i];
        self.entries.set(i, v + 1);
    }

    /// Merge the other clock into this one: afterwards this clock knows
    /// everything either clock knew.
    pub fn join(&mut self, other: &VClock)
        ensures
            forall|i: int|
                #![trigger final(self).get(i)]
                final(self).get(i) == if old(self).get(i) >= other.get(i) {
                    old(self).get(i)
                } else {
                    other.get(i)
                },
    {
        let n = if self.entries.len() >= other.entries.len() {
            self.entries.len()
        } else {
            other.entries.len()
        };
        let mut out: Vec<u64> = Vec::new();
        let mut idx: usize = 0;
        while idx < n
            invariant
                self.entries@ == old(self).entries@,
                idx == out@.len(),
                idx <= n,
                self.entries@.len() <= n,
                other.entries@.len() <= n,
                forall|j: int|
                    0 <= j < idx ==> out@[j] == if self.get(j) >= other.get(j) {
                        self.get(j)
                    } else {
                        other.get(j)
                    },
            decreases n - idx,
        {
            let a = self.entry(idx);
            let b = other.entry(idx);
            out.push(if a >= b {
                a
            } else {
                b
            });
            idx += 1;
        }
        self.entries = out;
    }

    /// An identical, separately owned copy of this clock.
    pub fn duplicate(&self) -> (r: VClock)
        ensures
            forall|i: int| r.get(i) == self.get(i),
    {
        let mut entries: Vec<u64> = Vec::new();
        let mut idx: usize = 0;
        while idx < self.entries.len()
            invariant
                idx == entries@.len(),
                idx <= self.entries@.len(),
                forall|j: int| 0 <= j < idx ==> entries@[j] == self.entries@[j],
            decreases self.entries.len() - idx,
        {
            entries.push(self.entries[idx]);
            idx += 1;
        }
        VClock { entries }
    }
}

} // verus!
