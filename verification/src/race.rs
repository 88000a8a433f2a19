//! Happens-before data-race detection.
//!
//! Every thread carries a vector clock. Each allocation remembers, per
//! accessed byte range, who accessed it and in which epoch. A new access
//! races with a recorded one when the two come from different threads,
//! touch overlapping ranges, at least one of them writes, and the recorded
//! access does not happen-before the new one — that is, the accessing
//! thread's clock has not caught up with the recorded epoch. A detected
//! race is fatal and is reported before the access is committed.
//!
//! Happens-before edges are established only by synchronization: a
//! release/acquire pair through a synchronization clock, or joining a
//! terminated thread.

use vstd::prelude::*;
use crate::vclock::VClock;

verus! {

/// One recorded access to a byte range of an allocation.
#[derive(Debug, Clone, Copy, PartialEq, Eq, Structural)]
pub struct AccessRecord {
    /// The accessing thread.
    pub thread: usize,
    /// That thread's own clock entry at the time of the access.
    pub epoch: u64,
    /// First byte touched.
    pub start: u64,
    /// Number of bytes touched.
    pub len: u64,
    /// Whether the access wrote (deallocation counts as a write).
    pub is_write: bool,
}

/// A detected race: the recorded prior access and the new one.
#[derive(Debug, Clone, Copy, PartialEq, Eq, Structural)]
pub struct DataRace {
    pub prior: AccessRecord,
    pub thread: usize,
    pub is_write: bool,
    pub start: u64,
    pub len: u64,
}

/// Two byte ranges share at least one byte.
pub open spec fn ranges_overlap(s1: u64, l1: u64, s2: u64, l2: u64) -> bool {
    s1 < s2 + l2 && s2 < s1 + l1
}

/// The recorded access happens-before an access by a thread whose clock is
/// `c`: the accessor has knowledge of the recorded epoch.
pub open spec fn happens_before(r: AccessRecord, c: VClock) -> bool {
    r.epoch <= c.get(r.thread as int)
}

/// The recorded access conflicts with a new access: different threads,
/// overlapping ranges, at least one write.
pub open spec fn conflicts(
    r: AccessRecord,
    thread: usize,
    is_write: bool,
    start: u64,
    len: u64,
) -> bool {
    &&& r.thread != thread
    &&& (r.is_write || is_write)
    &&& ranges_overlap(r.start, r.len, start, len)
}

/// Per-thread state of the race detector.
pub struct GlobalState {
    /// One vector clock per thread, indexed by thread id.
    pub thread_clocks: Vec<VClock>,
}

/// Per-allocation state of the race detector: every access recorded so
/// far.
pub struct AllocState {
    pub records: Vec<AccessRecord>,
}

impl AllocState {
    /// The new access races with some recorded one.
    pub open spec fn is_race(
        self,
        c: VClock,
        thread: usize,
        is_write: bool,
        start: u64,
        len: u64,
    ) -> bool {
        exists|i: int|
            0 <= i < self.records@.len() && conflicts(
                #[trigger] self.records@[i],
                thread,
                is_write,
                start,
                len,
            ) && !happens_before(self.records@[i], c)
    }

    /// Fresh race state for a new allocation: its creation counts as a
    /// write of the whole block by the allocating thread.
    pub fn new_allocation(thread: usize, epoch: u64, size: u64) -> (r: AllocState)
        ensures
            r.records@ =~= seq![
                AccessRecord { thread, epoch, start: 0u64, len: size, is_write: true },
            ],
    {
        let mut records: Vec<AccessRecord> = Vec::new();
        records.push(AccessRecord { thread, epoch, start: 0, len: size, is_write: true });
        AllocState { records }
    }

    /// Judge one access against everything recorded, without recording
    /// anything.
    pub fn check_access(
        &self,
        c: &VClock,
        thread: usize,
        is_write: bool,
        start: u64,
        len: u64,
    ) -> (r: Option<DataRace>)
        requires
            start + len <= u64::MAX,
        ensures
            (r is Some) == self.is_race(*c, thread, is_write, start, len),
            r matches Some(d) ==> {
                &&& exists|i: int| 0 <= i < self.records@.len() && self.records@[i] == d.prior
                &&& conflicts(d.prior, thread, is_write, start, len)
                &&& !happens_before(d.prior, *c)
                &&& d.thread == thread
                &&& d.is_write == is_write
                &&& d.start == start
                &&& d.len == len
            },
    {
        let mut idx: usize = 0;
        while idx < self.records.len()
            invariant
                idx <= self.records@.len(),
                start + len <= u64::MAX,
                forall|i: int|
                    0 <= i < idx ==> !(conflicts(
                        #[trigger] self.records@[i],
                        thread,
                        is_write,
                        start,
                        len,
                    ) && !happens_before(self.records@[i], *c)),
            decreases self.records@.len() - idx,
        {
            let rec = self.records[idx];
            if rec.thread != thread && (rec.is_write || is_write) && rec.start < start + len
                && (start as u128) < (rec.start as u128) + (rec.len as u128) {
                if !(rec.epoch <= c.entry(rec.thread)) {
                    return Some(DataRace { prior: rec, thread, is_write, start, len });
                }
            }
            idx += 1;
        }
        None
    }

    /// Check one access against everything recorded, and record it if no
    /// race is found. A race is reported before the access is committed:
    /// nothing is recorded then.
    pub fn mem_access(
        &mut self,
        c: &VClock,
        thread: usize,
        is_write: bool,
        start: u64,
        len: u64,
    ) -> (r: Result<(), DataRace>)
        requires
            start + len <= u64::MAX,
        ensures
            (r is Err) == old(self).is_race(*c, thread, is_write, start, len),
            r is Err ==> *final(self) == *old(self),
            r matches Err(d) ==> {
                &&& exists|i: int|
                    0 <= i < old(self).records@.len() && old(self).records@[i] == d.prior
                &&& conflicts(d.prior, thread, is_write, start, len)
                &&& !happens_before(d.prior, *c)
                &&& d.thread == thread
                &&& d.is_write == is_write
                &&& d.start == start
                &&& d.len == len
            },
            r is Ok ==> final(self).records@ =~= old(self).records@.push(
                AccessRecord { thread, epoch: c.get(thread as int), start, len, is_write },
            ),
    {
        let mut idx: usize = 0;
        while idx < self.records.len()
            invariant
                *self == *old(self),
                idx <= self.records@.len(),
                start + len <= u64::MAX,
                forall|i: int|
                    0 <= i < idx ==> !(conflicts(
                        #[trigger] self.records@[i],
                        thread,
                        is_write,
                        start,
                        len,
                    ) && !happens_before(self.records@[i], *c)),
            decreases self.records@.len() - idx,
        {
            let rec = self.records[idx];
            if rec.thread != thread && (rec.is_write || is_write) && rec.start < start + len
                && (start as u128) < (rec.start as u128) + (rec.len as u128) {
                if !(rec.epoch <= c.entry(rec.thread)) {
                    return Err(
                        DataRace { prior: rec, thread, is_write, start, len },
                    );
                }
            }
            idx += 1;
        }
        let epoch = c.entry(thread);
        self.records.push(AccessRecord { thread, epoch, start, len, is_write });
        Ok(())
    }
}

/// If some recorded access conflicts with a new one and does not
/// happen-before it, the new access is flagged as a race: two
/// unsynchronized accesses from different threads to overlapping byte
/// ranges, at least one a write, never pass silently.
pub proof fn lemma_unsynchronized_conflict_is_race(
    s: AllocState,
    c: VClock,
    thread: usize,
    is_write: bool,
    start: u64,
    len: u64,
    i: int,
)
    requires
        0 <= i < s.records@.len(),
        conflicts(s.records@[i], thread, is_write, start, len),
        !happens_before(s.records@[i], c),
    ensures
        s.is_race(c, thread, is_write, start, len),
{
}

impl GlobalState {
    /// The clock of thread `t`; the all-zero clock where none is stored.
    pub open spec fn clock_of(self, t: int) -> VClock
        recommends
            0 <= t < self.thread_clocks@.len(),
    {
        self.thread_clocks@[t]
    }

    /// Fresh detector state with `n` threads, none of which has any
    /// knowledge yet beyond its own first epoch.
    pub fn new() -> (r: GlobalState)
        ensures
            r.thread_clocks@.len() == 1,
            forall|i: int| r.clock_of(0).get(i) == if i == 0 { 1u64 } else { 0u64 },
    {
        let mut clock = VClock::new();
        clock.advance(0);
        let mut thread_clocks: Vec<VClock> = Vec::new();
        thread_clocks.push(clock);
        GlobalState { thread_clocks }
    }

    /// Register a new thread spawned by `parent`: the child inherits the
    /// parent's knowledge (the spawn is a happens-before edge), and both
    /// begin a new epoch. Returns the child's id.
    pub fn thread_created(&mut self, parent: usize) -> (child: usize)
        requires
            parent < old(self).thread_clocks@.len(),
            old(self).clock_of(parent as int).get(parent as int) < u64::MAX,
            old(self).clock_of(parent as int).get(old(self).thread_clocks@.len() as int)
                < u64::MAX,
        ensures
            child == old(self).thread_clocks@.len(),
            final(self).thread_clocks@.len() == old(self).thread_clocks@.len() + 1,
            // the child knows everything the parent knew
            forall|i: int|
                #![trigger final(self).clock_of(child as int).get(i)]
                i != child ==> final(self).clock_of(child as int).get(i) == old(self).clock_of(
                    parent as int,
                ).get(i),
            final(self).clock_of(child as int).get(child as int) == old(self).clock_of(
                parent as int,
            ).get(child as int) + 1,
            // the parent begins a new epoch
            forall|i: int|
                #![trigger final(self).clock_of(parent as int).get(i)]
                i != parent ==> final(self).clock_of(parent as int).get(i) == old(self).clock_of(
                    parent as int,
                ).get(i),
            final(self).clock_of(parent as int).get(parent as int) == old(self).clock_of(
                parent as int,
            ).get(parent as int) + 1,
            // other threads are untouched
            forall|t: int|
                0 <= t < old(self).thread_clocks@.len() && t != parent ==> final(self).clock_of(t)
                    == old(self).clock_of(t),
    {
        let child = self.thread_clocks.len();
        let mut child_clock = self.thread_clocks[parent].duplicate();
        child_clock.advance(child);
        self.thread_clocks.push(child_clock);
        let mut parent_clock = self.thread_clocks.remove(parent);
        parent_clock.advance(parent);
        self.thread_clocks.insert(parent, parent_clock);
        child
    }

    /// Establish the happens-before edge of joining a terminated thread:
    /// the joiner learns everything the joined thread knew.
    pub fn thread_joined(&mut self, joiner: usize, joinee: usize)
        requires
            joiner < old(self).thread_clocks@.len(),
            joinee < old(self).thread_clocks@.len(),
            joiner != joinee,
        ensures
            final(self).thread_clocks@.len() == old(self).thread_clocks@.len(),
            forall|i: int|
                #![trigger final(self).clock_of(joiner as int).get(i)]
                final(self).clock_of(joiner as int).get(i) == if old(self).clock_of(
                    joiner as int,
                ).get(i) >= old(self).clock_of(joinee as int).get(i) {
                    old(self).clock_of(joiner as int).get(i)
                } else {
                    old(self).clock_of(joinee as int).get(i)
                },
            forall|t: int|
                0 <= t < old(self).thread_clocks@.len() && t != joiner ==> final(self).clock_of(t)
                    == old(self).clock_of(t),
    {
        let joinee_clock = self.thread_clocks[joinee].duplicate();
        let mut joiner_clock = self.thread_clocks.remove(joiner);
        joiner_clock.join(&joinee_clock);
        self.thread_clocks.insert(joiner, joiner_clock);
        proof {
            assert(forall|i: int|
                #![trigger joinee_clock.get(i)]
                joinee_clock.get(i) == old(self).clock_of(joinee as int).get(i));
        }
    }

    /// A release operation: the releasing thread publishes its knowledge
    /// into the synchronization clock and begins a new epoch.
    pub fn release(&mut self, thread: usize, sync: &mut VClock)
        requires
            thread < old(self).thread_clocks@.len(),
            old(self).clock_of(thread as int).get(thread as int) < u64::MAX,
        ensures
            final(self).thread_clocks@.len() == old(self).thread_clocks@.len(),
            forall|i: int|
                #![trigger final(sync).get(i)]
                final(sync).get(i) == if old(sync).get(i) >= old(self).clock_of(thread as int).get(
                    i,
                ) {
                    old(sync).get(i)
                } else {
                    old(self).clock_of(thread as int).get(i)
                },
            final(self).clock_of(thread as int).get(thread as int) == old(self).clock_of(
                thread as int,
            ).get(thread as int) + 1,
            forall|i: int|
                #![trigger final(self).clock_of(thread as int).get(i)]
                i != thread ==> final(self).clock_of(thread as int).get(i) == old(self).clock_of(
                    thread as int,
                ).get(i),
            forall|t: int|
                0 <= t < old(self).thread_clocks@.len() && t != thread ==> final(self).clock_of(t)
                    == old(self).clock_of(t),
    {
        let mut thread_clock = self.thread_clocks.remove(thread);
        sync.join(&thread_clock);
        thread_clock.advance(thread);
        self.thread_clocks.insert(thread, thread_clock);
    }

    /// An acquire operation: the acquiring thread learns everything that
    /// was released into the synchronization clock.
    pub fn acquire(&mut self, thread: usize, sync: &VClock)
        requires
            thread < old(self).thread_clocks@.len(),
        ensures
            final(self).thread_clocks@.len() == old(self).thread_clocks@.len(),
            forall|i: int|
                #![trigger final(self).clock_of(thread as int).get(i)]
                final(self).clock_of(thread as int).get(i) == if old(self).clock_of(
                    thread as int,
                ).get(i) >= sync.get(i) {
                    old(self).clock_of(thread as int).get(i)
                } else {
                    sync.get(i)
                },
            forall|t: int|
                0 <= t < old(self).thread_clocks@.len() && t != thread ==> final(self).clock_of(t)
                    == old(self).clock_of(t),
    {
        let mut thread_clock = self.thread_clocks.remove(thread);
        thread_clock.join(sync);
        self.thread_clocks.insert(thread, thread_clock);
    }
}

} // verus!
