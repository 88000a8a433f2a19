//! The thread scheduler.
//!
//! Each thread is runnable, blocked for a reason, or terminated. At most
//! one thread executes at any instant. At each control-flow step boundary
//! the scheduler consults a draw from the run's seeded random stream and,
//! with the configured probability, preempts the active thread in favour
//! of the next runnable thread in round-robin order — a fixed
//! deterministic rule, so two runs with the same seed and preemption rate
//! produce the same schedule. A blocking operation hands control to
//! another runnable thread; when none is runnable and someone is blocked,
//! the run deadlocks.

use vstd::prelude::*;
use crate::errors::InterpError;
use crate::frame::Frame;

verus! {

/// Why a thread is not runnable.
#[derive(Debug, Clone, Copy, PartialEq, Eq, Structural)]
pub enum BlockReason {
    /// Waiting for the thread with this id to terminate.
    Joining(usize),
    /// Waiting for the mutex with this id.
    Locking(u64),
    /// A timed sleep.
    Sleeping,
}

/// The scheduling state of one thread.
#[derive(Debug, Clone, Copy, PartialEq, Eq, Structural)]
pub enum ThreadState {
    Runnable,
    Blocked(BlockReason),
    Terminated,
}

/// One thread: an independent call stack plus its scheduling state.
pub struct Thread {
    pub state: ThreadState,
    pub stack: Vec<Frame>,
    /// The index of the topmost user-relevant frame, when known.
    pub top_user_relevant_frame: Option<usize>,
}

/// The set of threads and the active one.
pub struct ThreadManager {
    pub threads: Vec<Thread>,
    pub active: usize,
}

/// The first runnable thread in `s[lo..hi]`, scanning upward.
pub open spec fn scan_runnable(s: Seq<Thread>, lo: int, hi: int) -> Option<int>
    decreases hi - lo,
{
    if lo >= hi || lo < 0 {
        None
    } else if s[lo].state is Runnable {
        Some(lo)
    } else {
        scan_runnable(s, lo + 1, hi)
    }
}

/// A successful scan returns the first runnable index in range.
pub proof fn lemma_scan_runnable_first(s: Seq<Thread>, lo: int, hi: int, j: int)
    requires
        0 <= lo <= j < hi,
        s[j].state is Runnable,
        forall|k: int| lo <= k < j ==> !((#[trigger] s[k]).state is Runnable),
    ensures
        scan_runnable(s, lo, hi) == Some(j),
    decreases j - lo,
{
    if lo < j {
        lemma_scan_runnable_first(s, lo + 1, hi, j);
    }
}

/// A scan over a range without a runnable thread finds nothing.
pub proof fn lemma_scan_runnable_none(s: Seq<Thread>, lo: int, hi: int)
    requires
        0 <= lo,
        forall|k: int| lo <= k < hi ==> !((#[trigger] s[k]).state is Runnable),
    ensures
        scan_runnable(s, lo, hi) is None,
    decreases hi - lo,
{
    if lo < hi {
        lemma_scan_runnable_none(s, lo + 1, hi);
    }
}

/// Whatever a scan returns lies in its range and is runnable.
pub proof fn lemma_scan_runnable_bounds(s: Seq<Thread>, lo: int, hi: int)
    ensures
        scan_runnable(s, lo, hi) matches Some(j) ==> lo <= j < hi && s[j].state is Runnable,
    decreases hi - lo,
{
    if lo < hi && 0 <= lo && !(s[lo].state is Runnable) {
        lemma_scan_runnable_bounds(s, lo + 1, hi);
    }
}

impl ThreadManager {
    /// The active thread denotes a stored thread.
    pub open spec fn wf(self) -> bool {
        self.active < self.threads@.len()
    }

    /// The thread the fixed round-robin rule hands control to next: the
    /// first runnable thread after the active one, wrapping around —
    /// possibly the active thread itself, and nothing when no thread is
    /// runnable at all.
    pub open spec fn spec_next_runnable(self) -> Option<int> {
        match scan_runnable(self.threads@, self.active + 1, self.threads@.len() as int) {
            Some(j) => Some(j),
            None => scan_runnable(self.threads@, 0, self.active + 1),
        }
    }

    /// A manager with one runnable main thread, which is active.
    pub fn new(main_thread: Thread) -> (r: ThreadManager)
        requires
            main_thread.state is Runnable,
        ensures
            r.threads@.len() == 1,
            r.threads@[0] == main_thread,
            r.active == 0,
            r.wf(),
    {
        let mut threads: Vec<Thread> = Vec::new();
        threads.push(main_thread);
        ThreadManager { threads, active: 0 }
    }

    /// The id of the active thread.
    pub fn active_thread(&self) -> (r: usize)
        ensures
            r == self.active,
    {
        self.active
    }

    /// Spawn a new runnable thread; returns its id.
    pub fn spawn(&mut self, thread: Thread) -> (r: usize)
        requires
            old(self).wf(),
            thread.state is Runnable,
        ensures
            final(self).wf(),
            r == old(self).threads@.len(),
            final(self).threads@ =~= old(self).threads@.push(thread),
            final(self).active == old(self).active,
    {
        let id = self.threads.len();
        self.threads.push(thread);
        id
    }

    /// Find the next runnable thread by the fixed round-robin rule.
    fn next_runnable(&self) -> (r: Option<usize>)
        requires
            self.wf(),
        ensures
            (r is Some) == (self.spec_next_runnable() is Some),
            r matches Some(j) ==> Some(j as int) == self.spec_next_runnable(),
    {
        let n = self.threads.len();
        let mut idx: usize = self.active + 1;
        while idx < n
            invariant
                self.wf(),
                self.active + 1 <= idx <= n,
                n == self.threads@.len(),
                scan_runnable(self.threads@, self.active + 1, n as int) == scan_runnable(
                    self.threads@,
                    idx as int,
                    n as int,
                ),
            decreases n - idx,
        {
            if matches!(self.threads[idx].state, ThreadState::Runnable) {
                return Some(idx);
            }
            idx += 1;
        }
        let mut idx2: usize = 0;
        while idx2 < self.active + 1
            invariant
                self.wf(),
                n == self.threads@.len(),
                self.active < n,
                idx2 <= self.active + 1,
                scan_runnable(self.threads@, self.active + 1, self.threads@.len() as int)
                    is None,
                scan_runnable(self.threads@, 0, self.active + 1) == scan_runnable(
                    self.threads@,
                    idx2 as int,
                    self.active + 1,
                ),
            decreases self.active + 1 - idx2,
        {
            if matches!(self.threads[idx2].state, ThreadState::Runnable) {
                return Some(idx2);
            }
            idx2 += 1;
        }
        None
    }

    /// Push a frame onto the active thread's stack.
    pub fn push_frame(&mut self, f: Frame)
        requires
            old(self).wf(),
        ensures
            final(self).wf(),
            final(self).active == old(self).active,
            final(self).threads@.len() == old(self).threads@.len(),
            forall|t: int|
                0 <= t < old(self).threads@.len() && t != old(self).active ==> final(self).threads@[t] == old(self).threads@[t],
            final(self).threads@[old(self).active as int].stack@ =~= old(self).threads@[old(self).active as int].stack@.push(f),
            final(self).threads@[old(self).active as int].state == old(self).threads@[old(self).active as int].state,
            final(self).threads@[old(self).active as int].top_user_relevant_frame == old(self).threads@[old(self).active as int].top_user_relevant_frame,
    {
        let a = self.active;
        let mut t = self.threads.remove(a);
        t.stack.push(f);
        self.threads.insert(a, t);
    }

    /// Pop the top frame of the active thread's stack, if any.
    pub fn pop_frame(&mut self) -> (r: Option<Frame>)
        requires
            old(self).wf(),
        ensures
            final(self).wf(),
            final(self).active == old(self).active,
            final(self).threads@.len() == old(self).threads@.len(),
            forall|t: int|
                0 <= t < old(self).threads@.len() && t != old(self).active ==> final(self).threads@[t] == old(self).threads@[t],
            (r is Some) == (old(self).threads@[old(self).active as int].stack@.len() > 0),
            r matches Some(f) ==> f == old(self).threads@[old(self).active as int].stack@.last()
                && final(self).threads@[old(self).active as int].stack@ =~= old(self).threads@[old(self).active as int].stack@.drop_last(),
            r is None ==> *final(self) == *old(self),
            final(self).threads@[old(self).active as int].state == old(self).threads@[old(self).active as int].state,
            final(self).threads@[old(self).active as int].top_user_relevant_frame == old(self).threads@[old(self).active as int].top_user_relevant_frame,
    {
        let a = self.active;
        if self.threads[a].stack.len() == 0 {
            return None;
        }
        let mut t = self.threads.remove(a);
        let f = t.stack.pop();
        self.threads.insert(a, t);
        proof {
            assert(self.threads@ =~= old(self).threads@.update(
                a as int,
                self.threads@[a as int],
            ));
        }
        f
    }

    /// Record which frame of the active thread is the topmost
    /// user-relevant one.
    pub fn set_top_user_relevant_frame(&mut self, i: Option<usize>)
        requires
            old(self).wf(),
        ensures
            final(self).wf(),
            final(self).active == old(self).active,
            final(self).threads@.len() == old(self).threads@.len(),
            forall|t: int|
                0 <= t < old(self).threads@.len() && t != old(self).active ==> final(self).threads@[t] == old(self).threads@[t],
            final(self).threads@[old(self).active as int].top_user_relevant_frame == i,
            final(self).threads@[old(self).active as int].stack == old(self).threads@[old(self).active as int].stack,
            final(self).threads@[old(self).active as int].state == old(self).threads@[old(self).active as int].state,
    {
        let a = self.active;
        let mut t = self.threads.remove(a);
        t.top_user_relevant_frame = i;
        self.threads.insert(a, t);
    }

    /// Hand control to a specific runnable thread: how a synchronization
    /// operation wakes a particular thread.
    pub fn set_active(&mut self, t: usize)
        requires
            old(self).wf(),
            t < old(self).threads@.len(),
            old(self).threads@[t as int].state is Runnable,
        ensures
            final(self).wf(),
            final(self).threads == old(self).threads,
            final(self).active == t,
    {
        self.active = t;
    }

    /// The preemption point: with the draw below the configured
    /// threshold — the preemption probability in units of two to the
    /// minus thirty-two — hand control to the next runnable thread by the
    /// round-robin rule. Everything but the choice of active thread is
    /// untouched, and the choice is a function of the state and the draw
    /// alone.
    pub fn maybe_preempt(&mut self, draw: u32, threshold: u64)
        requires
            old(self).wf(),
        ensures
            final(self).wf(),
            final(self).threads == old(self).threads,
            final(self).active as int == (if (draw as u64) < threshold {
                match old(self).spec_next_runnable() {
                    Some(j) => j,
                    None => old(self).active as int,
                }
            } else {
                old(self).active as int
            }),
    {
        if (draw as u64) < threshold {
            proof {
                lemma_scan_runnable_bounds(
                    self.threads@,
                    self.active + 1,
                    self.threads@.len() as int,
                );
                lemma_scan_runnable_bounds(self.threads@, 0, self.active + 1);
            }
            match self.next_runnable() {
                Some(j) => {
                    self.active = j;
                },
                None => {},
            }
        }
    }

    /// Block the active thread for the given reason and hand control to
    /// another runnable thread. When none is runnable the run deadlocks,
    /// fatally.
    pub fn block_active(&mut self, reason: BlockReason) -> (r: Result<(), InterpError>)
        requires
            old(self).wf(),
        ensures
            final(self).wf(),
            final(self).threads@.len() == old(self).threads@.len(),
            forall|t: int|
                0 <= t < old(self).threads@.len() && t != old(self).active ==> final(self).threads@[t] == old(self).threads@[t],
            final(self).threads@[old(self).active as int].state == ThreadState::Blocked(reason),
            final(self).threads@[old(self).active as int].stack == old(self).threads@[old(self).active as int].stack,
            (r is Err) == (scan_runnable(
                final(self).threads@,
                0,
                final(self).threads@.len() as int,
            ) is None),
            r == Err::<(), InterpError>(InterpError::Deadlock) || r == Ok::<(), InterpError>(()),
            r is Ok ==> final(self).threads@[final(self).active as int].state is Runnable
                && Some(final(self).active as int) == scan_runnable(
                final(self).threads@,
                0,
                final(self).threads@.len() as int,
            ),
    {
        let mut t = self.threads.remove(self.active);
        t.state = ThreadState::Blocked(reason);
        self.threads.insert(self.active, t);
        let mut idx: usize = 0;
        let n = self.threads.len();
        while idx < n
            invariant
                idx <= n,
                n == self.threads@.len(),
                self.wf(),
                scan_runnable(self.threads@, 0, n as int) == scan_runnable(
                    self.threads@,
                    idx as int,
                    n as int,
                ),
                self.threads@.len() == old(self).threads@.len(),
                self.active == old(self).active,
                forall|t2: int|
                    0 <= t2 < old(self).threads@.len() && t2 != old(self).active
                        ==> self.threads@[t2] == old(self).threads@[t2],
                self.threads@[old(self).active as int].state == ThreadState::Blocked(reason),
                self.threads@[old(self).active as int].stack == old(self).threads@[old(self).active as int].stack,
            decreases n - idx,
        {
            if matches!(self.threads[idx].state, ThreadState::Runnable) {
                proof {
                    assert(scan_runnable(self.threads@, idx as int, n as int) == Some(
                        idx as int,
                    ));
                }
                self.active = idx;
                return Ok(());
            }
            idx += 1;
        }
        Err(InterpError::Deadlock)
    }

    /// Terminate the active thread and hand control to another runnable
    /// thread. Threads blocked joining the terminated one wake up. With no
    /// runnable thread left the run either ends — everyone terminated — or
    /// deadlocks.
    pub fn terminate_active(&mut self) -> (r: Result<Option<usize>, InterpError>)
        requires
            old(self).wf(),
        ensures
            final(self).wf(),
            final(self).threads@.len() == old(self).threads@.len(),
            final(self).threads@[old(self).active as int].state is Terminated,
            // joiners of the terminated thread wake, everyone else keeps
            // their state
            forall|t: int|
                0 <= t < old(self).threads@.len() && t != old(self).active ==> final(self).threads@[t].state == (if old(self).threads@[t].state == ThreadState::Blocked(
                    BlockReason::Joining(old(self).active),
                ) {
                    ThreadState::Runnable
                } else {
                    old(self).threads@[t].state
                }),
            forall|t: int|
                0 <= t < old(self).threads@.len() ==> final(self).threads@[t].stack == old(self).threads@[t].stack,
            r matches Ok(Some(j)) ==> final(self).active == j && final(self).threads@[j as int].state is Runnable && Some(j as int) == scan_runnable(
                final(self).threads@,
                0,
                final(self).threads@.len() as int,
            ),
            r matches Ok(None) ==> forall|t: int|
                0 <= t < final(self).threads@.len() ==> final(self).threads@[t].state
                    is Terminated,
            r matches Err(e) ==> e == InterpError::Deadlock && scan_runnable(
                final(self).threads@,
                0,
                final(self).threads@.len() as int,
            ) is None && !(forall|t: int|
                0 <= t < final(self).threads@.len() ==> (#[trigger] final(self).threads@[t]).state
                    is Terminated),
    {
        let me = self.active;
        let mut t = self.threads.remove(me);
        t.state = ThreadState::Terminated;
        self.threads.insert(me, t);
        // wake joiners
        let mut k: usize = 0;
        let n = self.threads.len();
        while k < n
            invariant
                k <= n,
                n == self.threads@.len() == old(self).threads@.len(),
                me == old(self).active < n,
                self.active == old(self).active,
                self.threads@[me as int].state is Terminated,
                self.threads@[me as int].stack == old(self).threads@[me as int].stack,
                forall|t2: int|
                    0 <= t2 < n ==> self.threads@[t2].stack == old(self).threads@[t2].stack,
                forall|t2: int|
                    k <= t2 < n && t2 != me ==> self.threads@[t2].state == old(self).threads@[t2].state,
                forall|t2: int|
                    0 <= t2 < k && t2 != me ==> self.threads@[t2].state == (if old(self).threads@[t2].state == ThreadState::Blocked(BlockReason::Joining(me)) {
                        ThreadState::Runnable
                    } else {
                        old(self).threads@[t2].state
                    }),
                forall|t2: int|
                    0 <= t2 < n ==> self.threads@[t2].top_user_relevant_frame == old(self).threads@[t2].top_user_relevant_frame,
            decreases n - k,
        {
            if k != me {
                let waiting = matches!(
                    self.threads[k].state,
                    ThreadState::Blocked(BlockReason::Joining(_)),
                );
                if waiting {
                    let target = match self.threads[k].state {
                        ThreadState::Blocked(BlockReason::Joining(j)) => j,
                        _ => 0,
                    };
                    if target == me {
                        let mut w = self.threads.remove(k);
                        w.state = ThreadState::Runnable;
                        self.threads.insert(k, w);
                    }
                }
            }
            k += 1;
        }
        // hand control on
        let mut idx: usize = 0;
        let ghost mid = *self;
        while idx < n
            invariant
                idx <= n,
                n == self.threads@.len(),
                *self == mid,
                mid.wf(),
                mid.threads@.len() == old(self).threads@.len(),
                mid.active == old(self).active,
                me == old(self).active,
                mid.threads@[me as int].state is Terminated,
                forall|t2: int|
                    0 <= t2 < old(self).threads@.len() && t2 != me ==> mid.threads@[t2].state == (
                    if old(self).threads@[t2].state == ThreadState::Blocked(
                        BlockReason::Joining(me),
                    ) {
                        ThreadState::Runnable
                    } else {
                        old(self).threads@[t2].state
                    }),
                forall|t2: int|
                    0 <= t2 < old(self).threads@.len() ==> mid.threads@[t2].stack == old(self).threads@[t2].stack,
                forall|t2: int| 0 <= t2 < idx ==> !(mid.threads@[t2].state is Runnable),
            decreases n - idx,
        {
            if matches!(self.threads[idx].state, ThreadState::Runnable) {
                proof {
                    lemma_scan_runnable_first(
                        self.threads@,
                        0,
                        self.threads@.len() as int,
                        idx as int,
                    );
                }
                self.active = idx;
                return Ok(Some(idx));
            }
            idx += 1;
        }
        // no runnable thread: the run ends if everyone terminated, else
        // it deadlocks
        let mut all_done = true;
        let mut k2: usize = 0;
        while k2 < n
            invariant
                k2 <= n,
                n == self.threads@.len(),
                *self == mid,
                all_done == (forall|t2: int|
                    0 <= t2 < k2 ==> mid.threads@[t2].state is Terminated),
                forall|t2: int| 0 <= t2 < n ==> !(mid.threads@[t2].state is Runnable),
                mid.wf(),
                mid.active == old(self).active,
                me == old(self).active,
                mid.threads@.len() == old(self).threads@.len(),
                mid.threads@[me as int].state is Terminated,
                forall|t2: int|
                    0 <= t2 < old(self).threads@.len() && t2 != me ==> mid.threads@[t2].state == (
                    if old(self).threads@[t2].state == ThreadState::Blocked(
                        BlockReason::Joining(me),
                    ) {
                        ThreadState::Runnable
                    } else {
                        old(self).threads@[t2].state
                    }),
                forall|t2: int|
                    0 <= t2 < old(self).threads@.len() ==> mid.threads@[t2].stack == old(self).threads@[t2].stack,
            decreases n - k2,
        {
            if !matches!(self.threads[k2].state, ThreadState::Terminated) {
                all_done = false;
            }
            k2 += 1;
        }
        proof {
            lemma_scan_runnable_none(self.threads@, 0, self.threads@.len() as int);
        }
        if all_done {
            Ok(None)
        } else {
            Err(InterpError::Deadlock)
        }
    }
}

/// The schedule is a function of the scheduler state and the draw alone:
/// two equal managers given the same draw and threshold agree on whether
/// they preempt and on which thread runs next. With one seed the stream
/// of draws is fixed, so the whole schedule is reproduced run for run.
pub proof fn lemma_schedule_deterministic(
    m1: ThreadManager,
    m2: ThreadManager,
    draw: u32,
    threshold: u64,
)
    requires
        m1 == m2,
    ensures
        (if (draw as u64) < threshold {
            match m1.spec_next_runnable() {
                Some(j) => j,
                None => m1.active as int,
            }
        } else {
            m1.active as int
        }) == (if (draw as u64) < threshold {
            match m2.spec_next_runnable() {
                Some(j) => j,
                None => m2.active as int,
            }
        } else {
            m2.active as int
        }),
{
}

} // verus!
