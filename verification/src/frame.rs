//! Call frames and the values they hold.
//!
//! A frame carries the aliasing monitor's per-frame state, an optional
//! catch marker for the one frame allowed to intercept an unwinding panic,
//! a random salt fixed for the frame's lifetime — mixed into constant-cache
//! keys — and a flag marking whether the frame belongs to code the user
//! should see in diagnostics.

use vstd::prelude::*;
use crate::monitor;
use crate::provenance::Provenance;

verus! {

/// A pointer value: provenance plus an absolute address.
#[derive(Debug, Clone, Copy)]
pub struct Pointer {
    pub provenance: Provenance,
    pub addr: u64,
}

/// A value a local or a constant can hold: a plain integer or a pointer.
#[derive(Debug, Clone, Copy)]
pub enum Value {
    Int(u64),
    Ptr(Pointer),
}

/// The marker of the one designated unwind-catching frame, with the
/// handler to run when a panic is intercepted there.
#[derive(Debug, Clone, Copy, PartialEq, Eq, Structural)]
pub struct CatchData {
    /// The callable that handles the caught panic.
    pub handler: u64,
}

/// Extra data stored with each stack frame.
pub struct FrameExtra {
    /// The aliasing monitor's per-frame state, while the monitor is
    /// enabled.
    pub borrow_tracker: Option<monitor::FrameState>,
    /// Set on the one frame that catches an unwinding panic: unwinding
    /// stops there and the handler runs.
    pub catch_data: Option<CatchData>,
    /// Whether the frame belongs to code the user should see in
    /// diagnostics.
    pub is_user_relevant: bool,
    /// Random salt, fixed for the frame's lifetime, mixed into
    /// constant-cache keys.
    pub salt: u64,
}

/// One activation record: its local values, the source span of its call
/// site, and the extra data.
pub struct Frame {
    pub locals: Vec<Value>,
    /// Source span of the call, for backtraces.
    pub span: u64,
    pub extra: FrameExtra,
}

impl Frame {
    /// Append the provenance of every pointer value this frame holds to
    /// the accumulator. Everything already accumulated stays; the tag
    /// collector may keep more than what is reachable, never less.
    pub fn visit_provenance(&self, acc: &mut Vec<Provenance>)
        ensures
            final(acc)@.len() >= old(acc)@.len(),
            forall|i: int| 0 <= i < old(acc)@.len() ==> final(acc)@[i] == old(acc)@[i],
            forall|i: int|
                0 <= i < self.locals@.len() && self.locals@[i] is Ptr ==> final(acc)@.contains(
                    (#[trigger] self.locals@[i])->Ptr_0.provenance,
                ),
    {
        let mut idx: usize = 0;
        while idx < self.locals.len()
            invariant
                idx <= self.locals@.len(),
                acc@.len() >= old(acc)@.len(),
                forall|i: int| 0 <= i < old(acc)@.len() ==> acc@[i] == old(acc)@[i],
                forall|i: int|
                    0 <= i < idx && self.locals@[i] is Ptr ==> acc@.contains(
                        (#[trigger] self.locals@[i])->Ptr_0.provenance,
                    ),
            decreases self.locals@.len() - idx,
        {
            let ghost acc_pre = acc@;
            match &self.locals[idx] {
                Value::Ptr(p) => {
                    acc.push(p.provenance);
                    proof {
                        assert(acc@[acc@.len() - 1] == p.provenance);
                        assert forall|i: int|
                            0 <= i < idx + 1 && self.locals@[i] is Ptr implies acc@.contains(
                            (#[trigger] self.locals@[i])->Ptr_0.provenance,
                        ) by {
                            if i < idx {
                                let k = choose|k: int|
                                    0 <= k < acc_pre.len() && acc_pre[k]
                                        == self.locals@[i]->Ptr_0.provenance;
                                assert(acc@[k] == self.locals@[i]->Ptr_0.provenance);
                            } else {
                                assert(acc@[acc@.len() - 1] == self.locals@[i]->Ptr_0.provenance);
                            }
                        }
                    }
                },
                Value::Int(_) => {},
            }
            idx += 1;
        }
    }
}

/// Extending a sequence at the end keeps everything it contained.
pub proof fn lemma_prefix_preserves_contains<T>(s1: Seq<T>, s2: Seq<T>)
    requires
        s1.len() <= s2.len(),
        forall|i: int| 0 <= i < s1.len() ==> s1[i] == s2[i],
    ensures
        forall|x: T| s1.contains(x) ==> s2.contains(x),
{
    assert forall|x: T| s1.contains(x) implies s2.contains(x) by {
        let k = choose|k: int| 0 <= k < s1.len() && s1[k] == x;
        assert(s2[k] == x);
    }
}

} // verus!
