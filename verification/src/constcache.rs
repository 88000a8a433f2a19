//! The constant-evaluation cache.
//!
//! Evaluated constants are memoized per (constant identity, frame salt).
//! The salt is fixed per frame and drawn below a small bound, so a
//! constant takes at most that many distinct results — and addresses — over
//! a whole run, while any two evaluations under the same key are
//! guaranteed identical: the first result is stored and every later
//! evaluation under the same key returns it unchanged, whatever a
//! recomputation would have produced.

use vstd::prelude::*;
use crate::frame::Value;

verus! {

/// Each constant has multiple addresses, but only this many: frame salts
/// are drawn below this bound, so at most this many cache keys — and thus
/// evaluation results — exist per constant.
pub const ADDRS_PER_CONST: u64 = 16;

/// One memoized result.
pub struct ConstCacheEntry {
    pub const_id: u64,
    pub salt: u64,
    pub value: Value,
}

/// The memoized results of constant evaluation.
pub struct ConstCache {
    pub entries: Vec<ConstCacheEntry>,
}

impl ConstCache {
    /// The entry at `i` carries the key.
    pub open spec fn has_key_at(self, i: int, const_id: u64, salt: u64) -> bool {
        &&& 0 <= i < self.entries@.len()
        &&& self.entries@[i].const_id == const_id
        &&& self.entries@[i].salt == salt
    }

    /// Some entry carries the key.
    pub open spec fn contains_key(self, const_id: u64, salt: u64) -> bool {
        exists|i: int| self.has_key_at(i, const_id, salt)
    }

    /// The stored result for a key. Keys are unique in a well-formed
    /// cache, so the value does not depend on the witness.
    pub open spec fn stored_value(self, const_id: u64, salt: u64) -> Value
        recommends
            self.contains_key(const_id, salt),
    {
        let i = choose|i: int| self.has_key_at(i, const_id, salt);
        self.entries@[i].value
    }

    /// Keys are pairwise distinct.
    pub open spec fn wf(self) -> bool {
        forall|i: int, j: int|
            0 <= i < j < self.entries@.len() ==> !(self.entries@[i].const_id
                == self.entries@[j].const_id && self.entries@[i].salt == self.entries@[j].salt)
    }

    /// An empty cache.
    pub fn new() -> (r: ConstCache)
        ensures
            r.entries@.len() == 0,
            r.wf(),
    {
        ConstCache { entries: Vec::new() }
    }

    /// Evaluate a constant through the cache: a hit returns the stored
    /// value and leaves the cache untouched — so any two evaluations under
    /// one key are identical, whatever the recomputation would have
    /// produced — and a miss stores and returns `computed`.
    pub fn eval_const(&mut self, const_id: u64, salt: u64, computed: Value) -> (r: Value)
        requires
            old(self).wf(),
        ensures
            final(self).wf(),
            old(self).contains_key(const_id, salt) ==> r == old(self).stored_value(const_id, salt)
                && *final(self) == *old(self),
            !old(self).contains_key(const_id, salt) ==> r == computed && final(self).entries@
                =~= old(self).entries@.push(ConstCacheEntry { const_id, salt, value: computed }),
            final(self).contains_key(const_id, salt),
            final(self).stored_value(const_id, salt) == r,
    {
        let mut idx: usize = 0;
        while idx < self.entries.len()
            invariant
                idx <= self.entries@.len(),
                *self == *old(self),
                old(self).wf(),
                forall|i: int| 0 <= i < idx ==> !self.has_key_at(i, const_id, salt),
            decreases self.entries@.len() - idx,
        {
            if self.entries[idx].const_id == const_id && self.entries[idx].salt == salt {
                let v = self.entries[idx].value;
                proof {
                    assert(self.has_key_at(idx as int, const_id, salt));
                    let w = choose|i: int| self.has_key_at(i, const_id, salt);
                    if w < idx {
                        assert(!(self.entries@[w].const_id == self.entries@[idx as int].const_id
                            && self.entries@[w].salt == self.entries@[idx as int].salt));
                    } else if w > idx {
                        assert(!(self.entries@[idx as int].const_id == self.entries@[w].const_id
                            && self.entries@[idx as int].salt == self.entries@[w].salt));
                    }
                    assert(w == idx);
                }
                return v;
            }
            idx += 1;
        }
        self.entries.push(ConstCacheEntry { const_id, salt, value: computed });
        proof {
            let n = old(self).entries@.len() as int;
            assert(self.has_key_at(n, const_id, salt));
            assert forall|i: int, j: int|
                0 <= i < j < self.entries@.len() implies !(self.entries@[i].const_id
                == self.entries@[j].const_id && self.entries@[i].salt
                == self.entries@[j].salt) by {
                if j < n {
                    assert(!(old(self).entries@[i].const_id == old(self).entries@[j].const_id
                        && old(self).entries@[i].salt == old(self).entries@[j].salt));
                } else {
                    assert(!old(self).has_key_at(i, const_id, salt));
                    assert(self.entries@[i] == old(self).entries@[i]);
                }
            }
            let w = choose|i: int| self.has_key_at(i, const_id, salt);
            if w < n {
                assert(old(self).has_key_at(w, const_id, salt));
            }
            assert(w == n);
        }
        computed
    }
}

} // verus!
