//! Synthetic address assignment and exposure.
//!
//! Addresses are assigned to allocations lazily — on the first
//! pointer-to-integer exposure or diagnostic need, not at allocation time —
//! preserving the illusion that addresses are meaningless until observed.
//! Live ranges never overlap. Freed ranges go to a pool and may be reused
//! for future unrelated allocations of exactly the same layout; whether a
//! fitting pooled range is reused is decided by a draw from the run's
//! random stream, so one seed reproduces one address assignment.
//!
//! Exposure feeds wildcard resolution: an integer cast to a pointer acts
//! like any previously exposed pointer, so a wildcard access resolves
//! against the exposed allocation whose range contains the address — per
//! use, never persisted.

use vstd::prelude::*;
use crate::errors::InterpError;

verus! {

/// A live allocation's assigned address range.
#[derive(Debug, Clone, Copy, PartialEq, Eq, Structural)]
pub struct AddrEntry {
    /// The allocation's identifier.
    pub id: u64,
    /// Assigned base address.
    pub addr: u64,
    /// Size of the range in bytes.
    pub size: u64,
    /// Alignment of the base address.
    pub align: u64,
}

/// A freed range available for reuse.
#[derive(Debug, Clone, Copy, PartialEq, Eq, Structural)]
pub struct FreeRange {
    pub addr: u64,
    pub size: u64,
    pub align: u64,
}

/// Two ranges share no byte. An empty range overlaps nothing.
pub open spec fn disjoint(a1: u64, s1: u64, a2: u64, s2: u64) -> bool {
    s1 == 0 || s2 == 0 || a1 + s1 <= a2 || a2 + s2 <= a1
}

/// `x` rounded up to the next multiple of `align`.
pub open spec fn spec_align_up(x: int, align: int) -> int {
    ((x + align - 1) / align) * align
}

/// Rounding up lands on a multiple of the alignment, at or above `x` and
/// less than one whole alignment above it.
pub proof fn lemma_align_up(x: int, align: int)
    requires
        0 <= x,
        0 < align,
    ensures
        spec_align_up(x, align) % align == 0,
        x <= spec_align_up(x, align) < x + align,
{
    let n = x + align - 1;
    vstd::arithmetic::div_mod::lemma_fundamental_div_mod(n, align);
    let q = n / align;
    let r = n % align;
    vstd::arithmetic::div_mod::lemma_mod_division_less_than_divisor(n, align);
    assert(n == align * q + r);
    assert(q * align == n - r) by (nonlinear_arith)
        requires
            n == align * q + r,
    ;
    vstd::arithmetic::div_mod::lemma_mod_multiples_basic(q, align);
}

/// `x` rounded up to the next multiple of `align`, computed wide enough
/// that the intermediate sum cannot overflow.
fn align_up_u128(x: u64, align: u64) -> (r: u128)
    requires
        align > 0,
    ensures
        r == spec_align_up(x as int, align as int),
        r <= x + align - 1,
{
    let n: u128 = (x as u128) + ((align - 1) as u128);
    proof {
        vstd::arithmetic::div_mod::lemma_fundamental_div_mod(n as int, align as int);
        vstd::arithmetic::div_mod::lemma_mod_division_less_than_divisor(n as int, align as int);
        assert((n as int / align as int) * (align as int) == n as int - (n as int % align as int))
            by (nonlinear_arith)
            requires
                n as int == (align as int) * (n as int / align as int) + (n as int % align as int),
        ;
    }
    let q: u128 = n / (align as u128);
    q * (align as u128)
}

/// The address-assignment state.
pub struct GlobalState {
    /// Live allocations with an assigned base address.
    pub assigned: Vec<AddrEntry>,
    /// Identifiers of allocations whose pointers have been exposed.
    pub exposed: Vec<u64>,
    /// Freed ranges available for reuse.
    pub free_pool: Vec<FreeRange>,
    /// Fresh ranges are carved out at and above this address.
    pub next_base_addr: u64,
    /// No range may reach past this address.
    pub addr_space_max: u64,
}

impl GlobalState {
    /// Well-formedness: assigned identifiers are unique; every live or
    /// pooled range is aligned, nonempty at heart of the budget, and lies
    /// below the high-water mark; and all these ranges are pairwise
    /// disjoint.
    pub open spec fn wf(self) -> bool {
        &&& forall|i: int, j: int|
            0 <= i < j < self.assigned@.len() ==> self.assigned@[i].id != self.assigned@[j].id
        &&& forall|i: int|
            0 <= i < self.assigned@.len() ==> ((#[trigger] self.assigned@[i]).addr
                + self.assigned@[i].size <= self.next_base_addr && self.assigned@[i].align > 0
                && self.assigned@[i].addr % self.assigned@[i].align == 0
                && self.assigned@[i].addr > 0)
        &&& forall|i: int|
            0 <= i < self.free_pool@.len() ==> ((#[trigger] self.free_pool@[i]).addr
                + self.free_pool@[i].size <= self.next_base_addr && self.free_pool@[i].align > 0
                && self.free_pool@[i].addr % self.free_pool@[i].align == 0
                && self.free_pool@[i].addr > 0)
        &&& forall|i: int, j: int|
            0 <= i < self.assigned@.len() && 0 <= j < self.assigned@.len() && i != j ==> disjoint(
                self.assigned@[i].addr,
                self.assigned@[i].size,
                self.assigned@[j].addr,
                self.assigned@[j].size,
            )
        &&& forall|i: int, j: int|
            0 <= i < self.assigned@.len() && 0 <= j < self.free_pool@.len() ==> disjoint(
                self.assigned@[i].addr,
                self.assigned@[i].size,
                self.free_pool@[j].addr,
                self.free_pool@[j].size,
            )
        &&& forall|i: int, j: int|
            0 <= i < j < self.free_pool@.len() ==> disjoint(
                self.free_pool@[i].addr,
                self.free_pool@[i].size,
                self.free_pool@[j].addr,
                self.free_pool@[j].size,
            )
        &&& self.next_base_addr <= self.addr_space_max
        &&& self.next_base_addr > 0
    }

    /// The identifier has an assigned address.
    pub open spec fn has_addr(self, id: u64) -> bool {
        exists|i: int| 0 <= i < self.assigned@.len() && (#[trigger] self.assigned@[i]).id == id
    }

    /// The identifier has been exposed.
    pub open spec fn is_exposed(self, id: u64) -> bool {
        self.exposed@.contains(id)
    }

    /// Fresh state: addresses start at the stack base, nothing is
    /// assigned or exposed.
    pub fn new(stack_addr: u64, addr_space_max: u64) -> (r: GlobalState)
        requires
            0 < stack_addr <= addr_space_max,
        ensures
            r.wf(),
            r.assigned@.len() == 0,
            r.exposed@.len() == 0,
            r.free_pool@.len() == 0,
            r.next_base_addr == stack_addr,
            r.addr_space_max == addr_space_max,
    {
        GlobalState {
            assigned: Vec::new(),
            exposed: Vec::new(),
            free_pool: Vec::new(),
            next_base_addr: stack_addr,
            addr_space_max,
        }
    }

    /// Look up the assigned base address of an allocation.
    pub fn addr_of(&self, id: u64) -> (r: Option<u64>)
        ensures
            (r is Some) == self.has_addr(id),
            r matches Some(a) ==> exists|i: int|
                0 <= i < self.assigned@.len() && (#[trigger] self.assigned@[i]).id == id
                    && self.assigned@[i].addr == a,
    {
        let mut idx: usize = 0;
        while idx < self.assigned.len()
            invariant
                idx <= self.assigned@.len(),
                forall|i: int| 0 <= i < idx ==> (#[trigger] self.assigned@[i]).id != id,
            decreases self.assigned@.len() - idx,
        {
            if self.assigned[idx].id == id {
                return Some(self.assigned[idx].addr);
            }
            idx += 1;
        }
        None
    }

    /// Mark an allocation's identity as exposed: from now on a wildcard
    /// pointer may resolve to it.
    pub fn expose(&mut self, id: u64)
        requires
            old(self).wf(),
        ensures
            final(self).wf(),
            final(self).is_exposed(id),
            forall|x: u64| old(self).is_exposed(x) ==> final(self).is_exposed(x),
            forall|x: u64| final(self).is_exposed(x) ==> old(self).is_exposed(x) || x == id,
            final(self).assigned == old(self).assigned,
            final(self).free_pool == old(self).free_pool,
            final(self).next_base_addr == old(self).next_base_addr,
            final(self).addr_space_max == old(self).addr_space_max,
    {
        let mut idx: usize = 0;
        while idx < self.exposed.len()
            invariant
                idx <= self.exposed@.len(),
                *self == *old(self),
                old(self).wf(),
                forall|i: int| 0 <= i < idx ==> old(self).exposed@[i] != id,
            decreases self.exposed@.len() - idx,
        {
            if self.exposed[idx] == id {
                proof {
                    assert(self.exposed@[idx as int] == id);
                }
                return ;
            }
            idx += 1;
        }
        self.exposed.push(id);
        proof {
            assert(self.exposed@[self.exposed@.len() - 1] == id);
            assert forall|x: u64| old(self).is_exposed(x) implies self.is_exposed(x) by {
                let k = choose|k: int| 0 <= k < old(self).exposed@.len() && old(self).exposed@[k] == x;
                assert(self.exposed@[k] == x);
            }
        }
    }

    /// Whether reusing a pooled range applies: the draw favours reuse and
    /// the pool holds a range of exactly the requested layout.
    pub open spec fn reuse_applies(self, size: u64, align: u64, reuse_draw: u64) -> bool {
        reuse_draw % 2 == 0 && exists|i: int|
            0 <= i < self.free_pool@.len() && (#[trigger] self.free_pool@[i]).size == size
                && self.free_pool@[i].align == align
    }

    /// Assign a base address to an allocation that has none yet. A pooled
    /// freed range of exactly the same layout may be reused when the draw
    /// from the run's random stream says so; otherwise a fresh aligned
    /// range is carved out above everything assigned before. Fails with
    /// resource exhaustion exactly when a fresh range would not fit the
    /// address space.
    pub fn assign(&mut self, id: u64, size: u64, align: u64, reuse_draw: u64) -> (r: Result<
        u64,
        InterpError,
    >)
        requires
            old(self).wf(),
            !old(self).has_addr(id),
            0 < align,
        ensures
            final(self).wf(),
            (r is Err) == (!old(self).reuse_applies(size, align, reuse_draw) && spec_align_up(
                old(self).next_base_addr as int,
                align as int,
            ) + size > old(self).addr_space_max),
            r is Err ==> *final(self) == *old(self) && r == Err::<u64, InterpError>(
                InterpError::ResourceExhaustion,
            ),
            r matches Ok(a) ==> {
                &&& a % align == 0
                &&& a > 0
                &&& final(self).assigned@ =~= old(self).assigned@.push(
                    AddrEntry { id, addr: a, size, align },
                )
                &&& final(self).has_addr(id)
                &&& forall|j: int|
                    0 <= j < final(self).free_pool@.len() ==> old(self).free_pool@.contains(
                        #[trigger] final(self).free_pool@[j],
                    )
                &&& final(self).exposed == old(self).exposed
                &&& final(self).addr_space_max == old(self).addr_space_max
            },
    {
        if reuse_draw % 2 == 0 {
            let mut k: usize = 0;
            while k < self.free_pool.len()
                invariant
                    k <= self.free_pool@.len(),
                    *self == *old(self),
                    old(self).wf(),
                    !old(self).has_addr(id),
                    0 < align,
                    reuse_draw % 2 == 0,
                    forall|i: int|
                        0 <= i < k ==> !((#[trigger] self.free_pool@[i]).size == size
                            && self.free_pool@[i].align == align),
                decreases self.free_pool@.len() - k,
            {
                if self.free_pool[k].size == size && self.free_pool[k].align == align {
                    let fr = self.free_pool.remove(k);
                    self.assigned.push(AddrEntry { id, addr: fr.addr, size, align });
                    proof {
                        let pre = old(self);
                        let n = pre.assigned@.len() as int;
                        assert(self.assigned@[n] == AddrEntry { id, addr: fr.addr, size, align });
                        assert(pre.free_pool@[k as int] == fr);
                        assert(pre.reuse_applies(size, align, reuse_draw)) by {
                            assert(pre.free_pool@[k as int].size == size && pre.free_pool@[
                                k as int].align == align);
                        }
                        // the reused range is disjoint from every live one
                        assert forall|i: int, j: int|
                            0 <= i < self.assigned@.len() && 0 <= j < self.assigned@.len() && i
                                != j implies disjoint(
                            self.assigned@[i].addr,
                            self.assigned@[i].size,
                            self.assigned@[j].addr,
                            self.assigned@[j].size,
                        ) by {
                            if i < n && j < n {
                                assert(disjoint(
                                    pre.assigned@[i].addr,
                                    pre.assigned@[i].size,
                                    pre.assigned@[j].addr,
                                    pre.assigned@[j].size,
                                ));
                            } else if i == n {
                                assert(disjoint(
                                    pre.assigned@[j].addr,
                                    pre.assigned@[j].size,
                                    pre.free_pool@[k as int].addr,
                                    pre.free_pool@[k as int].size,
                                ));
                            } else {
                                assert(disjoint(
                                    pre.assigned@[i].addr,
                                    pre.assigned@[i].size,
                                    pre.free_pool@[k as int].addr,
                                    pre.free_pool@[k as int].size,
                                ));
                            }
                        }
                        // the remaining pool maps to old pool indices
                        assert forall|j: int|
                            0 <= j < self.free_pool@.len() implies pre.free_pool@.contains(
                            #[trigger] self.free_pool@[j],
                        ) by {
                            if j < k {
                                assert(self.free_pool@[j] == pre.free_pool@[j]);
                            } else {
                                assert(self.free_pool@[j] == pre.free_pool@[j + 1]);
                            }
                        }
                        assert forall|i: int, j: int|
                            0 <= i < self.assigned@.len() && 0 <= j
                                < self.free_pool@.len() implies disjoint(
                            self.assigned@[i].addr,
                            self.assigned@[i].size,
                            self.free_pool@[j].addr,
                            self.free_pool@[j].size,
                        ) by {
                            let jj: int = if j < k {
                                j
                            } else {
                                j + 1
                            };
                            assert(self.free_pool@[j] == pre.free_pool@[jj]);
                            if i < n {
                                assert(disjoint(
                                    pre.assigned@[i].addr,
                                    pre.assigned@[i].size,
                                    pre.free_pool@[jj].addr,
                                    pre.free_pool@[jj].size,
                                ));
                            } else {
                                if jj < k {
                                    assert(disjoint(
                                        pre.free_pool@[jj].addr,
                                        pre.free_pool@[jj].size,
                                        pre.free_pool@[k as int].addr,
                                        pre.free_pool@[k as int].size,
                                    ));
                                } else {
                                    assert(disjoint(
                                        pre.free_pool@[k as int].addr,
                                        pre.free_pool@[k as int].size,
                                        pre.free_pool@[jj].addr,
                                        pre.free_pool@[jj].size,
                                    ));
                                }
                            }
                        }
                        assert forall|i: int, j: int|
                            0 <= i < j < self.free_pool@.len() implies disjoint(
                            self.free_pool@[i].addr,
                            self.free_pool@[i].size,
                            self.free_pool@[j].addr,
                            self.free_pool@[j].size,
                        ) by {
                            let ii: int = if i < k {
                                i
                            } else {
                                i + 1
                            };
                            let jj: int = if j < k {
                                j
                            } else {
                                j + 1
                            };
                            assert(self.free_pool@[i] == pre.free_pool@[ii]);
                            assert(self.free_pool@[j] == pre.free_pool@[jj]);
                            assert(disjoint(
                                pre.free_pool@[ii].addr,
                                pre.free_pool@[ii].size,
                                pre.free_pool@[jj].addr,
                                pre.free_pool@[jj].size,
                            ));
                        }
                    }
                    return Ok(fr.addr);
                }
                k += 1;
            }
        }
        let base128: u128 = align_up_u128(self.next_base_addr, align);
        proof {
            lemma_align_up(self.next_base_addr as int, align as int);
        }
        if base128 + (size as u128) > (self.addr_space_max as u128) {
            return Err(InterpError::ResourceExhaustion);
        }
        let base: u64 = base128 as u64;
        self.next_base_addr = (base128 + (size as u128)) as u64;
        self.assigned.push(AddrEntry { id, addr: base, size, align });
        proof {
            let pre = old(self);
            let n = pre.assigned@.len() as int;
            assert(self.assigned@[n] == AddrEntry { id, addr: base, size, align });
            assert forall|i: int, j: int|
                0 <= i < self.assigned@.len() && 0 <= j < self.assigned@.len() && i
                    != j implies disjoint(
                self.assigned@[i].addr,
                self.assigned@[i].size,
                self.assigned@[j].addr,
                self.assigned@[j].size,
            ) by {
                if i < n && j < n {
                    assert(disjoint(
                        pre.assigned@[i].addr,
                        pre.assigned@[i].size,
                        pre.assigned@[j].addr,
                        pre.assigned@[j].size,
                    ));
                }
            }
        }
        Ok(base)
    }

    /// Retire a freed allocation's address state: its range goes to the
    /// reuse pool and its exposure ends. Everything of other allocations
    /// is kept.
    pub fn free_alloc_id(&mut self, id: u64)
        requires
            old(self).wf(),
        ensures
            final(self).wf(),
            !final(self).has_addr(id),
            !final(self).is_exposed(id),
            forall|j: int|
                0 <= j < final(self).assigned@.len() ==> old(self).assigned@.contains(
                    #[trigger] final(self).assigned@[j],
                ),
            forall|j: int|
                0 <= j < old(self).assigned@.len() && (#[trigger] old(self).assigned@[j]).id != id
                    ==> final(self).assigned@.contains(old(self).assigned@[j]),
            forall|x: u64| x != id ==> final(self).is_exposed(x) == old(self).is_exposed(x),
            final(self).next_base_addr == old(self).next_base_addr,
            final(self).addr_space_max == old(self).addr_space_max,
    {
        let filtered = remove_value_u64(&self.exposed, id);
        self.exposed = filtered;
        let ghost mid = *self;
        let mut idx: usize = 0;
        while idx < self.assigned.len()
            invariant
                idx <= self.assigned@.len(),
                *self == mid,
                mid.assigned == old(self).assigned,
                mid.free_pool == old(self).free_pool,
                mid.next_base_addr == old(self).next_base_addr,
                mid.addr_space_max == old(self).addr_space_max,
                !mid.is_exposed(id),
                forall|x: u64| x != id ==> mid.is_exposed(x) == old(self).is_exposed(x),
                old(self).wf(),
                forall|i: int| 0 <= i < idx ==> (#[trigger] self.assigned@[i]).id != id,
            decreases self.assigned@.len() - idx,
        {
            if self.assigned[idx].id == id {
                let e = self.assigned.remove(idx);
                self.free_pool.push(FreeRange { addr: e.addr, size: e.size, align: e.align });
                proof {
                    let pre = old(self);
                    let k = idx as int;
                    let pn = pre.free_pool@.len() as int;
                    assert(pre.assigned@[k] == e);
                    assert(self.free_pool@[pn] == (FreeRange {
                        addr: e.addr,
                        size: e.size,
                        align: e.align,
                    }));
                    assert forall|j: int|
                        0 <= j < self.assigned@.len() implies pre.assigned@.contains(
                        #[trigger] self.assigned@[j],
                    ) by {
                        if j < k {
                            assert(self.assigned@[j] == pre.assigned@[j]);
                        } else {
                            assert(self.assigned@[j] == pre.assigned@[j + 1]);
                        }
                    }
                    assert forall|j: int|
                        0 <= j < pre.assigned@.len() && (#[trigger] pre.assigned@[j]).id
                            != id implies self.assigned@.contains(pre.assigned@[j]) by {
                        if j < k {
                            assert(self.assigned@[j] == pre.assigned@[j]);
                        } else if j > k {
                            assert(self.assigned@[j - 1] == pre.assigned@[j]);
                        }
                    }
                    assert forall|i: int|
                        0 <= i < self.assigned@.len() implies !((
                    #[trigger] self.assigned@[i]).id == id) by {
                        let ii: int = if i < k {
                            i
                        } else {
                            i + 1
                        };
                        assert(self.assigned@[i] == pre.assigned@[ii]);
                        if ii < k {
                            assert(pre.assigned@[ii].id != pre.assigned@[k].id);
                        } else {
                            assert(pre.assigned@[k].id != pre.assigned@[ii].id);
                        }
                    }
                    // well-formedness of the shrunk assigned set and the
                    // grown pool
                    assert forall|i: int, j: int|
                        0 <= i < j < self.assigned@.len() implies self.assigned@[i].id
                        != self.assigned@[j].id by {
                        let ii: int = if i < k {
                            i
                        } else {
                            i + 1
                        };
                        let jj: int = if j < k {
                            j
                        } else {
                            j + 1
                        };
                        assert(self.assigned@[i] == pre.assigned@[ii]);
                        assert(self.assigned@[j] == pre.assigned@[jj]);
                        assert(pre.assigned@[ii].id != pre.assigned@[jj].id);
                    }
                    assert forall|i: int, j: int|
                        0 <= i < self.assigned@.len() && 0 <= j < self.assigned@.len() && i
                            != j implies disjoint(
                        self.assigned@[i].addr,
                        self.assigned@[i].size,
                        self.assigned@[j].addr,
                        self.assigned@[j].size,
                    ) by {
                        let ii: int = if i < k {
                            i
                        } else {
                            i + 1
                        };
                        let jj: int = if j < k {
                            j
                        } else {
                            j + 1
                        };
                        assert(self.assigned@[i] == pre.assigned@[ii]);
                        assert(self.assigned@[j] == pre.assigned@[jj]);
                        assert(disjoint(
                            pre.assigned@[ii].addr,
                            pre.assigned@[ii].size,
                            pre.assigned@[jj].addr,
                            pre.assigned@[jj].size,
                        ));
                    }
                    assert forall|i: int, j: int|
                        0 <= i < self.assigned@.len() && 0 <= j
                            < self.free_pool@.len() implies disjoint(
                        self.assigned@[i].addr,
                        self.assigned@[i].size,
                        self.free_pool@[j].addr,
                        self.free_pool@[j].size,
                    ) by {
                        let ii: int = if i < k {
                            i
                        } else {
                            i + 1
                        };
                        assert(self.assigned@[i] == pre.assigned@[ii]);
                        if j < pn {
                            assert(self.free_pool@[j] == pre.free_pool@[j]);
                            assert(disjoint(
                                pre.assigned@[ii].addr,
                                pre.assigned@[ii].size,
                                pre.free_pool@[j].addr,
                                pre.free_pool@[j].size,
                            ));
                        } else {
                            assert(disjoint(
                                pre.assigned@[ii].addr,
                                pre.assigned@[ii].size,
                                pre.assigned@[k].addr,
                                pre.assigned@[k].size,
                            ));
                        }
                    }
                    assert forall|i: int, j: int|
                        0 <= i < j < self.free_pool@.len() implies disjoint(
                        self.free_pool@[i].addr,
                        self.free_pool@[i].size,
                        self.free_pool@[j].addr,
                        self.free_pool@[j].size,
                    ) by {
                        if j < pn {
                            assert(self.free_pool@[i] == pre.free_pool@[i]);
                            assert(self.free_pool@[j] == pre.free_pool@[j]);
                            assert(disjoint(
                                pre.free_pool@[i].addr,
                                pre.free_pool@[i].size,
                                pre.free_pool@[j].addr,
                                pre.free_pool@[j].size,
                            ));
                        } else {
                            assert(self.free_pool@[i] == pre.free_pool@[i]);
                            assert(disjoint(
                                pre.assigned@[k].addr,
                                pre.assigned@[k].size,
                                pre.free_pool@[i].addr,
                                pre.free_pool@[i].size,
                            ));
                        }
                    }
                    assert(self.exposed == mid.exposed);
                    assert(!self.is_exposed(id));
                    assert forall|x: u64| x != id implies self.is_exposed(x) == old(self).is_exposed(
                        x,
                    ) by {
                        assert(mid.is_exposed(x) == old(self).is_exposed(x));
                    }
                }
                return ;
            }
            idx += 1;
        }
    }

    /// Resolve an integer address against the exposed allocations: the
    /// unique exposed live range containing the address, as an
    /// (identifier, offset) pair, or nothing if no exposed range contains
    /// it.
    pub fn resolve_addr(&self, addr: u64) -> (r: Option<(u64, u64)>)
        requires
            self.wf(),
        ensures
            (r is Some) == exists|i: int|
                0 <= i < self.assigned@.len() && self.is_exposed(
                    (#[trigger] self.assigned@[i]).id,
                ) && self.assigned@[i].addr <= addr < self.assigned@[i].addr
                    + self.assigned@[i].size,
            r matches Some((id, off)) ==> exists|i: int|
                0 <= i < self.assigned@.len() && (#[trigger] self.assigned@[i]).id == id
                    && self.is_exposed(id) && addr == self.assigned@[i].addr + off && off
                    < self.assigned@[i].size,
    {
        let mut idx: usize = 0;
        while idx < self.assigned.len()
            invariant
                idx <= self.assigned@.len(),
                forall|i: int|
                    0 <= i < idx ==> !(self.is_exposed((#[trigger] self.assigned@[i]).id)
                        && self.assigned@[i].addr <= addr < self.assigned@[i].addr
                        + self.assigned@[i].size),
            decreases self.assigned@.len() - idx,
        {
            let e = self.assigned[idx];
            if addr >= e.addr && ((addr - e.addr) as u128) < (e.size as u128) {
                let mut k: usize = 0;
                let mut exposed_found = false;
                while k < self.exposed.len()
                    invariant
                        k <= self.exposed@.len(),
                        idx < self.assigned@.len(),
                        e == self.assigned@[idx as int],
                        exposed_found ==> self.is_exposed(e.id),
                        !exposed_found ==> forall|i: int|
                            0 <= i < k ==> self.exposed@[i] != e.id,
                    decreases self.exposed@.len() - k,
                {
                    if self.exposed[k] == e.id {
                        proof {
                            assert(self.exposed@[k as int] == e.id);
                        }
                        exposed_found = true;
                    }
                    k += 1;
                }
                if exposed_found {
                    return Some((e.id, addr - e.addr));
                }
            }
            idx += 1;
        }
        None
    }
}

/// Live allocations' address ranges never overlap: any two distinct
/// assigned entries of a well-formed state are disjoint.
pub proof fn lemma_live_ranges_disjoint(g: GlobalState, i: int, j: int)
    requires
        g.wf(),
        0 <= i < g.assigned@.len(),
        0 <= j < g.assigned@.len(),
        i != j,
    ensures
        disjoint(
            g.assigned@[i].addr,
            g.assigned@[i].size,
            g.assigned@[j].addr,
            g.assigned@[j].size,
        ),
{
}

/// A copy of the vector with every occurrence of `x` removed; everything
/// else keeps its membership.
fn remove_value_u64(v: &Vec<u64>, x: u64) -> (r: Vec<u64>)
    ensures
        !r@.contains(x),
        forall|y: u64| y != x ==> r@.contains(y) == v@.contains(y),
{
    let mut out: Vec<u64> = Vec::new();
    let mut i: usize = 0;
    while i < v.len()
        invariant
            i <= v@.len(),
            forall|y: u64|
                #[trigger] out@.contains(y) ==> v@.subrange(0, i as int).contains(y) && y != x,
            forall|y: u64|
                #[trigger] v@.subrange(0, i as int).contains(y) && y != x ==> out@.contains(y),
        decreases v@.len() - i,
    {
        let ghost pre = v@.subrange(0, i as int);
        let ghost post = v@.subrange(0, i + 1);
        let ghost out_pre = out@;
        proof {
            assert(post.drop_last() =~= pre);
            assert(post.last() == v@[i as int]);
            assert forall|y: u64| #[trigger] post.contains(y) implies pre.contains(y) || y == v@[
                i as int] by {
                let p = choose|p: int| 0 <= p < post.len() && post[p] == y;
                if p < post.len() - 1 {
                    assert(pre[p] == y);
                }
            }
            assert forall|y: u64| #[trigger] pre.contains(y) implies post.contains(y) by {
                let p = choose|p: int| 0 <= p < pre.len() && pre[p] == y;
                assert(post[p] == y);
            }
            assert(post.contains(v@[i as int])) by {
                assert(post[post.len() - 1] == v@[i as int]);
            }
        }
        let e = v[i];
        if e != x {
            out.push(e);
            proof {
                assert forall|y: u64| #[trigger] out@.contains(y) implies post.contains(y) && y
                    != x by {
                    let p = choose|p: int| 0 <= p < out@.len() && out@[p] == y;
                    if p < out@.len() - 1 {
                        assert(out_pre[p] == y);
                        assert(out_pre.contains(y));
                    } else {
                        assert(y == v@[i as int]);
                    }
                }
                assert forall|y: u64|
                    #[trigger] post.contains(y) && y != x implies out@.contains(y) by {
                    if pre.contains(y) {
                        let p = choose|p: int| 0 <= p < out_pre.len() && out_pre[p] == y;
                        assert(out@[p] == y);
                    } else {
                        assert(y == v@[i as int]);
                        assert(out@[out@.len() - 1] == y);
                    }
                }
            }
        } else {
            proof {
                assert forall|y: u64|
                    #[trigger] post.contains(y) && y != x implies out@.contains(y) by {
                    if pre.contains(y) {
                    } else {
                        assert(y == v@[i as int]);
                        assert(false);
                    }
                }
            }
        }
        i += 1;
    }
    proof {
        assert(v@.subrange(0, v@.len() as int) =~= v@);
    }
    out
}

} // verus!
