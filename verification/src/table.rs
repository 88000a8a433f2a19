//! The allocation table: every memory block the run has ever created.
//!
//! The table owns all live and freed blocks, keyed by an opaque
//! identifier. Identifiers are indices into an append-only vector, so an
//! identifier is never reused: deallocation retires the entry but never
//! removes it. No other component touches raw bytes directly; reads and
//! writes go through the table and fail with `OutOfBounds` when the range
//! leaves the allocation, or `UseAfterFree` once the block is retired.

use vstd::prelude::*;
use crate::errors::UndefinedBehavior;
use crate::kinds::MemoryKind;
use crate::monitor;
use crate::provenance::{AllocId, Provenance};
use crate::race;
use crate::weak;

verus! {

/// The extra-state bundle of one allocation: the per-allocation states of
/// the aliasing monitor, the race detector and the weak-memory buffer —
/// each present only while the component is enabled — and an optional
/// creation backtrace for leak reports.
pub struct AllocExtra {
    /// Aliasing-monitor state, if the monitor is enabled.
    pub borrow_tracker: Option<monitor::AllocState>,
    /// Race-detector state, if the detector is enabled.
    pub data_race: Option<race::AllocState>,
    /// Weak-memory store buffer, if the emulation is enabled.
    pub weak_memory: Option<weak::AllocState>,
    /// Source spans of the creating call stack, recorded only for
    /// allocations that would be reported if they leaked.
    pub backtrace: Option<Vec<u64>>,
}

/// One memory block: its byte buffer, size, alignment, classification,
/// the pointers currently stored inside it, and its extra state.
pub struct Allocation {
    /// Size in bytes; the byte buffer has exactly this length while the
    /// block is live.
    pub size: u64,
    /// Alignment in bytes.
    pub align: u64,
    /// The block's classification.
    pub kind: MemoryKind,
    /// The bytes themselves; emptied when the block is freed.
    pub bytes: Vec<u8>,
    /// The provenance of every pointer value currently stored in the
    /// block, keyed by byte offset.
    pub provs: Vec<(u64, Provenance)>,
    /// The extra-state bundle.
    pub extra: AllocExtra,
    /// Whether the block is still live.
    pub live: bool,
}

/// The allocation table.
pub struct AllocTable {
    pub allocs: Vec<Allocation>,
}

impl AllocTable {
    /// The identifier has been issued at some point of the run, live or
    /// not.
    pub open spec fn is_issued(self, id: AllocId) -> bool {
        id.0 < self.allocs@.len()
    }

    /// The allocation behind an issued identifier.
    pub open spec fn alloc_of(self, id: AllocId) -> Allocation
        recommends
            self.is_issued(id),
    {
        self.allocs@[id.0 as int]
    }

    /// The identifier was issued and its block is still live.
    pub open spec fn is_live(self, id: AllocId) -> bool {
        self.is_issued(id) && self.alloc_of(id).live
    }

    /// Every live block's byte buffer matches its stated size.
    pub open spec fn wf(self) -> bool {
        forall|i: int|
            0 <= i < self.allocs@.len() && (#[trigger] self.allocs@[i]).live
                ==> self.allocs@[i].bytes@.len() == self.allocs@[i].size
    }

    /// An empty table: no identifier has been issued.
    pub fn new() -> (r: AllocTable)
        ensures
            r.allocs@.len() == 0,
            r.wf(),
    {
        AllocTable { allocs: Vec::new() }
    }

    /// Create a block of `size` zeroed bytes and issue a fresh
    /// identifier for it. The identifier differs from every identifier
    /// this table has ever issued, and everything already in the table is
    /// untouched.
    pub fn allocate(&mut self, size: u64, align: u64, kind: MemoryKind, extra: AllocExtra) -> (r:
        AllocId)
        requires
            old(self).wf(),
            size <= usize::MAX,
            old(self).allocs@.len() < u64::MAX,
        ensures
            !old(self).is_issued(r),
            final(self).is_live(r),
            r.0 == old(self).allocs@.len(),
            final(self).allocs@.len() == old(self).allocs@.len() + 1,
            forall|i: int|
                0 <= i < old(self).allocs@.len() ==> #[trigger] final(self).allocs@[i] == old(self).allocs@[i],
            final(self).alloc_of(r).size == size,
            final(self).alloc_of(r).align == align,
            final(self).alloc_of(r).kind == kind,
            final(self).alloc_of(r).live,
            final(self).alloc_of(r).bytes@ =~= Seq::new(size as nat, |i: int| 0u8),
            final(self).alloc_of(r).provs@.len() == 0,
            final(self).alloc_of(r).extra == extra,
            final(self).wf(),
    {
        let id = AllocId(self.allocs.len() as u64);
        let mut bytes: Vec<u8> = Vec::new();
        let mut i: u64 = 0;
        while i < size
            invariant
                i <= size,
                bytes@.len() == i,
                forall|j: int| 0 <= j < i ==> bytes@[j] == 0u8,
            decreases size - i,
        {
            bytes.push(0);
            i += 1;
        }
        self.allocs.push(
            Allocation { size, align, kind, bytes, provs: Vec::new(), extra, live: true },
        );
        id
    }

    /// Retire a block. Fails with `UseAfterFree` if it was already freed,
    /// and with a layout mismatch if the caller's stated size does not
    /// match the allocation — both undefined behaviour of the interpreted
    /// program. The entry itself is never removed, so the identifier is
    /// never issued again.
    pub fn deallocate(&mut self, id: AllocId, given_size: u64, given_align: u64) -> (r: Result<
        (),
        UndefinedBehavior,
    >)
        requires
            old(self).wf(),
        ensures
            final(self).wf(),
            final(self).allocs@.len() == old(self).allocs@.len(),
            !old(self).is_issued(id) ==> r == Err::<(), UndefinedBehavior>(
                UndefinedBehavior::UseAfterFree { alloc_id: id },
            ),
            old(self).is_issued(id) && !old(self).alloc_of(id).live ==> r == Err::<
                (),
                UndefinedBehavior,
            >(UndefinedBehavior::UseAfterFree { alloc_id: id }),
            old(self).is_live(id) && (given_size != old(self).alloc_of(id).size || given_align
                != old(self).alloc_of(id).align) ==> r == Err::<(), UndefinedBehavior>(
                UndefinedBehavior::DeallocLayoutMismatch {
                    alloc_id: id,
                    expected_size: old(self).alloc_of(id).size,
                    given_size,
                    expected_align: old(self).alloc_of(id).align,
                    given_align,
                },
            ),
            (r is Ok) == (old(self).is_live(id) && given_size == old(self).alloc_of(id).size
                && given_align == old(self).alloc_of(id).align),
            r is Err ==> *final(self) == *old(self),
            r is Ok ==> {
                &&& !final(self).is_live(id)
                &&& final(self).alloc_of(id).size == old(self).alloc_of(id).size
                &&& final(self).alloc_of(id).align == old(self).alloc_of(id).align
                &&& final(self).alloc_of(id).kind == old(self).alloc_of(id).kind
                &&& final(self).alloc_of(id).bytes@.len() == 0
                &&& final(self).alloc_of(id).provs@.len() == 0
                &&& final(self).alloc_of(id).extra == old(self).alloc_of(id).extra
                &&& forall|i: int|
                    0 <= i < old(self).allocs@.len() && i != id.0 ==> #[trigger] final(self).allocs@[i] == old(self).allocs@[i]
            },
    {
        if id.0 >= self.allocs.len() as u64 {
            return Err(UndefinedBehavior::UseAfterFree { alloc_id: id });
        }
        let idx = id.0 as usize;
        if !self.allocs[idx].live {
            return Err(UndefinedBehavior::UseAfterFree { alloc_id: id });
        }
        let expected_size = self.allocs[idx].size;
        let expected_align = self.allocs[idx].align;
        if given_size != expected_size || given_align != expected_align {
            return Err(
                UndefinedBehavior::DeallocLayoutMismatch {
                    alloc_id: id,
                    expected_size,
                    given_size,
                    expected_align,
                    given_align,
                },
            );
        }
        let mut a = self.allocs.remove(idx);
        a.live = false;
        a.bytes = Vec::new();
        a.provs = Vec::new();
        self.allocs.insert(idx, a);
        Ok(())
    }

    /// Read `len` bytes at `start`. Fails with `UseAfterFree` on a freed
    /// block and `OutOfBounds` when the range leaves the allocation;
    /// otherwise returns exactly the stored bytes. The table never
    /// changes.
    pub fn read(&self, id: AllocId, start: u64, len: u64) -> (r: Result<Vec<u8>, UndefinedBehavior>)
        requires
            self.wf(),
            start + len <= u64::MAX,
        ensures
            (r is Ok) == (self.is_live(id) && start + len <= self.alloc_of(id).size),
            !self.is_live(id) ==> r == Err::<Vec<u8>, UndefinedBehavior>(
                UndefinedBehavior::UseAfterFree { alloc_id: id },
            ),
            self.is_live(id) && start + len > self.alloc_of(id).size ==> r == Err::<
                Vec<u8>,
                UndefinedBehavior,
            >(
                UndefinedBehavior::OutOfBounds {
                    alloc_id: id,
                    offset: start,
                    len,
                    size: self.alloc_of(id).size,
                },
            ),
            r matches Ok(data) ==> data@ =~= self.alloc_of(id).bytes@.subrange(
                start as int,
                start + len,
            ),
    {
        if id.0 >= self.allocs.len() as u64 {
            return Err(UndefinedBehavior::UseAfterFree { alloc_id: id });
        }
        let idx = id.0 as usize;
        if !self.allocs[idx].live {
            return Err(UndefinedBehavior::UseAfterFree { alloc_id: id });
        }
        let size = self.allocs[idx].size;
        if len > size || start > size - len {
            return Err(UndefinedBehavior::OutOfBounds { alloc_id: id, offset: start, len, size });
        }
        let blen: usize = self.allocs[idx].bytes.len();
        let mut data: Vec<u8> = Vec::new();
        let mut i: u64 = 0;
        while i < len
            invariant
                i <= len,
                data@.len() == i,
                self.is_live(id),
                start + len <= self.alloc_of(id).size,
                self.wf(),
                idx == id.0,
                blen == self.alloc_of(id).bytes@.len(),
                forall|j: int| 0 <= j < i ==> data@[j] == self.alloc_of(id).bytes@[start + j],
            decreases len - i,
        {
            proof {
                assert(start + i < self.alloc_of(id).bytes@.len());
            }
            let off: usize = (start + i) as usize;
            data.push(self.allocs[idx].bytes[off]);
            i += 1;
        }
        Ok(data)
    }

    /// Write `data` at `start`. Fails with `UseAfterFree` on a freed
    /// block and `OutOfBounds` when the range leaves the allocation; the
    /// table is unchanged then. Otherwise exactly the addressed bytes
    /// change, to `data`.
    pub fn write(&mut self, id: AllocId, start: u64, data: &Vec<u8>) -> (r: Result<
        (),
        UndefinedBehavior,
    >)
        requires
            old(self).wf(),
            start + data@.len() <= u64::MAX,
        ensures
            final(self).wf(),
            (r is Ok) == (old(self).is_live(id) && start + data@.len() <= old(self).alloc_of(
                id,
            ).size),
            !old(self).is_live(id) ==> r == Err::<(), UndefinedBehavior>(
                UndefinedBehavior::UseAfterFree { alloc_id: id },
            ),
            old(self).is_live(id) && start + data@.len() > old(self).alloc_of(id).size ==> r
                == Err::<(), UndefinedBehavior>(
                UndefinedBehavior::OutOfBounds {
                    alloc_id: id,
                    offset: start,
                    len: data@.len() as u64,
                    size: old(self).alloc_of(id).size,
                },
            ),
            r is Err ==> *final(self) == *old(self),
            r is Ok ==> {
                &&& final(self).allocs@.len() == old(self).allocs@.len()
                &&& forall|i: int|
                    0 <= i < old(self).allocs@.len() && i != id.0 ==> #[trigger] final(self).allocs@[i] == old(self).allocs@[i]
                &&& final(self).alloc_of(id).bytes@.len() == old(self).alloc_of(id).bytes@.len()
                &&& forall|j: int|
                    0 <= j < old(self).alloc_of(id).bytes@.len() ==> final(self).alloc_of(
                        id,
                    ).bytes@[j] == (if start <= j < start + data@.len() {
                        data@[j - start]
                    } else {
                        old(self).alloc_of(id).bytes@[j]
                    })
                &&& final(self).alloc_of(id).size == old(self).alloc_of(id).size
                &&& final(self).alloc_of(id).align == old(self).alloc_of(id).align
                &&& final(self).alloc_of(id).kind == old(self).alloc_of(id).kind
                &&& final(self).alloc_of(id).provs == old(self).alloc_of(id).provs
                &&& final(self).alloc_of(id).extra == old(self).alloc_of(id).extra
                &&& final(self).alloc_of(id).live
            },
    {
        if id.0 >= self.allocs.len() as u64 {
            return Err(UndefinedBehavior::UseAfterFree { alloc_id: id });
        }
        let idx = id.0 as usize;
        if !self.allocs[idx].live {
            return Err(UndefinedBehavior::UseAfterFree { alloc_id: id });
        }
        let size = self.allocs[idx].size;
        let len = data.len() as u64;
        if len > size || start > size - len {
            return Err(UndefinedBehavior::OutOfBounds { alloc_id: id, offset: start, len, size });
        }
        let mut a = self.allocs.remove(idx);
        let blen: usize = a.bytes.len();
        let s: usize = start as usize;
        let mut i: usize = 0;
        while i < data.len()
            invariant
                i <= data@.len(),
                a.bytes@.len() == old(self).alloc_of(id).bytes@.len(),
                start + data@.len() <= old(self).alloc_of(id).size,
                old(self).is_live(id),
                old(self).wf(),
                idx == id.0,
                blen == a.bytes@.len(),
                s == start,
                a.size == old(self).alloc_of(id).size,
                a.align == old(self).alloc_of(id).align,
                a.kind == old(self).alloc_of(id).kind,
                a.provs == old(self).alloc_of(id).provs,
                a.extra == old(self).alloc_of(id).extra,
                a.live == old(self).alloc_of(id).live,
                forall|j: int|
                    0 <= j < a.bytes@.len() ==> a.bytes@[j] == (if start <= j < start + i {
                        data@[j - start]
                    } else {
                        old(self).alloc_of(id).bytes@[j]
                    }),
            decreases data@.len() - i,
        {
            proof {
                assert(start + i < a.bytes@.len());
            }
            a.bytes.set(s + i, data[i]);
            i += 1;
        }
        self.allocs.insert(idx, a);
        Ok(())
    }

    /// Record the provenance of a pointer value stored at `offset` of the
    /// block.
    pub fn store_provenance(&mut self, id: AllocId, offset: u64, prov: Provenance) -> (r: Result<
        (),
        UndefinedBehavior,
    >)
        requires
            old(self).wf(),
        ensures
            final(self).wf(),
            (r is Ok) == old(self).is_live(id),
            r is Err ==> *final(self) == *old(self) && r == Err::<(), UndefinedBehavior>(
                UndefinedBehavior::UseAfterFree { alloc_id: id },
            ),
            r is Ok ==> {
                &&& final(self).allocs@.len() == old(self).allocs@.len()
                &&& forall|i: int|
                    0 <= i < old(self).allocs@.len() && i != id.0 ==> #[trigger] final(self).allocs@[i] == old(self).allocs@[i]
                &&& final(self).alloc_of(id).provs@ =~= old(self).alloc_of(id).provs@.push(
                    (offset, prov),
                )
                &&& final(self).alloc_of(id).bytes == old(self).alloc_of(id).bytes
                &&& final(self).alloc_of(id).size == old(self).alloc_of(id).size
                &&& final(self).alloc_of(id).live
                &&& final(self).alloc_of(id).extra == old(self).alloc_of(id).extra
            },
    {
        if id.0 >= self.allocs.len() as u64 {
            return Err(UndefinedBehavior::UseAfterFree { alloc_id: id });
        }
        let idx = id.0 as usize;
        if !self.allocs[idx].live {
            return Err(UndefinedBehavior::UseAfterFree { alloc_id: id });
        }
        let mut a = self.allocs.remove(idx);
        a.provs.push((offset, prov));
        self.allocs.insert(idx, a);
        Ok(())
    }
}

/// Allocation identifiers are pairwise distinct across an entire run and
/// are never reused after deallocation: `allocate` returns an identifier
/// the table has never issued, every identifier ever issued stays issued —
/// deallocation retires the entry but never removes it — and two distinct
/// identifiers never denote the same entry.
pub proof fn lemma_allocation_ids_never_reused(pre: AllocTable, post: AllocTable, id: AllocId)
    requires
        // what `allocate` ensures
        !pre.is_issued(id),
        post.is_issued(id),
        post.allocs@.len() == pre.allocs@.len() + 1,
    ensures
        forall|other: AllocId| pre.is_issued(other) ==> other != id,
        forall|other: AllocId| pre.is_issued(other) ==> post.is_issued(other),
{
}

} // verus!
