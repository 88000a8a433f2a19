//! Weak-memory emulation: per-allocation store buffers.
//!
//! A relaxed write is appended to the allocation's store buffer instead of
//! becoming visible at once. A later relaxed read from the same thread may
//! observe that thread's own latest buffered write. A synchronizing
//! operation, and any plain access, flushes the buffer: the buffered
//! writes are handed back in order and the caller commits them to the
//! allocation's bytes, which keeps the committed order compatible with the
//! happens-before edges the race detector establishes — every buffered
//! access also went through race-detector accounting when it was made.

use vstd::prelude::*;

verus! {

/// One write sitting in a store buffer.
pub struct BufferedWrite {
    /// First byte written.
    pub start: u64,
    /// The data written.
    pub bytes: Vec<u8>,
    /// The writing thread.
    pub thread: usize,
}

/// The store buffer of one allocation, oldest write first.
pub struct AllocState {
    pub buffer: Vec<BufferedWrite>,
}

impl AllocState {
    /// The buffered write at `i` is a write by `thread` covering exactly
    /// the bytes `[start, start + len)`.
    pub open spec fn matches_at(self, i: int, thread: usize, start: u64, len: u64) -> bool {
        &&& 0 <= i < self.buffer@.len()
        &&& self.buffer@[i].thread == thread
        &&& self.buffer@[i].start == start
        &&& self.buffer@[i].bytes@.len() == len
    }

    /// Fresh, empty store buffer.
    pub fn new_allocation() -> (r: AllocState)
        ensures
            r.buffer@.len() == 0,
    {
        AllocState { buffer: Vec::new() }
    }

    /// Append a relaxed write: it is not yet visible to anyone else.
    pub fn buffered_write(&mut self, start: u64, bytes: Vec<u8>, thread: usize)
        ensures
            final(self).buffer@.len() == old(self).buffer@.len() + 1,
            forall|i: int|
                0 <= i < old(self).buffer@.len() ==> #[trigger] final(self).buffer@[i] == old(self).buffer@[i],
            final(self).buffer@[old(self).buffer@.len() as int].start == start,
            final(self).buffer@[old(self).buffer@.len() as int].bytes@ == bytes@,
            final(self).buffer@[old(self).buffer@.len() as int].thread == thread,
    {
        self.buffer.push(BufferedWrite { start, bytes, thread });
    }

    /// A relaxed read: the reading thread observes its own latest buffered
    /// write covering exactly the requested range, if it has one. The
    /// buffer is unchanged.
    pub fn read_latest(&self, thread: usize, start: u64, len: u64) -> (r: Option<&Vec<u8>>)
        ensures
            (r is Some) == exists|i: int| self.matches_at(i, thread, start, len),
            r matches Some(b) ==> exists|i: int|
                self.matches_at(i, thread, start, len) && b@ == self.buffer@[i].bytes@ && (forall|
                    j: int,
                |
                    i < j < self.buffer@.len() ==> !self.matches_at(j, thread, start, len)),
    {
        let mut found: Option<usize> = None;
        let mut idx: usize = 0;
        while idx < self.buffer.len()
            invariant
                idx <= self.buffer@.len(),
                found matches Some(k) ==> self.matches_at(k as int, thread, start, len) && (forall|
                    j: int,
                |
                    k < j < idx ==> !self.matches_at(j, thread, start, len)),
                found is None ==> forall|j: int|
                    0 <= j < idx ==> !self.matches_at(j, thread, start, len),
            decreases self.buffer@.len() - idx,
        {
            let w = &self.buffer[idx];
            if w.thread == thread && w.start == start && w.bytes.len() as u64 == len {
                found = Some(idx);
            }
            idx += 1;
        }
        match found {
            Some(k) => Some(&self.buffer[k].bytes),
            None => None,
        }
    }

    /// Flush: hand every buffered write back, oldest first, leaving the
    /// buffer empty. The caller commits them to the allocation's bytes in
    /// exactly this order.
    pub fn flush(&mut self) -> (r: Vec<BufferedWrite>)
        ensures
            r@ == old(self).buffer@,
            final(self).buffer@.len() == 0,
    {
        let mut out: Vec<BufferedWrite> = Vec::new();
        core::mem::swap(&mut out, &mut self.buffer);
        out
    }
}

/// The bytes after committing one buffered write: the written range takes
/// the write's data, everything else keeps its value.
pub open spec fn apply_write(bytes: Seq<u8>, w: BufferedWrite) -> Seq<u8> {
    Seq::new(
        bytes.len(),
        |i: int|
            if w.start <= i < w.start + w.bytes@.len() {
                w.bytes@[i - w.start]
            } else {
                bytes[i]
            },
    )
}

/// The bytes after committing a whole buffer, oldest write first.
pub open spec fn apply_writes(bytes: Seq<u8>, ws: Seq<BufferedWrite>) -> Seq<u8>
    decreases ws.len(),
{
    if ws.len() == 0 {
        bytes
    } else {
        apply_writes(apply_write(bytes, ws[0]), ws.drop_first())
    }
}

} // verus!
