//! The error taxonomy of a run.
//!
//! Undefined behaviour — an aliasing violation, a detected data race, a
//! use-after-free, a misaligned or out-of-bounds access — is the primary
//! deliverable of the checker; it is always fatal to the run. Unsupported
//! operations, resource exhaustion and deadlocks abort the run as well. A
//! panic of the interpreted program unwinds through the stack instead and
//! is fatal only when uncaught.

use vstd::prelude::*;
use crate::provenance::{AllocId, BorTag};

verus! {

/// The direction of a memory access.
#[derive(Debug, Clone, Copy, PartialEq, Eq, Structural)]
pub enum AccessKind {
    Read,
    Write,
    Deallocation,
}

/// The kinds of undefined behaviour the checker reports.
#[derive(Debug, Clone, Copy, PartialEq, Eq, Structural)]
pub enum UndefinedBehavior {
    /// The aliasing discipline refused the access.
    AliasingViolation { alloc_id: AllocId, tag: BorTag, access: AccessKind },
    /// Two unsynchronized conflicting accesses from different threads.
    DataRace {
        alloc_id: AllocId,
        prior_thread: usize,
        prior_write: bool,
        thread: usize,
        is_write: bool,
        start: u64,
        len: u64,
    },
    /// An access or deallocation of memory that was already freed.
    UseAfterFree { alloc_id: AllocId },
    /// A deallocation whose stated size or alignment does not match the
    /// allocation.
    DeallocLayoutMismatch {
        alloc_id: AllocId,
        expected_size: u64,
        given_size: u64,
        expected_align: u64,
        given_align: u64,
    },
    /// An access under an alignment the pointer does not have.
    MisalignedAccess { required: u64, has: u64 },
    /// An access beyond the bounds of the allocation.
    OutOfBounds { alloc_id: AllocId, offset: u64, len: u64, size: u64 },
}

/// A fatal outcome of one interpreter operation.
#[derive(Debug, Clone, Copy, PartialEq, Eq, Structural)]
pub enum InterpError {
    /// The operation relies on something the checker does not emulate.
    Unsupported,
    /// Undefined behaviour was detected.
    Ub(UndefinedBehavior),
    /// The synthetic address space or another machine budget is exhausted.
    ResourceExhaustion,
    /// No thread is runnable and at least one is blocked.
    Deadlock,
}

} // verus!
