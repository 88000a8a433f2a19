//! Classification of memory blocks.
//!
//! Every allocation carries a memory kind. The kind decides whether the
//! block may leak without being reported, and whether a source span is
//! recorded when the block is created.

use vstd::prelude::*;

verus! {

/// The machine-specific memory kinds.
#[derive(Debug, Copy, Clone, PartialEq, Eq, Structural)]
pub enum MiriMemoryKind {
    /// `__rust_alloc` memory.
    Rust,
    /// `miri_alloc` memory.
    Miri,
    /// `malloc` memory.
    C,
    /// Windows `HeapAlloc` memory.
    WinHeap,
    /// Windows "local" memory (to be freed with `LocalFree`).
    WinLocal,
    /// Memory for args, errno, and other parts of the machine-managed
    /// environment. This memory may leak.
    Machine,
    /// Memory allocated by the language runtime (e.g. env vars). Separate
    /// from `Machine` because it is cleaned up and leak-checked.
    Runtime,
    /// Globals copied out of the compiled program. This memory may leak.
    Global,
    /// Memory for extern statics. This memory may leak.
    ExternStatic,
    /// Memory for thread-local statics. This memory may leak.
    Tls,
    /// Memory mapped directly by the program.
    Mmap,
}

/// A memory kind as the interpreter sees it: either one of the generic
/// interpreter kinds or a machine-specific one.
#[derive(Debug, Copy, Clone, PartialEq, Eq, Structural)]
pub enum MemoryKind {
    /// Stack memory: locals of a frame.
    Stack,
    /// The allocation backing a `caller_location` value.
    CallerLocation,
    /// A machine-specific kind.
    Machine(MiriMemoryKind),
}

impl MiriMemoryKind {
    /// Whether an allocation of this kind may leak without a report.
    pub open spec fn spec_may_leak(self) -> bool {
        match self {
            MiriMemoryKind::Rust
            | MiriMemoryKind::Miri
            | MiriMemoryKind::C
            | MiriMemoryKind::WinHeap
            | MiriMemoryKind::WinLocal
            | MiriMemoryKind::Runtime => false,
            MiriMemoryKind::Machine
            | MiriMemoryKind::Global
            | MiriMemoryKind::ExternStatic
            | MiriMemoryKind::Tls
            | MiriMemoryKind::Mmap => true,
        }
    }

    /// Whether an allocation of this kind may leak without a report.
    pub fn may_leak(self) -> (r: bool)
        ensures
            r == self.spec_may_leak(),
    {
        match self {
            MiriMemoryKind::Rust
            | MiriMemoryKind::Miri
            | MiriMemoryKind::C
            | MiriMemoryKind::WinHeap
            | MiriMemoryKind::WinLocal
            | MiriMemoryKind::Runtime => false,
            MiriMemoryKind::Machine
            | MiriMemoryKind::Global
            | MiriMemoryKind::ExternStatic
            | MiriMemoryKind::Tls
            | MiriMemoryKind::Mmap => true,
        }
    }

    /// Whether a useful source span exists for an allocation of this kind.
    pub open spec fn spec_should_save_allocation_span(self) -> bool {
        match self {
            // Heap allocations are fine since the block is created
            // immediately at the allocating call.
            MiriMemoryKind::Rust
            | MiriMemoryKind::Miri
            | MiriMemoryKind::C
            | MiriMemoryKind::WinHeap
            | MiriMemoryKind::WinLocal
            | MiriMemoryKind::Mmap => true,
            // Everything else is unclear; such spans would confuse more
            // than help.
            MiriMemoryKind::Machine
            | MiriMemoryKind::Global
            | MiriMemoryKind::ExternStatic
            | MiriMemoryKind::Tls
            | MiriMemoryKind::Runtime => false,
        }
    }

    /// Whether a useful source span exists for an allocation of this kind.
    pub fn should_save_allocation_span(self) -> (r: bool)
        ensures
            r == self.spec_should_save_allocation_span(),
    {
        match self {
            MiriMemoryKind::Rust
            | MiriMemoryKind::Miri
            | MiriMemoryKind::C
            | MiriMemoryKind::WinHeap
            | MiriMemoryKind::WinLocal
            | MiriMemoryKind::Mmap => true,
            MiriMemoryKind::Machine
            | MiriMemoryKind::Global
            | MiriMemoryKind::ExternStatic
            | MiriMemoryKind::Tls
            | MiriMemoryKind::Runtime => false,
        }
    }

    /// A human-readable description of the kind.
    pub fn description(self) -> (r: &'static str)
        ensures
            r@ == self.spec_description(),
    {
        proof {
            reveal_strlit("Rust heap");
            reveal_strlit("Miri bare-metal heap");
            reveal_strlit("C heap");
            reveal_strlit("Windows heap");
            reveal_strlit("Windows local memory");
            reveal_strlit("machine-managed memory");
            reveal_strlit("language runtime memory");
            reveal_strlit("global (static or const)");
            reveal_strlit("extern static");
            reveal_strlit("thread-local static");
            reveal_strlit("mmap");
        }
        match self {
            MiriMemoryKind::Rust => "Rust heap",
            MiriMemoryKind::Miri => "Miri bare-metal heap",
            MiriMemoryKind::C => "C heap",
            MiriMemoryKind::WinHeap => "Windows heap",
            MiriMemoryKind::WinLocal => "Windows local memory",
            MiriMemoryKind::Machine => "machine-managed memory",
            MiriMemoryKind::Runtime => "language runtime memory",
            MiriMemoryKind::Global => "global (static or const)",
            MiriMemoryKind::ExternStatic => "extern static",
            MiriMemoryKind::Tls => "thread-local static",
            MiriMemoryKind::Mmap => "mmap",
        }
    }

    /// The description of the kind, as a sequence of characters.
    pub open spec fn spec_description(self) -> Seq<char> {
        match self {
            MiriMemoryKind::Rust => "Rust heap"@,
            MiriMemoryKind::Miri => "Miri bare-metal heap"@,
            MiriMemoryKind::C => "C heap"@,
            MiriMemoryKind::WinHeap => "Windows heap"@,
            MiriMemoryKind::WinLocal => "Windows local memory"@,
            MiriMemoryKind::Machine => "machine-managed memory"@,
            MiriMemoryKind::Runtime => "language runtime memory"@,
            MiriMemoryKind::Global => "global (static or const)"@,
            MiriMemoryKind::ExternStatic => "extern static"@,
            MiriMemoryKind::Tls => "thread-local static"@,
            MiriMemoryKind::Mmap => "mmap"@,
        }
    }
}

impl MemoryKind {
    /// Whether an allocation of this kind may leak without a report.
    /// Stack and caller-location memory is cleaned up by the interpreter
    /// itself, so only machine kinds may leak.
    pub open spec fn spec_may_leak(self) -> bool {
        match self {
            MemoryKind::Stack => false,
            MemoryKind::CallerLocation => true,
            MemoryKind::Machine(k) => k.spec_may_leak(),
        }
    }

    /// Whether an allocation of this kind may leak without a report.
    pub fn may_leak(self) -> (r: bool)
        ensures
            r == self.spec_may_leak(),
    {
        match self {
            MemoryKind::Stack => false,
            MemoryKind::CallerLocation => true,
            MemoryKind::Machine(k) => k.may_leak(),
        }
    }
}

impl From<MiriMemoryKind> for MemoryKind {
    fn from(kind: MiriMemoryKind) -> (r: MemoryKind) {
        MemoryKind::Machine(kind)
    }
}

impl vstd::std_specs::convert::FromSpecImpl<MiriMemoryKind> for MemoryKind {
    open spec fn obeys_from_spec() -> bool {
        true
    }

    open spec fn from_spec(kind: MiriMemoryKind) -> MemoryKind {
        MemoryKind::Machine(kind)
    }
}

} // verus!
