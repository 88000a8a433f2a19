//! Global machine state: the allocation table, the provenance resolver,
//! the aliasing monitor, the race detector, the weak-memory buffers, the
//! scheduler, address assignment and the constant cache, wired together
//! so that they stay consistent on every allocate, free, load, store,
//! call and return.

use vstd::prelude::*;
use crate::addrs;
use crate::clock::Clock;
use crate::constcache::{ConstCache, ADDRS_PER_CONST};
use crate::errors::{AccessKind, InterpError, UndefinedBehavior};
use crate::frame::{CatchData, Frame, FrameExtra, Pointer, Value};
use crate::kinds::MemoryKind;
use crate::monitor;
use crate::provenance::{AllocId, BorTag, Provenance, ProvenanceExtra};
use crate::race;
use crate::rng::{rng_from_seed, rng_next_u32, rng_next_u64};
use crate::table::{AllocExtra, AllocTable};
use crate::threads::{Thread, ThreadManager, ThreadState};
use crate::weak;

verus! {

/// What the machine does when an operation requires communicating with
/// the host.
#[derive(Debug, Clone, Copy, PartialEq, Eq, Structural)]
pub enum IsolatedOp {
    /// Host interaction is allowed.
    Allow,
    /// The machine synthesizes deterministic stand-ins.
    Isolate,
}

/// How alignment of memory accesses is checked.
#[derive(Debug, Clone, Copy, PartialEq, Eq, Structural)]
pub enum AlignmentCheck {
    /// No alignment checking.
    Off,
    /// Check the numeric address.
    Int,
    /// Check symbolically, honouring promised alignments.
    Symbolic,
}

/// The target architecture, as far as defaults depend on it.
#[derive(Debug, Clone, Copy, PartialEq, Eq, Structural)]
pub enum TargetArch {
    Wasm32,
    Wasm64,
    Aarch64 { apple_vendor: bool },
    Other,
}

/// A detected misalignment: the alignment the access has against the one
/// it requires.
#[derive(Debug, Clone, Copy, PartialEq, Eq, Structural)]
pub struct Misalignment {
    pub has: u64,
    pub required: u64,
}

/// A structured event for the diagnostic sink; never required for
/// correctness, only for observability.
#[derive(Debug, Clone, Copy, PartialEq, Eq, Structural)]
pub enum NonHaltingDiagnostic {
    CreatedAlloc { alloc_id: AllocId, size: u64, align: u64 },
    FreedAlloc { alloc_id: AllocId },
    AccessedAlloc { alloc_id: AllocId, access: AccessKind },
    ProgressReport { block_count: u64 },
}

/// What happens after a frame is popped.
#[derive(Debug, Clone, Copy, PartialEq, Eq, Structural)]
pub enum StackPopJump {
    /// Continue normally.
    Normal,
    /// An unwinding panic was intercepted by this frame's catch marker.
    NoJump,
}

/// The configuration, consumed once at startup.
pub struct MiriConfig {
    /// Seed of the run's random stream.
    pub seed: Option<u64>,
    /// Host-interaction policy.
    pub isolated_op: IsolatedOp,
    /// Whether to enforce the validity invariant.
    pub validate: bool,
    /// Whether the aliasing monitor runs.
    pub borrow_tracker: bool,
    /// Whether the data race detector runs.
    pub data_race_detector: bool,
    /// Whether weak-memory emulation runs.
    pub weak_memory_emulation: bool,
    /// Preemption probability per step, in units of two to the minus
    /// thirty-two; at most one.
    pub preemption_rate_bits: u64,
    /// Spurious compare-exchange failure probability, same units.
    pub cmpxchg_weak_failure_rate_bits: u64,
    /// Run the tag collector every this many steps; zero disables it.
    pub gc_interval: u32,
    /// Report progress every this many steps.
    pub report_progress: Option<u32>,
    /// Page size override.
    pub page_size: Option<u64>,
    /// Number of CPUs to report.
    pub num_cpus: u32,
    /// Whether to collect an allocation backtrace for leak reports.
    pub collect_leak_backtraces: bool,
    /// Allocation identifiers to report about when created or freed.
    pub tracked_alloc_ids: Vec<AllocId>,
    /// Also report reads and writes of tracked allocations.
    pub track_alloc_accesses: bool,
    /// Whether unsupported operations panic instead of erroring.
    pub panic_on_unsupported: bool,
    /// The emulated target's architecture.
    pub arch: TargetArch,
    /// The emulated target's pointer width in bits.
    pub pointer_bits: u32,
}

/// The page size the configuration implies: an explicit override, or the
/// architecture's default.
pub open spec fn spec_page_size(c: MiriConfig) -> u64 {
    match c.page_size {
        Some(p) => p,
        None => match c.arch {
            TargetArch::Wasm32 | TargetArch::Wasm64 => 0x1_0000u64,
            TargetArch::Aarch64 { apple_vendor } => if apple_vendor {
                0x4000u64
            } else {
                0x1000u64
            },
            TargetArch::Other => 0x1000u64,
        },
    }
}

/// Where synthetic addresses start. On targets narrower than 32 bits,
/// 32 pages would exceed the whole address space.
pub open spec fn spec_stack_addr(c: MiriConfig) -> int {
    if c.pointer_bits < 32 {
        spec_page_size(c) as int
    } else {
        spec_page_size(c) * 32
    }
}

/// The emulated stack region's size.
pub open spec fn spec_stack_size(c: MiriConfig) -> int {
    if c.pointer_bits < 32 {
        spec_page_size(c) * 4
    } else {
        spec_page_size(c) * 16
    }
}

/// The last usable synthetic address of the target.
pub open spec fn spec_addr_space_max(c: MiriConfig) -> int {
    if c.pointer_bits >= 64 {
        0xffff_ffff_ffff_ffff
    } else {
        (1u64 << (c.pointer_bits as u64)) - 1
    }
}

/// Whether `x` is a power of two.
pub open spec fn spec_is_power_of_two(x: u64) -> bool {
    x > 0 && (x & ((x - 1) as u64)) == 0u64
}

impl MiriConfig {
    /// The machine limits a configuration must respect: a real pointer
    /// width; a power-of-two page size — the checker panics on any other,
    /// since a page size is an alignment — whose derived stack base fits
    /// the target's address space; and fixed-point probabilities of at
    /// most one.
    pub open spec fn wf(self) -> bool {
        &&& (self.pointer_bits == 16 || self.pointer_bits == 32 || self.pointer_bits == 64)
        &&& spec_is_power_of_two(spec_page_size(self))
        &&& 0 < spec_stack_addr(self) <= spec_addr_space_max(self)
        &&& self.preemption_rate_bits <= 0x1_0000_0000
        &&& self.cmpxchg_weak_failure_rate_bits <= 0x1_0000_0000
    }
}

/// The machine itself.
pub struct MiriMachine {
    /// Global state of the aliasing monitor, if enabled.
    pub borrow_tracker: Option<monitor::GlobalState>,
    /// Global state of the data race detector, if enabled.
    pub data_race: Option<race::GlobalState>,
    /// Address assignment and pointer exposure.
    pub alloc_addresses: addrs::GlobalState,
    /// The allocation table: every block the run has created.
    pub memory: AllocTable,
    /// The set of threads and the active one.
    pub threads: ThreadManager,
    /// The machine's monotone clock.
    pub clock: Clock,
    /// Memoized constant-evaluation results.
    pub const_cache: ConstCache,
    /// Extern-symbol table: interned symbol to base pointer.
    pub extern_statics: Vec<(u64, Pointer)>,
    /// Allocations that are considered roots of static memory.
    pub static_roots: Vec<AllocId>,
    /// Where each tracked-for-leaks allocation was created, and freed.
    pub allocation_spans: Vec<(AllocId, u64, Option<u64>)>,
    /// Promised (offset, alignment) pairs for symbolic alignment checks.
    pub symbolic_alignment: Vec<(AllocId, u64, u64)>,
    /// Allocation identifiers to report about.
    pub tracked_alloc_ids: Vec<AllocId>,
    /// Also report reads and writes of tracked allocations.
    pub track_alloc_accesses: bool,
    /// Host-interaction policy.
    pub isolated_op: IsolatedOp,
    /// Whether to enforce the validity invariant.
    pub validate: bool,
    /// How alignment is checked.
    pub check_alignment: AlignmentCheck,
    /// Spurious compare-exchange failure probability, in units of two to
    /// the minus thirty-two.
    pub cmpxchg_weak_failure_rate_bits: u64,
    /// Whether weak-memory emulation is enabled.
    pub weak_memory: bool,
    /// Preemption probability per step, same units.
    pub preemption_rate_bits: u64,
    /// Report progress every this many steps.
    pub report_progress: Option<u32>,
    /// The number of control-flow steps executed so far.
    pub basic_block_count: u64,
    /// Run the tag collector every this many steps; zero disables it.
    pub gc_interval: u32,
    /// Steps since the last collector pass.
    pub since_gc: u32,
    /// Number of CPUs to report.
    pub num_cpus: u32,
    /// The page size and the derived stack region.
    pub page_size: u64,
    pub stack_addr: u64,
    pub stack_size: u64,
    /// Whether to collect an allocation backtrace for leak reports.
    pub collect_leak_backtraces: bool,
    /// Crates considered local for diagnostics.
    pub local_crates: Vec<u32>,
    /// Whether unsupported operations panic instead of erroring.
    pub panic_on_unsupported: bool,
    /// Pointers to the program arguments, once set up.
    pub argc: Option<Pointer>,
    pub argv: Option<Pointer>,
    pub cmd_line: Option<Pointer>,
    /// Return place of the program's entry function.
    pub main_fn_ret_place: Option<Pointer>,
    /// The run's random stream; every non-deterministic choice draws from
    /// it, so one seed reproduces one run.
    pub rng: rand::rngs::StdRng,
}

impl MiriMachine {
    /// The machine invariant: every component state is well formed, and
    /// per-allocation extra states are consistent with their global
    /// counterparts.
    pub open spec fn wf(self) -> bool {
        &&& self.memory.wf()
        &&& self.threads.wf()
        &&& self.alloc_addresses.wf()
        &&& self.const_cache.wf()
        &&& forall|i: int|
            0 <= i < self.memory.allocs@.len()
                ==> ((#[trigger] self.memory.allocs@[i]).extra.borrow_tracker matches Some(bt)
                ==> (self.borrow_tracker matches Some(g) && bt.wf(g.next_tag)))
        &&& (self.data_race matches Some(g) ==> g.thread_clocks@.len()
            == self.threads.threads@.len())
        &&& forall|i: int|
            0 <= i < self.memory.allocs@.len()
                ==> ((#[trigger] self.memory.allocs@[i]).extra.data_race is Some
                ==> self.data_race is Some)
        &&& forall|i: int|
            0 <= i < self.memory.allocs@.len()
                ==> ((#[trigger] self.memory.allocs@[i]).extra.weak_memory matches Some(wm)
                ==> (forall|j: int|
                0 <= j < wm.buffer@.len() ==> (#[trigger] wm.buffer@[j]).start
                    + wm.buffer@[j].bytes@.len() <= self.memory.allocs@[i].size))
        &&& forall|i: int|
            0 <= i < self.extern_statics@.len() ==> (#[trigger] self.extern_statics@[i]).1.provenance
                is Concrete
        &&& forall|i: int, j: int|
            0 <= i < j < self.extern_statics@.len() ==> self.extern_statics@[i].0
                != self.extern_statics@[j].0
        &&& spec_is_power_of_two(self.page_size)
    }

    /// Build the machine from the configuration: the page size comes from
    /// the override or the architecture, the stack region and the address
    /// budget from the pointer width, the random stream from the seed,
    /// and each optional component is enabled exactly as configured.
    pub fn new(config: &MiriConfig) -> (r: MiriMachine)
        requires
            config.wf(),
        ensures
            r.wf(),
            r.page_size == spec_page_size(*config),
            r.stack_addr == spec_stack_addr(*config),
            r.stack_size == spec_stack_size(*config),
            (r.borrow_tracker is Some) == config.borrow_tracker,
            (r.data_race is Some) == config.data_race_detector,
            r.weak_memory == config.weak_memory_emulation,
            r.preemption_rate_bits == config.preemption_rate_bits,
            r.cmpxchg_weak_failure_rate_bits == config.cmpxchg_weak_failure_rate_bits,
            r.gc_interval == config.gc_interval,
            r.since_gc == 0,
            r.basic_block_count == 0,
            r.report_progress == config.report_progress,
            r.num_cpus == config.num_cpus,
            r.isolated_op == config.isolated_op,
            r.validate == config.validate,
            r.collect_leak_backtraces == config.collect_leak_backtraces,
            r.tracked_alloc_ids@ =~= config.tracked_alloc_ids@,
            r.track_alloc_accesses == config.track_alloc_accesses,
            r.panic_on_unsupported == config.panic_on_unsupported,
            r.memory.allocs@.len() == 0,
            r.threads.threads@.len() == 1,
            r.threads.active == 0,
            r.clock.now == 0,
            r.alloc_addresses.next_base_addr == spec_stack_addr(*config),
            r.alloc_addresses.addr_space_max == spec_addr_space_max(*config),
            r.extern_statics@.len() == 0,
            r.const_cache.entries@.len() == 0,
            r.allocation_spans@.len() == 0,
            r.symbolic_alignment@.len() == 0,
            r.static_roots@.len() == 0,
            r.local_crates@.len() == 0,
            r.argc is None,
            r.argv is None,
            r.cmd_line is None,
            r.main_fn_ret_place is None,
            r.check_alignment == AlignmentCheck::Off,
    {
        let page_size: u64 = match config.page_size {
            Some(p) => p,
            None => match config.arch {
                TargetArch::Wasm32 | TargetArch::Wasm64 => 64 * 1024,
                TargetArch::Aarch64 { apple_vendor } => if apple_vendor {
                    16 * 1024
                } else {
                    4 * 1024
                },
                TargetArch::Other => 4 * 1024,
            },
        };
        proof {
            if config.pointer_bits == 16 {
                assert((1u64 << 16u64) == 0x1_0000) by (bit_vector);
            }
            if config.pointer_bits == 32 {
                assert((1u64 << 32u64) == 0x1_0000_0000) by (bit_vector);
            }
        }
        let stack_addr: u64 = if config.pointer_bits < 32 {
            page_size
        } else {
            page_size * 32
        };
        let stack_size: u64 = if config.pointer_bits < 32 {
            page_size * 4
        } else {
            page_size * 16
        };
        let addr_space_max: u64 = if config.pointer_bits >= 64 {
            0xffff_ffff_ffff_ffff
        } else if config.pointer_bits == 32 {
            proof {
                assert((1u64 << 32u64) == 0x1_0000_0000) by (bit_vector);
            }
            0xffff_ffff
        } else {
            proof {
                assert((1u64 << 16u64) == 0x1_0000) by (bit_vector);
            }
            0xffff
        };
        let seed: u64 = match config.seed {
            Some(s) => s,
            None => 0,
        };
        let rng = rng_from_seed(seed);
        let borrow_tracker = if config.borrow_tracker {
            Some(monitor::GlobalState::new())
        } else {
            None
        };
        let data_race = if config.data_race_detector {
            Some(race::GlobalState::new())
        } else {
            None
        };
        let main_thread = Thread {
            state: ThreadState::Runnable,
            stack: Vec::new(),
            top_user_relevant_frame: None,
        };
        let threads = ThreadManager::new(main_thread);
        let mut tracked_alloc_ids: Vec<AllocId> = Vec::new();
        let mut i: usize = 0;
        while i < config.tracked_alloc_ids.len()
            invariant
                i <= config.tracked_alloc_ids@.len(),
                tracked_alloc_ids@ =~= config.tracked_alloc_ids@.subrange(0, i as int),
            decreases config.tracked_alloc_ids@.len() - i,
        {
            tracked_alloc_ids.push(config.tracked_alloc_ids[i]);
            i += 1;
        }
        proof {
            assert(tracked_alloc_ids@ =~= config.tracked_alloc_ids@);
        }
        MiriMachine {
            borrow_tracker,
            data_race,
            alloc_addresses: addrs::GlobalState::new(stack_addr, addr_space_max),
            memory: AllocTable::new(),
            threads,
            clock: Clock::new(),
            const_cache: ConstCache::new(),
            extern_statics: Vec::new(),
            static_roots: Vec::new(),
            allocation_spans: Vec::new(),
            symbolic_alignment: Vec::new(),
            tracked_alloc_ids,
            track_alloc_accesses: config.track_alloc_accesses,
            isolated_op: config.isolated_op,
            validate: config.validate,
            check_alignment: AlignmentCheck::Off,
            cmpxchg_weak_failure_rate_bits: config.cmpxchg_weak_failure_rate_bits,
            weak_memory: config.weak_memory_emulation,
            preemption_rate_bits: config.preemption_rate_bits,
            report_progress: config.report_progress,
            basic_block_count: 0,
            gc_interval: config.gc_interval,
            since_gc: 0,
            num_cpus: config.num_cpus,
            page_size,
            stack_addr,
            stack_size,
            collect_leak_backtraces: config.collect_leak_backtraces,
            local_crates: Vec::new(),
            panic_on_unsupported: config.panic_on_unsupported,
            argc: None,
            argv: None,
            cmd_line: None,
            main_fn_ret_place: None,
            rng,
        }
    }

    /// Whether the machine may communicate with the host.
    pub fn communicate(&self) -> (r: bool)
        ensures
            r == (self.isolated_op == IsolatedOp::Allow),
    {
        matches!(self.isolated_op, IsolatedOp::Allow)
    }

    /// Whether alignment of memory accesses is enforced at all.
    pub fn enforce_alignment(&self) -> (r: bool)
        ensures
            r == (self.check_alignment != AlignmentCheck::Off),
    {
        !matches!(self.check_alignment, AlignmentCheck::Off)
    }

    /// Whether the validity invariant is enforced.
    pub fn enforce_validity(&self) -> (r: bool)
        ensures
            r == self.validate,
    {
        self.validate
    }

    /// Calling conventions are always enforced.
    pub fn enforce_abi(&self) -> (r: bool)
        ensures
            r,
    {
        true
    }

    /// Whether a frame belongs to a local crate for diagnostic purposes.
    pub fn is_local(&self, frame_krate: u32, frame_def_is_local: bool) -> (r: bool)
        ensures
            r == (frame_def_is_local || self.local_crates@.contains(frame_krate)),
    {
        if frame_def_is_local {
            return true;
        }
        let mut i: usize = 0;
        while i < self.local_crates.len()
            invariant
                i <= self.local_crates@.len(),
                forall|j: int| 0 <= j < i ==> self.local_crates@[j] != frame_krate,
            decreases self.local_crates@.len() - i,
        {
            if self.local_crates[i] == frame_krate {
                proof {
                    assert(self.local_crates@[i as int] == frame_krate);
                }
                return true;
            }
            i += 1;
        }
        false
    }

    /// The alignment the page size gives: a well-formed machine's page
    /// size is a power of two, so it is a valid alignment.
    pub fn page_align(&self) -> (r: u64)
        requires
            self.wf(),
        ensures
            r == self.page_size,
            spec_is_power_of_two(r),
    {
        self.page_size
    }

    /// Register an extern static's base pointer. Each symbol resolves to
    /// exactly one allocation, and extern statics never carry wildcard
    /// provenance.
    pub fn add_extern_static(&mut self, name: u64, ptr: Pointer) -> (r: Result<(), ()>)
        requires
            old(self).wf(),
            ptr.provenance is Concrete,
        ensures
            final(self).wf(),
            (r is Ok) == (forall|i: int|
                0 <= i < old(self).extern_statics@.len() ==> (
                #[trigger] old(self).extern_statics@[i]).0 != name),
            r is Ok ==> final(self).extern_statics@ =~= old(self).extern_statics@.push(
                (name, ptr),
            ),
            r is Err ==> *final(self) == *old(self),
            final(self).memory == old(self).memory,
            final(self).threads == old(self).threads,
    {
        let mut i: usize = 0;
        while i < self.extern_statics.len()
            invariant
                i <= self.extern_statics@.len(),
                *self == *old(self),
                old(self).wf(),
                forall|j: int| 0 <= j < i ==> (#[trigger] self.extern_statics@[j]).0 != name,
            decreases self.extern_statics@.len() - i,
        {
            if self.extern_statics[i].0 == name {
                proof {
                    assert(self.extern_statics@[i as int].0 == name);
                }
                return Err(());
            }
            i += 1;
        }
        self.extern_statics.push((name, ptr));
        Ok(())
    }

    /// The span where an allocation was created, if one was recorded.
    pub fn allocated_span(&self, alloc_id: AllocId) -> (r: Option<u64>)
        ensures
            (r is Some) == exists|i: int|
                0 <= i < self.allocation_spans@.len() && (#[trigger] self.allocation_spans@[i]).0
                    == alloc_id,
            r matches Some(s) ==> exists|i: int|
                0 <= i < self.allocation_spans@.len() && (#[trigger] self.allocation_spans@[i]).0
                    == alloc_id && self.allocation_spans@[i].1 == s,
    {
        let mut i: usize = 0;
        while i < self.allocation_spans.len()
            invariant
                i <= self.allocation_spans@.len(),
                forall|j: int|
                    0 <= j < i ==> (#[trigger] self.allocation_spans@[j]).0 != alloc_id,
            decreases self.allocation_spans@.len() - i,
        {
            if self.allocation_spans[i].0 == alloc_id {
                proof {
                    assert(self.allocation_spans@[i as int].0 == alloc_id);
                }
                return Some(self.allocation_spans[i].1);
            }
            i += 1;
        }
        None
    }

    /// The span where an allocation was freed, if one was recorded.
    pub fn deallocated_span(&self, alloc_id: AllocId) -> (r: Option<u64>)
        ensures
            r matches Some(s) ==> exists|i: int|
                0 <= i < self.allocation_spans@.len() && (#[trigger] self.allocation_spans@[i]).0
                    == alloc_id && self.allocation_spans@[i].2 == Some(s),
            (r is None) == (forall|i: int|
                0 <= i < self.allocation_spans@.len() ==> ((
                #[trigger] self.allocation_spans@[i]).0 != alloc_id
                    || self.allocation_spans@[i].2 is None)),
    {
        let mut i: usize = 0;
        while i < self.allocation_spans.len()
            invariant
                i <= self.allocation_spans@.len(),
                forall|j: int|
                    0 <= j < i ==> ((#[trigger] self.allocation_spans@[j]).0 != alloc_id
                        || self.allocation_spans@[j].2 is None),
            decreases self.allocation_spans@.len() - i,
        {
            if self.allocation_spans[i].0 == alloc_id {
                match self.allocation_spans[i].2 {
                    Some(s) => {
                        proof {
                            assert(self.allocation_spans@[i as int].0 == alloc_id
                                && self.allocation_spans@[i as int].2 == Some(s));
                        }
                        return Some(s);
                    },
                    None => {},
                }
            }
            i += 1;
        }
        None
    }

    /// Resolve an extern static to its base pointer. The symbol must be
    /// registered, and the allocation behind the shim must match the
    /// declared size and alignment; otherwise the operation is
    /// unsupported.
    pub fn extern_static_base_pointer(&self, link_name: u64, decl_size: u64, decl_align: u64) -> (r:
        Result<Pointer, InterpError>)
        requires
            self.wf(),
        ensures
            (r is Ok) == exists|i: int|
                spec_extern_static_matches(*self, i, link_name, decl_size, decl_align),
            r matches Ok(p) ==> exists|i: int|
                spec_extern_static_matches(*self, i, link_name, decl_size, decl_align)
                    && (#[trigger] self.extern_statics@[i]).1 == p,
            r matches Err(e) ==> e == InterpError::Unsupported,
    {
        let mut i: usize = 0;
        while i < self.extern_statics.len()
            invariant
                i <= self.extern_statics@.len(),
                self.wf(),
                forall|j: int| 0 <= j < i ==> (#[trigger] self.extern_statics@[j]).0 != link_name,
            decreases self.extern_statics@.len() - i,
        {
            if self.extern_statics[i].0 == link_name {
                let ptr = self.extern_statics[i].1;
                proof {
                    assert(self.extern_statics@[i as int].0 == link_name
                        && self.extern_statics@[i as int].1 == ptr);
                    // symbols are registered at most once, so this entry
                    // is the only candidate
                    assert forall|j: int|
                        0 <= j < self.extern_statics@.len() && (
                        #[trigger] self.extern_statics@[j]).0 == link_name implies j
                        == i by {
                        if j < i {
                            assert(self.extern_statics@[j].0 != self.extern_statics@[
                                i as int].0);
                        } else if j > i {
                            assert(self.extern_statics@[i as int].0 != self.extern_statics@[
                                j].0);
                        }
                    }
                }
                match ptr.provenance {
                    Provenance::Concrete { alloc_id, tag } => {
                        if alloc_id.0 < self.memory.allocs.len() as u64 {
                            let idx = alloc_id.0 as usize;
                            let shim_size = self.memory.allocs[idx].size;
                            let shim_align = self.memory.allocs[idx].align;
                            if shim_size == decl_size && shim_align == decl_align {
                                proof {
                                    assert(spec_extern_static_matches(
                                        *self,
                                        i as int,
                                        link_name,
                                        decl_size,
                                        decl_align,
                                    ));
                                }
                                return Ok(ptr);
                            }
                        }
                        proof {
                            assert forall|j: int|
                                !spec_extern_static_matches(
                                    *self,
                                    j,
                                    link_name,
                                    decl_size,
                                    decl_align,
                                ) by {
                                if 0 <= j < self.extern_statics@.len()
                                    && self.extern_statics@[j].0 == link_name {
                                    assert(j == i);
                                }
                            }
                        }
                        return Err(InterpError::Unsupported);
                    },
                    Provenance::Wildcard => {
                        proof {
                            assert forall|j: int|
                                !spec_extern_static_matches(
                                    *self,
                                    j,
                                    link_name,
                                    decl_size,
                                    decl_align,
                                ) by {
                                if 0 <= j < self.extern_statics@.len()
                                    && self.extern_statics@[j].0 == link_name {
                                    assert(j == i);
                                }
                            }
                        }
                        return Err(InterpError::Unsupported);
                    },
                }
            }
            i += 1;
        }
        Err(InterpError::Unsupported)
    }

    /// An integer-to-pointer cast: the result carries wildcard
    /// provenance, and every use of it is re-resolved against the exposed
    /// allocations.
    pub fn ptr_from_addr_cast(&self, addr: u64) -> (r: Pointer)
        ensures
            r == (Pointer { provenance: Provenance::Wildcard, addr }),
    {
        Pointer { provenance: Provenance::Wildcard, addr }
    }

    /// Whether this allocation identifier is on the tracking list.
    fn is_tracked(&self, id: AllocId) -> (r: bool)
        ensures
            r == self.tracked_alloc_ids@.contains(id),
    {
        let mut i: usize = 0;
        while i < self.tracked_alloc_ids.len()
            invariant
                i <= self.tracked_alloc_ids@.len(),
                forall|j: int| 0 <= j < i ==> self.tracked_alloc_ids@[j] != id,
            decreases self.tracked_alloc_ids@.len() - i,
        {
            if self.tracked_alloc_ids[i].0 == id.0 {
                proof {
                    assert(self.tracked_alloc_ids@[i as int] == id);
                }
                return true;
            }
            i += 1;
        }
        false
    }

    /// Create an allocation: build its extra-state bundle by
    /// notifying the aliasing monitor, the race detector and the
    /// weak-memory buffer, in that fixed order, each of which is present
    /// exactly while enabled; record a creation backtrace when the block
    /// would be reported if it leaked; enter the block into the table
    /// under a fresh identifier; record its creation span when its kind
    /// has a useful one and the block is not leak-permitted — spans serve
    /// leak diagnostics, so leak-permitted blocks are not tracked; and
    /// report the creation when the identifier is tracked.
    pub fn adjust_allocation(&mut self, size: u64, align: u64, kind: MemoryKind, span: u64) -> (r: (
        AllocId,
        Option<NonHaltingDiagnostic>,
    ))
        requires
            old(self).wf(),
            size <= usize::MAX,
            old(self).memory.allocs@.len() < u64::MAX,
            old(self).borrow_tracker matches Some(g) ==> g.next_tag < u64::MAX,
            align > 0,
        ensures
            final(self).wf(),
            // a fresh identifier, never issued before
            !old(self).memory.is_issued(r.0),
            final(self).memory.is_live(r.0),
            r.0.0 == old(self).memory.allocs@.len(),
            final(self).memory.allocs@.len() == old(self).memory.allocs@.len() + 1,
            forall|i: int|
                0 <= i < old(self).memory.allocs@.len() ==> #[trigger] final(self).memory.allocs@[i] == old(self).memory.allocs@[i],
            final(self).memory.alloc_of(r.0).size == size,
            final(self).memory.alloc_of(r.0).align == align,
            final(self).memory.alloc_of(r.0).kind == kind,
            // each component's per-allocation state exists exactly while
            // the component is enabled
            (final(self).memory.alloc_of(r.0).extra.borrow_tracker is Some) == (old(self).borrow_tracker is Some),
            (final(self).memory.alloc_of(r.0).extra.data_race is Some) == (old(self).data_race
                is Some),
            (final(self).memory.alloc_of(r.0).extra.weak_memory is Some) == old(self).weak_memory,
            // the monitor mints the base tag now
            final(self).memory.alloc_of(r.0).extra.borrow_tracker matches Some(bt) ==> (old(self).borrow_tracker matches Some(g) && bt.base_tag.0 == g.next_tag && bt.history@ =~= seq![
                g.next_tag,
            ]),
            final(self).borrow_tracker matches Some(g2) ==> (old(self).borrow_tracker matches Some(
                g,
            ) && g2.next_tag == g.next_tag + (if old(self).borrow_tracker is Some {
                1int
            } else {
                0int
            })),
            // the creation counts as a write by the active thread
            final(self).memory.alloc_of(r.0).extra.data_race matches Some(dr) ==> (old(self).data_race matches Some(g) && dr.records@ =~= seq![
                race::AccessRecord {
                    thread: old(self).threads.active,
                    epoch: g.clock_of(old(self).threads.active as int).get(
                        old(self).threads.active as int,
                    ),
                    start: 0u64,
                    len: size,
                    is_write: true,
                },
            ]),
            // a backtrace is recorded exactly for blocks that would be
            // reported if they leaked
            (final(self).memory.alloc_of(r.0).extra.backtrace is Some) == (!kind.spec_may_leak()
                && old(self).collect_leak_backtraces),
            // the creation span is recorded exactly for kinds with a
            // useful one that are not leak-permitted
            (if kind matches MemoryKind::Machine(mk) && mk.spec_should_save_allocation_span()
                && !mk.spec_may_leak() {
                final(self).allocation_spans@ =~= old(self).allocation_spans@.push(
                    (r.0, span, None::<u64>),
                )
            } else {
                final(self).allocation_spans@ =~= old(self).allocation_spans@
            }),
            // tracked identifiers are reported
            r.1 == (if old(self).tracked_alloc_ids@.contains(r.0) {
                Some(NonHaltingDiagnostic::CreatedAlloc { alloc_id: r.0, size, align })
            } else {
                None::<NonHaltingDiagnostic>
            }),
            final(self).threads == old(self).threads,
            final(self).alloc_addresses == old(self).alloc_addresses,
            final(self).data_race == old(self).data_race,
            final(self).clock == old(self).clock,
    {
        let id = AllocId(self.memory.allocs.len() as u64);
        // aliasing monitor first
        let borrow_tracker_state = match &mut self.borrow_tracker {
            Some(g) => Some(monitor::AllocState::new_allocation(g)),
            None => None,
        };
        // then the race detector: creation is a write by the creator
        let data_race_state = match &self.data_race {
            Some(g) => {
                let t = self.threads.active_thread();
                let epoch = g.thread_clocks[t].entry(t);
                Some(race::AllocState::new_allocation(t, epoch, size))
            },
            None => None,
        };
        // then the weak-memory buffer
        let weak_memory_state = if self.weak_memory {
            Some(weak::AllocState::new_allocation())
        } else {
            None
        };
        let backtrace = if kind.may_leak() || !self.collect_leak_backtraces {
            None
        } else {
            let mut spans: Vec<u64> = Vec::new();
            let t = self.threads.active_thread();
            let stack = &self.threads.threads[t].stack;
            let mut i: usize = 0;
            while i < stack.len()
                invariant
                    i <= stack@.len(),
                    spans@.len() == i,
                decreases stack@.len() - i,
            {
                spans.push(stack[i].span);
                i += 1;
            }
            Some(spans)
        };
        let extra = AllocExtra {
            borrow_tracker: borrow_tracker_state,
            data_race: data_race_state,
            weak_memory: weak_memory_state,
            backtrace,
        };
        let got = self.memory.allocate(size, align, kind, extra);
        proof {
            assert(got == id);
        }
        let save_span = match kind {
            MemoryKind::Machine(mk) => mk.should_save_allocation_span() && !mk.may_leak(),
            _ => false,
        };
        if save_span {
            self.allocation_spans.push((id, span, None));
        }
        let diag = if self.is_tracked(id) {
            Some(NonHaltingDiagnostic::CreatedAlloc { alloc_id: id, size, align })
        } else {
            None
        };
        (id, diag)
    }

    /// The base pointer of an allocation: the aliasing monitor's base tag
    /// — or the untracked tag while the monitor is off — together with
    /// the block's assigned address, assigned now if it never was. Fails
    /// only when the address space is exhausted.
    pub fn adjust_alloc_base_pointer(&mut self, id: AllocId) -> (r: Result<Pointer, InterpError>)
        requires
            old(self).wf(),
            old(self).memory.is_live(id),
            old(self).memory.alloc_of(id).align > 0,
        ensures
            final(self).wf(),
            final(self).memory == old(self).memory,
            final(self).threads == old(self).threads,
            r matches Ok(p) ==> {
                &&& p.provenance matches Provenance::Concrete { alloc_id, tag } && alloc_id == id
                    && tag == (match old(self).memory.alloc_of(id).extra.borrow_tracker {
                    Some(bt) => bt.base_tag,
                    None => BorTag(0),
                })
                &&& final(self).alloc_addresses.has_addr(id.0)
                &&& exists|i: int|
                    0 <= i < final(self).alloc_addresses.assigned@.len() && (#[trigger] final(self).alloc_addresses.assigned@[i]).id == id.0 && final(self).alloc_addresses.assigned@[i].addr == p.addr
            },
            old(self).alloc_addresses.has_addr(id.0) ==> r is Ok,
            r matches Err(e) ==> e == InterpError::ResourceExhaustion && !old(self).alloc_addresses.has_addr(id.0) && addrs::spec_align_up(
                old(self).alloc_addresses.next_base_addr as int,
                old(self).memory.alloc_of(id).align as int,
            ) + old(self).memory.alloc_of(id).size > old(self).alloc_addresses.addr_space_max,
    {
        let n = self.memory.allocs.len();
        proof {
            assert(id.0 < n as u64);
        }
        let tag = match &self.memory.allocs[id.0 as usize].extra.borrow_tracker {
            Some(bt) => bt.base_tag,
            None => BorTag(0),
        };
        let addr = match self.alloc_addresses.addr_of(id.0) {
            Some(a) => a,
            None => {
                let size = self.memory.allocs[id.0 as usize].size;
                let align = self.memory.allocs[id.0 as usize].align;
                let draw = rng_next_u64(&mut self.rng);
                match self.alloc_addresses.assign(id.0, size, align, draw) {
                    Ok(a) => a,
                    Err(e) => {
                        return Err(e);
                    },
                }
            },
        };
        Ok(Pointer { provenance: Provenance::Concrete { alloc_id: id, tag }, addr })
    }

    /// Expose a pointer: a live concrete pointer's identity becomes a
    /// candidate for wildcard resolution — its address is assigned now if
    /// it never was. Exposing a pointer into a freed allocation is a
    /// defined no-op: its address range is already retired, so nothing
    /// can resolve to it. Wildcard pointers need nothing either: what
    /// they stand for was exposed already. Fails only when a fresh
    /// address must be assigned and the address space is exhausted.
    pub fn expose_ptr(&mut self, ptr: Pointer) -> (r: Result<(), InterpError>)
        requires
            old(self).wf(),
            ptr.provenance matches Provenance::Concrete { alloc_id, tag } ==> (old(self).memory.is_live(alloc_id) ==> old(self).memory.alloc_of(alloc_id).align > 0),
        ensures
            final(self).wf(),
            final(self).memory == old(self).memory,
            ptr.provenance is Wildcard ==> r is Ok && *final(self) == *old(self),
            ptr.provenance matches Provenance::Concrete { alloc_id, tag } ==> {
                &&& (!old(self).memory.is_live(alloc_id) ==> r is Ok && *final(self) == *old(self))
                &&& (r is Ok && old(self).memory.is_live(alloc_id) ==> (final(self).alloc_addresses.is_exposed(alloc_id.0) && final(self).alloc_addresses.has_addr(
                    alloc_id.0,
                )))
                &&& (old(self).memory.is_live(alloc_id) && old(self).alloc_addresses.has_addr(
                    alloc_id.0,
                ) ==> r is Ok)
                &&& (r is Err ==> !old(self).alloc_addresses.has_addr(alloc_id.0)
                    && addrs::spec_align_up(
                    old(self).alloc_addresses.next_base_addr as int,
                    old(self).memory.alloc_of(alloc_id).align as int,
                ) + old(self).memory.alloc_of(alloc_id).size > old(self).alloc_addresses.addr_space_max)
            },
            r matches Err(e) ==> e == InterpError::ResourceExhaustion,
    {
        match ptr.provenance {
            Provenance::Wildcard => Ok(()),
            Provenance::Concrete { alloc_id, tag } => {
                if alloc_id.0 >= self.memory.allocs.len() as u64 {
                    return Ok(());
                }
                if !self.memory.allocs[alloc_id.0 as usize].live {
                    return Ok(());
                }
                match self.alloc_addresses.addr_of(alloc_id.0) {
                    Some(_) => {},
                    None => {
                        let size = self.memory.allocs[alloc_id.0 as usize].size;
                        let align = self.memory.allocs[alloc_id.0 as usize].align;
                        let draw = rng_next_u64(&mut self.rng);
                        match self.alloc_addresses.assign(alloc_id.0, size, align, draw) {
                            Ok(_) => {},
                            Err(e) => {
                                return Err(e);
                            },
                        }
                    },
                };
                self.alloc_addresses.expose(alloc_id.0);
                Ok(())
            },
        }
    }

    /// Convert a pointer into an allocation and offset, for one access:
    /// exact provenance resolves directly against its assigned base
    /// address; a wildcard is resolved against the previously exposed
    /// allocations, opportunistically and for this one use only — it is
    /// attributed to the exposed allocation whose range contains the
    /// address, and rejected when no exposed range does.
    pub fn ptr_get_alloc(&self, ptr: Pointer) -> (r: Option<(AllocId, u64, ProvenanceExtra)>)
        requires
            self.wf(),
        ensures
            ptr.provenance matches Provenance::Concrete { alloc_id, tag } ==> r == (
            match spec_base_addr_of(self.alloc_addresses, alloc_id.0) {
                Some(base) => if base <= ptr.addr {
                    Some(((alloc_id, (ptr.addr - base) as u64, ProvenanceExtra::Concrete(tag))))
                } else {
                    None::<(AllocId, u64, ProvenanceExtra)>
                },
                None => None::<(AllocId, u64, ProvenanceExtra)>,
            }),
            ptr.provenance is Wildcard ==> ((r is Some) == exists|i: int|
                0 <= i < self.alloc_addresses.assigned@.len() && self.alloc_addresses.is_exposed(
                    (#[trigger] self.alloc_addresses.assigned@[i]).id,
                ) && self.alloc_addresses.assigned@[i].addr <= ptr.addr
                    < self.alloc_addresses.assigned@[i].addr
                    + self.alloc_addresses.assigned@[i].size),
            ptr.provenance is Wildcard ==> (r matches Some((id, off, pe)) ==> pe
                is Wildcard && exists|i: int|
                0 <= i < self.alloc_addresses.assigned@.len() && (#[trigger] self.alloc_addresses.assigned@[i]).id
                    == id.0 && self.alloc_addresses.is_exposed(id.0) && ptr.addr
                    == self.alloc_addresses.assigned@[i].addr + off && off
                    < self.alloc_addresses.assigned@[i].size),
    {
        match ptr.provenance {
            Provenance::Concrete { alloc_id, tag } => {
                match self.alloc_addresses.addr_of(alloc_id.0) {
                    Some(base) => {
                        proof {
                            lemma_base_addr_of_agrees(self.alloc_addresses, alloc_id.0);
                        }
                        if base <= ptr.addr {
                            Some((alloc_id, ptr.addr - base, ProvenanceExtra::Concrete(tag)))
                        } else {
                            None
                        }
                    },
                    None => {
                        proof {
                            lemma_base_addr_of_agrees(self.alloc_addresses, alloc_id.0);
                        }
                        None
                    },
                }
            },
            Provenance::Wildcard => {
                match self.alloc_addresses.resolve_addr(ptr.addr) {
                    Some((id, off)) => Some((AllocId(id), off, ProvenanceExtra::Wildcard)),
                    None => None,
                }
            },
        }
    }
    /// The fan-out before a read commits: report the access of a tracked
    /// allocation, then consult the race detector, then the aliasing
    /// monitor — in that fixed order. A detected race or an aliasing
    /// violation is fatal and nothing is recorded or changed then; on
    /// success the access is on the race detector's record. The report,
    /// when the identifier is tracked, accompanies only a committed
    /// access.
    pub fn before_memory_read(
        &mut self,
        alloc_id: AllocId,
        prov_extra: ProvenanceExtra,
        start: u64,
        len: u64,
    ) -> (r: Result<Option<NonHaltingDiagnostic>, InterpError>)
        requires
            old(self).wf(),
            old(self).memory.is_live(alloc_id),
            start + len <= old(self).memory.alloc_of(alloc_id).size,
        ensures
            final(self).wf(),
            (r is Err) == (spec_access_race(*old(self), alloc_id, false, start, len)
                || spec_read_rejected(*old(self), alloc_id, prov_extra)),
            spec_access_race(*old(self), alloc_id, false, start, len) ==> (r matches Err(e)
                && e matches InterpError::Ub(UndefinedBehavior::DataRace { .. })),
            (!spec_access_race(*old(self), alloc_id, false, start, len) && spec_read_rejected(
                *old(self),
                alloc_id,
                prov_extra,
            )) ==> (r matches Err(e) && e matches InterpError::Ub(
                UndefinedBehavior::AliasingViolation { .. },
            )),
            r is Err ==> *final(self) == *old(self),
            r is Ok ==> {
                &&& final(self).memory.allocs@.len() == old(self).memory.allocs@.len()
                &&& forall|i: int|
                    0 <= i < old(self).memory.allocs@.len() && i != alloc_id.0
                        ==> #[trigger] final(self).memory.allocs@[i] == old(self).memory.allocs@[i]
                &&& final(self).memory.alloc_of(alloc_id).bytes == old(self).memory.alloc_of(
                    alloc_id,
                ).bytes
                &&& final(self).memory.alloc_of(alloc_id).extra.borrow_tracker == old(self).memory.alloc_of(alloc_id).extra.borrow_tracker
                &&& final(self).memory.alloc_of(alloc_id).extra.weak_memory == old(self).memory.alloc_of(alloc_id).extra.weak_memory
                &&& final(self).memory.is_live(alloc_id)
                &&& final(self).memory.alloc_of(alloc_id).size == old(self).memory.alloc_of(
                    alloc_id,
                ).size
                &&& (old(self).memory.alloc_of(alloc_id).extra.data_race matches Some(dr)
                    ==> final(self).memory.alloc_of(alloc_id).extra.data_race matches Some(dr2)
                    && old(self).data_race matches Some(g) && dr2.records@ =~= dr.records@.push(
                    race::AccessRecord {
                        thread: old(self).threads.active,
                        epoch: g.clock_of(old(self).threads.active as int).get(
                            old(self).threads.active as int,
                        ),
                        start,
                        len,
                        is_write: false,
                    },
                ))
                &&& (old(self).memory.alloc_of(alloc_id).extra.data_race is None ==> final(self).memory.alloc_of(alloc_id) == old(self).memory.alloc_of(alloc_id))
                &&& final(self).data_race == old(self).data_race
                &&& final(self).threads == old(self).threads
                &&& final(self).borrow_tracker == old(self).borrow_tracker
                &&& final(self).alloc_addresses == old(self).alloc_addresses
            },
            r matches Ok(d) ==> d == (if old(self).track_alloc_accesses && old(self).tracked_alloc_ids@.contains(alloc_id) {
                Some(
                    NonHaltingDiagnostic::AccessedAlloc {
                        alloc_id,
                        access: AccessKind::Read,
                    },
                )
            } else {
                None::<NonHaltingDiagnostic>
            }),
    {
        self.mem_access_hook(alloc_id, prov_extra, start, len, false)
    }

    /// The fan-out before a write commits; as for a read, with the race
    /// detector judging a write and the monitor additionally ending the
    /// permission of every tag minted after the writing one.
    pub fn before_memory_write(
        &mut self,
        alloc_id: AllocId,
        prov_extra: ProvenanceExtra,
        start: u64,
        len: u64,
    ) -> (r: Result<Option<NonHaltingDiagnostic>, InterpError>)
        requires
            old(self).wf(),
            old(self).memory.is_live(alloc_id),
            start + len <= old(self).memory.alloc_of(alloc_id).size,
        ensures
            final(self).wf(),
            (r is Err) == (spec_access_race(*old(self), alloc_id, true, start, len)
                || spec_write_rejected(*old(self), alloc_id, prov_extra)),
            spec_access_race(*old(self), alloc_id, true, start, len) ==> (r matches Err(e)
                && e matches InterpError::Ub(UndefinedBehavior::DataRace { .. })),
            (!spec_access_race(*old(self), alloc_id, true, start, len) && spec_write_rejected(
                *old(self),
                alloc_id,
                prov_extra,
            )) ==> (r matches Err(e) && e matches InterpError::Ub(
                UndefinedBehavior::AliasingViolation { .. },
            )),
            r is Err ==> *final(self) == *old(self),
            r is Ok ==> {
                &&& final(self).memory.allocs@.len() == old(self).memory.allocs@.len()
                &&& forall|i: int|
                    0 <= i < old(self).memory.allocs@.len() && i != alloc_id.0
                        ==> #[trigger] final(self).memory.allocs@[i] == old(self).memory.allocs@[i]
                &&& final(self).memory.alloc_of(alloc_id).bytes == old(self).memory.alloc_of(
                    alloc_id,
                ).bytes
                &&& final(self).memory.alloc_of(alloc_id).provs == old(self).memory.alloc_of(
                    alloc_id,
                ).provs
                &&& final(self).memory.alloc_of(alloc_id).extra.weak_memory == old(self).memory.alloc_of(alloc_id).extra.weak_memory
                &&& final(self).memory.is_live(alloc_id)
                &&& final(self).memory.alloc_of(alloc_id).size == old(self).memory.alloc_of(
                    alloc_id,
                ).size
                &&& (old(self).memory.alloc_of(alloc_id).extra.data_race matches Some(dr)
                    ==> final(self).memory.alloc_of(alloc_id).extra.data_race matches Some(dr2)
                    && old(self).data_race matches Some(g) && dr2.records@ =~= dr.records@.push(
                    race::AccessRecord {
                        thread: old(self).threads.active,
                        epoch: g.clock_of(old(self).threads.active as int).get(
                            old(self).threads.active as int,
                        ),
                        start,
                        len,
                        is_write: true,
                    },
                ))
                &&& (prov_extra matches ProvenanceExtra::Concrete(t) ==> (old(self).memory.alloc_of(alloc_id).extra.borrow_tracker matches Some(bt) ==> final(self).memory.alloc_of(alloc_id).extra.borrow_tracker matches Some(bt2)
                    && bt2.entries@.len() == bt.entries@.len() && (forall|i: int|
                    0 <= i < bt.entries@.len() ==> #[trigger] bt2.entries@[i] == (if bt.entries@[i].tag.0
                        > t.0 {
                        monitor::TagEntry {
                            perm: monitor::Permission::Disabled,
                            ..bt.entries@[i]
                        }
                    } else {
                        bt.entries@[i]
                    }))))
                &&& (prov_extra is Wildcard ==> final(self).memory.alloc_of(
                    alloc_id,
                ).extra.borrow_tracker == old(self).memory.alloc_of(
                    alloc_id,
                ).extra.borrow_tracker)
                &&& final(self).data_race == old(self).data_race
                &&& final(self).threads == old(self).threads
                &&& final(self).borrow_tracker == old(self).borrow_tracker
                &&& final(self).alloc_addresses == old(self).alloc_addresses
            },
            r matches Ok(d) ==> d == (if old(self).track_alloc_accesses && old(self).tracked_alloc_ids@.contains(alloc_id) {
                Some(
                    NonHaltingDiagnostic::AccessedAlloc {
                        alloc_id,
                        access: AccessKind::Write,
                    },
                )
            } else {
                None::<NonHaltingDiagnostic>
            }),
    {
        self.mem_access_hook(alloc_id, prov_extra, start, len, true)
    }

    /// The shared body of the read and write hooks.
    fn mem_access_hook(
        &mut self,
        alloc_id: AllocId,
        prov_extra: ProvenanceExtra,
        start: u64,
        len: u64,
        is_write: bool,
    ) -> (r: Result<Option<NonHaltingDiagnostic>, InterpError>)
        requires
            old(self).wf(),
            old(self).memory.is_live(alloc_id),
            start + len <= old(self).memory.alloc_of(alloc_id).size,
        ensures
            final(self).wf(),
            (r is Err) == (spec_access_race(*old(self), alloc_id, is_write, start, len) || (if is_write {
                spec_write_rejected(*old(self), alloc_id, prov_extra)
            } else {
                spec_read_rejected(*old(self), alloc_id, prov_extra)
            })),
            spec_access_race(*old(self), alloc_id, is_write, start, len) ==> (r matches Err(e)
                && e matches InterpError::Ub(UndefinedBehavior::DataRace { .. })),
            (!spec_access_race(*old(self), alloc_id, is_write, start, len) && (if is_write {
                spec_write_rejected(*old(self), alloc_id, prov_extra)
            } else {
                spec_read_rejected(*old(self), alloc_id, prov_extra)
            })) ==> (r matches Err(e) && e matches InterpError::Ub(
                UndefinedBehavior::AliasingViolation { .. },
            )),
            r is Err ==> *final(self) == *old(self),
            r is Ok ==> {
                &&& final(self).memory.allocs@.len() == old(self).memory.allocs@.len()
                &&& forall|i: int|
                    0 <= i < old(self).memory.allocs@.len() && i != alloc_id.0
                        ==> #[trigger] final(self).memory.allocs@[i] == old(self).memory.allocs@[i]
                &&& final(self).memory.alloc_of(alloc_id).bytes == old(self).memory.alloc_of(
                    alloc_id,
                ).bytes
                &&& final(self).memory.alloc_of(alloc_id).provs == old(self).memory.alloc_of(
                    alloc_id,
                ).provs
                &&& final(self).memory.alloc_of(alloc_id).extra.weak_memory == old(self).memory.alloc_of(alloc_id).extra.weak_memory
                &&& final(self).memory.alloc_of(alloc_id).extra.backtrace == old(self).memory.alloc_of(alloc_id).extra.backtrace
                &&& final(self).memory.is_live(alloc_id)
                &&& final(self).memory.alloc_of(alloc_id).size == old(self).memory.alloc_of(
                    alloc_id,
                ).size
                &&& final(self).memory.alloc_of(alloc_id).align == old(self).memory.alloc_of(
                    alloc_id,
                ).align
                &&& final(self).memory.alloc_of(alloc_id).kind == old(self).memory.alloc_of(
                    alloc_id,
                ).kind
                &&& (old(self).memory.alloc_of(alloc_id).extra.data_race matches Some(dr)
                    ==> final(self).memory.alloc_of(alloc_id).extra.data_race matches Some(dr2)
                    && old(self).data_race matches Some(g) && dr2.records@ =~= dr.records@.push(
                    race::AccessRecord {
                        thread: old(self).threads.active,
                        epoch: g.clock_of(old(self).threads.active as int).get(
                            old(self).threads.active as int,
                        ),
                        start,
                        len,
                        is_write,
                    },
                ))
                &&& (old(self).memory.alloc_of(alloc_id).extra.data_race is None ==> final(self).memory.alloc_of(alloc_id).extra.data_race is None)
                &&& (!is_write ==> final(self).memory.alloc_of(alloc_id).extra.borrow_tracker
                    == old(self).memory.alloc_of(alloc_id).extra.borrow_tracker)
                &&& (is_write ==> (prov_extra matches ProvenanceExtra::Concrete(t) ==> (old(self).memory.alloc_of(alloc_id).extra.borrow_tracker matches Some(bt) ==> final(self).memory.alloc_of(alloc_id).extra.borrow_tracker matches Some(bt2)
                    && bt2.entries@.len() == bt.entries@.len() && (forall|i: int|
                    0 <= i < bt.entries@.len() ==> #[trigger] bt2.entries@[i] == (if bt.entries@[i].tag.0
                        > t.0 {
                        monitor::TagEntry {
                            perm: monitor::Permission::Disabled,
                            ..bt.entries@[i]
                        }
                    } else {
                        bt.entries@[i]
                    })))))
                &&& (old(self).memory.alloc_of(alloc_id).extra.borrow_tracker is None ==> final(self).memory.alloc_of(alloc_id).extra.borrow_tracker is None)
                &&& (prov_extra is Wildcard ==> final(self).memory.alloc_of(
                    alloc_id,
                ).extra.borrow_tracker == old(self).memory.alloc_of(
                    alloc_id,
                ).extra.borrow_tracker)
                &&& final(self).data_race == old(self).data_race
                &&& final(self).threads == old(self).threads
                &&& final(self).borrow_tracker == old(self).borrow_tracker
                &&& final(self).alloc_addresses == old(self).alloc_addresses
                &&& final(self).allocation_spans == old(self).allocation_spans
                &&& final(self).clock == old(self).clock
            },
            r matches Ok(d) ==> d == (if old(self).track_alloc_accesses && old(self).tracked_alloc_ids@.contains(alloc_id) {
                Some(
                    NonHaltingDiagnostic::AccessedAlloc {
                        alloc_id,
                        access: if is_write {
                            AccessKind::Write
                        } else {
                            AccessKind::Read
                        },
                    },
                )
            } else {
                None::<NonHaltingDiagnostic>
            }),
    {
        let diag = if self.track_alloc_accesses && self.is_tracked(alloc_id) {
            Some(
                NonHaltingDiagnostic::AccessedAlloc {
                    alloc_id,
                    access: if is_write {
                        AccessKind::Write
                    } else {
                        AccessKind::Read
                    },
                },
            )
        } else {
            None
        };
        let n = self.memory.allocs.len();
        proof {
            assert(alloc_id.0 < n as u64);
        }
        let idx = alloc_id.0 as usize;
        let thread = self.threads.active_thread();
        // the race detector judges first, without touching anything
        match &self.memory.allocs[idx].extra.data_race {
            Some(dr) => {
                let g = match &self.data_race {
                    Some(g) => g,
                    None => {
                        proof {
                            assert(false);
                        }
                        unreached()
                    },
                };
                let clock_ref = &g.thread_clocks[thread];
                match dr.check_access(clock_ref, thread, is_write, start, len) {
                    None => {},
                    Some(d) => {
                        return Err(
                            InterpError::Ub(
                                UndefinedBehavior::DataRace {
                                    alloc_id,
                                    prior_thread: d.prior.thread,
                                    prior_write: d.prior.is_write,
                                    thread,
                                    is_write,
                                    start,
                                    len,
                                },
                            ),
                        );
                    },
                }
            },
            None => {},
        }
        // then the aliasing monitor judges, still without touching
        // anything
        let monitor_verdict: bool = match &self.memory.allocs[idx].extra.borrow_tracker {
            Some(bt) => {
                proof {
                    assert(old(self).memory.allocs@[alloc_id.0 as int].extra.borrow_tracker
                        matches Some(b0) && b0.tags_unique());
                }
                if is_write {
                    bt.write_allowed(prov_extra)
                } else {
                    bt.before_read(prov_extra).is_ok()
                }
            },
            None => true,
        };
        if !monitor_verdict {
            let t = match prov_extra {
                ProvenanceExtra::Concrete(t) => t,
                ProvenanceExtra::Wildcard => {
                    proof {
                        assert(false);
                    }
                    unreached()
                },
            };
            return Err(
                InterpError::Ub(
                    UndefinedBehavior::AliasingViolation {
                        alloc_id,
                        tag: t,
                        access: if is_write {
                            AccessKind::Write
                        } else {
                            AccessKind::Read
                        },
                    },
                ),
            );
        }
        // both judges agreed: commit the access on the records
        let mut entry = self.memory.allocs.remove(idx);
        match &mut entry.extra.data_race {
            Some(dr) => {
                let g = match &self.data_race {
                    Some(g) => g,
                    None => {
                        proof {
                            assert(false);
                        }
                        unreached()
                    },
                };
                let clock_ref = &g.thread_clocks[thread];
                match dr.mem_access(clock_ref, thread, is_write, start, len) {
                    Ok(()) => {},
                    Err(_) => {
                        proof {
                            assert(false);
                        }
                    },
                }
            },
            None => {},
        }
        if is_write {
            match &mut entry.extra.borrow_tracker {
                Some(bt) => {
                    proof {
                        assert(old(self).memory.allocs@[alloc_id.0 as int].extra.borrow_tracker
                            matches Some(b0) && b0.tags_unique());
                    }
                    match bt.before_write(prov_extra) {
                        Ok(()) => {},
                        Err(_) => {
                            proof {
                                assert(false);
                            }
                        },
                    }
                },
                None => {},
            }
        }
                self.memory.allocs.insert(idx, entry);
        Ok(diag)
    }
    /// Record the span where an allocation was freed, if its creation was
    /// on record.
    fn record_deallocated_span(&mut self, alloc_id: AllocId, span: u64)
        ensures
            final(self).allocation_spans@.len() == old(self).allocation_spans@.len(),
            forall|i: int|
                0 <= i < old(self).allocation_spans@.len() ==> #[trigger] final(self).allocation_spans@[i] == (if old(self).allocation_spans@[i].0 == alloc_id {
                    (alloc_id, old(self).allocation_spans@[i].1, Some(span))
                } else {
                    old(self).allocation_spans@[i]
                }),
            final(self).memory == old(self).memory,
            final(self).threads == old(self).threads,
            final(self).data_race == old(self).data_race,
            final(self).borrow_tracker == old(self).borrow_tracker,
            final(self).alloc_addresses == old(self).alloc_addresses,
            final(self).clock == old(self).clock,
            final(self).const_cache == old(self).const_cache,
            final(self).tracked_alloc_ids == old(self).tracked_alloc_ids,
            final(self).extern_statics == old(self).extern_statics,
            final(self).page_size == old(self).page_size,
    {
        let mut i: usize = 0;
        while i < self.allocation_spans.len()
            invariant
                i <= self.allocation_spans@.len(),
                self.allocation_spans@.len() == old(self).allocation_spans@.len(),
                self.memory == old(self).memory,
                self.threads == old(self).threads,
                self.data_race == old(self).data_race,
                self.borrow_tracker == old(self).borrow_tracker,
                self.alloc_addresses == old(self).alloc_addresses,
                self.clock == old(self).clock,
                self.const_cache == old(self).const_cache,
                self.tracked_alloc_ids == old(self).tracked_alloc_ids,
                self.extern_statics == old(self).extern_statics,
                self.page_size == old(self).page_size,
                forall|j: int|
                    i <= j < old(self).allocation_spans@.len() ==> #[trigger] self.allocation_spans@[j]
                        == old(self).allocation_spans@[j],
                forall|j: int|
                    0 <= j < i ==> #[trigger] self.allocation_spans@[j] == (if old(self).allocation_spans@[j].0 == alloc_id {
                        (alloc_id, old(self).allocation_spans@[j].1, Some(span))
                    } else {
                        old(self).allocation_spans@[j]
                    }),
            decreases self.allocation_spans@.len() - i,
        {
            let e = self.allocation_spans[i];
            if e.0.0 == alloc_id.0 {
                self.allocation_spans.set(i, (alloc_id, e.1, Some(span)));
            }
            i += 1;
        }
    }

    /// The fan-out before a deallocation: report a tracked identifier;
    /// treat the free as a write covering the whole allocation for the
    /// race detector; let the aliasing monitor judge the deallocating
    /// tag; and, when both agree, record the deallocation span and return
    /// the block's address range to the reuse pool. A race or a violation
    /// is fatal and leaves everything untouched.
    pub fn before_memory_deallocation(
        &mut self,
        alloc_id: AllocId,
        prov_extra: ProvenanceExtra,
        span: u64,
    ) -> (r: Result<Option<NonHaltingDiagnostic>, InterpError>)
        requires
            old(self).wf(),
            old(self).memory.is_live(alloc_id),
        ensures
            final(self).wf(),
            (r is Err) == (spec_access_race(
                *old(self),
                alloc_id,
                true,
                0,
                old(self).memory.alloc_of(alloc_id).size,
            ) || spec_dealloc_rejected(*old(self), alloc_id, prov_extra)),
            spec_access_race(
                *old(self),
                alloc_id,
                true,
                0,
                old(self).memory.alloc_of(alloc_id).size,
            ) ==> (r matches Err(e) && e matches InterpError::Ub(
                UndefinedBehavior::DataRace { .. },
            )),
            (!spec_access_race(
                *old(self),
                alloc_id,
                true,
                0,
                old(self).memory.alloc_of(alloc_id).size,
            ) && spec_dealloc_rejected(*old(self), alloc_id, prov_extra)) ==> (r matches Err(e)
                && e matches InterpError::Ub(UndefinedBehavior::AliasingViolation { .. })),
            r is Err ==> *final(self) == *old(self),
            r is Ok ==> {
                &&& !final(self).alloc_addresses.has_addr(alloc_id.0)
                &&& !final(self).alloc_addresses.is_exposed(alloc_id.0)
                &&& final(self).memory.allocs@.len() == old(self).memory.allocs@.len()
                &&& final(self).memory.is_live(alloc_id)
                &&& final(self).memory.alloc_of(alloc_id).size == old(self).memory.alloc_of(
                    alloc_id,
                ).size
                &&& final(self).memory.alloc_of(alloc_id).align == old(self).memory.alloc_of(
                    alloc_id,
                ).align
                &&& forall|i: int|
                    0 <= i < old(self).memory.allocs@.len() && i != alloc_id.0
                        ==> #[trigger] final(self).memory.allocs@[i] == old(self).memory.allocs@[i]
                &&& (old(self).memory.alloc_of(alloc_id).extra.data_race matches Some(dr)
                    ==> final(self).memory.alloc_of(alloc_id).extra.data_race matches Some(dr2)
                    && old(self).data_race matches Some(g) && dr2.records@ =~= dr.records@.push(
                    race::AccessRecord {
                        thread: old(self).threads.active,
                        epoch: g.clock_of(old(self).threads.active as int).get(
                            old(self).threads.active as int,
                        ),
                        start: 0u64,
                        len: old(self).memory.alloc_of(alloc_id).size,
                        is_write: true,
                    },
                ))
                &&& final(self).threads == old(self).threads
                &&& final(self).data_race == old(self).data_race
                &&& final(self).borrow_tracker == old(self).borrow_tracker
                // the deallocated-at span is recorded for a tracked
                // creation
                &&& final(self).allocation_spans@.len() == old(self).allocation_spans@.len()
                &&& forall|i: int|
                    0 <= i < old(self).allocation_spans@.len() ==> #[trigger] final(self).allocation_spans@[i] == (if old(self).allocation_spans@[i].0 == alloc_id {
                        (alloc_id, old(self).allocation_spans@[i].1, Some(span))
                    } else {
                        old(self).allocation_spans@[i]
                    })
            },
            r matches Ok(d) ==> d == (if old(self).tracked_alloc_ids@.contains(alloc_id) {
                Some(NonHaltingDiagnostic::FreedAlloc { alloc_id })
            } else {
                None::<NonHaltingDiagnostic>
            }),
    {
        let n = self.memory.allocs.len();
        proof {
            assert(alloc_id.0 < n as u64);
        }
        let idx = alloc_id.0 as usize;
        let size = self.memory.allocs[idx].size;
        let thread = self.threads.active_thread();
        // the race detector judges the free as a write of the whole block
        match &self.memory.allocs[idx].extra.data_race {
            Some(dr) => {
                let g = match &self.data_race {
                    Some(g) => g,
                    None => {
                        proof {
                            assert(false);
                        }
                        unreached()
                    },
                };
                let clock_ref = &g.thread_clocks[thread];
                match dr.check_access(clock_ref, thread, true, 0, size) {
                    None => {},
                    Some(d) => {
                        return Err(
                            InterpError::Ub(
                                UndefinedBehavior::DataRace {
                                    alloc_id,
                                    prior_thread: d.prior.thread,
                                    prior_write: d.prior.is_write,
                                    thread,
                                    is_write: true,
                                    start: 0,
                                    len: size,
                                },
                            ),
                        );
                    },
                }
            },
            None => {},
        }
        // then the aliasing monitor judges the deallocating tag
        match &self.memory.allocs[idx].extra.borrow_tracker {
            Some(bt) => {
                proof {
                    assert(old(self).memory.allocs@[alloc_id.0 as int].extra.borrow_tracker
                        matches Some(b0) && b0.tags_unique());
                }
                match bt.before_deallocation(prov_extra) {
                    Ok(()) => {},
                    Err(t) => {
                        return Err(
                            InterpError::Ub(
                                UndefinedBehavior::AliasingViolation {
                                    alloc_id,
                                    tag: t,
                                    access: AccessKind::Deallocation,
                                },
                            ),
                        );
                    },
                }
            },
            None => {},
        }
        let diag = if self.is_tracked(alloc_id) {
            Some(NonHaltingDiagnostic::FreedAlloc { alloc_id })
        } else {
            None
        };
        // commit the free as a write on the record
        let mut entry = self.memory.allocs.remove(idx);
        match &mut entry.extra.data_race {
            Some(dr) => {
                let g = match &self.data_race {
                    Some(g) => g,
                    None => {
                        proof {
                            assert(false);
                        }
                        unreached()
                    },
                };
                let clock_ref = &g.thread_clocks[thread];
                match dr.mem_access(clock_ref, thread, true, 0, size) {
                    Ok(()) => {},
                    Err(_) => {
                        proof {
                            assert(false);
                        }
                    },
                }
            },
            None => {},
        }
        self.memory.allocs.insert(idx, entry);
        proof {
            let pre = old(self);
            assert(self.memory.allocs@.len() == pre.memory.allocs@.len());
            assert forall|i: int|
                0 <= i < pre.memory.allocs@.len() && i != alloc_id.0
                    implies self.memory.allocs@[i] == pre.memory.allocs@[i] by {
                if i < alloc_id.0 {
                    assert(self.memory.allocs@[i] == pre.memory.allocs@[i]);
                } else {
                    assert(self.memory.allocs@[i] == pre.memory.allocs@[i]);
                }
            }
        }
        self.record_deallocated_span(alloc_id, span);
        self.alloc_addresses.free_alloc_id(alloc_id.0);
        Ok(diag)
    }
    /// Read bytes through a resolved pointer: use-after-free and
    /// out-of-bounds accesses are undefined behaviour and never silently
    /// succeed; a race or an aliasing violation is fatal before anything
    /// is committed; otherwise exactly the stored bytes come back, and
    /// the access is on the race detector's record.
    pub fn read_memory(
        &mut self,
        alloc_id: AllocId,
        prov_extra: ProvenanceExtra,
        start: u64,
        len: u64,
    ) -> (r: Result<(Vec<u8>, Option<NonHaltingDiagnostic>), InterpError>)
        requires
            old(self).wf(),
            start + len <= u64::MAX,
        ensures
            final(self).wf(),
            r matches Err(e) ==> e matches InterpError::Ub(..),
            !old(self).memory.is_live(alloc_id) ==> r == Err::<
                (Vec<u8>, Option<NonHaltingDiagnostic>),
                InterpError,
            >(InterpError::Ub(UndefinedBehavior::UseAfterFree { alloc_id })) && *final(self)
                == *old(self),
            old(self).memory.is_live(alloc_id) && start + len > old(self).memory.alloc_of(
                alloc_id,
            ).size ==> r == Err::<(Vec<u8>, Option<NonHaltingDiagnostic>), InterpError>(
                InterpError::Ub(
                    UndefinedBehavior::OutOfBounds {
                        alloc_id,
                        offset: start,
                        len,
                        size: old(self).memory.alloc_of(alloc_id).size,
                    },
                ),
            ) && *final(self) == *old(self),
            old(self).memory.is_live(alloc_id) && start + len <= old(self).memory.alloc_of(
                alloc_id,
            ).size ==> {
                &&& (r is Err) == (spec_access_race(*old(self), alloc_id, false, start, len)
                    || spec_read_rejected(*old(self), alloc_id, prov_extra))
                &&& (r is Err ==> *final(self) == *old(self))
                &&& (r matches Ok(ok) ==> ok.0@ =~= old(self).memory.alloc_of(
                    alloc_id,
                ).bytes@.subrange(start as int, start + len))
            },
    {
        if alloc_id.0 >= self.memory.allocs.len() as u64 {
            return Err(InterpError::Ub(UndefinedBehavior::UseAfterFree { alloc_id }));
        }
        let idx = alloc_id.0 as usize;
        if !self.memory.allocs[idx].live {
            return Err(InterpError::Ub(UndefinedBehavior::UseAfterFree { alloc_id }));
        }
        let size = self.memory.allocs[idx].size;
        if len > size || start > size - len {
            return Err(
                InterpError::Ub(
                    UndefinedBehavior::OutOfBounds { alloc_id, offset: start, len, size },
                ),
            );
        }
        let diag = match self.before_memory_read(alloc_id, prov_extra, start, len) {
            Ok(d) => d,
            Err(e) => {
                return Err(e);
            },
        };
        match self.memory.read(alloc_id, start, len) {
            Ok(data) => Ok((data, diag)),
            Err(_) => {
                proof {
                    assert(false);
                }
                unreached()
            },
        }
    }

    /// Write bytes through a resolved pointer, with the same checks as a
    /// read; on success exactly the addressed bytes change.
    pub fn write_memory(
        &mut self,
        alloc_id: AllocId,
        prov_extra: ProvenanceExtra,
        start: u64,
        data: &Vec<u8>,
    ) -> (r: Result<Option<NonHaltingDiagnostic>, InterpError>)
        requires
            old(self).wf(),
            start + data@.len() <= u64::MAX,
        ensures
            final(self).wf(),
            r matches Err(e) ==> e matches InterpError::Ub(..),
            !old(self).memory.is_live(alloc_id) ==> r == Err::<
                Option<NonHaltingDiagnostic>,
                InterpError,
            >(InterpError::Ub(UndefinedBehavior::UseAfterFree { alloc_id })) && *final(self)
                == *old(self),
            old(self).memory.is_live(alloc_id) && start + data@.len() > old(self).memory.alloc_of(
                alloc_id,
            ).size ==> r == Err::<Option<NonHaltingDiagnostic>, InterpError>(
                InterpError::Ub(
                    UndefinedBehavior::OutOfBounds {
                        alloc_id,
                        offset: start,
                        len: data@.len() as u64,
                        size: old(self).memory.alloc_of(alloc_id).size,
                    },
                ),
            ) && *final(self) == *old(self),
            old(self).memory.is_live(alloc_id) && start + data@.len() <= old(self).memory.alloc_of(alloc_id).size ==> {
                &&& (r is Err) == (spec_access_race(
                    *old(self),
                    alloc_id,
                    true,
                    start,
                    data@.len() as u64,
                ) || spec_write_rejected(*old(self), alloc_id, prov_extra))
                &&& (r is Err ==> *final(self) == *old(self))
                &&& (r is Ok ==> {
                    &&& final(self).memory.is_live(alloc_id)
                    &&& final(self).memory.alloc_of(alloc_id).bytes@.len() == old(self).memory.alloc_of(alloc_id).bytes@.len()
                    &&& forall|j: int|
                        0 <= j < old(self).memory.alloc_of(alloc_id).bytes@.len() ==> final(self).memory.alloc_of(alloc_id).bytes@[j] == (if start <= j < start
                            + data@.len() {
                            data@[j - start]
                        } else {
                            old(self).memory.alloc_of(alloc_id).bytes@[j]
                        })
                    &&& (prov_extra matches ProvenanceExtra::Concrete(t) ==> (old(self).memory.alloc_of(alloc_id).extra.borrow_tracker matches Some(bt) ==> final(self).memory.alloc_of(alloc_id).extra.borrow_tracker matches Some(bt2)
                        && bt2.entries@.len() == bt.entries@.len() && (forall|i: int|
                        0 <= i < bt.entries@.len() ==> #[trigger] bt2.entries@[i] == (if bt.entries@[i].tag.0
                            > t.0 {
                            monitor::TagEntry {
                                perm: monitor::Permission::Disabled,
                                ..bt.entries@[i]
                            }
                        } else {
                            bt.entries@[i]
                        }))))
                    &&& final(self).memory.alloc_of(alloc_id).extra.weak_memory == old(self).memory.alloc_of(alloc_id).extra.weak_memory
                    &&& final(self).memory.alloc_of(alloc_id).provs == old(self).memory.alloc_of(alloc_id).provs
                    &&& final(self).memory.allocs@.len() == old(self).memory.allocs@.len()
                    &&& (forall|i: int|
                        0 <= i < old(self).memory.allocs@.len() && i != alloc_id.0
                            ==> #[trigger] final(self).memory.allocs@[i] == old(self).memory.allocs@[i])
                    &&& final(self).threads == old(self).threads
                    &&& final(self).data_race == old(self).data_race
                    &&& final(self).borrow_tracker == old(self).borrow_tracker
                    &&& final(self).alloc_addresses == old(self).alloc_addresses
                })
            },
    {
        if alloc_id.0 >= self.memory.allocs.len() as u64 {
            return Err(InterpError::Ub(UndefinedBehavior::UseAfterFree { alloc_id }));
        }
        let idx = alloc_id.0 as usize;
        if !self.memory.allocs[idx].live {
            return Err(InterpError::Ub(UndefinedBehavior::UseAfterFree { alloc_id }));
        }
        let size = self.memory.allocs[idx].size;
        let len = data.len() as u64;
        if len > size || start > size - len {
            return Err(
                InterpError::Ub(
                    UndefinedBehavior::OutOfBounds { alloc_id, offset: start, len, size },
                ),
            );
        }
        match self.before_memory_write(alloc_id, prov_extra, start, len) {
            Ok(d) => {
                match self.memory.write(alloc_id, start, data) {
                    Ok(()) => Ok(d),
                    Err(_) => {
                        proof {
                            assert(false);
                        }
                        unreached()
                    },
                }
            },
            Err(e) => Err(e),
        }
    }

    /// Deallocate through a resolved pointer. Freeing an already-freed
    /// block is use-after-free; a stated size that does not match the
    /// allocation is a layout mismatch; the free counts as a write of the
    /// whole block for the race detector and must be permitted by the
    /// aliasing monitor. On success the block is retired — its identifier
    /// is never reused — and its address range goes to the reuse pool.
    pub fn deallocate(
        &mut self,
        alloc_id: AllocId,
        prov_extra: ProvenanceExtra,
        given_size: u64,
        given_align: u64,
        span: u64,
    ) -> (r: Result<Option<NonHaltingDiagnostic>, InterpError>)
        requires
            old(self).wf(),
        ensures
            final(self).wf(),
            !old(self).memory.is_live(alloc_id) ==> r == Err::<
                Option<NonHaltingDiagnostic>,
                InterpError,
            >(InterpError::Ub(UndefinedBehavior::UseAfterFree { alloc_id })) && *final(self)
                == *old(self),
            old(self).memory.is_live(alloc_id) && (given_size != old(self).memory.alloc_of(
                alloc_id,
            ).size || given_align != old(self).memory.alloc_of(alloc_id).align) ==> r == Err::<
                Option<NonHaltingDiagnostic>,
                InterpError,
            >(
                InterpError::Ub(
                    UndefinedBehavior::DeallocLayoutMismatch {
                        alloc_id,
                        expected_size: old(self).memory.alloc_of(alloc_id).size,
                        given_size,
                        expected_align: old(self).memory.alloc_of(alloc_id).align,
                        given_align,
                    },
                ),
            ) && *final(self) == *old(self),
            old(self).memory.is_live(alloc_id) && given_size == old(self).memory.alloc_of(
                alloc_id,
            ).size && given_align == old(self).memory.alloc_of(alloc_id).align ==> {
                &&& (r is Err) == (spec_access_race(
                    *old(self),
                    alloc_id,
                    true,
                    0,
                    old(self).memory.alloc_of(alloc_id).size,
                ) || spec_dealloc_rejected(*old(self), alloc_id, prov_extra))
                &&& (r is Err ==> *final(self) == *old(self))
                &&& (r is Ok ==> {
                    &&& !final(self).memory.is_live(alloc_id)
                    &&& final(self).memory.is_issued(alloc_id)
                    &&& final(self).memory.allocs@.len() == old(self).memory.allocs@.len()
                    &&& !final(self).alloc_addresses.has_addr(alloc_id.0)
                    &&& !final(self).alloc_addresses.is_exposed(alloc_id.0)
                })
            },
            r matches Ok(d) ==> d == (if old(self).tracked_alloc_ids@.contains(alloc_id) {
                Some(NonHaltingDiagnostic::FreedAlloc { alloc_id })
            } else {
                None::<NonHaltingDiagnostic>
            }),
    {
        if alloc_id.0 >= self.memory.allocs.len() as u64 {
            return Err(InterpError::Ub(UndefinedBehavior::UseAfterFree { alloc_id }));
        }
        let idx = alloc_id.0 as usize;
        if !self.memory.allocs[idx].live {
            return Err(InterpError::Ub(UndefinedBehavior::UseAfterFree { alloc_id }));
        }
        let expected_size = self.memory.allocs[idx].size;
        let expected_align = self.memory.allocs[idx].align;
        if given_size != expected_size || given_align != expected_align {
            return Err(
                InterpError::Ub(
                    UndefinedBehavior::DeallocLayoutMismatch {
                        alloc_id,
                        expected_size,
                        given_size,
                        expected_align,
                        given_align,
                    },
                ),
            );
        }
        match self.before_memory_deallocation(alloc_id, prov_extra, span) {
            Ok(d) => {
                match self.memory.deallocate(alloc_id, given_size, given_align) {
                    Ok(()) => Ok(d),
                    Err(_) => {
                        proof {
                            assert(false);
                        }
                        unreached()
                    },
                }
            },
            Err(e) => Err(e),
        }
    }
    /// The extra data of a freshly pushed frame: the aliasing monitor's
    /// per-frame state while the monitor runs, the optional catch marker,
    /// the user-relevance flag, and a random salt, fixed for the frame's
    /// lifetime and drawn below the per-constant address bound.
    pub fn init_frame_extra(&mut self, is_user_relevant: bool, catch_data: Option<CatchData>) -> (r:
        FrameExtra)
        requires
            old(self).wf(),
        ensures
            final(self).wf(),
            same_but_rng(*old(self), *final(self)),
            r.salt < ADDRS_PER_CONST,
            (r.borrow_tracker is Some) == (old(self).borrow_tracker is Some),
            r.catch_data == catch_data,
            r.is_user_relevant == is_user_relevant,
            r.borrow_tracker matches Some(fs) ==> fs.protected_tags@.len() == 0,
    {
        let borrow_tracker = if self.borrow_tracker.is_some() {
            Some(monitor::FrameState::new_frame())
        } else {
            None
        };
        let draw = rng_next_u64(&mut self.rng);
        let salt = draw % ADDRS_PER_CONST;
        FrameExtra { borrow_tracker, catch_data, is_user_relevant, salt }
    }

    /// Push a frame onto the active thread's stack.
    pub fn push_frame(&mut self, f: Frame)
        requires
            old(self).wf(),
        ensures
            final(self).wf(),
            final(self).threads.active == old(self).threads.active,
            final(self).threads.threads@.len() == old(self).threads.threads@.len(),
            final(self).threads.threads@[old(self).threads.active as int].stack@ =~= old(self).threads.threads@[old(self).threads.active as int].stack@.push(f),
            final(self).memory == old(self).memory,
            final(self).data_race == old(self).data_race,
            final(self).borrow_tracker == old(self).borrow_tracker,
    {
        self.threads.push_frame(f);
    }

    /// After a push: when the new frame is user relevant it is the
    /// topmost user-relevant frame, and is remembered as such.
    pub fn after_stack_push(&mut self)
        requires
            old(self).wf(),
            old(self).threads.threads@[old(self).threads.active as int].stack@.len() > 0,
        ensures
            final(self).wf(),
            final(self).threads.active == old(self).threads.active,
            final(self).threads.threads@.len() == old(self).threads.threads@.len(),
            final(self).memory == old(self).memory,
            ({
                let stack = old(self).threads.threads@[old(self).threads.active as int].stack@;
                if stack.last().extra.is_user_relevant {
                    final(self).threads.threads@[old(self).threads.active as int].top_user_relevant_frame
                        == Some((stack.len() - 1) as usize)
                } else {
                    final(self).threads == old(self).threads
                }
            }),
    {
        let a = self.threads.active_thread();
        let len = self.threads.threads[a].stack.len();
        let relevant = self.threads.threads[a].stack[len - 1].extra.is_user_relevant;
        if relevant {
            self.threads.set_top_user_relevant_frame(Some(len - 1));
        }
    }

    /// End one tag's protection in one allocation's monitor state, when
    /// the protecting frame is popped. Freed allocations need nothing:
    /// their monitor state is already retired.
    fn unprotect_tag(&mut self, alloc: u64, tag: BorTag)
        requires
            old(self).wf(),
        ensures
            final(self).wf(),
            final(self).memory.allocs@.len() == old(self).memory.allocs@.len(),
            final(self).threads == old(self).threads,
            final(self).data_race == old(self).data_race,
            final(self).borrow_tracker == old(self).borrow_tracker,
            final(self).alloc_addresses == old(self).alloc_addresses,
            forall|i: int|
                0 <= i < old(self).memory.allocs@.len() && i != alloc ==> #[trigger] final(self).memory.allocs@[i] == old(self).memory.allocs@[i],
            alloc < old(self).memory.allocs@.len() ==> {
                &&& final(self).memory.allocs@[alloc as int].bytes == old(self).memory.allocs@[alloc as int].bytes
                &&& final(self).memory.allocs@[alloc as int].live == old(self).memory.allocs@[alloc as int].live
                &&& final(self).memory.allocs@[alloc as int].size == old(self).memory.allocs@[alloc as int].size
                &&& final(self).memory.allocs@[alloc as int].extra.data_race == old(self).memory.allocs@[alloc as int].extra.data_race
                &&& final(self).memory.allocs@[alloc as int].extra.weak_memory == old(self).memory.allocs@[alloc as int].extra.weak_memory
                &&& (old(self).memory.allocs@[alloc as int].extra.borrow_tracker matches Some(bt)
                    ==> final(self).memory.allocs@[alloc as int].extra.borrow_tracker
                    matches Some(bt2) && bt2.entries@.len() == bt.entries@.len() && (forall|
                    j: int,
                |
                    0 <= j < bt.entries@.len() ==> #[trigger] bt2.entries@[j] == (if bt.entries@[j].tag.0
                        == tag.0 {
                        monitor::TagEntry { protected: false, ..bt.entries@[j] }
                    } else {
                        bt.entries@[j]
                    })))
            },
    {
        let n = self.memory.allocs.len();
        if alloc >= n as u64 {
            return ;
        }
        let idx = alloc as usize;
        let mut entry = self.memory.allocs.remove(idx);
        match &mut entry.extra.borrow_tracker {
            Some(bt) => {
                bt.unprotect(tag);
            },
            None => {},
        }
        self.memory.allocs.insert(idx, entry);
        proof {
            let pre = old(self);
            assert forall|i: int|
                0 <= i < pre.memory.allocs@.len() && i != alloc
                    implies self.memory.allocs@[i] == pre.memory.allocs@[i] by {
                if i < alloc {
                    assert(self.memory.allocs@[i] == pre.memory.allocs@[i]);
                } else {
                    assert(self.memory.allocs@[i] == pre.memory.allocs@[i]);
                }
            }
            if self.memory.allocs@[alloc as int].extra.borrow_tracker is Some {
                let b0 = choose|b0: monitor::AllocState|
                    pre.memory.allocs@[alloc as int].extra.borrow_tracker == Some(b0);
                let b2 = choose|b2: monitor::AllocState|
                    self.memory.allocs@[alloc as int].extra.borrow_tracker == Some(b2);
                let g = choose|g: monitor::GlobalState| pre.borrow_tracker == Some(g);
                assert forall|j: int|
                    0 <= j < b2.entries@.len() implies b2.entries@[j].tag.0 == b0.entries@[j].tag.0
                    by {
                    assert(b2.entries@[j] == (if b0.entries@[j].tag.0 == tag.0 {
                        monitor::TagEntry { protected: false, ..b0.entries@[j] }
                    } else {
                        b0.entries@[j]
                    }));
                }
                assert(b2.wf(g.next_tag)) by {
                    assert forall|j: int|
                        0 <= j < b2.entries@.len() implies b2.history@.contains(
                        #[trigger] b2.entries@[j].tag.0,
                    ) by {
                        assert(b0.history@.contains(b0.entries@[j].tag.0));
                    }
                }
            }
        }
    }

    /// Before the top frame is popped: the protection of every tag this
    /// frame protected ends — the return place stays protected until
    /// exactly here.
    pub fn before_stack_pop(&mut self, frame: &Frame)
        requires
            old(self).wf(),
        ensures
            final(self).wf(),
            final(self).memory.allocs@.len() == old(self).memory.allocs@.len(),
            final(self).threads == old(self).threads,
            final(self).data_race == old(self).data_race,
            final(self).borrow_tracker == old(self).borrow_tracker,
            final(self).alloc_addresses == old(self).alloc_addresses,
    {
        match &frame.extra.borrow_tracker {
            Some(fs) => {
                let mut i: usize = 0;
                while i < fs.protected_tags.len()
                    invariant
                        self.wf(),
                        self.memory.allocs@.len() == old(self).memory.allocs@.len(),
                        self.threads == old(self).threads,
                        self.data_race == old(self).data_race,
                        self.borrow_tracker == old(self).borrow_tracker,
                        self.alloc_addresses == old(self).alloc_addresses,
                    decreases fs.protected_tags@.len() - i,
                {
                    let (alloc, tag) = fs.protected_tags[i];
                    self.unprotect_tag(alloc, tag);
                    i += 1;
                }
            },
            None => {},
        }
    }

    /// After a frame is popped: recompute the topmost user-relevant
    /// frame, and decide whether an unwinding panic stops here — exactly
    /// when the popped frame carried the catch marker.
    pub fn after_stack_pop(&mut self, frame: &Frame, unwinding: bool) -> (r: StackPopJump)
        requires
            old(self).wf(),
        ensures
            final(self).wf(),
            r == (if unwinding && frame.extra.catch_data is Some {
                StackPopJump::NoJump
            } else {
                StackPopJump::Normal
            }),
            final(self).memory == old(self).memory,
            final(self).threads.active == old(self).threads.active,
            final(self).threads.threads@.len() == old(self).threads.threads@.len(),
            ({
                let stack = old(self).threads.threads@[old(self).threads.active as int].stack@;
                final(self).threads.threads@[old(self).threads.active as int].top_user_relevant_frame
                    == scan_user_relevant(stack, stack.len() as int - 1)
            }),
            final(self).threads.threads@[old(self).threads.active as int].stack == old(self).threads.threads@[old(self).threads.active as int].stack,
            forall|t: int|
                0 <= t < old(self).threads.threads@.len() && t != old(self).threads.active
                    ==> #[trigger] final(self).threads.threads@[t] == old(self).threads.threads@[t],
    {
        // the frame we popped may have been the topmost user-relevant
        // one; recompute from the top of what remains
        let a = self.threads.active_thread();
        let mut i: usize = self.threads.threads[a].stack.len();
        let mut found: Option<usize> = None;
        while i > 0 && found.is_none()
            invariant
                self.wf(),
                *self == *old(self),
                a == old(self).threads.active,
                i <= self.threads.threads@[a as int].stack@.len(),
                found is None ==> scan_user_relevant(
                    self.threads.threads@[a as int].stack@,
                    self.threads.threads@[a as int].stack@.len() as int - 1,
                ) == scan_user_relevant(self.threads.threads@[a as int].stack@, i as int - 1),
                found matches Some(k) ==> scan_user_relevant(
                    self.threads.threads@[a as int].stack@,
                    self.threads.threads@[a as int].stack@.len() as int - 1,
                ) == Some(k) && k < self.threads.threads@[a as int].stack@.len(),
            decreases i + (if found is None { 1int } else { 0int }),
        {
            if self.threads.threads[a].stack[i - 1].extra.is_user_relevant {
                found = Some(i - 1);
            } else {
                i -= 1;
            }
        }
        self.threads.set_top_user_relevant_frame(found);
        if unwinding && frame.extra.catch_data.is_some() {
            StackPopJump::NoJump
        } else {
            StackPopJump::Normal
        }
    }

    /// Record the source span of a local's allocation, for diagnostics.
    pub fn after_local_allocated(&mut self, alloc_id: AllocId, span: u64)
        requires
            old(self).wf(),
        ensures
            final(self).wf(),
            final(self).allocation_spans@ =~= old(self).allocation_spans@.push(
                (alloc_id, span, None::<u64>),
            ),
            final(self).memory == old(self).memory,
            final(self).threads == old(self).threads,
    {
        self.allocation_spans.push((alloc_id, span, None));
    }

    /// Evaluate a constant through the per-frame cache: the key combines
    /// the constant's identity with the active frame's salt, so repeated
    /// evaluation across different calls may differ by design, while any
    /// two evaluations within the same frame are guaranteed identical.
    pub fn eval_mir_constant(&mut self, const_id: u64, computed: Value) -> (r: Value)
        requires
            old(self).wf(),
            old(self).threads.threads@[old(self).threads.active as int].stack@.len() > 0,
        ensures
            final(self).wf(),
            final(self).memory == old(self).memory,
            final(self).threads == old(self).threads,
            ({
                let salt = old(self).threads.threads@[old(self).threads.active as int].stack@.last().extra.salt;
                &&& (old(self).const_cache.contains_key(const_id, salt) ==> r == old(self).const_cache.stored_value(const_id, salt) && final(self).const_cache == old(self).const_cache)
                &&& (!old(self).const_cache.contains_key(const_id, salt) ==> r == computed
                    && final(self).const_cache.entries@ =~= old(self).const_cache.entries@.push(
                    crate::constcache::ConstCacheEntry { const_id, salt, value: computed },
                ))
                &&& final(self).const_cache.contains_key(const_id, salt)
                &&& final(self).const_cache.stored_value(const_id, salt) == r
            }),
    {
        let a = self.threads.active_thread();
        let len = self.threads.threads[a].stack.len();
        let salt = self.threads.threads[a].stack[len - 1].extra.salt;
        self.const_cache.eval_const(const_id, salt, computed)
    }

    /// Collect the provenance of every pointer value the machine can
    /// still reach: the locals of every frame of every thread, the extern
    /// statics, the program-argument pointers, and the pointers stored
    /// inside live allocations. The result may list a provenance twice,
    /// and the collector may keep more than what is listed — never less.
    pub fn visit_provenance(&self) -> (r: Vec<Provenance>)
        ensures
            forall|t: int, f: int, l: int|
                0 <= t < self.threads.threads@.len() && 0 <= f
                    < self.threads.threads@[t].stack@.len() && 0 <= l
                    < self.threads.threads@[t].stack@[f].locals@.len()
                    && self.threads.threads@[t].stack@[f].locals@[l] is Ptr ==> r@.contains(
                    (#[trigger] self.threads.threads@[t].stack@[f].locals@[l])->Ptr_0.provenance,
                ),
            forall|i: int|
                0 <= i < self.extern_statics@.len() ==> r@.contains(
                    (#[trigger] self.extern_statics@[i]).1.provenance,
                ),
            self.argc matches Some(p) ==> r@.contains(p.provenance),
            self.argv matches Some(p) ==> r@.contains(p.provenance),
            self.cmd_line matches Some(p) ==> r@.contains(p.provenance),
            self.main_fn_ret_place matches Some(p) ==> r@.contains(p.provenance),
            forall|i: int, j: int|
                0 <= i < self.memory.allocs@.len() && 0 <= j
                    < self.memory.allocs@[i].provs@.len() ==> r@.contains(
                    (#[trigger] self.memory.allocs@[i].provs@[j]).1,
                ),
    {
        let mut acc: Vec<Provenance> = Vec::new();
        // every thread's frames
        let mut t: usize = 0;
        while t < self.threads.threads.len()
            invariant
                t <= self.threads.threads@.len(),
                forall|t2: int, f: int, l: int|
                    0 <= t2 < t && 0 <= f < self.threads.threads@[t2].stack@.len() && 0 <= l
                        < self.threads.threads@[t2].stack@[f].locals@.len()
                        && self.threads.threads@[t2].stack@[f].locals@[l] is Ptr ==> acc@.contains(
                        (
                        #[trigger] self.threads.threads@[t2].stack@[f].locals@[l])->Ptr_0.provenance,
                    ),
            decreases self.threads.threads@.len() - t,
        {
            let mut f: usize = 0;
            while f < self.threads.threads[t].stack.len()
                invariant
                    t < self.threads.threads@.len(),
                    f <= self.threads.threads@[t as int].stack@.len(),
                    forall|t2: int, f2: int, l: int|
                        0 <= t2 < t && 0 <= f2 < self.threads.threads@[t2].stack@.len() && 0 <= l
                            < self.threads.threads@[t2].stack@[f2].locals@.len()
                            && self.threads.threads@[t2].stack@[f2].locals@[l]
                            is Ptr ==> acc@.contains(
                            (
                            #[trigger] self.threads.threads@[t2].stack@[f2].locals@[l])->Ptr_0.provenance,
                        ),
                    forall|f2: int, l: int|
                        0 <= f2 < f && 0 <= l < self.threads.threads@[
                            t as int].stack@[f2].locals@.len() && self.threads.threads@[
                            t as int].stack@[f2].locals@[l] is Ptr ==> acc@.contains(
                            (
                            #[trigger] self.threads.threads@[t as int].stack@[f2].locals@[l])->Ptr_0.provenance,
                        ),
                decreases self.threads.threads@[t as int].stack@.len() - f,
            {
                let ghost acc_pre = acc@;
                self.threads.threads[t].stack[f].visit_provenance(&mut acc);
                proof {
                    crate::frame::lemma_prefix_preserves_contains(acc_pre, acc@);
                }
                f += 1;
            }
            t += 1;
        }
        // the extern statics
        let mut i: usize = 0;
        while i < self.extern_statics.len()
            invariant
                i <= self.extern_statics@.len(),
                forall|t2: int, f: int, l: int|
                    0 <= t2 < self.threads.threads@.len() && 0 <= f
                        < self.threads.threads@[t2].stack@.len() && 0 <= l
                        < self.threads.threads@[t2].stack@[f].locals@.len()
                        && self.threads.threads@[t2].stack@[f].locals@[l] is Ptr ==> acc@.contains(
                        (
                        #[trigger] self.threads.threads@[t2].stack@[f].locals@[l])->Ptr_0.provenance,
                    ),
                forall|j: int|
                    0 <= j < i ==> acc@.contains(
                        (#[trigger] self.extern_statics@[j]).1.provenance,
                    ),
            decreases self.extern_statics@.len() - i,
        {
            let ghost acc_pre = acc@;
            acc.push(self.extern_statics[i].1.provenance);
            proof {
                crate::frame::lemma_prefix_preserves_contains(acc_pre, acc@);
                assert(acc@[acc@.len() - 1] == self.extern_statics@[i as int].1.provenance);
            }
            i += 1;
        }
        // the program-argument pointers
        let ghost acc_args = acc@;
        match &self.argc {
            Some(p) => {
                let ghost acc_pre = acc@;
                acc.push(p.provenance);
                proof {
                    crate::frame::lemma_prefix_preserves_contains(acc_pre, acc@);
                    assert(acc@[acc@.len() - 1] == p.provenance);
                }
            },
            None => {},
        }
        match &self.argv {
            Some(p) => {
                let ghost acc_pre = acc@;
                acc.push(p.provenance);
                proof {
                    crate::frame::lemma_prefix_preserves_contains(acc_pre, acc@);
                    assert(acc@[acc@.len() - 1] == p.provenance);
                }
            },
            None => {},
        }
        match &self.cmd_line {
            Some(p) => {
                let ghost acc_pre = acc@;
                acc.push(p.provenance);
                proof {
                    crate::frame::lemma_prefix_preserves_contains(acc_pre, acc@);
                    assert(acc@[acc@.len() - 1] == p.provenance);
                }
            },
            None => {},
        }
        match &self.main_fn_ret_place {
            Some(p) => {
                let ghost acc_pre = acc@;
                acc.push(p.provenance);
                proof {
                    crate::frame::lemma_prefix_preserves_contains(acc_pre, acc@);
                    assert(acc@[acc@.len() - 1] == p.provenance);
                }
            },
            None => {},
        }
        // the pointers stored inside allocations
        let mut a: usize = 0;
        while a < self.memory.allocs.len()
            invariant
                a <= self.memory.allocs@.len(),
                forall|t2: int, f: int, l: int|
                    0 <= t2 < self.threads.threads@.len() && 0 <= f
                        < self.threads.threads@[t2].stack@.len() && 0 <= l
                        < self.threads.threads@[t2].stack@[f].locals@.len()
                        && self.threads.threads@[t2].stack@[f].locals@[l] is Ptr ==> acc@.contains(
                        (
                        #[trigger] self.threads.threads@[t2].stack@[f].locals@[l])->Ptr_0.provenance,
                    ),
                forall|j: int|
                    0 <= j < self.extern_statics@.len() ==> acc@.contains(
                        (#[trigger] self.extern_statics@[j]).1.provenance,
                    ),
                self.argc matches Some(p) ==> acc@.contains(p.provenance),
                self.argv matches Some(p) ==> acc@.contains(p.provenance),
                self.cmd_line matches Some(p) ==> acc@.contains(p.provenance),
                self.main_fn_ret_place matches Some(p) ==> acc@.contains(p.provenance),
                forall|i2: int, j: int|
                    0 <= i2 < a && 0 <= j < self.memory.allocs@[i2].provs@.len() ==> acc@.contains(
                        (#[trigger] self.memory.allocs@[i2].provs@[j]).1,
                    ),
            decreases self.memory.allocs@.len() - a,
        {
            let mut j: usize = 0;
            while j < self.memory.allocs[a].provs.len()
                invariant
                    a < self.memory.allocs@.len(),
                    j <= self.memory.allocs@[a as int].provs@.len(),
                    forall|t2: int, f: int, l: int|
                        0 <= t2 < self.threads.threads@.len() && 0 <= f
                            < self.threads.threads@[t2].stack@.len() && 0 <= l
                            < self.threads.threads@[t2].stack@[f].locals@.len()
                            && self.threads.threads@[t2].stack@[f].locals@[l]
                            is Ptr ==> acc@.contains(
                            (
                            #[trigger] self.threads.threads@[t2].stack@[f].locals@[l])->Ptr_0.provenance,
                        ),
                    forall|j2: int|
                        0 <= j2 < self.extern_statics@.len() ==> acc@.contains(
                            (#[trigger] self.extern_statics@[j2]).1.provenance,
                        ),
                    self.argc matches Some(p) ==> acc@.contains(p.provenance),
                    self.argv matches Some(p) ==> acc@.contains(p.provenance),
                    self.cmd_line matches Some(p) ==> acc@.contains(p.provenance),
                    self.main_fn_ret_place matches Some(p) ==> acc@.contains(p.provenance),
                    forall|i2: int, j2: int|
                        0 <= i2 < a && 0 <= j2 < self.memory.allocs@[i2].provs@.len()
                            ==> acc@.contains((#[trigger] self.memory.allocs@[i2].provs@[j2]).1),
                    forall|j2: int|
                        0 <= j2 < j ==> acc@.contains(
                            (#[trigger] self.memory.allocs@[a as int].provs@[j2]).1,
                        ),
                decreases self.memory.allocs@[a as int].provs@.len() - j,
        {
                let ghost acc_pre = acc@;
                acc.push(self.memory.allocs[a].provs[j].1);
                proof {
                    crate::frame::lemma_prefix_preserves_contains(acc_pre, acc@);
                    assert(acc@[acc@.len() - 1] == self.memory.allocs@[a as int].provs@[
                        j as int].1);
                }
                j += 1;
            }
            a += 1;
        }
        acc
    }

    /// One pass of the tag garbage collector: scan every reachable
    /// pointer value, then drop monitor bookkeeping for every tag not
    /// among them — an optimization, never a semantic operation. The
    /// returned list holds the tags that were treated as reachable; every
    /// tag a live pointer carries is on it, every entry carrying a listed
    /// or protected tag survives, and every survivor was there before, so
    /// with the monitor's preservation lemma the judgment of any access
    /// through a reachable tag is exactly what it was before the pass.
    pub fn run_provenance_gc(&mut self) -> (keep: Vec<u64>)
        requires
            old(self).wf(),
        ensures
            final(self).wf(),
            // every tag on a reachable pointer is treated as reachable
            forall|t: int, f: int, l: int|
                (0 <= t < old(self).threads.threads@.len() && 0 <= f < old(self).threads.threads@[t].stack@.len() && 0 <= l < old(self).threads.threads@[t].stack@[f].locals@.len()) ==> ((
                #[trigger] old(self).threads.threads@[t].stack@[f].locals@[l]) matches Value::Ptr(
                    p,
                ) ==> (p.provenance matches Provenance::Concrete { alloc_id, tag }
                    ==> keep@.contains(tag.0))),
            forall|i: int|
                0 <= i < old(self).extern_statics@.len() ==> ((#[trigger] old(self).extern_statics@[i]).1.provenance matches Provenance::Concrete { alloc_id, tag }
                    ==> keep@.contains(tag.0)),
            forall|i: int, j: int|
                (0 <= i < old(self).memory.allocs@.len() && 0 <= j < old(self).memory.allocs@[i].provs@.len()) ==> ((#[trigger] old(self).memory.allocs@[i].provs@[j]).1 matches Provenance::Concrete { alloc_id, tag }
                    ==> keep@.contains(tag.0)),
            // the memory changes only in monitor bookkeeping
            final(self).memory.allocs@.len() == old(self).memory.allocs@.len(),
            forall|i: int|
                0 <= i < old(self).memory.allocs@.len() ==> {
                    &&& (#[trigger] final(self).memory.allocs@[i]).bytes == old(self).memory.allocs@[i].bytes
                    &&& final(self).memory.allocs@[i].size == old(self).memory.allocs@[i].size
                    &&& final(self).memory.allocs@[i].align == old(self).memory.allocs@[i].align
                    &&& final(self).memory.allocs@[i].kind == old(self).memory.allocs@[i].kind
                    &&& final(self).memory.allocs@[i].live == old(self).memory.allocs@[i].live
                    &&& final(self).memory.allocs@[i].provs == old(self).memory.allocs@[i].provs
                    &&& final(self).memory.allocs@[i].extra.data_race == old(self).memory.allocs@[i].extra.data_race
                    &&& final(self).memory.allocs@[i].extra.weak_memory == old(self).memory.allocs@[i].extra.weak_memory
                    &&& final(self).memory.allocs@[i].extra.backtrace == old(self).memory.allocs@[i].extra.backtrace
                },
            // per allocation: reachable and protected entries survive,
            // and every survivor was there before
            forall|i: int|
                0 <= i < old(self).memory.allocs@.len() ==> ((#[trigger] old(self).memory.allocs@[i]).extra.borrow_tracker matches Some(bt) ==> (final(self).memory.allocs@[i].extra.borrow_tracker matches Some(bt2) && bt2.base_tag
                    == bt.base_tag && bt2.history == bt.history && (forall|j: int|
                    0 <= j < bt2.entries@.len() ==> bt.entries@.contains(
                        #[trigger] bt2.entries@[j],
                    )) && (forall|j: int|
                    0 <= j < bt.entries@.len() && (keep@.contains(
                        (#[trigger] bt.entries@[j]).tag.0,
                    ) || bt.entries@[j].protected) ==> bt2.entries@.contains(bt.entries@[j])))),
            forall|i: int|
                0 <= i < old(self).memory.allocs@.len() ==> ((#[trigger] old(self).memory.allocs@[i]).extra.borrow_tracker is None ==> final(self).memory.allocs@[i].extra.borrow_tracker is None),
            final(self).threads == old(self).threads,
            final(self).data_race == old(self).data_race,
            final(self).borrow_tracker == old(self).borrow_tracker,
            final(self).alloc_addresses == old(self).alloc_addresses,
            final(self).clock == old(self).clock,
            final(self).allocation_spans == old(self).allocation_spans,
            final(self).extern_statics == old(self).extern_statics,
            final(self).const_cache == old(self).const_cache,
            final(self).tracked_alloc_ids == old(self).tracked_alloc_ids,
            final(self).basic_block_count == old(self).basic_block_count,
            final(self).since_gc == old(self).since_gc,
            final(self).report_progress == old(self).report_progress,
            final(self).preemption_rate_bits == old(self).preemption_rate_bits,
            final(self).gc_interval == old(self).gc_interval,
            spec_gc_only_monitor_changed(*old(self), *final(self)),
            spec_gc_keeps_reachable(*old(self), *final(self)),
    {
        let roots = self.visit_provenance();
        let mut keep: Vec<u64> = Vec::new();
        let mut i: usize = 0;
        while i < roots.len()
            invariant
                i <= roots@.len(),
                forall|j: int|
                    0 <= j < i ==> ((#[trigger] roots@[j]) matches Provenance::Concrete {
                        alloc_id,
                        tag,
                    } ==> keep@.contains(tag.0)),
            decreases roots@.len() - i,
        {
            match roots[i] {
                Provenance::Concrete { alloc_id, tag } => {
                    let ghost keep_pre = keep@;
                    keep.push(tag.0);
                    proof {
                        crate::frame::lemma_prefix_preserves_contains(keep_pre, keep@);
                        assert(keep@[keep@.len() - 1] == tag.0);
                    }
                },
                Provenance::Wildcard => {},
            }
            i += 1;
        }
        proof {
            // a provenance among the roots with a concrete tag has its
            // tag on the keep list
            assert forall|p: Provenance|
                roots@.contains(p) && p matches Provenance::Concrete { alloc_id, tag }
                    implies keep@.contains(
                (match p {
                    Provenance::Concrete { alloc_id: a2, tag: t2 } => t2,
                    Provenance::Wildcard => BorTag(0),
                }).0,
            ) by {
                let k = choose|k: int| 0 <= k < roots@.len() && roots@[k] == p;
            }
        }
        // prune each allocation's monitor bookkeeping
        let mut a: usize = 0;
        while a < self.memory.allocs.len()
            invariant
                a <= self.memory.allocs@.len(),
                self.wf(),
                self.memory.allocs@.len() == old(self).memory.allocs@.len(),
                self.threads == old(self).threads,
                self.data_race == old(self).data_race,
                self.borrow_tracker == old(self).borrow_tracker,
                self.alloc_addresses == old(self).alloc_addresses,
                self.clock == old(self).clock,
                self.allocation_spans == old(self).allocation_spans,
                self.extern_statics == old(self).extern_statics,
                self.const_cache == old(self).const_cache,
                self.tracked_alloc_ids == old(self).tracked_alloc_ids,
                self.basic_block_count == old(self).basic_block_count,
                self.since_gc == old(self).since_gc,
                self.report_progress == old(self).report_progress,
                self.preemption_rate_bits == old(self).preemption_rate_bits,
                self.gc_interval == old(self).gc_interval,
                forall|i2: int|
                    a <= i2 < old(self).memory.allocs@.len() ==> #[trigger] self.memory.allocs@[i2]
                        == old(self).memory.allocs@[i2],
                forall|i2: int|
                    0 <= i2 < a ==> {
                        &&& (#[trigger] self.memory.allocs@[i2]).bytes == old(self).memory.allocs@[i2].bytes
                        &&& self.memory.allocs@[i2].size == old(self).memory.allocs@[i2].size
                        &&& self.memory.allocs@[i2].align == old(self).memory.allocs@[i2].align
                        &&& self.memory.allocs@[i2].kind == old(self).memory.allocs@[i2].kind
                        &&& self.memory.allocs@[i2].live == old(self).memory.allocs@[i2].live
                        &&& self.memory.allocs@[i2].provs == old(self).memory.allocs@[i2].provs
                        &&& self.memory.allocs@[i2].extra.data_race == old(self).memory.allocs@[i2].extra.data_race
                        &&& self.memory.allocs@[i2].extra.weak_memory == old(self).memory.allocs@[i2].extra.weak_memory
                        &&& self.memory.allocs@[i2].extra.backtrace == old(self).memory.allocs@[i2].extra.backtrace
                    },
                forall|i2: int|
                    0 <= i2 < a ==> ((#[trigger] old(self).memory.allocs@[i2]).extra.borrow_tracker matches Some(bt) ==> (
                    self.memory.allocs@[i2].extra.borrow_tracker matches Some(bt2) && bt2.base_tag
                        == bt.base_tag && bt2.history == bt.history && (forall|j: int|
                        0 <= j < bt2.entries@.len() ==> bt.entries@.contains(
                            #[trigger] bt2.entries@[j],
                        )) && (forall|j: int|
                        0 <= j < bt.entries@.len() && (keep@.contains(
                            (#[trigger] bt.entries@[j]).tag.0,
                        ) || bt.entries@[j].protected) ==> bt2.entries@.contains(
                            bt.entries@[j],
                        )))),
                forall|i2: int|
                    0 <= i2 < a ==> ((#[trigger] old(self).memory.allocs@[i2]).extra.borrow_tracker is None
                        ==> self.memory.allocs@[i2].extra.borrow_tracker is None),
            decreases self.memory.allocs@.len() - a,
        {
            let mut entry = self.memory.allocs.remove(a);
            let ghost entry_pre = entry;
            match &mut entry.extra.borrow_tracker {
                Some(bt) => {
                    proof {
                        assert(old(self).memory.allocs@[a as int].extra.borrow_tracker
                            matches Some(b0) && b0.tags_unique());
                    }
                    bt.retain_tags(&keep);
                },
                None => {},
            }
            self.memory.allocs.insert(a, entry);
            proof {
                let pre = old(self);
                assert forall|i2: int|
                    0 <= i2 < pre.memory.allocs@.len() && i2 != a
                        implies self.memory.allocs@[i2] == (if i2 < a {
                    self.memory.allocs@[i2]
                } else {
                    pre.memory.allocs@[i2]
                }) by {}
                if self.memory.allocs@[a as int].extra.borrow_tracker is Some {
                    let b0 = choose|b0: monitor::AllocState|
                        pre.memory.allocs@[a as int].extra.borrow_tracker == Some(b0);
                    let b2 = choose|b2: monitor::AllocState|
                        self.memory.allocs@[a as int].extra.borrow_tracker == Some(b2);
                    let g = choose|g: monitor::GlobalState| pre.borrow_tracker == Some(g);
                    monitor::lemma_retain_preserves_wf(b0, b2, g.next_tag);
                }
            }
            a += 1;
        }
        keep
    }

    /// The per-step boundary: count the step, possibly report progress,
    /// run the tag collector when its interval has elapsed, give the
    /// scheduler its preemption chance, and let time pass. The schedule
    /// draw comes from the run's random stream; whatever it is, either
    /// the active thread stays, or control moves to the thread the fixed
    /// round-robin rule names.
    pub fn before_terminator(&mut self) -> (r: Option<NonHaltingDiagnostic>)
        requires
            old(self).wf(),
            old(self).basic_block_count < u64::MAX,
            old(self).since_gc < u32::MAX,
            old(self).clock.now < u64::MAX,
        ensures
            final(self).wf(),
            final(self).basic_block_count == old(self).basic_block_count + 1,
            final(self).clock.now == old(self).clock.now + 1,
            r == (match old(self).report_progress {
                Some(rp) => if rp > 0 && (old(self).basic_block_count + 1) % (rp as int) == 0 {
                    Some(
                        NonHaltingDiagnostic::ProgressReport {
                            block_count: (old(self).basic_block_count + 1) as u64,
                        },
                    )
                } else {
                    None::<NonHaltingDiagnostic>
                },
                None => None::<NonHaltingDiagnostic>,
            }),
            final(self).since_gc == (if old(self).gc_interval > 0 && old(self).since_gc + 1
                >= old(self).gc_interval {
                0int
            } else {
                old(self).since_gc + 1
            }),
            final(self).threads.threads@.len() == old(self).threads.threads@.len(),
            final(self).threads.active == old(self).threads.active || Some(
                final(self).threads.active as int,
            ) == old(self).threads.spec_next_runnable(),
            final(self).memory.allocs@.len() == old(self).memory.allocs@.len(),
            final(self).data_race == old(self).data_race,
            final(self).borrow_tracker == old(self).borrow_tracker,
            final(self).alloc_addresses == old(self).alloc_addresses,
            // a collector pass at this boundary is an optimization, never
            // semantic: it only drops monitor bookkeeping, keeps every
            // protected entry, and keeps every tag reachable from a live
            // pointer value at the time of the pass
            (old(self).gc_interval > 0 && old(self).since_gc + 1 >= old(self).gc_interval) ==> (
            spec_gc_only_monitor_changed(*old(self), *final(self)) && spec_gc_keeps_reachable(
                *old(self),
                *final(self),
            )),
            // without a pass the memory is untouched
            !(old(self).gc_interval > 0 && old(self).since_gc + 1 >= old(self).gc_interval)
                ==> final(self).memory == old(self).memory,
    {
        self.basic_block_count = self.basic_block_count + 1;
        self.since_gc = self.since_gc + 1;
        // possibly report our progress
        let r = match self.report_progress {
            Some(rp) => {
                if rp > 0 && self.basic_block_count % (rp as u64) == 0 {
                    Some(NonHaltingDiagnostic::ProgressReport { block_count: self.basic_block_count })
                } else {
                    None
                }
            },
            None => None,
        };
        // search for reachable tags, then drop all other monitor
        // bookkeeping
        if self.gc_interval > 0 && self.since_gc >= self.gc_interval {
            self.since_gc = 0;
            let _ = self.run_provenance_gc();
        }
        // these are our preemption points
        let ghost threads_pre = self.threads;
        let draw = rng_next_u32(&mut self.rng);
        let threshold = self.preemption_rate_bits;
        self.threads.maybe_preempt(draw, threshold);
        // make sure some time passes
        self.clock.tick();
        r
    }

    /// Retag a pointer value at a designated program point: the aliasing
    /// monitor mints a fresh permission generation for it. With the
    /// monitor off, or for a wildcard pointer, the value passes through
    /// unchanged. The fresh tag is strictly above every tag ever minted
    /// for the allocation.
    pub fn retag_ptr_value(&mut self, perm: monitor::Permission, ptr: Pointer) -> (r: Pointer)
        requires
            old(self).wf(),
            perm != monitor::Permission::Disabled,
            old(self).borrow_tracker matches Some(g) ==> g.next_tag < u64::MAX,
            ptr.provenance matches Provenance::Concrete { alloc_id, tag } ==> alloc_id.0 < old(self).memory.allocs@.len(),
        ensures
            final(self).wf(),
            old(self).borrow_tracker is None ==> r == ptr && *final(self) == *old(self),
            ptr.provenance is Wildcard ==> r == ptr && *final(self) == *old(self),
            final(self).threads == old(self).threads,
            final(self).data_race == old(self).data_race,
            final(self).alloc_addresses == old(self).alloc_addresses,
            ptr.provenance matches Provenance::Concrete { alloc_id, tag } ==> (old(self).borrow_tracker matches Some(g) ==> (match old(self).memory.alloc_of(
                alloc_id,
            ).extra.borrow_tracker {
                Some(bt) => {
                    &&& r.addr == ptr.addr
                    &&& r.provenance matches Provenance::Concrete { alloc_id: a2, tag: t2 } && a2
                        == alloc_id && t2.0 == g.next_tag
                    // the fresh tag is strictly above the whole history
                    &&& forall|i: int|
                        0 <= i < bt.history@.len() ==> #[trigger] bt.history@[i] < g.next_tag
                    &&& final(self).memory.alloc_of(alloc_id).extra.borrow_tracker matches Some(
                        bt2,
                    ) && bt2.history@ =~= bt.history@.push(g.next_tag) && bt2.entries@
                        =~= bt.entries@.push(
                        monitor::TagEntry { tag: BorTag(g.next_tag), perm, protected: false },
                    )
                    &&& final(self).borrow_tracker matches Some(g2) && g2.next_tag == g.next_tag
                        + 1
                },
                None => r == ptr && *final(self) == *old(self),
            })),
    {
        match ptr.provenance {
            Provenance::Wildcard => ptr,
            Provenance::Concrete { alloc_id, tag } => {
                if self.borrow_tracker.is_none() {
                    return ptr;
                }
                let n = self.memory.allocs.len();
                proof {
                    assert(alloc_id.0 < n as u64);
                }
                let idx = alloc_id.0 as usize;
                if self.memory.allocs[idx].extra.borrow_tracker.is_none() {
                    return ptr;
                }
                let mut entry = self.memory.allocs.remove(idx);
                let new_tag = match (&mut entry.extra.borrow_tracker, &mut self.borrow_tracker) {
                    (Some(bt), Some(g)) => {
                        proof {
                            assert(old(self).memory.allocs@[alloc_id.0 as int].extra.borrow_tracker
                                matches Some(b0) && b0.wf(
                                (choose|g0: monitor::GlobalState|
                                    old(self).borrow_tracker == Some(g0)).next_tag,
                            ));
                        }
                        bt.retag(g, perm)
                    },
                    _ => {
                        proof {
                            assert(false);
                        }
                        unreached()
                    },
                };
                self.memory.allocs.insert(idx, entry);
                proof {
                    let pre = old(self);
                    assert forall|i: int|
                        0 <= i < pre.memory.allocs@.len() && i != alloc_id.0
                            implies self.memory.allocs@[i] == pre.memory.allocs@[i] by {
                        if i < alloc_id.0 {
                            assert(self.memory.allocs@[i] == pre.memory.allocs@[i]);
                        } else {
                            assert(self.memory.allocs@[i] == pre.memory.allocs@[i]);
                        }
                    }
                }
                Pointer {
                    provenance: Provenance::Concrete { alloc_id, tag: new_tag },
                    addr: ptr.addr,
                }
            },
        }
    }

    /// Protect a call-by-reference argument for the duration of a call:
    /// the tag's entry is marked protected — any access through a
    /// different tag is then a violation — the protection is recorded in
    /// the active frame so that it ends when the frame is popped, and the
    /// place is overwritten so its former contents cannot be observed any
    /// more. Fails when the tag no longer grants anything, or when the
    /// overwrite itself is refused.
    pub fn protect_in_place_function_argument(
        &mut self,
        alloc_id: AllocId,
        tag: BorTag,
        start: u64,
        len: u64,
    ) -> (r: Result<Option<NonHaltingDiagnostic>, InterpError>)
        requires
            old(self).wf(),
            old(self).memory.is_live(alloc_id),
            start + len <= old(self).memory.alloc_of(alloc_id).size,
            old(self).threads.threads@[old(self).threads.active as int].stack@.len() > 0,
        ensures
            final(self).wf(),
            r matches Err(e) ==> e matches InterpError::Ub(..),
            // a violation comes exactly when the tag grants no read, or
            // the overwrite itself races or is refused
            (r is Err) == ((old(self).memory.alloc_of(alloc_id).extra.borrow_tracker matches Some(
                bt,
            ) && !bt.grants_read(tag.0)) || spec_access_race(*old(self), alloc_id, true, start, len)
                || spec_write_rejected(
                *old(self),
                alloc_id,
                ProvenanceExtra::Concrete(tag),
            )),
            r is Ok ==> {
                &&& final(self).memory.is_live(alloc_id)
                // the former contents are gone
                &&& final(self).memory.alloc_of(alloc_id).bytes@.len() == old(self).memory.alloc_of(alloc_id).bytes@.len()
                &&& forall|j: int|
                    start <= j < start + len ==> final(self).memory.alloc_of(
                        alloc_id,
                    ).bytes@[j] == 0u8
                // the tag is protected while the monitor runs
                &&& (old(self).memory.alloc_of(alloc_id).extra.borrow_tracker is Some ==> (final(self).memory.alloc_of(alloc_id).extra.borrow_tracker matches Some(bt2) ==> (exists|
                    j: int,
                |
                    0 <= j < bt2.entries@.len() && (#[trigger] bt2.entries@[j]).tag.0 == tag.0
                        && bt2.entries@[j].protected)) && final(self).memory.alloc_of(alloc_id).extra.borrow_tracker is Some)
            },
    {
        let n = self.memory.allocs.len();
        proof {
            assert(alloc_id.0 < n as u64);
        }
        let idx = alloc_id.0 as usize;
        // mark the entry protected
        if self.memory.allocs[idx].extra.borrow_tracker.is_some() {
            let mut entry = self.memory.allocs.remove(idx);
            let protect_result = match &mut entry.extra.borrow_tracker {
                Some(bt) => {
                    proof {
                        assert(old(self).memory.allocs@[alloc_id.0 as int].extra.borrow_tracker
                            matches Some(b0) && b0.tags_unique());
                    }
                    bt.protect(tag)
                },
                None => {
                    proof {
                        assert(false);
                    }
                    unreached()
                },
            };
            self.memory.allocs.insert(idx, entry);
            proof {
                let pre = old(self);
                assert forall|i: int|
                    0 <= i < pre.memory.allocs@.len() && i != alloc_id.0
                        implies self.memory.allocs@[i] == pre.memory.allocs@[i] by {
                    if i < alloc_id.0 {
                        assert(self.memory.allocs@[i] == pre.memory.allocs@[i]);
                    } else {
                        assert(self.memory.allocs@[i] == pre.memory.allocs@[i]);
                    }
                }
            }
            match protect_result {
                Ok(()) => {
                    proof {
                        let btm = choose|btm: monitor::AllocState|
                            self.memory.alloc_of(alloc_id).extra.borrow_tracker == Some(btm);
                        let b0 = choose|b0: monitor::AllocState|
                            old(self).memory.alloc_of(alloc_id).extra.borrow_tracker == Some(b0);
                        let k = choose|k: int|
                            0 <= k < b0.entries@.len() && (#[trigger] b0.entries@[k]).tag.0
                                == tag.0 && b0.entries@[k].perm != monitor::Permission::Disabled;
                        assert(btm.entries@[k].tag.0 == tag.0 && btm.entries@[k].protected);
                        assert(exists|j: int|
                            0 <= j < btm.entries@.len() && (#[trigger] btm.entries@[j]).tag.0
                                == tag.0 && btm.entries@[j].protected);
                    }
                },
                Err(t) => {
                    return Err(
                        InterpError::Ub(
                            UndefinedBehavior::AliasingViolation {
                                alloc_id,
                                tag: t,
                                access: AccessKind::Write,
                            },
                        ),
                    );
                },
            }
            // remember the protection in the active frame, so it ends
            // with the call
            match self.threads.pop_frame() {
                Some(mut f) => {
                    match &mut f.extra.borrow_tracker {
                        Some(fs) => {
                            fs.protected_tags.push((alloc_id.0, tag));
                        },
                        None => {},
                    }
                    self.threads.push_frame(f);
                },
                None => {
                    proof {
                        assert(false);
                    }
                },
            }
        }
        // overwrite the place: even after the call ends, the former
        // contents cannot be observed any more
        let mut zeros: Vec<u8> = Vec::new();
        let mut i: u64 = 0;
        while i < len
            invariant
                i <= len,
                zeros@.len() == i,
                forall|j: int| 0 <= j < i ==> zeros@[j] == 0u8,
            decreases len - i,
        {
            zeros.push(0);
            i += 1;
        }
        let ghost mid = *self;
        proof {
            let pre = *old(self);
            // the race judgment is unchanged: only monitor bookkeeping
            // and the active frame changed
            assert(mid.memory.alloc_of(alloc_id).extra.data_race == pre.memory.alloc_of(
                alloc_id,
            ).extra.data_race);
            assert(mid.data_race == pre.data_race);
            assert(mid.threads.active == pre.threads.active);
            assert(spec_access_race(mid, alloc_id, true, start, len) == spec_access_race(
                pre,
                alloc_id,
                true,
                start,
                len,
            ));
            // the monitor's write judgment is unchanged: at most the
            // tag's own entry changed, and only in its protected flag,
            // which its own write judgment never consults
            if pre.memory.alloc_of(alloc_id).extra.borrow_tracker is Some {
                let b0 = choose|b0: monitor::AllocState|
                    pre.memory.alloc_of(alloc_id).extra.borrow_tracker == Some(b0);
                let btm = choose|btm: monitor::AllocState|
                    mid.memory.alloc_of(alloc_id).extra.borrow_tracker == Some(btm);
                assert(btm.entries@.len() == b0.entries@.len());
                assert(forall|i: int|
                    0 <= i < b0.entries@.len() ==> #[trigger] btm.entries@[i] == (if b0.entries@[
                        i].tag.0 == tag.0 {
                        monitor::TagEntry { protected: true, ..b0.entries@[i] }
                    } else {
                        b0.entries@[i]
                    }));
                assert(btm.grants_write(tag.0) == b0.grants_write(tag.0)) by {
                    if b0.grants_write(tag.0) {
                        let i = choose|i: int|
                            0 <= i < b0.entries@.len() && (#[trigger] b0.entries@[i]).tag.0
                                == tag.0 && b0.entries@[i].perm == monitor::Permission::Unique;
                        assert(btm.entries@[i].tag.0 == tag.0 && btm.entries@[i].perm
                            == monitor::Permission::Unique);
                    }
                    if btm.grants_write(tag.0) {
                        let i = choose|i: int|
                            0 <= i < btm.entries@.len() && (#[trigger] btm.entries@[i]).tag.0
                                == tag.0 && btm.entries@[i].perm == monitor::Permission::Unique;
                        assert(b0.entries@[i].tag.0 == tag.0 && b0.entries@[i].perm
                            == monitor::Permission::Unique);
                    }
                }
                assert(btm.protector_violation(tag.0) == b0.protector_violation(tag.0)) by {
                    if b0.protector_violation(tag.0) {
                        let i = choose|i: int|
                            0 <= i < b0.entries@.len() && (#[trigger] b0.entries@[i]).protected
                                && b0.entries@[i].perm != monitor::Permission::Disabled
                                && b0.entries@[i].tag.0 != tag.0;
                        assert(btm.entries@[i] == b0.entries@[i]);
                    }
                    if btm.protector_violation(tag.0) {
                        let i = choose|i: int|
                            0 <= i < btm.entries@.len() && (#[trigger] btm.entries@[i]).protected
                                && btm.entries@[i].perm != monitor::Permission::Disabled
                                && btm.entries@[i].tag.0 != tag.0;
                        assert(btm.entries@[i] == b0.entries@[i]);
                    }
                }
            }
            assert(spec_write_rejected(mid, alloc_id, ProvenanceExtra::Concrete(tag))
                == spec_write_rejected(pre, alloc_id, ProvenanceExtra::Concrete(tag)));
            assert(mid.memory.is_live(alloc_id) && mid.memory.alloc_of(alloc_id).size
                == pre.memory.alloc_of(alloc_id).size);
        }
        match self.write_memory(alloc_id, ProvenanceExtra::Concrete(tag), start, &zeros) {
            Ok(d) => {
                proof {
                    if old(self).memory.alloc_of(alloc_id).extra.borrow_tracker is Some {
                        let btm = choose|btm: monitor::AllocState|
                            mid.memory.alloc_of(alloc_id).extra.borrow_tracker == Some(btm);
                        let j = choose|j: int|
                            0 <= j < btm.entries@.len() && (#[trigger] btm.entries@[j]).tag.0
                                == tag.0 && btm.entries@[j].protected;
                        let bt2 = choose|bt2: monitor::AllocState|
                            self.memory.alloc_of(alloc_id).extra.borrow_tracker == Some(bt2);
                        assert(bt2.entries@[j] == (if btm.entries@[j].tag.0 > tag.0 {
                            monitor::TagEntry {
                                perm: monitor::Permission::Disabled,
                                ..btm.entries@[j]
                            }
                        } else {
                            btm.entries@[j]
                        }));
                        assert(bt2.entries@[j].tag.0 == tag.0 && bt2.entries@[j].protected);
                    }
                }
                Ok(d)
            },
            Err(e) => Err(e),
        }
    }

    /// A relaxed write: judged by the race detector and the aliasing
    /// monitor like any write, but with weak-memory emulation on it is
    /// appended to the allocation's store buffer rather than becoming
    /// visible at once. Without the emulation it is a plain write.
    pub fn write_relaxed(
        &mut self,
        alloc_id: AllocId,
        prov_extra: ProvenanceExtra,
        start: u64,
        data: Vec<u8>,
    ) -> (r: Result<Option<NonHaltingDiagnostic>, InterpError>)
        requires
            old(self).wf(),
            start + data@.len() <= u64::MAX,
        ensures
            final(self).wf(),
            r matches Err(e) ==> e matches InterpError::Ub(..),
            !old(self).memory.is_live(alloc_id) ==> r is Err && *final(self) == *old(self),
            old(self).memory.is_live(alloc_id) && start + data@.len() > old(self).memory.alloc_of(
                alloc_id,
            ).size ==> r is Err && *final(self) == *old(self),
            (old(self).memory.is_live(alloc_id) && start + data@.len() <= old(self).memory.alloc_of(alloc_id).size) ==> (old(self).memory.alloc_of(
                alloc_id,
            ).extra.weak_memory matches Some(wm) ==> {
                &&& (r is Err) == (spec_access_race(
                    *old(self),
                    alloc_id,
                    true,
                    start,
                    data@.len() as u64,
                ) || spec_write_rejected(*old(self), alloc_id, prov_extra))
                &&& (r is Err ==> *final(self) == *old(self))
                &&& (r is Ok ==> {
                    // buffered, not yet visible: the committed bytes are
                    // untouched
                    &&& final(self).memory.alloc_of(alloc_id).bytes == old(self).memory.alloc_of(
                        alloc_id,
                    ).bytes
                    &&& final(self).memory.alloc_of(alloc_id).extra.weak_memory matches Some(wm2)
                        && wm2.buffer@.len() == wm.buffer@.len() + 1 && (forall|i: int|
                        0 <= i < wm.buffer@.len() ==> #[trigger] wm2.buffer@[i] == wm.buffer@[i])
                        && wm2.buffer@.last().start == start && wm2.buffer@.last().bytes@ == data@
                        && wm2.buffer@.last().thread == old(self).threads.active
                })
            }),
            // without a store buffer this is a plain write
            (old(self).memory.is_live(alloc_id) && start + data@.len() <= old(self).memory.alloc_of(alloc_id).size) ==> (old(self).memory.alloc_of(
                alloc_id,
            ).extra.weak_memory is None ==> {
                &&& (r is Err) == (spec_access_race(
                    *old(self),
                    alloc_id,
                    true,
                    start,
                    data@.len() as u64,
                ) || spec_write_rejected(*old(self), alloc_id, prov_extra))
                &&& (r is Err ==> *final(self) == *old(self))
                &&& (r is Ok ==> {
                    &&& final(self).memory.is_live(alloc_id)
                    &&& final(self).memory.alloc_of(alloc_id).bytes@.len() == old(self).memory.alloc_of(alloc_id).bytes@.len()
                    &&& forall|j: int|
                        0 <= j < old(self).memory.alloc_of(alloc_id).bytes@.len() ==> final(self).memory.alloc_of(alloc_id).bytes@[j] == (if start <= j < start
                            + data@.len() {
                            data@[j - start]
                        } else {
                            old(self).memory.alloc_of(alloc_id).bytes@[j]
                        })
                })
            }),
    {
        if alloc_id.0 >= self.memory.allocs.len() as u64 {
            return Err(InterpError::Ub(UndefinedBehavior::UseAfterFree { alloc_id }));
        }
        let idx = alloc_id.0 as usize;
        if !self.memory.allocs[idx].live {
            return Err(InterpError::Ub(UndefinedBehavior::UseAfterFree { alloc_id }));
        }
        let size = self.memory.allocs[idx].size;
        let len = data.len() as u64;
        if len > size || start > size - len {
            return Err(
                InterpError::Ub(
                    UndefinedBehavior::OutOfBounds { alloc_id, offset: start, len, size },
                ),
            );
        }
        if self.memory.allocs[idx].extra.weak_memory.is_none() {
            // no store buffers: a plain write
            return self.write_memory(alloc_id, prov_extra, start, &data);
        }
        let diag = match self.mem_access_hook(alloc_id, prov_extra, start, len, true) {
            Ok(d) => d,
            Err(e) => {
                return Err(e);
            },
        };
        let thread = self.threads.active_thread();
        let mut entry = self.memory.allocs.remove(idx);
        match &mut entry.extra.weak_memory {
            Some(wm) => {
                wm.buffered_write(start, data, thread);
            },
            None => {
                proof {
                    assert(false);
                }
            },
        }
        self.memory.allocs.insert(idx, entry);
        Ok(diag)
    }

    /// A relaxed read: judged like any read; with weak-memory emulation
    /// on, the reading thread observes its own latest buffered write
    /// covering exactly the requested range, if it has one, and the
    /// committed bytes otherwise.
    pub fn read_relaxed(
        &mut self,
        alloc_id: AllocId,
        prov_extra: ProvenanceExtra,
        start: u64,
        len: u64,
    ) -> (r: Result<(Vec<u8>, Option<NonHaltingDiagnostic>), InterpError>)
        requires
            old(self).wf(),
            start + len <= u64::MAX,
        ensures
            final(self).wf(),
            r matches Err(e) ==> e matches InterpError::Ub(..),
            !old(self).memory.is_live(alloc_id) ==> r is Err && *final(self) == *old(self),
            old(self).memory.is_live(alloc_id) && start + len > old(self).memory.alloc_of(
                alloc_id,
            ).size ==> r is Err && *final(self) == *old(self),
            old(self).memory.is_live(alloc_id) && start + len <= old(self).memory.alloc_of(
                alloc_id,
            ).size ==> {
                &&& (r is Err) == (spec_access_race(*old(self), alloc_id, false, start, len)
                    || spec_read_rejected(*old(self), alloc_id, prov_extra))
                &&& (r is Err ==> *final(self) == *old(self))
                &&& (r matches Ok(ok) ==> (match old(self).memory.alloc_of(
                    alloc_id,
                ).extra.weak_memory {
                    Some(wm) => if exists|i: int|
                        wm.matches_at(i, old(self).threads.active, start, len) {
                        exists|i: int|
                            wm.matches_at(i, old(self).threads.active, start, len) && ok.0@
                                == wm.buffer@[i].bytes@ && (forall|j: int|
                                i < j < wm.buffer@.len() ==> !wm.matches_at(
                                    j,
                                    old(self).threads.active,
                                    start,
                                    len,
                                ))
                    } else {
                        ok.0@ =~= old(self).memory.alloc_of(alloc_id).bytes@.subrange(
                            start as int,
                            start + len,
                        )
                    },
                    None => ok.0@ =~= old(self).memory.alloc_of(alloc_id).bytes@.subrange(
                        start as int,
                        start + len,
                    ),
                }))
            },
    {
        if alloc_id.0 >= self.memory.allocs.len() as u64 {
            return Err(InterpError::Ub(UndefinedBehavior::UseAfterFree { alloc_id }));
        }
        let idx = alloc_id.0 as usize;
        if !self.memory.allocs[idx].live {
            return Err(InterpError::Ub(UndefinedBehavior::UseAfterFree { alloc_id }));
        }
        let size = self.memory.allocs[idx].size;
        if len > size || start > size - len {
            return Err(
                InterpError::Ub(
                    UndefinedBehavior::OutOfBounds { alloc_id, offset: start, len, size },
                ),
            );
        }
        let diag = match self.before_memory_read(alloc_id, prov_extra, start, len) {
            Ok(d) => d,
            Err(e) => {
                return Err(e);
            },
        };
        let thread = self.threads.active_thread();
        let buffered: Option<Vec<u8>> = match &self.memory.allocs[idx].extra.weak_memory {
            Some(wm) => {
                match wm.read_latest(thread, start, len) {
                    Some(b) => Some(copy_bytes(b)),
                    None => None,
                }
            },
            None => None,
        };
        match buffered {
            Some(data) => Ok((data, diag)),
            None => {
                match self.memory.read(alloc_id, start, len) {
                    Ok(data) => Ok((data, diag)),
                    Err(_) => {
                        proof {
                            assert(false);
                        }
                        unreached()
                    },
                }
            },
        }
    }

    /// A synchronizing flush: commit the allocation's buffered writes to
    /// its bytes, oldest first, leaving the buffer empty. Each buffered
    /// write already went through race-detector accounting when it was
    /// made, so the committed order is compatible with the established
    /// happens-before edges.
    pub fn flush_store_buffer(&mut self, alloc_id: AllocId)
        requires
            old(self).wf(),
            old(self).memory.is_live(alloc_id),
        ensures
            final(self).wf(),
            final(self).memory.allocs@.len() == old(self).memory.allocs@.len(),
            forall|i: int|
                0 <= i < old(self).memory.allocs@.len() && i != alloc_id.0 ==> #[trigger] final(self).memory.allocs@[i] == old(self).memory.allocs@[i],
            final(self).memory.is_live(alloc_id),
            (match old(self).memory.alloc_of(alloc_id).extra.weak_memory {
                Some(wm) => final(self).memory.alloc_of(alloc_id).extra.weak_memory matches Some(
                    wm2,
                ) && wm2.buffer@.len() == 0 && final(self).memory.alloc_of(alloc_id).bytes@
                    =~= weak::apply_writes(old(self).memory.alloc_of(alloc_id).bytes@, wm.buffer@),
                None => *final(self) == *old(self),
            }),
            final(self).threads == old(self).threads,
            final(self).data_race == old(self).data_race,
            final(self).borrow_tracker == old(self).borrow_tracker,
            final(self).alloc_addresses == old(self).alloc_addresses,
    {
        let n = self.memory.allocs.len();
        proof {
            assert(alloc_id.0 < n as u64);
        }
        let idx = alloc_id.0 as usize;
        if self.memory.allocs[idx].extra.weak_memory.is_none() {
            return ;
        }
        let mut entry = self.memory.allocs.remove(idx);
        let ws: Vec<weak::BufferedWrite> = match &mut entry.extra.weak_memory {
            Some(wm) => wm.flush(),
            None => {
                proof {
                    assert(false);
                }
                unreached()
            },
        };
        self.memory.allocs.insert(idx, entry);
        proof {
            let pre = old(self);
            assert forall|i: int|
                0 <= i < pre.memory.allocs@.len() && i != alloc_id.0
                    implies self.memory.allocs@[i] == pre.memory.allocs@[i] by {
                if i < alloc_id.0 {
                    assert(self.memory.allocs@[i] == pre.memory.allocs@[i]);
                } else {
                    assert(self.memory.allocs@[i] == pre.memory.allocs@[i]);
                }
            }
        }
        let ghost bytes0 = self.memory.alloc_of(alloc_id).bytes@;
        let ghost mid = *self;
        proof {
            assert(ws@.subrange(0, ws@.len() as int) =~= ws@);
        }
        let mut k: usize = 0;
        while k < ws.len()
            invariant
                k <= ws@.len(),
                self.wf(),
                self.memory.is_live(alloc_id),
                self.memory.allocs@.len() == mid.memory.allocs@.len(),
                self.memory.alloc_of(alloc_id).size == mid.memory.alloc_of(alloc_id).size,
                forall|i: int|
                    0 <= i < mid.memory.allocs@.len() && i != alloc_id.0
                        ==> #[trigger] self.memory.allocs@[i] == mid.memory.allocs@[i],
                self.memory.alloc_of(alloc_id).extra == mid.memory.alloc_of(alloc_id).extra,
                self.memory.alloc_of(alloc_id).provs == mid.memory.alloc_of(alloc_id).provs,
                self.memory.alloc_of(alloc_id).align == mid.memory.alloc_of(alloc_id).align,
                self.memory.alloc_of(alloc_id).kind == mid.memory.alloc_of(alloc_id).kind,
                self.threads == mid.threads,
                self.data_race == mid.data_race,
                self.borrow_tracker == mid.borrow_tracker,
                self.alloc_addresses == mid.alloc_addresses,
                self.allocation_spans == mid.allocation_spans,
                self.extern_statics == mid.extern_statics,
                self.const_cache == mid.const_cache,
                self.tracked_alloc_ids == mid.tracked_alloc_ids,
                bytes0 == mid.memory.alloc_of(alloc_id).bytes@,
                bytes0.len() == mid.memory.alloc_of(alloc_id).size,
                // the in-bounds guarantee carried over from the machine
                // invariant on the buffered writes
                forall|j: int|
                    0 <= j < ws@.len() ==> (#[trigger] ws@[j]).start + ws@[j].bytes@.len()
                        <= mid.memory.alloc_of(alloc_id).size,
                weak::apply_writes(self.memory.alloc_of(alloc_id).bytes@, ws@.subrange(
                    k as int,
                    ws@.len() as int,
                )) == weak::apply_writes(bytes0, ws@),
            decreases ws@.len() - k,
        {
            let w_start = ws[k].start;
            let ghost bytes_pre = self.memory.alloc_of(alloc_id).bytes@;
            let w_res = self.memory.write(alloc_id, w_start, &ws[k].bytes);
            proof {
                assert(w_res is Ok);
                assert(self.memory.alloc_of(alloc_id).bytes@ =~= weak::apply_write(
                    bytes_pre,
                    ws@[k as int],
                ));
                assert(ws@.subrange(k as int, ws@.len() as int).drop_first() =~= ws@.subrange(
                    k + 1,
                    ws@.len() as int,
                ));
                assert(ws@.subrange(k as int, ws@.len() as int)[0] == ws@[k as int]);
            }
            k += 1;
        }
        proof {
            assert(ws@.subrange(ws@.len() as int, ws@.len() as int).len() == 0);
        }
    }

    /// Spawn a new thread: it starts runnable with an empty stack, and —
    /// with the race detector on — inherits the spawning thread's clock
    /// knowledge, the spawn being a happens-before edge. Returns the new
    /// thread's id.
    pub fn thread_spawn(&mut self) -> (r: usize)
        requires
            old(self).wf(),
            old(self).data_race matches Some(g) ==> (g.clock_of(
                old(self).threads.active as int,
            ).get(old(self).threads.active as int) < u64::MAX && g.clock_of(
                old(self).threads.active as int,
            ).get(old(self).threads.threads@.len() as int) < u64::MAX),
        ensures
            final(self).wf(),
            r == old(self).threads.threads@.len(),
            final(self).threads.threads@.len() == old(self).threads.threads@.len() + 1,
            final(self).threads.threads@[r as int].state is Runnable,
            final(self).threads.threads@[r as int].stack@.len() == 0,
            final(self).threads.active == old(self).threads.active,
            forall|t: int|
                0 <= t < old(self).threads.threads@.len() ==> #[trigger] final(self).threads.threads@[t] == old(self).threads.threads@[t],
            final(self).memory == old(self).memory,
            old(self).data_race matches Some(g) ==> (final(self).data_race matches Some(g2) && (
            forall|i: int|
                #![trigger g2.clock_of(r as int).get(i)]
                i != r ==> g2.clock_of(r as int).get(i) == g.clock_of(
                    old(self).threads.active as int,
                ).get(i))),
            old(self).data_race is None ==> final(self).data_race is None,
    {
        let child = Thread {
            state: ThreadState::Runnable,
            stack: Vec::new(),
            top_user_relevant_frame: None,
        };
        let id = self.threads.spawn(child);
        let active = self.threads.active_thread();
        match &mut self.data_race {
            Some(g) => {
                let c = g.thread_created(active);
                proof {
                    assert(c == id);
                }
            },
            None => {},
        }
        id
    }

    /// Join a thread: with the target already terminated, the joiner
    /// learns everything the target knew — the join is a happens-before
    /// edge — and goes on. Otherwise the joiner blocks until the target
    /// terminates; with no runnable thread left, the run deadlocks.
    pub fn thread_join(&mut self, joinee: usize) -> (r: Result<(), InterpError>)
        requires
            old(self).wf(),
            joinee < old(self).threads.threads@.len(),
            joinee != old(self).threads.active,
        ensures
            final(self).wf(),
            final(self).memory == old(self).memory,
            old(self).threads.threads@[joinee as int].state is Terminated ==> {
                &&& r is Ok
                &&& final(self).threads == old(self).threads
                &&& (old(self).data_race matches Some(g) ==> (final(self).data_race matches Some(
                    g2,
                ) && (forall|i: int|
                    #![trigger g2.clock_of(old(self).threads.active as int).get(i)]
                    g2.clock_of(old(self).threads.active as int).get(i) == (if g.clock_of(
                        old(self).threads.active as int,
                    ).get(i) >= g.clock_of(joinee as int).get(i) {
                        g.clock_of(old(self).threads.active as int).get(i)
                    } else {
                        g.clock_of(joinee as int).get(i)
                    }))))
            },
            !(old(self).threads.threads@[joinee as int].state is Terminated) ==> {
                &&& final(self).data_race == old(self).data_race
                &&& final(self).threads.threads@[old(self).threads.active as int].state
                    == crate::threads::ThreadState::Blocked(
                    crate::threads::BlockReason::Joining(joinee),
                )
                &&& (r is Err) == (crate::threads::scan_runnable(
                    final(self).threads.threads@,
                    0,
                    final(self).threads.threads@.len() as int,
                ) is None)
                &&& (r is Ok ==> Some(final(self).threads.active as int)
                    == crate::threads::scan_runnable(
                    final(self).threads.threads@,
                    0,
                    final(self).threads.threads@.len() as int,
                ))
                &&& (r matches Err(e) ==> e == InterpError::Deadlock)
            },
    {
        if matches!(self.threads.threads[joinee].state, ThreadState::Terminated) {
            let active = self.threads.active_thread();
            match &mut self.data_race {
                Some(g) => {
                    g.thread_joined(active, joinee);
                },
                None => {},
            }
            Ok(())
        } else {
            self.threads.block_active(crate::threads::BlockReason::Joining(joinee))
        }
    }

    /// Hand control to a particular runnable thread, the way a
    /// synchronization operation wakes a specific waiter.
    pub fn set_active_thread(&mut self, t: usize)
        requires
            old(self).wf(),
            t < old(self).threads.threads@.len(),
            old(self).threads.threads@[t as int].state is Runnable,
        ensures
            final(self).wf(),
            final(self).threads.threads == old(self).threads.threads,
            final(self).threads.active == t,
            final(self).memory == old(self).memory,
            final(self).data_race == old(self).data_race,
    {
        self.threads.set_active(t);
    }

    /// Enforce alignment on one access: whatever misalignment the
    /// symbolic check finds is the undefined behaviour it stands for.
    pub fn check_ptr_alignment(
        &self,
        alloc_id: AllocId,
        alloc_align: u64,
        alloc_live_data: bool,
        offset: u64,
        align: u64,
    ) -> (r: Result<(), InterpError>)
        requires
            align > 0,
        ensures
            r == (match spec_alignment_check(
                *self,
                alloc_id,
                alloc_align,
                alloc_live_data,
                offset,
                align,
            ) {
                Some(mis) => Err::<(), InterpError>(
                    InterpError::Ub(
                        UndefinedBehavior::MisalignedAccess {
                            required: mis.required,
                            has: mis.has,
                        },
                    ),
                ),
                None => Ok::<(), InterpError>(()),
            }),
    {
        match self.alignment_check(alloc_id, alloc_align, alloc_live_data, offset, align) {
            Some(mis) => Err(
                InterpError::Ub(
                    UndefinedBehavior::MisalignedAccess { required: mis.required, has: mis.has },
                ),
            ),
            None => Ok(()),
        }
    }

    /// Look up the promised (offset, alignment) pair for symbolic
    /// alignment checking.
    fn promised_alignment(&self, alloc_id: AllocId) -> (r: Option<(u64, u64)>)
        ensures
            r == scan_promise(self.symbolic_alignment@, alloc_id, 0),
    {
        let mut i: usize = 0;
        while i < self.symbolic_alignment.len()
            invariant
                i <= self.symbolic_alignment@.len(),
                scan_promise(self.symbolic_alignment@, alloc_id, 0) == scan_promise(
                    self.symbolic_alignment@,
                    alloc_id,
                    i as int,
                ),
            decreases self.symbolic_alignment@.len() - i,
        {
            let e = self.symbolic_alignment[i];
            if e.0.0 == alloc_id.0 {
                return Some((e.1, e.2));
            }
            i += 1;
        }
        None
    }

    /// The symbolic alignment check: with symbolic checking off, or on
    /// anything but live data, the built-in numeric check decides — there
    /// is nothing to add. Otherwise the allocation's promised alignment
    /// must cover the required one, and the access offset's distance from
    /// the promised offset must be a multiple of the required alignment;
    /// the misalignment reported for a bad distance carries the largest
    /// power of two dividing that distance.
    pub fn alignment_check(
        &self,
        alloc_id: AllocId,
        alloc_align: u64,
        alloc_live_data: bool,
        offset: u64,
        align: u64,
    ) -> (r: Option<Misalignment>)
        requires
            align > 0,
        ensures
            r == spec_alignment_check(*self, alloc_id, alloc_align, alloc_live_data, offset, align),
    {
        if !matches!(self.check_alignment, AlignmentCheck::Symbolic) {
            // just use the built-in check
            return None;
        }
        if !alloc_live_data {
            // can't have any extra info here
            return None;
        }
        let (promised_offset, promised_align) = match self.promised_alignment(alloc_id) {
            Some(p) => p,
            None => (0, alloc_align),
        };
        if promised_align < align {
            // definitely not enough
            Some(Misalignment { has: promised_align, required: align })
        } else {
            // the distance between us and the promised alignment must
            // also be aligned
            let distance = if offset >= promised_offset {
                offset - promised_offset
            } else {
                // wrap around, as a two's-complement subtraction would
                offset + (0xffff_ffff_ffff_ffff - promised_offset) + 1
            };
            if distance % align == 0 {
                None
            } else {
                let distance_pow2 = largest_pow2_divisor(distance);
                Some(Misalignment { has: distance_pow2, required: align })
            }
        }
    }
}

/// A separately owned copy of the bytes.
fn copy_bytes(v: &Vec<u8>) -> (r: Vec<u8>)
    ensures
        r@ == v@,
{
    let mut out: Vec<u8> = Vec::new();
    let mut i: usize = 0;
    while i < v.len()
        invariant
            i <= v@.len(),
            out@.len() == i,
            forall|j: int| 0 <= j < i ==> out@[j] == v@[j],
        decreases v@.len() - i,
    {
        out.push(v[i]);
        i += 1;
    }
    proof {
        assert(out@ =~= v@);
    }
    out
}

/// The two machine states agree on everything but the random stream.
pub open spec fn same_but_rng(a: MiriMachine, b: MiriMachine) -> bool {
    &&& a.borrow_tracker == b.borrow_tracker
    &&& a.data_race == b.data_race
    &&& a.alloc_addresses == b.alloc_addresses
    &&& a.memory == b.memory
    &&& a.threads == b.threads
    &&& a.clock == b.clock
    &&& a.const_cache == b.const_cache
    &&& a.extern_statics == b.extern_statics
    &&& a.static_roots == b.static_roots
    &&& a.allocation_spans == b.allocation_spans
    &&& a.symbolic_alignment == b.symbolic_alignment
    &&& a.tracked_alloc_ids == b.tracked_alloc_ids
    &&& a.track_alloc_accesses == b.track_alloc_accesses
    &&& a.isolated_op == b.isolated_op
    &&& a.validate == b.validate
    &&& a.check_alignment == b.check_alignment
    &&& a.cmpxchg_weak_failure_rate_bits == b.cmpxchg_weak_failure_rate_bits
    &&& a.weak_memory == b.weak_memory
    &&& a.preemption_rate_bits == b.preemption_rate_bits
    &&& a.report_progress == b.report_progress
    &&& a.basic_block_count == b.basic_block_count
    &&& a.gc_interval == b.gc_interval
    &&& a.since_gc == b.since_gc
    &&& a.num_cpus == b.num_cpus
    &&& a.page_size == b.page_size
    &&& a.stack_addr == b.stack_addr
    &&& a.stack_size == b.stack_size
    &&& a.collect_leak_backtraces == b.collect_leak_backtraces
    &&& a.local_crates == b.local_crates
    &&& a.panic_on_unsupported == b.panic_on_unsupported
    &&& a.argc == b.argc
    &&& a.argv == b.argv
    &&& a.cmd_line == b.cmd_line
    &&& a.main_fn_ret_place == b.main_fn_ret_place
}

/// The topmost user-relevant frame at or below index `i`.
pub open spec fn scan_user_relevant(s: Seq<Frame>, i: int) -> Option<usize>
    decreases i + 1,
{
    if i < 0 || i >= s.len() {
        None
    } else if s[i].extra.is_user_relevant {
        Some(i as usize)
    } else {
        scan_user_relevant(s, i - 1)
    }
}

/// The first promised (offset, alignment) pair recorded for the
/// allocation, scanning from `i`.
pub open spec fn scan_promise(s: Seq<(AllocId, u64, u64)>, id: AllocId, i: int) -> Option<
    (u64, u64),
>
    decreases s.len() - i,
{
    if i < 0 || i >= s.len() {
        None
    } else if s[i].0 == id {
        Some((s[i].1, s[i].2))
    } else {
        scan_promise(s, id, i + 1)
    }
}

/// The distance from the promised offset, wrapping like two's-complement
/// subtraction.
pub open spec fn spec_wrapping_distance(offset: u64, promised: u64) -> u64 {
    if offset >= promised {
        (offset - promised) as u64
    } else {
        (offset + (0xffff_ffff_ffff_ffff - promised) + 1) as u64
    }
}

/// The largest power of two dividing `x`: one for odd `x`, twice the
/// divisor of the half for even `x`.
pub open spec fn spec_pow2_divisor(x: int) -> int
    decreases x,
{
    if x <= 0 {
        1
    } else if x % 2 == 1 {
        1
    } else {
        2 * spec_pow2_divisor(x / 2)
    }
}

/// What the symbolic alignment check reports.
pub open spec fn spec_alignment_check(
    m: MiriMachine,
    alloc_id: AllocId,
    alloc_align: u64,
    alloc_live_data: bool,
    offset: u64,
    align: u64,
) -> Option<Misalignment> {
    if m.check_alignment != AlignmentCheck::Symbolic || !alloc_live_data {
        None
    } else {
        let promise = match scan_promise(m.symbolic_alignment@, alloc_id, 0) {
            Some(p) => p,
            None => (0u64, alloc_align),
        };
        if promise.1 < align {
            Some(Misalignment { has: promise.1, required: align })
        } else {
            let distance = spec_wrapping_distance(offset, promise.0);
            if distance % align == 0 {
                None
            } else {
                Some(
                    Misalignment {
                        has: spec_pow2_divisor(distance as int) as u64,
                        required: align,
                    },
                )
            }
        }
    }
}

/// The largest power of two dividing `x`.
fn largest_pow2_divisor(x: u64) -> (r: u64)
    requires
        x > 0,
    ensures
        r == spec_pow2_divisor(x as int),
        r > 0,
{
    let mut y: u64 = x;
    let mut r: u64 = 1;
    while y % 2 == 0
        invariant
            y >= 1,
            r >= 1,
            x == y * r,
            spec_pow2_divisor(x as int) == r * spec_pow2_divisor(y as int),
        decreases y,
    {
        proof {
            assert((y as int) / 2 * ((r as int) * 2) == (y as int) * (r as int)) by (nonlinear_arith)
                requires
                    y as int % 2 == 0,
                    y >= 1,
            ;
            assert(spec_pow2_divisor(y as int) == 2 * spec_pow2_divisor(y as int / 2));
            assert((r as int) * 2 <= x as int) by (nonlinear_arith)
                requires
                    x as int == (y as int) * (r as int),
                    y as int >= 2,
                    r as int >= 1,
            ;
            assert((r as int) * 2 * spec_pow2_divisor(y as int / 2) == (r as int)
                * spec_pow2_divisor(y as int)) by (nonlinear_arith)
                requires
                    spec_pow2_divisor(y as int) == 2 * spec_pow2_divisor(y as int / 2),
            ;
        }
        y = y / 2;
        r = r * 2;
    }
    proof {
        assert(spec_pow2_divisor(y as int) == 1);
        assert(r * spec_pow2_divisor(y as int) == r) by (nonlinear_arith)
            requires
                spec_pow2_divisor(y as int) == 1,
        ;
    }
    r
}

/// From `pre` to `post` the memory changed only in aliasing-monitor
/// bookkeeping, and there only by dropping entries: every block's bytes,
/// layout, liveness, stored pointers and other extra state are the same,
/// every surviving monitor entry was there before, and every protected
/// entry survives.
pub open spec fn spec_gc_only_monitor_changed(pre: MiriMachine, post: MiriMachine) -> bool {
    &&& post.memory.allocs@.len() == pre.memory.allocs@.len()
    &&& forall|i: int|
        0 <= i < pre.memory.allocs@.len() ==> {
            &&& (#[trigger] post.memory.allocs@[i]).bytes == pre.memory.allocs@[i].bytes
            &&& post.memory.allocs@[i].size == pre.memory.allocs@[i].size
            &&& post.memory.allocs@[i].align == pre.memory.allocs@[i].align
            &&& post.memory.allocs@[i].kind == pre.memory.allocs@[i].kind
            &&& post.memory.allocs@[i].live == pre.memory.allocs@[i].live
            &&& post.memory.allocs@[i].provs == pre.memory.allocs@[i].provs
            &&& post.memory.allocs@[i].extra.data_race == pre.memory.allocs@[i].extra.data_race
            &&& post.memory.allocs@[i].extra.weak_memory
                == pre.memory.allocs@[i].extra.weak_memory
            &&& post.memory.allocs@[i].extra.backtrace == pre.memory.allocs@[i].extra.backtrace
        }
    &&& forall|i: int|
        0 <= i < pre.memory.allocs@.len() ==> ((#[trigger] pre.memory.allocs@[i]).extra.borrow_tracker
            matches Some(bt) ==> (post.memory.allocs@[i].extra.borrow_tracker matches Some(bt2)
            && bt2.base_tag == bt.base_tag && bt2.history == bt.history && (forall|j: int|
            0 <= j < bt2.entries@.len() ==> bt.entries@.contains(#[trigger] bt2.entries@[j]))
            && (forall|j: int|
            0 <= j < bt.entries@.len() && (#[trigger] bt.entries@[j]).protected
                ==> bt2.entries@.contains(bt.entries@[j]))))
    &&& forall|i: int|
        0 <= i < pre.memory.allocs@.len() ==> ((#[trigger] pre.memory.allocs@[i]).extra.borrow_tracker
            is None ==> post.memory.allocs@[i].extra.borrow_tracker is None)
}

/// The allocation's monitor state has an entry at `j` carrying tag `t`.
pub open spec fn spec_alloc_entry_has_tag(a: crate::table::Allocation, j: int, t: u64) -> bool {
    match a.extra.borrow_tracker {
        Some(bt) => 0 <= j < bt.entries@.len() && bt.entries@[j].tag.0 == t,
        None => false,
    }
}

/// Every monitor entry of `pre` carrying the tag survives into `post`.
pub open spec fn spec_monitor_entry_kept(pre: MiriMachine, post: MiriMachine, t: u64) -> bool {
    forall|i: int, j: int|
        0 <= i < pre.memory.allocs@.len() && #[trigger] spec_alloc_entry_has_tag(
            pre.memory.allocs@[i],
            j,
            t,
        ) ==> (match (
            pre.memory.allocs@[i].extra.borrow_tracker,
            post.memory.allocs@[i].extra.borrow_tracker,
        ) {
            (Some(bt), Some(bt2)) => bt2.entries@.contains(bt.entries@[j]),
            _ => false,
        })
}

/// A collector pass from `pre` to `post` kept every tag reachable from a
/// live pointer value of `pre`: the locals of every frame of every
/// thread, the extern statics, and the pointers stored inside
/// allocations.
pub open spec fn spec_gc_keeps_reachable(pre: MiriMachine, post: MiriMachine) -> bool {
    &&& forall|t: int, f: int, l: int|
        (0 <= t < pre.threads.threads@.len() && 0 <= f < pre.threads.threads@[t].stack@.len() && 0
            <= l < pre.threads.threads@[t].stack@[f].locals@.len()) ==> ((
        #[trigger] pre.threads.threads@[t].stack@[f].locals@[l]) matches Value::Ptr(p) ==> (
        p.provenance matches Provenance::Concrete { alloc_id, tag } ==> spec_monitor_entry_kept(
            pre,
            post,
            tag.0,
        )))
    &&& forall|i: int|
        0 <= i < pre.extern_statics@.len() ==> ((#[trigger] pre.extern_statics@[i]).1.provenance
            matches Provenance::Concrete { alloc_id, tag } ==> spec_monitor_entry_kept(
            pre,
            post,
            tag.0,
        ))
    &&& forall|a: int, k: int|
        (0 <= a < pre.memory.allocs@.len() && 0 <= k < pre.memory.allocs@[a].provs@.len()) ==> ((
        #[trigger] pre.memory.allocs@[a].provs@[k]).1 matches Provenance::Concrete {
            alloc_id,
            tag,
        } ==> spec_monitor_entry_kept(pre, post, tag.0))
}

/// The extern-statics entry at `i` resolves `link_name`: it carries the
/// symbol, its pointer has concrete provenance, and the shim allocation
/// behind it has exactly the declared size and alignment.
pub open spec fn spec_extern_static_matches(
    m: MiriMachine,
    i: int,
    link_name: u64,
    decl_size: u64,
    decl_align: u64,
) -> bool {
    &&& 0 <= i < m.extern_statics@.len()
    &&& m.extern_statics@[i].0 == link_name
    &&& (m.extern_statics@[i].1.provenance matches Provenance::Concrete { alloc_id, tag }
        && m.memory.is_issued(alloc_id) && m.memory.alloc_of(alloc_id).size == decl_size
        && m.memory.alloc_of(alloc_id).align == decl_align)
}

/// The access races with something the detector recorded for this
/// allocation, judged against the active thread's clock.
pub open spec fn spec_access_race(
    m: MiriMachine,
    id: AllocId,
    is_write: bool,
    start: u64,
    len: u64,
) -> bool {
    match m.memory.alloc_of(id).extra.data_race {
        Some(dr) => match m.data_race {
            Some(g) => dr.is_race(
                g.clock_of(m.threads.active as int),
                m.threads.active,
                is_write,
                start,
                len,
            ),
            None => false,
        },
        None => false,
    }
}

/// The aliasing monitor refuses a read through this provenance.
pub open spec fn spec_read_rejected(m: MiriMachine, id: AllocId, pe: ProvenanceExtra) -> bool {
    match m.memory.alloc_of(id).extra.borrow_tracker {
        Some(bt) => pe matches ProvenanceExtra::Concrete(t) && !bt.read_ok(t.0),
        None => false,
    }
}

/// The aliasing monitor refuses a write through this provenance.
pub open spec fn spec_write_rejected(m: MiriMachine, id: AllocId, pe: ProvenanceExtra) -> bool {
    match m.memory.alloc_of(id).extra.borrow_tracker {
        Some(bt) => pe matches ProvenanceExtra::Concrete(t) && !bt.write_ok(t.0),
        None => false,
    }
}

/// The aliasing monitor refuses the deallocation through this
/// provenance.
pub open spec fn spec_dealloc_rejected(m: MiriMachine, id: AllocId, pe: ProvenanceExtra) -> bool {
    match m.memory.alloc_of(id).extra.borrow_tracker {
        Some(bt) => match pe {
            ProvenanceExtra::Concrete(t) => !(bt.grants_write(t.0) && !bt.any_active_protector()),
            ProvenanceExtra::Wildcard => bt.any_active_protector(),
        },
        None => false,
    }
}

/// The base address assigned to an allocation, as the unique entry in the
/// assignment table says it.
pub open spec fn spec_base_addr_of(g: addrs::GlobalState, id: u64) -> Option<u64> {
    if g.has_addr(id) {
        let i = choose|i: int| 0 <= i < g.assigned@.len() && (#[trigger] g.assigned@[i]).id == id;
        Some(g.assigned@[i].addr)
    } else {
        None
    }
}

/// In a well-formed assignment table the identifier picks out one entry,
/// so the looked-up base address is the one the spec names.
pub proof fn lemma_base_addr_of_agrees(g: addrs::GlobalState, id: u64)
    requires
        g.wf(),
    ensures
        g.has_addr(id) ==> (forall|i: int|
            0 <= i < g.assigned@.len() && (#[trigger] g.assigned@[i]).id == id
                ==> spec_base_addr_of(g, id) == Some(g.assigned@[i].addr)),
        !g.has_addr(id) ==> spec_base_addr_of(g, id) is None,
{
    if g.has_addr(id) {
        let w = choose|i: int|
            0 <= i < g.assigned@.len() && (#[trigger] g.assigned@[i]).id == id;
        assert forall|i: int|
            0 <= i < g.assigned@.len() && (#[trigger] g.assigned@[i]).id == id
                implies spec_base_addr_of(g, id) == Some(g.assigned@[i].addr) by {
            if i < w {
                assert(g.assigned@[i].id != g.assigned@[w].id);
            } else if i > w {
                assert(g.assigned@[w].id != g.assigned@[i].id);
            }
        }
    }
}

} // verus!
