use miri_core::errors::{InterpError, UndefinedBehavior};
use miri_core::foreign_items::{emulate_foreign_item_inner, is_dyn_sym, EmulateItemResult};
use miri_core::frame::{Frame, Pointer, Value};
use miri_core::kinds::{MemoryKind, MiriMemoryKind};
use miri_core::machine::{IsolatedOp, MiriConfig, MiriMachine, TargetArch};
use miri_core::provenance::{AllocId, Provenance, ProvenanceExtra};

fn test_config(seed: u64) -> MiriConfig {
    MiriConfig {
        seed: Some(seed),
        isolated_op: IsolatedOp::Isolate,
        validate: true,
        borrow_tracker: true,
        data_race_detector: true,
        weak_memory_emulation: false,
        preemption_rate_bits: 0,
        cmpxchg_weak_failure_rate_bits: 0,
        gc_interval: 0,
        report_progress: None,
        page_size: None,
        num_cpus: 1,
        collect_leak_backtraces: false,
        tracked_alloc_ids: Vec::new(),
        track_alloc_accesses: false,
        panic_on_unsupported: false,
        arch: TargetArch::Other,
        pointer_bits: 64,
    }
}

fn heap_kind() -> MemoryKind {
    MemoryKind::Machine(MiriMemoryKind::Rust)
}

fn base_tag_extra(m: &mut MiriMachine, id: AllocId) -> (Pointer, ProvenanceExtra) {
    let ptr = m.adjust_alloc_base_pointer(id).expect("address space is far from exhausted");
    match ptr.provenance {
        Provenance::Concrete { tag, .. } => (ptr, ProvenanceExtra::Concrete(tag)),
        Provenance::Wildcard => panic!("a base pointer always has concrete provenance"),
    }
}

#[test]
fn allocation_ids_are_distinct_and_never_reused() {
    let mut m = MiriMachine::new(&test_config(1));
    let (a, _) = m.adjust_allocation(8, 8, heap_kind(), 0);
    let (b, _) = m.adjust_allocation(8, 8, heap_kind(), 0);
    assert_ne!(a, b);
    let (_, pe) = base_tag_extra(&mut m, a);
    m.deallocate(a, pe, 8, 8, 0).expect("freeing a live block succeeds");
    // the freed identifier is never issued again
    let (c, _) = m.adjust_allocation(8, 8, heap_kind(), 0);
    assert_ne!(c, a);
    assert_ne!(c, b);
}

#[test]
fn single_thread_write_then_read_observes_the_write() {
    // allocate 8 bytes, one thread writes then reads the same bytes: no
    // race, and the read observes the write
    let mut m = MiriMachine::new(&test_config(7));
    let (id, _) = m.adjust_allocation(8, 8, heap_kind(), 0);
    let (_, pe) = base_tag_extra(&mut m, id);
    let data = vec![1u8, 2, 3, 4, 5, 6, 7, 8];
    m.write_memory(id, pe, 0, &data).expect("no race and no violation on a fresh block");
    let (back, _) = m.read_memory(id, pe, 0, 8).expect("the read is clean");
    assert_eq!(back, data);
    let (mid, _) = m.read_memory(id, pe, 2, 3).expect("an inner range is clean too");
    assert_eq!(mid, vec![3u8, 4, 5]);
}

#[test]
fn use_after_free_is_reported_never_silent() {
    // free allocation X, then dereference a pointer still carrying X's
    // old identity: reported as use-after-free
    let mut m = MiriMachine::new(&test_config(9));
    let (id, _) = m.adjust_allocation(8, 8, heap_kind(), 0);
    let (_, pe) = base_tag_extra(&mut m, id);
    m.deallocate(id, pe, 8, 8, 0).expect("the first free is fine");
    match m.read_memory(id, pe, 0, 1) {
        Err(InterpError::Ub(UndefinedBehavior::UseAfterFree { alloc_id })) => {
            assert_eq!(alloc_id, id);
        }
        _ => panic!("a read of freed memory must be reported as use-after-free"),
    }
    match m.write_memory(id, pe, 0, &vec![1u8]) {
        Err(InterpError::Ub(UndefinedBehavior::UseAfterFree { .. })) => {}
        _ => panic!("a write of freed memory must be reported as use-after-free"),
    }
    match m.deallocate(id, pe, 8, 8, 0) {
        Err(InterpError::Ub(UndefinedBehavior::UseAfterFree { .. })) => {}
        _ => panic!("a double free must be reported as use-after-free"),
    }
}

#[test]
fn out_of_bounds_reads_are_rejected() {
    let mut m = MiriMachine::new(&test_config(2));
    let (id, _) = m.adjust_allocation(4, 4, heap_kind(), 0);
    let (_, pe) = base_tag_extra(&mut m, id);
    match m.read_memory(id, pe, 2, 3) {
        Err(InterpError::Ub(UndefinedBehavior::OutOfBounds { alloc_id, offset, len, size })) => {
            assert_eq!(alloc_id, id);
            assert_eq!(offset, 2);
            assert_eq!(len, 3);
            assert_eq!(size, 4);
        }
        _ => panic!("a read past the end must be out of bounds"),
    }
}

#[test]
fn dealloc_size_mismatch_is_rejected() {
    let mut m = MiriMachine::new(&test_config(3));
    let (id, _) = m.adjust_allocation(16, 8, heap_kind(), 0);
    let (_, pe) = base_tag_extra(&mut m, id);
    match m.deallocate(id, pe, 8, 8, 0) {
        Err(InterpError::Ub(UndefinedBehavior::DeallocLayoutMismatch {
            expected_size,
            given_size,
            ..
        })) => {
            assert_eq!(expected_size, 16);
            assert_eq!(given_size, 8);
        }
        _ => panic!("freeing with the wrong size must be a layout mismatch"),
    }
    // a wrong alignment is a mismatch too
    match m.deallocate(id, pe, 16, 4, 0) {
        Err(InterpError::Ub(UndefinedBehavior::DeallocLayoutMismatch {
            expected_align,
            given_align,
            ..
        })) => {
            assert_eq!(expected_align, 8);
            assert_eq!(given_align, 4);
        }
        _ => panic!("freeing with the wrong alignment must be a layout mismatch"),
    }
    // the block is still live afterwards
    m.read_memory(id, pe, 0, 1).expect("the failed free must not have retired the block");
}

#[test]
fn wildcard_resolves_to_exposed_allocation() {
    // cast an integer to a pointer matching an address previously exposed
    // by a concrete pointer into Y: the access succeeds and is attributed
    // to Y; an address never exposed is rejected
    let mut m = MiriMachine::new(&test_config(11));
    let (y, _) = m.adjust_allocation(8, 8, heap_kind(), 0);
    let (ptr, pe) = base_tag_extra(&mut m, y);
    m.write_memory(y, pe, 0, &vec![9u8, 8, 7, 6, 5, 4, 3, 2]).expect("plain write");
    m.expose_ptr(ptr).expect("exposing an assigned pointer");
    let wild = m.ptr_from_addr_cast(ptr.addr + 3);
    match wild.provenance {
        Provenance::Wildcard => {}
        _ => panic!("an integer-to-pointer cast yields wildcard provenance"),
    }
    match m.ptr_get_alloc(wild) {
        Some((id, off, ProvenanceExtra::Wildcard)) => {
            assert_eq!(id, y);
            assert_eq!(off, 3);
            let (got, _) = m.read_memory(id, ProvenanceExtra::Wildcard, off, 1).expect(
                "the wildcard access goes through",
            );
            assert_eq!(got, vec![6u8]);
        }
        _ => panic!("a wildcard matching an exposed range must resolve to it"),
    }
    // an address nothing ever exposed
    let stray = m.ptr_from_addr_cast(1);
    assert!(m.ptr_get_alloc(stray).is_none());
}

#[test]
fn unexposed_allocation_is_not_a_wildcard_target() {
    let mut m = MiriMachine::new(&test_config(12));
    let (y, _) = m.adjust_allocation(8, 8, heap_kind(), 0);
    let (ptr, _) = base_tag_extra(&mut m, y);
    // no expose: the cast back must not find it
    let wild = m.ptr_from_addr_cast(ptr.addr);
    assert!(m.ptr_get_alloc(wild).is_none());
}

#[test]
fn exposing_a_freed_allocation_is_a_defined_no_op() {
    let mut m = MiriMachine::new(&test_config(14));
    let (y, _) = m.adjust_allocation(8, 8, heap_kind(), 0);
    let (ptr, pe) = base_tag_extra(&mut m, y);
    m.deallocate(y, pe, 8, 8, 0).expect("free");
    // a pointer into freed memory may still be cast to an integer; its
    // range is retired, so nothing can resolve to it
    m.expose_ptr(ptr).expect("exposing a dead identity changes nothing");
    let wild = m.ptr_from_addr_cast(ptr.addr);
    assert!(m.ptr_get_alloc(wild).is_none());
}

#[test]
fn freed_allocation_stops_wildcard_resolution() {
    let mut m = MiriMachine::new(&test_config(13));
    let (y, _) = m.adjust_allocation(8, 8, heap_kind(), 0);
    let (ptr, pe) = base_tag_extra(&mut m, y);
    m.expose_ptr(ptr).expect("expose");
    m.deallocate(y, pe, 8, 8, 0).expect("free");
    let wild = m.ptr_from_addr_cast(ptr.addr);
    assert!(m.ptr_get_alloc(wild).is_none());
}

#[test]
fn identical_seeds_reproduce_addresses_and_trace() {
    // fixed seed and fixed preemption rate: byte-identical trace and
    // reported addresses across repeated runs of the same program
    let mut trace1: Vec<u64> = Vec::new();
    let mut trace2: Vec<u64> = Vec::new();
    for trace in [&mut trace1, &mut trace2] {
        let mut config = test_config(42);
        config.preemption_rate_bits = 0x8000_0000; // one half
        // the scripted ops come from whichever thread is active, so keep
        // the race detector out of this determinism check
        config.data_race_detector = false;
        let mut m = MiriMachine::new(&config);
        let t2 = m.thread_spawn();
        trace.push(t2 as u64);
        for step in 0..16u64 {
            let (id, _) = m.adjust_allocation(8 + step, 8, heap_kind(), step);
            let (ptr, pe) = base_tag_extra(&mut m, id);
            trace.push(ptr.addr);
            match ptr.provenance {
                Provenance::Concrete { tag, .. } => trace.push(tag.0),
                Provenance::Wildcard => panic!("base pointers are concrete"),
            }
            m.write_memory(id, pe, 0, &vec![step as u8]).expect("clean write");
            m.before_terminator();
            trace.push(m.threads.active as u64);
            if step % 3 == 0 {
                m.deallocate(id, pe, 8 + step, 8, step).expect("clean free");
            }
        }
        trace.push(m.clock.now);
        trace.push(m.basic_block_count);
    }
    assert_eq!(trace1, trace2);
}

#[test]
fn different_seeds_may_differ_but_stay_well_formed() {
    let mut m1 = MiriMachine::new(&test_config(5));
    let mut m2 = MiriMachine::new(&test_config(6));
    let (a1, _) = m1.adjust_allocation(8, 8, heap_kind(), 0);
    let (a2, _) = m2.adjust_allocation(8, 8, heap_kind(), 0);
    assert_eq!(a1, a2); // identifiers are deterministic regardless of seed
}

#[test]
fn errno_shim_writes_the_place_address() {
    let mut m = MiriMachine::new(&test_config(21));
    // the machine-managed errno place
    let (errno_alloc, _) = m.adjust_allocation(8, 8, MemoryKind::Machine(MiriMemoryKind::Machine), 0);
    let (errno_place, _) = base_tag_extra(&mut m, errno_alloc);
    // the destination the program handed over
    let (dest, _) = m.adjust_allocation(8, 8, heap_kind(), 0);
    let (_, dest_pe) = base_tag_extra(&mut m, dest);
    let r = emulate_foreign_item_inner(&mut m, "___errno", errno_place, dest, dest_pe, 0)
        .expect("the errno shim is supported");
    assert_eq!(r, EmulateItemResult::NeedsJumping);
    let (bytes, _) = m.read_memory(dest, dest_pe, 0, 8).expect("the destination is readable");
    let expect = errno_place.addr.to_le_bytes().to_vec();
    assert_eq!(bytes, expect);
}

#[test]
fn unknown_foreign_items_are_not_supported() {
    let mut m = MiriMachine::new(&test_config(22));
    let (dest, _) = m.adjust_allocation(8, 8, heap_kind(), 0);
    let (dest_ptr, dest_pe) = base_tag_extra(&mut m, dest);
    let r = emulate_foreign_item_inner(&mut m, "gettimeofday", dest_ptr, dest, dest_pe, 0)
        .expect("an unsupported symbol is a reportable outcome, not an error");
    assert_eq!(r, EmulateItemResult::NotSupported);
    assert!(!is_dyn_sym("___errno"));
    assert!(!is_dyn_sym("dlopen"));
}

#[test]
fn extern_statics_resolve_with_matching_layout_only() {
    let mut m = MiriMachine::new(&test_config(23));
    let (shim, _) = m.adjust_allocation(4, 4, MemoryKind::Machine(MiriMemoryKind::ExternStatic), 0);
    let (ptr, _) = base_tag_extra(&mut m, shim);
    m.add_extern_static(100, ptr).expect("first registration");
    assert!(m.add_extern_static(100, ptr).is_err(), "redeclaration is refused");
    let got = m.extern_static_base_pointer(100, 4, 4).expect("matching layout resolves");
    assert_eq!(got.addr, ptr.addr);
    match m.extern_static_base_pointer(100, 8, 4) {
        Err(InterpError::Unsupported) => {}
        _ => panic!("a size mismatch is unsupported"),
    }
    match m.extern_static_base_pointer(999, 4, 4) {
        Err(InterpError::Unsupported) => {}
        _ => panic!("an unknown symbol is unsupported"),
    }
}

#[test]
fn allocation_spans_record_creation_and_free() {
    let mut m = MiriMachine::new(&test_config(24));
    let (id, _) = m.adjust_allocation(8, 8, heap_kind(), 77);
    assert_eq!(m.allocated_span(id), Some(77));
    assert_eq!(m.deallocated_span(id), None);
    let (_, pe) = base_tag_extra(&mut m, id);
    m.deallocate(id, pe, 8, 8, 99).expect("free");
    assert_eq!(m.deallocated_span(id), Some(99));
    // a global block records no span
    let (g, _) = m.adjust_allocation(8, 8, MemoryKind::Machine(MiriMemoryKind::Global), 55);
    assert_eq!(m.allocated_span(g), None);
    // program-mapped memory is leak-permitted, so its span is not
    // tracked either
    let (mm, _) = m.adjust_allocation(8, 8, MemoryKind::Machine(MiriMemoryKind::Mmap), 66);
    assert_eq!(m.allocated_span(mm), None);
}

#[test]
fn tracked_allocations_are_reported() {
    let mut config = test_config(25);
    config.tracked_alloc_ids = vec![AllocId(0)];
    config.track_alloc_accesses = true;
    let mut m = MiriMachine::new(&config);
    let (id, diag) = m.adjust_allocation(8, 8, heap_kind(), 0);
    assert_eq!(id, AllocId(0));
    assert!(diag.is_some());
    let (_, pe) = base_tag_extra(&mut m, id);
    let read_diag = m.write_memory(id, pe, 0, &vec![1u8]).expect("clean write");
    assert!(read_diag.is_some());
    let (untracked, diag2) = m.adjust_allocation(8, 8, heap_kind(), 0);
    assert!(diag2.is_none());
    let (_, pe2) = base_tag_extra(&mut m, untracked);
    assert!(m.write_memory(untracked, pe2, 0, &vec![1u8]).expect("clean").is_none());
}

#[test]
fn machine_page_geometry_follows_configuration() {
    let mut config = test_config(26);
    config.arch = TargetArch::Aarch64 { apple_vendor: true };
    let m = MiriMachine::new(&config);
    assert_eq!(m.page_size, 16 * 1024);
    assert_eq!(m.stack_addr, 16 * 1024 * 32);
    assert_eq!(m.stack_size, 16 * 1024 * 16);
    let mut config2 = test_config(26);
    config2.page_size = Some(4096);
    config2.pointer_bits = 16;
    let m2 = MiriMachine::new(&config2);
    assert_eq!(m2.page_size, 4096);
    assert_eq!(m2.stack_addr, 4096);
    assert_eq!(m2.stack_size, 4096 * 4);
    assert!(m2.communicate() == false);
}

#[test]
fn constant_cache_pins_results_within_a_frame() {
    let mut m = MiriMachine::new(&test_config(27));
    let extra = m.init_frame_extra(true, None);
    assert!(extra.salt < miri_core::constcache::ADDRS_PER_CONST);
    m.push_frame(Frame { locals: Vec::new(), span: 0, extra });
    let first = m.eval_mir_constant(400, Value::Int(10));
    match first {
        Value::Int(v) => assert_eq!(v, 10),
        _ => panic!("the first evaluation returns the computed value"),
    }
    // a later evaluation in the same frame returns the stored result,
    // whatever the recomputation would have produced
    let second = m.eval_mir_constant(400, Value::Int(999));
    match second {
        Value::Int(v) => assert_eq!(v, 10),
        _ => panic!("evaluations under one key are identical"),
    }
}
