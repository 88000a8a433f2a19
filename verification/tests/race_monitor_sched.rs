use miri_core::errors::{AccessKind, InterpError, UndefinedBehavior};
use miri_core::frame::{CatchData, Frame, Pointer, Value};
use miri_core::kinds::{MemoryKind, MiriMemoryKind};
use miri_core::machine::{
    AlignmentCheck, IsolatedOp, Misalignment, MiriConfig, MiriMachine, NonHaltingDiagnostic,
    StackPopJump, TargetArch,
};
use miri_core::monitor::Permission;
use miri_core::provenance::{AllocId, Provenance, ProvenanceExtra};
use miri_core::threads::{BlockReason, ThreadState};
use miri_core::vclock::VClock;

fn test_config(seed: u64) -> MiriConfig {
    MiriConfig {
        seed: Some(seed),
        isolated_op: IsolatedOp::Isolate,
        validate: true,
        borrow_tracker: true,
        data_race_detector: true,
        weak_memory_emulation: false,
        preemption_rate_bits: 0,
        cmpxchg_weak_failure_rate_bits: 0,
        gc_interval: 0,
        report_progress: None,
        page_size: None,
        num_cpus: 1,
        collect_leak_backtraces: false,
        tracked_alloc_ids: Vec::new(),
        track_alloc_accesses: false,
        panic_on_unsupported: false,
        arch: TargetArch::Other,
        pointer_bits: 64,
    }
}

fn heap_kind() -> MemoryKind {
    MemoryKind::Machine(MiriMemoryKind::Rust)
}

fn base_tag_extra(m: &mut MiriMachine, id: AllocId) -> (Pointer, ProvenanceExtra) {
    let ptr = m.adjust_alloc_base_pointer(id).expect("address space is far from exhausted");
    match ptr.provenance {
        Provenance::Concrete { tag, .. } => (ptr, ProvenanceExtra::Concrete(tag)),
        Provenance::Wildcard => panic!("a base pointer always has concrete provenance"),
    }
}

#[test]
fn unsynchronized_writes_from_two_threads_race() {
    // thread A writes byte 0, thread B writes byte 0 with no intervening
    // synchronization: the race is flagged before B's write commits
    let mut m = MiriMachine::new(&test_config(31));
    let (id, _) = m.adjust_allocation(8, 8, heap_kind(), 0);
    let (_, pe) = base_tag_extra(&mut m, id);
    let b = m.thread_spawn();
    m.write_memory(id, pe, 0, &vec![7u8]).expect("thread A's write is clean");
    m.set_active_thread(b);
    match m.write_memory(id, pe, 0, &vec![9u8]) {
        Err(InterpError::Ub(UndefinedBehavior::DataRace {
            alloc_id,
            prior_write,
            thread,
            is_write,
            ..
        })) => {
            assert_eq!(alloc_id, id);
            assert!(prior_write);
            assert!(is_write);
            assert_eq!(thread, b);
        }
        _ => panic!("two unsynchronized writes to the same byte must race"),
    }
    // B's write was not committed: A still observes its own value
    m.set_active_thread(0);
    let (back, _) = m.read_memory(id, pe, 0, 1).expect("A's read is clean");
    assert_eq!(back, vec![7u8]);
}

#[test]
fn unsynchronized_read_against_write_races() {
    let mut m = MiriMachine::new(&test_config(32));
    let (id, _) = m.adjust_allocation(8, 8, heap_kind(), 0);
    let (_, pe) = base_tag_extra(&mut m, id);
    let b = m.thread_spawn();
    m.write_memory(id, pe, 2, &vec![1u8, 2]).expect("clean write");
    m.set_active_thread(b);
    match m.read_memory(id, pe, 3, 2) {
        Err(InterpError::Ub(UndefinedBehavior::DataRace { .. })) => {}
        _ => panic!("an unsynchronized read overlapping a foreign write must race"),
    }
    // a disjoint range does not race
    m.read_memory(id, pe, 4, 2).expect("disjoint ranges are independent");
}

#[test]
fn joining_a_terminated_thread_synchronizes() {
    let mut m = MiriMachine::new(&test_config(33));
    let (id, _) = m.adjust_allocation(8, 8, heap_kind(), 0);
    let (_, pe) = base_tag_extra(&mut m, id);
    let b = m.thread_spawn();
    m.set_active_thread(b);
    m.write_memory(id, pe, 0, &vec![5u8]).expect("B writes after inheriting A's clock");
    m.threads.terminate_active().expect("B terminates; A is still runnable");
    assert_eq!(m.threads.active, 0);
    m.thread_join(b).expect("joining a terminated thread succeeds");
    // the join established happens-before: A may now touch the data
    let (back, _) = m.read_memory(id, pe, 0, 1).expect("no race after the join edge");
    assert_eq!(back, vec![5u8]);
}

#[test]
fn blocking_join_and_deadlock() {
    let mut m = MiriMachine::new(&test_config(34));
    let b = m.thread_spawn();
    // A joins the live thread B: A blocks, B runs
    m.thread_join(b).expect("B is runnable, so the run continues there");
    assert_eq!(m.threads.active, b);
    match m.threads.threads[0].state {
        ThreadState::Blocked(_) => {}
        _ => panic!("the joiner must be blocked"),
    }
    // B joining the blocked A deadlocks the run
    match m.thread_join(0) {
        Err(InterpError::Deadlock) => {}
        _ => panic!("no runnable thread left must deadlock"),
    }
}

#[test]
fn preemption_is_deterministic_round_robin() {
    let mut config = test_config(35);
    config.preemption_rate_bits = 0x1_0000_0000; // always preempt
    let mut m = MiriMachine::new(&config);
    let b = m.thread_spawn();
    let c = m.thread_spawn();
    assert_eq!(m.threads.active, 0);
    m.before_terminator();
    assert_eq!(m.threads.active, b);
    m.before_terminator();
    assert_eq!(m.threads.active, c);
    m.before_terminator();
    assert_eq!(m.threads.active, 0);
}

#[test]
fn zero_preemption_rate_never_switches() {
    let mut m = MiriMachine::new(&test_config(36));
    let _b = m.thread_spawn();
    for _ in 0..8 {
        m.before_terminator();
        assert_eq!(m.threads.active, 0);
    }
}

#[test]
fn tags_minted_for_one_allocation_strictly_increase() {
    let mut m = MiriMachine::new(&test_config(37));
    let (id, _) = m.adjust_allocation(8, 8, heap_kind(), 0);
    let (ptr, _) = base_tag_extra(&mut m, id);
    let base = match ptr.provenance {
        Provenance::Concrete { tag, .. } => tag.0,
        _ => panic!("concrete"),
    };
    let p1 = m.retag_ptr_value(Permission::Unique, ptr);
    let t1 = match p1.provenance {
        Provenance::Concrete { tag, .. } => tag.0,
        _ => panic!("concrete"),
    };
    let p2 = m.retag_ptr_value(Permission::SharedReadOnly, p1);
    let t2 = match p2.provenance {
        Provenance::Concrete { tag, .. } => tag.0,
        _ => panic!("concrete"),
    };
    assert!(base < t1);
    assert!(t1 < t2);
}

#[test]
fn write_through_old_tag_disables_later_tags() {
    let mut m = MiriMachine::new(&test_config(38));
    let (id, _) = m.adjust_allocation(8, 8, heap_kind(), 0);
    let (ptr, base_pe) = base_tag_extra(&mut m, id);
    let reborrow = m.retag_ptr_value(Permission::Unique, ptr);
    let reborrow_pe = match reborrow.provenance {
        Provenance::Concrete { tag, .. } => ProvenanceExtra::Concrete(tag),
        _ => panic!("concrete"),
    };
    // the reborrow works while it is the latest
    m.write_memory(id, reborrow_pe, 0, &vec![1u8]).expect("the child tag writes");
    // a write through the base ends the reborrow
    m.write_memory(id, base_pe, 0, &vec![2u8]).expect("the base tag writes");
    match m.write_memory(id, reborrow_pe, 0, &vec![3u8]) {
        Err(InterpError::Ub(UndefinedBehavior::AliasingViolation { access, .. })) => {
            assert_eq!(access, AccessKind::Write);
        }
        _ => panic!("writing through an ended reborrow must be an aliasing violation"),
    }
    match m.read_memory(id, reborrow_pe, 0, 1) {
        Err(InterpError::Ub(UndefinedBehavior::AliasingViolation { access, .. })) => {
            assert_eq!(access, AccessKind::Read);
        }
        _ => panic!("reading through an ended reborrow must be an aliasing violation"),
    }
}

#[test]
fn shared_tag_reads_but_never_writes() {
    let mut m = MiriMachine::new(&test_config(39));
    let (id, _) = m.adjust_allocation(8, 8, heap_kind(), 0);
    let (ptr, _) = base_tag_extra(&mut m, id);
    let shared = m.retag_ptr_value(Permission::SharedReadOnly, ptr);
    let shared_pe = match shared.provenance {
        Provenance::Concrete { tag, .. } => ProvenanceExtra::Concrete(tag),
        _ => panic!("concrete"),
    };
    m.read_memory(id, shared_pe, 0, 4).expect("a shared tag reads");
    match m.write_memory(id, shared_pe, 0, &vec![1u8]) {
        Err(InterpError::Ub(UndefinedBehavior::AliasingViolation { .. })) => {}
        _ => panic!("a shared tag must not write"),
    }
}

#[test]
fn protected_tag_makes_foreign_access_a_violation() {
    let mut m = MiriMachine::new(&test_config(40));
    let (id, _) = m.adjust_allocation(8, 8, heap_kind(), 0);
    let (ptr, base_pe) = base_tag_extra(&mut m, id);
    let extra = m.init_frame_extra(true, None);
    m.push_frame(Frame { locals: Vec::new(), span: 0, extra });
    let arg = m.retag_ptr_value(Permission::Unique, ptr);
    let arg_tag = match arg.provenance {
        Provenance::Concrete { tag, .. } => tag,
        _ => panic!("concrete"),
    };
    m.protect_in_place_function_argument(id, arg_tag, 0, 8).expect("protecting a fresh tag");
    // the place was overwritten
    let (zeros, _) = m
        .read_memory(id, ProvenanceExtra::Concrete(arg_tag), 0, 8)
        .expect("the protected tag itself may access");
    assert_eq!(zeros, vec![0u8; 8]);
    // any access through a different tag during the protection violates
    match m.read_memory(id, base_pe, 0, 1) {
        Err(InterpError::Ub(UndefinedBehavior::AliasingViolation { .. })) => {}
        _ => panic!("a foreign access to a protected place must be a violation"),
    }
    // deallocation is forbidden outright while protected
    match m.deallocate(id, ProvenanceExtra::Concrete(arg_tag), 8, 8, 0) {
        Err(InterpError::Ub(UndefinedBehavior::AliasingViolation { access, .. })) => {
            assert_eq!(access, AccessKind::Deallocation);
        }
        _ => panic!("freeing protected memory must be a violation"),
    }
    // popping the protecting frame ends the protection
    let frame = m.threads.pop_frame().expect("the frame is there");
    m.before_stack_pop(&frame);
    let jump = m.after_stack_pop(&frame, false);
    assert_eq!(jump, StackPopJump::Normal);
    m.read_memory(id, base_pe, 0, 1).expect("after the call ends, the base tag reads again");
}

#[test]
fn gc_never_invalidates_reachable_tags() {
    // a collector pass never invalidates a tag reachable from a live
    // pointer value at the time of the pass
    let mut m = MiriMachine::new(&test_config(41));
    let (id, _) = m.adjust_allocation(8, 8, heap_kind(), 0);
    let (ptr, _) = base_tag_extra(&mut m, id);
    let live_ptr = m.retag_ptr_value(Permission::Unique, ptr);
    let live_pe = match live_ptr.provenance {
        Provenance::Concrete { tag, .. } => ProvenanceExtra::Concrete(tag),
        _ => panic!("concrete"),
    };
    // the pointer lives in a frame local; a second tag is minted and
    // then forgotten
    let extra = m.init_frame_extra(true, None);
    m.push_frame(Frame { locals: vec![Value::Ptr(live_ptr)], span: 0, extra });
    let _forgotten = m.retag_ptr_value(Permission::SharedReadOnly, ptr);
    m.read_memory(id, live_pe, 0, 8).expect("reachable tag works before the pass");
    let keep = m.run_provenance_gc();
    match live_ptr.provenance {
        Provenance::Concrete { tag, .. } => assert!(keep.contains(&tag.0)),
        _ => panic!("concrete"),
    }
    // the reachable tag is judged exactly as before the pass
    m.read_memory(id, live_pe, 0, 8).expect("reachable tag still works after the pass");
    m.write_memory(id, live_pe, 0, &vec![1u8]).expect("and still writes");
}

#[test]
fn gc_runs_on_its_configured_interval() {
    let mut config = test_config(42);
    config.gc_interval = 2;
    let mut m = MiriMachine::new(&config);
    assert_eq!(m.since_gc, 0);
    m.before_terminator();
    assert_eq!(m.since_gc, 1);
    m.before_terminator();
    assert_eq!(m.since_gc, 0); // the pass ran and the counter reset
}

#[test]
fn progress_reports_come_on_schedule() {
    let mut config = test_config(43);
    config.report_progress = Some(2);
    let mut m = MiriMachine::new(&config);
    assert!(m.before_terminator().is_none());
    match m.before_terminator() {
        Some(NonHaltingDiagnostic::ProgressReport { block_count }) => {
            assert_eq!(block_count, 2);
        }
        _ => panic!("the second step reports progress"),
    }
    assert!(m.before_terminator().is_none());
}

#[test]
fn symbolic_alignment_check_reports_the_largest_divisor() {
    let mut m = MiriMachine::new(&test_config(44));
    let (id, _) = m.adjust_allocation(64, 8, heap_kind(), 0);
    // with checking off, nothing is added to the built-in check
    assert!(m.alignment_check(id, 8, true, 4, 8).is_none());
    m.check_alignment = AlignmentCheck::Symbolic;
    // no promise recorded: the allocation's own alignment decides
    assert!(m.alignment_check(id, 8, true, 4, 16).is_some());
    assert_eq!(
        m.alignment_check(id, 8, true, 4, 16),
        Some(Misalignment { has: 8, required: 16 })
    );
    assert!(m.alignment_check(id, 8, true, 8, 8).is_none());
    // a misaligned distance reports the largest power of two dividing it
    assert_eq!(
        m.alignment_check(id, 8, true, 12, 8),
        Some(Misalignment { has: 4, required: 8 })
    );
    // a promised alignment overrides the native one
    m.symbolic_alignment.push((id, 0, 16));
    assert!(m.alignment_check(id, 8, true, 16, 16).is_none());
    // dead data adds nothing
    assert!(m.alignment_check(id, 8, false, 12, 8).is_none());
}

#[test]
fn unwinding_stops_at_the_catch_frame() {
    let mut m = MiriMachine::new(&test_config(45));
    let plain = m.init_frame_extra(true, None);
    m.push_frame(Frame { locals: Vec::new(), span: 0, extra: plain });
    let catcher = m.init_frame_extra(false, Some(CatchData { handler: 7 }));
    m.push_frame(Frame { locals: Vec::new(), span: 1, extra: catcher });
    let top = m.threads.pop_frame().expect("the catch frame");
    m.before_stack_pop(&top);
    assert_eq!(m.after_stack_pop(&top, true), StackPopJump::NoJump);
    let below = m.threads.pop_frame().expect("the plain frame");
    m.before_stack_pop(&below);
    assert_eq!(m.after_stack_pop(&below, true), StackPopJump::Normal);
    assert_eq!(m.after_stack_pop(&below, false), StackPopJump::Normal);
}

#[test]
fn weak_store_buffer_holds_writes_until_flush() {
    let mut config = test_config(46);
    config.weak_memory_emulation = true;
    let mut m = MiriMachine::new(&config);
    let (id, _) = m.adjust_allocation(8, 8, heap_kind(), 0);
    let (_, pe) = base_tag_extra(&mut m, id);
    m.write_memory(id, pe, 0, &vec![0u8; 8]).expect("plain init");
    // a relaxed write is buffered, not yet visible in the committed bytes
    m.write_relaxed(id, pe, 0, vec![9u8]).expect("relaxed write");
    let (committed, _) = m.read_memory(id, pe, 0, 1).expect("plain read");
    assert_eq!(committed, vec![0u8]);
    // the writing thread observes its own buffered write
    let (own, _) = m.read_relaxed(id, pe, 0, 1).expect("relaxed read");
    assert_eq!(own, vec![9u8]);
    // a synchronizing flush commits the buffer in order
    m.write_relaxed(id, pe, 0, vec![5u8]).expect("second relaxed write");
    m.flush_store_buffer(id);
    let (after, _) = m.read_memory(id, pe, 0, 1).expect("plain read after flush");
    assert_eq!(after, vec![5u8]);
}

#[test]
fn release_acquire_establishes_happens_before() {
    let mut m = MiriMachine::new(&test_config(47));
    let (id, _) = m.adjust_allocation(8, 8, heap_kind(), 0);
    let (_, pe) = base_tag_extra(&mut m, id);
    let b = m.thread_spawn();
    // A writes after the spawn, so B has no knowledge of it yet
    m.write_memory(id, pe, 0, &vec![3u8]).expect("A's write is clean");
    // A releases a lock, publishing its knowledge; B acquires it
    let mut lock = VClock::new();
    match &mut m.data_race {
        Some(g) => {
            g.release(0, &mut lock);
            g.acquire(b, &lock);
        }
        None => panic!("the detector is enabled"),
    }
    m.set_active_thread(b);
    m.write_memory(id, pe, 0, &vec![4u8]).expect("the acquire edge orders B after A");
    let (back, _) = m.read_memory(id, pe, 0, 1).expect("B reads its own write");
    assert_eq!(back, vec![4u8]);
}

#[test]
fn zero_sized_allocations_are_fine() {
    let mut m = MiriMachine::new(&test_config(48));
    let (id, _) = m.adjust_allocation(0, 1, heap_kind(), 0);
    let (_, pe) = base_tag_extra(&mut m, id);
    let (bytes, _) = m.read_memory(id, pe, 0, 0).expect("an empty read is in bounds");
    assert!(bytes.is_empty());
    m.deallocate(id, pe, 0, 1, 0).expect("an empty block frees cleanly");
}

#[test]
fn weak_buffer_is_private_to_the_writing_thread() {
    let mut config = test_config(49);
    config.weak_memory_emulation = true;
    // the cross-thread read below is deliberately unsynchronized; this
    // test is about buffer visibility, not the race detector
    config.data_race_detector = false;
    let mut m = MiriMachine::new(&config);
    let (id, _) = m.adjust_allocation(4, 4, heap_kind(), 0);
    let (_, pe) = base_tag_extra(&mut m, id);
    m.write_memory(id, pe, 0, &vec![0u8; 4]).expect("init");
    m.write_relaxed(id, pe, 0, vec![8u8]).expect("A buffers a relaxed write");
    let b = m.thread_spawn();
    m.set_active_thread(b);
    // another thread does not observe A's buffered write
    let (seen, _) = m.read_relaxed(id, pe, 0, 1).expect("B's relaxed read");
    assert_eq!(seen, vec![0u8]);
}

#[test]
fn block_on_a_lock_hands_control_over() {
    let mut m = MiriMachine::new(&test_config(50));
    let b = m.thread_spawn();
    m.threads.block_active(BlockReason::Locking(1)).expect("B can still run");
    assert_eq!(m.threads.active, b);
    match m.threads.threads[0].state {
        ThreadState::Blocked(BlockReason::Locking(l)) => assert_eq!(l, 1),
        _ => panic!("the blocked thread remembers why it waits"),
    }
}

#[test]
fn misalignment_is_undefined_behaviour() {
    let mut m = MiriMachine::new(&test_config(51));
    let (id, _) = m.adjust_allocation(64, 8, heap_kind(), 0);
    m.check_alignment = AlignmentCheck::Symbolic;
    m.check_ptr_alignment(id, 8, true, 8, 8).expect("an aligned access passes");
    match m.check_ptr_alignment(id, 8, true, 12, 8) {
        Err(InterpError::Ub(UndefinedBehavior::MisalignedAccess { required, has })) => {
            assert_eq!(required, 8);
            assert_eq!(has, 4);
        }
        _ => panic!("a misaligned access is undefined behaviour"),
    }
}
