use miri_core::kinds::{MemoryKind, MiriMemoryKind};
use miri_core::layouts::PrimitiveLayouts;
use miri_core::provenance::{AllocId, BorTag, Provenance, ProvenanceExtra};

#[test]
fn join_identical_concrete_is_identity() {
    let p = Provenance::Concrete { alloc_id: AllocId(3), tag: BorTag(7) };
    let q = Provenance::Concrete { alloc_id: AllocId(3), tag: BorTag(7) };
    match Provenance::join(Some(p), Some(q)) {
        Some(Provenance::Concrete { alloc_id, tag }) => {
            assert_eq!(alloc_id, AllocId(3));
            assert_eq!(tag, BorTag(7));
        }
        _ => panic!("join of identical concrete provenance must be that provenance"),
    }
}

#[test]
fn join_different_concrete_is_unknown() {
    let p = Provenance::Concrete { alloc_id: AllocId(3), tag: BorTag(7) };
    let q = Provenance::Concrete { alloc_id: AllocId(3), tag: BorTag(8) };
    assert!(Provenance::join(Some(p), Some(q)).is_none());
    let s = Provenance::Concrete { alloc_id: AllocId(4), tag: BorTag(7) };
    assert!(Provenance::join(Some(p), Some(s)).is_none());
}

#[test]
fn join_wildcard_takes_other_side() {
    let p = Provenance::Concrete { alloc_id: AllocId(1), tag: BorTag(2) };
    match Provenance::join(Some(Provenance::Wildcard), Some(p)) {
        Some(Provenance::Concrete { alloc_id, tag }) => {
            assert_eq!(alloc_id, AllocId(1));
            assert_eq!(tag, BorTag(2));
        }
        _ => panic!("wildcard joined with concrete must be the concrete side"),
    }
    match Provenance::join(Some(p), Some(Provenance::Wildcard)) {
        Some(Provenance::Concrete { alloc_id, tag }) => {
            assert_eq!(alloc_id, AllocId(1));
            assert_eq!(tag, BorTag(2));
        }
        _ => panic!("concrete joined with wildcard must be the concrete side"),
    }
    assert!(Provenance::join(Some(Provenance::Wildcard), None).is_none());
    assert!(Provenance::join(None, Some(p)).is_none());
}

#[test]
fn get_alloc_id_on_concrete_and_wildcard() {
    let p = Provenance::Concrete { alloc_id: AllocId(9), tag: BorTag(1) };
    assert_eq!(p.get_alloc_id(), Some(AllocId(9)));
    assert!(Provenance::Wildcard.get_alloc_id().is_none());
}

#[test]
fn and_then_applies_only_to_concrete() {
    let c = ProvenanceExtra::Concrete(BorTag(5));
    let w = ProvenanceExtra::Wildcard;
    let f = |t: BorTag| -> Option<u64> { Some(t.0 + 1) };
    assert_eq!(c.and_then(f), Some(6));
    let g = |t: BorTag| -> Option<u64> { Some(t.0 + 1) };
    assert_eq!(w.and_then(g), None);
}

#[test]
fn memory_kind_leak_permissions() {
    assert!(!MiriMemoryKind::Rust.may_leak());
    assert!(!MiriMemoryKind::C.may_leak());
    assert!(!MiriMemoryKind::Runtime.may_leak());
    assert!(MiriMemoryKind::Machine.may_leak());
    assert!(MiriMemoryKind::Global.may_leak());
    assert!(MiriMemoryKind::Tls.may_leak());
    assert!(MiriMemoryKind::Mmap.may_leak());
    assert!(!MemoryKind::Stack.may_leak());
    assert!(MemoryKind::CallerLocation.may_leak());
    assert!(!MemoryKind::Machine(MiriMemoryKind::WinHeap).may_leak());
}

#[test]
fn memory_kind_allocation_spans() {
    assert!(MiriMemoryKind::Rust.should_save_allocation_span());
    assert!(MiriMemoryKind::Mmap.should_save_allocation_span());
    assert!(!MiriMemoryKind::Global.should_save_allocation_span());
    assert!(!MiriMemoryKind::Runtime.should_save_allocation_span());
}

#[test]
fn memory_kind_descriptions() {
    assert_eq!(MiriMemoryKind::Rust.description(), "Rust heap");
    assert_eq!(MiriMemoryKind::C.description(), "C heap");
    assert_eq!(MiriMemoryKind::Global.description(), "global (static or const)");
    assert_eq!(MiriMemoryKind::Mmap.description(), "mmap");
}

#[test]
fn memory_kind_from_machine_kind() {
    let k: MemoryKind = MiriMemoryKind::C.into();
    assert_eq!(k, MemoryKind::Machine(MiriMemoryKind::C));
    assert_eq!(MemoryKind::from(MiriMemoryKind::Tls), MemoryKind::Machine(MiriMemoryKind::Tls));
}

#[test]
fn primitive_layouts_for_a_64_bit_target() {
    let l = PrimitiveLayouts::new(8);
    assert_eq!(l.unit.size, 0);
    assert_eq!(l.unit.align, 1);
    assert_eq!(l.usize.size, 8);
    assert_eq!(l.usize.align, 8);
    assert_eq!(l.i128.size, 16);
    assert_eq!(l.bool.size, 1);
    assert_eq!(l.mut_raw_ptr.size, 8);
    let u32_layout = l.uint(32).expect("u32 exists");
    assert_eq!(u32_layout.size, 4);
    assert_eq!(u32_layout.align, 4);
    let i64_layout = l.signed_int(64).expect("i64 exists");
    assert_eq!(i64_layout.size, 8);
    assert!(l.uint(24).is_none());
    assert!(l.signed_int(0).is_none());
}

#[test]
fn primitive_layouts_cap_alignment_at_pointer_width() {
    let l = PrimitiveLayouts::new(4);
    let u64_layout = l.uint(64).expect("u64 exists");
    assert_eq!(u64_layout.size, 8);
    assert_eq!(u64_layout.align, 4);
    assert_eq!(l.usize.size, 4);
}
