//! Emulation of foreign items for Solaris-family targets.
//!
//! The foreign-call dispatcher hands a symbol name here; the shim either
//! performs the call's effect against the machine and asks the
//! interpreter to jump on, or reports the symbol as unsupported — a
//! first-class, reportable outcome.

use vstd::prelude::*;
use vstd::string::StringSliceAdditionalSpecFns;
use crate::errors::InterpError;
use crate::frame::Pointer;
use crate::machine::MiriMachine;
use crate::provenance::{AllocId, ProvenanceExtra};

verus! {

/// What emulating one foreign item came to.
#[derive(Debug, Clone, Copy, PartialEq, Eq, Structural)]
pub enum EmulateItemResult {
    /// The item was emulated; the interpreter continues at the return
    /// target.
    NeedsJumping,
    /// The item is not supported on this target.
    NotSupported,
}

/// Whether the symbol can be resolved late, like a `dlsym` lookup. No
/// symbol of this target can.
pub fn is_dyn_sym(_name: &str) -> (r: bool)
    ensures
        !r,
{
    false
}

/// The byte spelling of the one supported symbol, `___errno`.
pub open spec fn errno_symbol() -> Seq<u8> {
    seq![95u8, 95u8, 95u8, 101u8, 114u8, 114u8, 110u8, 111u8]
}

/// Byte `i` of the little-endian spelling of `x`.
pub open spec fn u64_le_byte(x: u64, i: int) -> u8 {
    ((x >> ((8 * i) as u64)) & 0xffu64) as u8
}

/// Whether the symbol name spells `___errno`.
fn is_errno_name(name: &str) -> (r: bool)
    ensures
        r == (name.spec_bytes() =~= errno_symbol()),
{
    let b = name.as_bytes();
    if b.len() != 8 {
        return false;
    }
    let r = b[0] == 95 && b[1] == 95 && b[2] == 95 && b[3] == 101 && b[4] == 114 && b[5] == 114
        && b[6] == 110 && b[7] == 111;
    proof {
        if r {
            assert(name.spec_bytes() =~= errno_symbol());
        } else {
            assert(!(name.spec_bytes() =~= errno_symbol()));
        }
    }
    r
}

/// Emulate one foreign item of this target. Exactly the `___errno`
/// symbol is supported: the address of the machine's last-error place is
/// stored, little-endian and with its provenance recorded, to the
/// destination, and the interpreter jumps on. Every other symbol is
/// reported as unsupported, with the machine untouched.
pub fn emulate_foreign_item_inner(
    m: &mut MiriMachine,
    link_name: &str,
    errno_place: Pointer,
    dest_alloc: AllocId,
    dest_tag: ProvenanceExtra,
    dest_offset: u64,
) -> (r: Result<EmulateItemResult, InterpError>)
    requires
        old(m).wf(),
        dest_offset + 8 <= u64::MAX,
    ensures
        final(m).wf(),
        !(link_name.spec_bytes() =~= errno_symbol()) ==> r == Ok::<
            EmulateItemResult,
            InterpError,
        >(EmulateItemResult::NotSupported) && *final(m) == *old(m),
        link_name.spec_bytes() =~= errno_symbol() ==> (r matches Ok(k) ==> (k
            == EmulateItemResult::NeedsJumping && old(m).memory.is_live(dest_alloc) && dest_offset
            + 8 <= old(m).memory.alloc_of(dest_alloc).size && (forall|j: int|
            0 <= j < 8 ==> final(m).memory.alloc_of(dest_alloc).bytes@[dest_offset + j]
                == u64_le_byte(errno_place.addr, j)) && final(m).memory.alloc_of(
            dest_alloc,
        ).provs@ =~= old(m).memory.alloc_of(dest_alloc).provs@.push(
            (dest_offset, errno_place.provenance),
        ))),
        link_name.spec_bytes() =~= errno_symbol() ==> ((r is Err) == (!old(m).memory.is_live(
            dest_alloc,
        ) || dest_offset + 8 > old(m).memory.alloc_of(dest_alloc).size
            || crate::machine::spec_access_race(*old(m), dest_alloc, true, dest_offset, 8)
            || crate::machine::spec_write_rejected(*old(m), dest_alloc, dest_tag))),
{
    if !is_errno_name(link_name) {
        return Ok(EmulateItemResult::NotSupported);
    }
    let errno_place_addr = errno_place.addr;
    let mut bytes: Vec<u8> = Vec::new();
    let mut i: usize = 0;
    while i < 8
        invariant
            i <= 8,
            bytes@.len() == i,
            forall|j: int| 0 <= j < i ==> bytes@[j] == u64_le_byte(errno_place_addr, j),
        decreases 8 - i,
    {
        let shift: u64 = 8 * (i as u64);
        let b: u8 = ((errno_place_addr >> shift) & 0xff) as u8;
        proof {
            assert(((errno_place_addr >> shift) & 0xffu64) <= 0xff) by (bit_vector);
        }
        bytes.push(b);
        i += 1;
    }
    match m.write_memory(dest_alloc, dest_tag, dest_offset, &bytes) {
        Ok(_) => {
            let store = m.memory.store_provenance(
                dest_alloc,
                dest_offset,
                errno_place.provenance,
            );
            proof {
                assert(store is Ok);
            }
            Ok(EmulateItemResult::NeedsJumping)
        },
        Err(e) => Err(e),
    }
}

} // verus!
