//! Precomputed layouts of primitive types.
//!
//! The interpreter constantly needs the size and alignment of the primitive
//! integer, boolean and raw-pointer types, so they are computed once, for
//! the pointer width of the emulated target, and kept in a table.

use vstd::prelude::*;

verus! {

/// The layout of one type: its size and alignment in bytes.
#[derive(Debug, Clone, Copy, PartialEq, Eq, Structural)]
pub struct LayoutInfo {
    /// Size in bytes.
    pub size: u64,
    /// Alignment in bytes; always a power of two.
    pub align: u64,
}

impl LayoutInfo {
    /// A well-formed layout has a power-of-two alignment.
    pub open spec fn wf(self) -> bool {
        exists|e: nat| self.align == vstd::arithmetic::power2::pow2(e)
    }
}

/// Precomputed layouts of primitive types, for one pointer width.
pub struct PrimitiveLayouts {
    pub unit: LayoutInfo,
    pub i8: LayoutInfo,
    pub i16: LayoutInfo,
    pub i32: LayoutInfo,
    pub i64: LayoutInfo,
    pub i128: LayoutInfo,
    pub isize: LayoutInfo,
    pub u8: LayoutInfo,
    pub u16: LayoutInfo,
    pub u32: LayoutInfo,
    pub u64: LayoutInfo,
    pub u128: LayoutInfo,
    pub usize: LayoutInfo,
    pub bool: LayoutInfo,
    /// Layout of a mutable raw pointer to a zero-sized type.
    pub mut_raw_ptr: LayoutInfo,
    /// Layout of a const raw pointer to a zero-sized type.
    pub const_raw_ptr: LayoutInfo,
}

/// The layout of a primitive integer of `bytes` bytes: size equal to its
/// width, alignment equal to its width, capped at the pointer width.
pub open spec fn int_layout(bytes: u64, pointer_bytes: u64) -> LayoutInfo {
    LayoutInfo { size: bytes, align: if bytes <= pointer_bytes { bytes } else { pointer_bytes } }
}

impl PrimitiveLayouts {
    /// All sixteen layouts are well formed, the unsigned types mirror the
    /// signed ones, and the pointer-sized types have the target's pointer
    /// width.
    pub open spec fn wf(self, pointer_bytes: u64) -> bool {
        &&& self.unit == (LayoutInfo { size: 0u64, align: 1u64 })
        &&& self.i8 == int_layout(1, pointer_bytes)
        &&& self.i16 == int_layout(2, pointer_bytes)
        &&& self.i32 == int_layout(4, pointer_bytes)
        &&& self.i64 == int_layout(8, pointer_bytes)
        &&& self.i128 == int_layout(16, pointer_bytes)
        &&& self.isize == int_layout(pointer_bytes, pointer_bytes)
        &&& self.u8 == self.i8
        &&& self.u16 == self.i16
        &&& self.u32 == self.i32
        &&& self.u64 == self.i64
        &&& self.u128 == self.i128
        &&& self.usize == self.isize
        &&& self.bool == (LayoutInfo { size: 1u64, align: 1u64 })
        &&& self.mut_raw_ptr == int_layout(pointer_bytes, pointer_bytes)
        &&& self.const_raw_ptr == int_layout(pointer_bytes, pointer_bytes)
    }

    /// Compute the table for a target whose pointers are `pointer_bytes`
    /// wide.
    pub fn new(pointer_bytes: u64) -> (r: PrimitiveLayouts)
        requires
            pointer_bytes == 2 || pointer_bytes == 4 || pointer_bytes == 8,
        ensures
            r.wf(pointer_bytes),
    {
        let word = LayoutInfo { size: pointer_bytes, align: pointer_bytes };
        PrimitiveLayouts {
            unit: LayoutInfo { size: 0, align: 1 },
            i8: LayoutInfo { size: 1, align: 1 },
            i16: LayoutInfo { size: 2, align: if 2 <= pointer_bytes { 2 } else { pointer_bytes } },
            i32: LayoutInfo { size: 4, align: if 4 <= pointer_bytes { 4 } else { pointer_bytes } },
            i64: LayoutInfo { size: 8, align: if 8 <= pointer_bytes { 8 } else { pointer_bytes } },
            i128: LayoutInfo { size: 16, align: pointer_bytes },
            isize: word,
            u8: LayoutInfo { size: 1, align: 1 },
            u16: LayoutInfo { size: 2, align: if 2 <= pointer_bytes { 2 } else { pointer_bytes } },
            u32: LayoutInfo { size: 4, align: if 4 <= pointer_bytes { 4 } else { pointer_bytes } },
            u64: LayoutInfo { size: 8, align: if 8 <= pointer_bytes { 8 } else { pointer_bytes } },
            u128: LayoutInfo { size: 16, align: pointer_bytes },
            usize: word,
            bool: LayoutInfo { size: 1, align: 1 },
            mut_raw_ptr: word,
            const_raw_ptr: word,
        }
    }

    /// The layout of the unsigned integer type of `size_bits` bits, if
    /// there is one.
    pub fn uint(&self, size_bits: u64) -> (r: Option<LayoutInfo>)
        ensures
            r == (match size_bits {
                8u64 => Some(self.u8),
                16u64 => Some(self.u16),
                32u64 => Some(self.u32),
                64u64 => Some(self.u64),
                128u64 => Some(self.u128),
                _ => None::<LayoutInfo>,
            }),
    {
        match size_bits {
            8 => Some(self.u8),
            16 => Some(self.u16),
            32 => Some(self.u32),
            64 => Some(self.u64),
            128 => Some(self.u128),
            _ => None,
        }
    }

    /// The layout of the signed integer type of `size_bits` bits, if there
    /// is one.
    pub fn signed_int(&self, size_bits: u64) -> (r: Option<LayoutInfo>)
        ensures
            r == (match size_bits {
                8u64 => Some(self.i8),
                16u64 => Some(self.i16),
                32u64 => Some(self.i32),
                64u64 => Some(self.i64),
                128u64 => Some(self.i128),
                _ => None::<LayoutInfo>,
            }),
    {
        match size_bits {
            8 => Some(self.i8),
            16 => Some(self.i16),
            32 => Some(self.i32),
            64 => Some(self.i64),
            128 => Some(self.i128),
            _ => None,
        }
    }
}

} // verus!
