//! Fixed-layout records of the observed process, and their decoding from the
//! bytes of a read.

use vstd::prelude::*;
use crate::bytes::{field, le_value, read_i32_le, read_u16_le, read_u64_le, signed32};

verus! {

/// The size in memory of a `TArray` header.
pub const TARRAY_BYTES: usize = 16;

/// The number of code units in a `WideName`.
pub const WIDE_NAME_UNITS: usize = 64;

/// The size in memory of a `WideName`.
pub const WIDE_NAME_BYTES: usize = 128;

/// The header of a contiguous array in the observed process: where its
/// elements start, how many it holds, and how many it has room for.
#[derive(Clone, Copy, Debug, PartialEq, Eq, Structural)]
pub struct TArray {
    pub data_ptr: u64,
    pub count: i32,
    pub max: i32,
}

/// A fixed buffer of UTF-16 code units that holds a name, ended by a zero
/// unit where the name is shorter than the buffer.
#[derive(Clone, Copy, Debug)]
pub struct WideName {
    pub word: [u16; 64],
}

/// The array header that `bytes` encode: the pointer first, then the two
/// counts, each little-endian.
pub open spec fn tarray_of(bytes: Seq<u8>) -> TArray {
    TArray {
        data_ptr: le_value(field(bytes, 0, 8)) as u64,
        count: signed32(le_value(field(bytes, 8, 4))) as i32,
        max: signed32(le_value(field(bytes, 12, 4))) as i32,
    }
}

/// The code unit at place `i` of the wide name that `bytes` encode.
pub open spec fn wide_unit_of(bytes: Seq<u8>, i: int) -> u16 {
    le_value(field(bytes, 2 * i, 2)) as u16
}

impl Default for TArray {
    /// The empty array at the null address.
    fn default() -> (array: TArray)
        ensures
            array == (TArray { data_ptr: 0, count: 0, max: 0 }),
    {
        TArray { data_ptr: 0, count: 0, max: 0 }
    }
}

impl TArray {
    /// Decodes an array header. Only a buffer of exactly the header's size
    /// is one.
    pub fn decode(buf: &[u8]) -> (array: Option<TArray>)
        ensures
            array == if buf@.len() == TARRAY_BYTES {
                Some(tarray_of(buf@))
            } else {
                None
            },
    {
        if buf.len() != TARRAY_BYTES {
            return None;
        }
        let data_ptr: u64 = read_u64_le(buf, 0);
        let count: i32 = read_i32_le(buf, 8);
        let max: i32 = read_i32_le(buf, 12);
        Some(TArray { data_ptr, count, max })
    }
}

impl Default for WideName {
    /// The empty name: every unit is zero.
    fn default() -> (name: WideName)
        ensures
            forall|i: int| 0 <= i < WIDE_NAME_UNITS ==> name.word@[i] == 0,
    {
        WideName { word: [0u16;64] }
    }
}

impl WideName {
    /// Decodes a wide name: 64 little-endian code units. Only a buffer of
    /// exactly that size is one.
    pub fn decode(buf: &[u8]) -> (name: Option<WideName>)
        ensures
            name is Some <==> buf@.len() == WIDE_NAME_BYTES,
            name matches Some(n) ==> forall|i: int|
                0 <= i < WIDE_NAME_UNITS ==> n.word@[i] == wide_unit_of(buf@, i),
    {
        if buf.len() != WIDE_NAME_BYTES {
            return None;
        }
        let mut word: [u16; 64] = [0u16;64];
        let mut i: usize = 0;
        while i < WIDE_NAME_UNITS
            invariant
                buf@.len() == WIDE_NAME_BYTES,
                0 <= i <= WIDE_NAME_UNITS,
                forall|k: int| 0 <= k < i ==> word@[k] == wide_unit_of(buf@, k),
            decreases WIDE_NAME_UNITS - i,
        {
            let unit: u16 = read_u16_le(buf, 2 * i);
            word[i] = unit;
            i = i + 1;
        }
        Some(WideName { word })
    }
}

} // verus!
