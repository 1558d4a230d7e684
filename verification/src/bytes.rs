//! Little-endian decoding of fixed-width integers out of byte buffers.
//!
//! Every value copied out of the observed process arrives as raw bytes; the
//! functions here give those bytes their meaning as integers.

use vstd::prelude::*;

verus! {

/// The number that a little-endian byte sequence denotes: the first byte is
/// the least significant one.
pub open spec fn le_value(bytes: Seq<u8>) -> nat
    decreases bytes.len(),
{
    if bytes.len() == 0 {
        0
    } else {
        bytes[0] as nat + 256 * le_value(bytes.drop_first())
    }
}

/// The signed reading of a 32-bit pattern (two's complement).
pub open spec fn signed32(pattern: nat) -> int {
    if pattern < 0x8000_0000 {
        pattern as int
    } else {
        pattern - 0x1_0000_0000
    }
}

/// The `width` bytes of `buf` that start at `at`.
pub open spec fn field(buf: Seq<u8>, at: int, width: int) -> Seq<u8> {
    buf.subrange(at, at + width)
}

/// Unfolds `le_value` on a sequence of two bytes.
pub proof fn lemma_le_value_2(s: Seq<u8>)
    requires
        s.len() == 2,
    ensures
        le_value(s) == s[0] + 0x100 * s[1],
{
    let s1 = s.drop_first();
    let s2 = s1.drop_first();
    assert(s2.len() == 0);
    assert(le_value(s2) == 0);
    assert(le_value(s1) == s1[0] as nat + 256 * le_value(s2));
    assert(le_value(s) == s[0] as nat + 256 * le_value(s1));
}

/// Unfolds `le_value` on a sequence of four bytes.
pub proof fn lemma_le_value_4(s: Seq<u8>)
    requires
        s.len() == 4,
    ensures
        le_value(s) == s[0] + 0x100 * s[1] + 0x1_0000 * s[2] + 0x100_0000 * s[3],
{
    let lo = s.subrange(0, 2);
    let hi = s.subrange(2, 4);
    lemma_le_value_concat(lo, hi);
    assert(lo + hi =~= s);
    lemma_le_value_2(lo);
    lemma_le_value_2(hi);
    lemma_weights();
}

/// Unfolds `le_value` on a sequence of eight bytes.
pub proof fn lemma_le_value_8(s: Seq<u8>)
    requires
        s.len() == 8,
    ensures
        le_value(s) == s[0] + 0x100 * s[1] + 0x1_0000 * s[2] + 0x100_0000 * s[3] + 0x1_0000_0000
            * s[4] + 0x100_0000_0000 * s[5] + 0x1_0000_0000_0000 * s[6] + 0x100_0000_0000_0000
            * s[7],
{
    let lo = s.subrange(0, 4);
    let hi = s.subrange(4, 8);
    lemma_le_value_concat(lo, hi);
    assert(lo + hi =~= s);
    lemma_le_value_4(lo);
    lemma_le_value_4(hi);
    lemma_weights();
}

/// The weight of the byte at position `n`: 256 to the power `n`.
pub open spec fn weight(n: nat) -> nat
    decreases n,
{
    if n == 0 {
        1
    } else {
        256 * weight((n - 1) as nat)
    }
}

/// The weights of the third and the fifth byte.
pub proof fn lemma_weights()
    ensures
        weight(2) == 0x1_0000,
        weight(4) == 0x1_0000_0000,
{
    reveal_with_fuel(weight, 6);
}

/// The value of a concatenation: the second part counts from the weight of
/// the first part's length.
pub proof fn lemma_le_value_concat(a: Seq<u8>, b: Seq<u8>)
    ensures
        le_value(a + b) == le_value(a) + weight(a.len()) * le_value(b),
    decreases a.len(),
{
    if a.len() == 0 {
        assert(a + b =~= b);
    } else {
        let rest = a.drop_first();
        lemma_le_value_concat(rest, b);
        assert((a + b).drop_first() =~= rest + b);
        assert((a + b)[0] == a[0]);
        assert(weight(a.len()) == 256 * weight(rest.len()));
        assert(256 * (weight(rest.len()) * le_value(b)) == weight(a.len()) * le_value(b))
            by (nonlinear_arith)
            requires
                weight(a.len()) == 256 * weight(rest.len()),
        ;
    }
}

/// Decodes the unsigned 16-bit integer stored at `at`.
pub fn read_u16_le(buf: &[u8], at: usize) -> (v: u16)
    requires
        at + 2 <= buf@.len(),
    ensures
        v == le_value(field(buf@, at as int, 2)),
{
    let b0: u16 = buf[at] as u16;
    let b1: u16 = buf[at + 1] as u16;
    proof {
        lemma_le_value_2(field(buf@, at as int, 2));
    }
    b0 + b1 * 0x100
}

/// Decodes the unsigned 32-bit integer stored at `at`.
pub fn read_u32_le(buf: &[u8], at: usize) -> (v: u32)
    requires
        at + 4 <= buf@.len(),
    ensures
        v == le_value(field(buf@, at as int, 4)),
{
    let b0: u32 = buf[at] as u32;
    let b1: u32 = buf[at + 1] as u32;
    let b2: u32 = buf[at + 2] as u32;
    let b3: u32 = buf[at + 3] as u32;
    proof {
        lemma_le_value_4(field(buf@, at as int, 4));
    }
    b0 + b1 * 0x100 + b2 * 0x1_0000 + b3 * 0x100_0000
}

/// Decodes the signed 32-bit integer stored at `at`.
pub fn read_i32_le(buf: &[u8], at: usize) -> (v: i32)
    requires
        at + 4 <= buf@.len(),
    ensures
        v == signed32(le_value(field(buf@, at as int, 4))),
{
    let pattern: u32 = read_u32_le(buf, at);
    if pattern < 0x8000_0000 {
        pattern as i32
    } else {
        let wide: i64 = pattern as i64 - 0x1_0000_0000;
        wide as i32
    }
}

/// Decodes the unsigned 64-bit integer stored at `at`.
pub fn read_u64_le(buf: &[u8], at: usize) -> (v: u64)
    requires
        at + 8 <= buf@.len(),
    ensures
        v == le_value(field(buf@, at as int, 8)),
{
    let b0: u64 = buf[at] as u64;
    let b1: u64 = buf[at + 1] as u64;
    let b2: u64 = buf[at + 2] as u64;
    let b3: u64 = buf[at + 3] as u64;
    let b4: u64 = buf[at + 4] as u64;
    let b5: u64 = buf[at + 5] as u64;
    let b6: u64 = buf[at + 6] as u64;
    let b7: u64 = buf[at + 7] as u64;
    proof {
        lemma_le_value_8(field(buf@, at as int, 8));
    }
    b0 + b1 * 0x100 + b2 * 0x1_0000 + b3 * 0x100_0000 + b4 * 0x1_0000_0000 + b5 * 0x100_0000_0000
        + b6 * 0x1_0000_0000_0000 + b7 * 0x100_0000_0000_0000
}

} // verus!
