//! Big-endian byte layouts of the integer fields used by the instruction
//! encoding and by the string scan of the print syscall.
use vstd::prelude::*;

verus! {

/// The unsigned value of a 32-bit cell, in `[0, 2^32)`.
pub open spec fn unsigned32(v: i32) -> int {
    if v < 0 { v + 0x1_0000_0000 } else { v as int }
}

/// The two bytes of `v`, most significant first.
pub open spec fn u16_be(v: u16) -> Seq<u8> {
    seq![(v / 0x100) as u8, (v % 0x100) as u8]
}

/// The two bytes of the two's-complement form of `v`, most significant first.
pub open spec fn i16_be(v: i16) -> Seq<u8> {
    u16_be((if v < 0 { v + 0x1_0000 } else { v as int }) as u16)
}

/// The four bytes of the two's-complement form of `v`, most significant first.
pub open spec fn i32_be(v: i32) -> Seq<u8> {
    let u = unsigned32(v);
    seq![
        (u / 0x100_0000) as u8,
        (u / 0x1_0000 % 0x100) as u8,
        (u / 0x100 % 0x100) as u8,
        (u % 0x100) as u8,
    ]
}

/// The unsigned 16-bit value of two bytes, most significant first.
pub open spec fn be_u16(hi: u8, lo: u8) -> u16 {
    (hi * 0x100 + lo) as u16
}

/// The signed 16-bit value of two bytes in two's complement.
pub open spec fn be_i16(hi: u8, lo: u8) -> i16 {
    let u = hi * 0x100 + lo;
    (if u >= 0x8000 { u - 0x1_0000 } else { u }) as i16
}

/// The signed 32-bit value of four bytes in two's complement.
pub open spec fn be_i32(b0: u8, b1: u8, b2: u8, b3: u8) -> i32 {
    let u = b0 * 0x100_0000 + b1 * 0x1_0000 + b2 * 0x100 + b3;
    (if u >= 0x8000_0000 { u - 0x1_0000_0000 } else { u }) as i32
}

/// Reads an unsigned 16-bit value, most significant byte first.
pub fn read_u16(hi: u8, lo: u8) -> (r: u16)
    ensures
        r == be_u16(hi, lo),
{
    hi as u16 * 0x100 + lo as u16
}

/// Reads a signed 16-bit value, most significant byte first.
pub fn read_i16(hi: u8, lo: u8) -> (r: i16)
    ensures
        r == be_i16(hi, lo),
{
    let u: i32 = hi as i32 * 0x100 + lo as i32;
    if u >= 0x8000 {
        (u - 0x1_0000) as i16
    } else {
        u as i16
    }
}

/// Reads a signed 32-bit value, most significant byte first.
pub fn read_i32(b0: u8, b1: u8, b2: u8, b3: u8) -> (r: i32)
    ensures
        r == be_i32(b0, b1, b2, b3),
{
    let u: i64 = b0 as i64 * 0x100_0000 + b1 as i64 * 0x1_0000 + b2 as i64 * 0x100 + b3 as i64;
    if u >= 0x8000_0000 {
        (u - 0x1_0000_0000) as i32
    } else {
        u as i32
    }
}

/// Byte `k` (0 = most significant) of the two's-complement form of `v`.
pub fn i32_byte(v: i32, k: usize) -> (r: u8)
    requires
        k < 4,
    ensures
        r == i32_be(v)[k as int],
{
    let u: i64 = if v < 0 { v as i64 + 0x1_0000_0000 } else { v as i64 };
    if k == 0 {
        (u / 0x100_0000) as u8
    } else if k == 1 {
        (u / 0x1_0000 % 0x100) as u8
    } else if k == 2 {
        (u / 0x100 % 0x100) as u8
    } else {
        (u % 0x100) as u8
    }
}

} // verus!

verus! {

/// Reading back the two bytes of `v` gives `v`; writing the value of two bytes
/// gives those bytes.
pub proof fn lemma_u16_round_trip(v: u16, hi: u8, lo: u8)
    ensures
        be_u16(u16_be(v)[0], u16_be(v)[1]) == v,
        u16_be(be_u16(hi, lo)) == seq![hi, lo],
{
    assert(u16_be(be_u16(hi, lo)) =~= seq![hi, lo]);
}

/// The same two round trips for signed 16-bit values.
pub proof fn lemma_i16_round_trip(v: i16, hi: u8, lo: u8)
    ensures
        be_i16(i16_be(v)[0], i16_be(v)[1]) == v,
        i16_be(be_i16(hi, lo)) == seq![hi, lo],
{
    assert(i16_be(be_i16(hi, lo)) =~= seq![hi, lo]);
}

/// The same two round trips for signed 32-bit values.
pub proof fn lemma_i32_round_trip(v: i32, b0: u8, b1: u8, b2: u8, b3: u8)
    ensures
        be_i32(i32_be(v)[0], i32_be(v)[1], i32_be(v)[2], i32_be(v)[3]) == v,
        i32_be(be_i32(b0, b1, b2, b3)) == seq![b0, b1, b2, b3],
{
    assert(i32_be(be_i32(b0, b1, b2, b3)) =~= seq![b0, b1, b2, b3]);
}

} // verus!
