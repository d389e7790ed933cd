//! Big-endian integer readers over byte buffers, with their exact
//! specifications; all multi-byte fields of the format are big-endian.

use vstd::prelude::*;

verus! {

/// The big-endian 16-bit value held at offset `i` of `s`.
pub open spec fn be_u16_at(s: Seq<u8>, i: int) -> u16
    recommends
        0 <= i,
        i + 2 <= s.len(),
{
    ((s[i] as u16) * 0x100 + (s[i + 1] as u16)) as u16
}

/// The big-endian 32-bit value held at offset `i` of `s`.
pub open spec fn be_u32_at(s: Seq<u8>, i: int) -> u32
    recommends
        0 <= i,
        i + 4 <= s.len(),
{
    ((s[i] as u32) * 0x1000000 + (s[i + 1] as u32) * 0x10000 + (s[i + 2] as u32) * 0x100 + (s[i
        + 3] as u32)) as u32
}

/// The big-endian 64-bit value held at offset `i` of `s`.
pub open spec fn be_u64_at(s: Seq<u8>, i: int) -> u64
    recommends
        0 <= i,
        i + 8 <= s.len(),
{
    ((s[i] as u64) * 0x100000000000000 + (s[i + 1] as u64) * 0x1000000000000 + (s[i + 2] as u64)
        * 0x10000000000 + (s[i + 3] as u64) * 0x100000000 + (s[i + 4] as u64) * 0x1000000 + (s[i
        + 5] as u64) * 0x10000 + (s[i + 6] as u64) * 0x100 + (s[i + 7] as u64)) as u64
}

pub fn read_u16_at(data: &[u8], i: usize) -> (r: u16)
    requires
        i + 2 <= data@.len(),
    ensures
        r == be_u16_at(data@, i as int),
{
    (data[i] as u16) * 0x100 + (data[i + 1] as u16)
}

pub fn read_u32_at(data: &[u8], i: usize) -> (r: u32)
    requires
        i + 4 <= data@.len(),
    ensures
        r == be_u32_at(data@, i as int),
{
    (data[i] as u32) * 0x1000000 + (data[i + 1] as u32) * 0x10000 + (data[i + 2] as u32) * 0x100
        + (data[i + 3] as u32)
}

pub fn read_u64_at(data: &[u8], i: usize) -> (r: u64)
    requires
        i + 8 <= data@.len(),
    ensures
        r == be_u64_at(data@, i as int),
{
    (data[i] as u64) * 0x100000000000000 + (data[i + 1] as u64) * 0x1000000000000 + (data[i
        + 2] as u64) * 0x10000000000 + (data[i + 3] as u64) * 0x100000000 + (data[i
        + 4] as u64) * 0x1000000 + (data[i + 5] as u64) * 0x10000 + (data[i + 6] as u64) * 0x100
        + (data[i + 7] as u64)
}

/// The 24-bit flags value packed big-endian from three bytes.
pub open spec fn be_u24_at(s: Seq<u8>, i: int) -> u32
    recommends
        0 <= i,
        i + 3 <= s.len(),
{
    ((s[i] as u32) * 0x10000 + (s[i + 1] as u32) * 0x100 + (s[i + 2] as u32)) as u32
}

pub fn read_u24_at(data: &[u8], i: usize) -> (r: u32)
    requires
        i + 3 <= data@.len(),
    ensures
        r == be_u24_at(data@, i as int),
{
    (data[i] as u32) * 0x10000 + (data[i + 1] as u32) * 0x100 + (data[i + 2] as u32)
}


/// The two's-complement signed reading of a 32-bit value.
pub open spec fn to_signed32(u: u32) -> i32 {
    if u < 0x80000000 {
        u as i32
    } else {
        (u - 0x100000000) as i32
    }
}

/// The two's-complement signed reading of a 16-bit value.
pub open spec fn to_signed16(u: u16) -> i16 {
    if u < 0x8000 {
        u as i16
    } else {
        (u - 0x10000) as i16
    }
}

/// The two's-complement signed reading of a 64-bit value.
pub open spec fn to_signed64(u: u64) -> i64 {
    if u < 0x8000000000000000 {
        u as i64
    } else {
        (u - 0x10000000000000000) as i64
    }
}

pub fn signed32(u: u32) -> (r: i32)
    ensures
        r == to_signed32(u),
{
    if u < 0x80000000 {
        u as i32
    } else {
        ((u as i64) - 0x100000000i64) as i32
    }
}

pub fn signed16(u: u16) -> (r: i16)
    ensures
        r == to_signed16(u),
{
    if u < 0x8000 {
        u as i16
    } else {
        ((u as i32) - 0x10000i32) as i16
    }
}

pub fn signed64(u: u64) -> (r: i64)
    ensures
        r == to_signed64(u),
{
    if u < 0x8000000000000000 {
        u as i64
    } else {
        ((u as i128) - 0x10000000000000000i128) as i64
    }
}

} // verus!
