//! Two's-complement bit patterns of the signed kinds, as plain
//! unsigned values, so that every payload element is a sequence of
//! little-endian bytes of an unsigned integer.

use vstd::prelude::*;

verus! {

/// The two's-complement bit pattern of an `i8`.
pub open spec fn spec_u8_of_i8(x: i8) -> u8 {
    if x >= 0 {
        x as u8
    } else {
        (x + 0x100) as u8
    }
}

/// The `i8` whose two's-complement bit pattern is `b`.
pub open spec fn spec_i8_of_u8(b: u8) -> i8 {
    if b < 0x80 {
        b as i8
    } else {
        (b - 0x100) as i8
    }
}

/// The two's-complement bit pattern of an `i16`.
pub open spec fn spec_u16_of_i16(x: i16) -> u16 {
    if x >= 0 {
        x as u16
    } else {
        (x + 0x1_0000) as u16
    }
}

/// The `i16` whose two's-complement bit pattern is `b`.
pub open spec fn spec_i16_of_u16(b: u16) -> i16 {
    if b < 0x8000 {
        b as i16
    } else {
        (b - 0x1_0000) as i16
    }
}

/// The two's-complement bit pattern of an `i32`.
pub open spec fn spec_u32_of_i32(x: i32) -> u32 {
    if x >= 0 {
        x as u32
    } else {
        (x + 0x1_0000_0000) as u32
    }
}

/// The `i32` whose two's-complement bit pattern is `b`.
pub open spec fn spec_i32_of_u32(b: u32) -> i32 {
    if b < 0x8000_0000 {
        b as i32
    } else {
        (b - 0x1_0000_0000) as i32
    }
}

/// The two's-complement bit pattern of an `i64`.
pub open spec fn spec_u64_of_i64(x: i64) -> u64 {
    if x >= 0 {
        x as u64
    } else {
        (x + 0x1_0000_0000_0000_0000) as u64
    }
}

/// The `i64` whose two's-complement bit pattern is `b`.
pub open spec fn spec_i64_of_u64(b: u64) -> i64 {
    if b < 0x8000_0000_0000_0000 {
        b as i64
    } else {
        (b - 0x1_0000_0000_0000_0000) as i64
    }
}

/// Converting a signed value to its bit pattern and back is the
/// identity, in both directions, at every width.
pub proof fn lemma_sign_pattern_round_trip()
    ensures
        forall|x: i8| #[trigger] spec_i8_of_u8(spec_u8_of_i8(x)) == x,
        forall|b: u8| #[trigger] spec_u8_of_i8(spec_i8_of_u8(b)) == b,
        forall|x: i16| #[trigger] spec_i16_of_u16(spec_u16_of_i16(x)) == x,
        forall|b: u16| #[trigger] spec_u16_of_i16(spec_i16_of_u16(b)) == b,
        forall|x: i32| #[trigger] spec_i32_of_u32(spec_u32_of_i32(x)) == x,
        forall|b: u32| #[trigger] spec_u32_of_i32(spec_i32_of_u32(b)) == b,
        forall|x: i64| #[trigger] spec_i64_of_u64(spec_u64_of_i64(x)) == x,
        forall|b: u64| #[trigger] spec_u64_of_i64(spec_i64_of_u64(b)) == b,
{
}

pub fn u8_of_i8(x: i8) -> (r: u8)
    ensures
        r == spec_u8_of_i8(x),
{
    if x >= 0 {
        x as u8
    } else {
        ((x as i16) + 0x100) as u8
    }
}

pub fn i8_of_u8(b: u8) -> (r: i8)
    ensures
        r == spec_i8_of_u8(b),
{
    if b < 0x80 {
        b as i8
    } else {
        ((b as i16) - 0x100) as i8
    }
}

pub fn u16_of_i16(x: i16) -> (r: u16)
    ensures
        r == spec_u16_of_i16(x),
{
    if x >= 0 {
        x as u16
    } else {
        ((x as i32) + 0x1_0000) as u16
    }
}

pub fn i16_of_u16(b: u16) -> (r: i16)
    ensures
        r == spec_i16_of_u16(b),
{
    if b < 0x8000 {
        b as i16
    } else {
        ((b as i32) - 0x1_0000) as i16
    }
}

pub fn u32_of_i32(x: i32) -> (r: u32)
    ensures
        r == spec_u32_of_i32(x),
{
    if x >= 0 {
        x as u32
    } else {
        ((x as i64) + 0x1_0000_0000) as u32
    }
}

pub fn i32_of_u32(b: u32) -> (r: i32)
    ensures
        r == spec_i32_of_u32(b),
{
    if b < 0x8000_0000 {
        b as i32
    } else {
        ((b as i64) - 0x1_0000_0000) as i32
    }
}

pub fn u64_of_i64(x: i64) -> (r: u64)
    ensures
        r == spec_u64_of_i64(x),
{
    if x >= 0 {
        x as u64
    } else {
        ((x as i128) + 0x1_0000_0000_0000_0000) as u64
    }
}

pub fn i64_of_u64(b: u64) -> (r: i64)
    ensures
        r == spec_i64_of_u64(b),
{
    if b < 0x8000_0000_0000_0000 {
        b as i64
    } else {
        ((b as i128) - 0x1_0000_0000_0000_0000) as i64
    }
}

} // verus!
