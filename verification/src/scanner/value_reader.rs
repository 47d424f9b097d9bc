use vstd::prelude::*;

use crate::scanner::endianness::Endianness;
use crate::scanner::value_type::ValueType;

verus! {

/// The unsigned integer held by the first two bytes of `bytes` in the given byte order.
pub open spec fn spec_u16(bytes: Seq<u8>, endianness: Endianness) -> int {
    match endianness {
        Endianness::Little => bytes[0] + 0x100 * bytes[1],
        Endianness::Big => 0x100 * bytes[0] + bytes[1],
    }
}

/// The unsigned integer held by the first four bytes of `bytes` in the given byte order.
pub open spec fn spec_u32(bytes: Seq<u8>, endianness: Endianness) -> int {
    match endianness {
        Endianness::Little => bytes[0] + 0x100 * bytes[1] + 0x1_0000 * bytes[2] + 0x100_0000
            * bytes[3],
        Endianness::Big => 0x100_0000 * bytes[0] + 0x1_0000 * bytes[1] + 0x100 * bytes[2]
            + bytes[3],
    }
}

/// The two's-complement reading of an unsigned value `u` of a type with `modulus` values.
pub open spec fn to_signed(u: int, modulus: int) -> int {
    if u >= modulus / 2 {
        u - modulus
    } else {
        u
    }
}

/// The number that a value of type `value_type` stored at the start of `bytes` denotes; for
/// `F32` this is the value's IEEE-754 bit pattern.
pub open spec fn decode(value_type: ValueType, endianness: Endianness, bytes: Seq<u8>) -> int {
    match value_type {
        ValueType::U8 => bytes[0] as int,
        ValueType::U16 => spec_u16(bytes, endianness),
        ValueType::U32 | ValueType::F32 => spec_u32(bytes, endianness),
        ValueType::I8 => to_signed(bytes[0] as int, 0x100),
        ValueType::I16 => to_signed(spec_u16(bytes, endianness), 0x1_0000),
        ValueType::I32 => to_signed(spec_u32(bytes, endianness), 0x1_0000_0000),
    }
}

/// Reads a `u8` from a raw byte slice.
pub fn read_u8(bytes: &[u8], _endianness: Endianness) -> (v: u8)
    requires
        bytes@.len() >= 1,
    ensures
        v == bytes@[0],
{
    bytes[0]
}

/// Reads a `u16` from a raw byte slice using the given endianness.
pub fn read_u16(bytes: &[u8], endianness: Endianness) -> (v: u16)
    requires
        bytes@.len() >= 2,
    ensures
        v == spec_u16(bytes@, endianness),
{
    let b0 = bytes[0] as u16;
    let b1 = bytes[1] as u16;
    match endianness {
        Endianness::Little => b0 + b1 * 0x100,
        Endianness::Big => b0 * 0x100 + b1,
    }
}

/// Reads a `u32` from a raw byte slice using the given endianness.
pub fn read_u32(bytes: &[u8], endianness: Endianness) -> (v: u32)
    requires
        bytes@.len() >= 4,
    ensures
        v == spec_u32(bytes@, endianness),
{
    let b0 = bytes[0] as u32;
    let b1 = bytes[1] as u32;
    let b2 = bytes[2] as u32;
    let b3 = bytes[3] as u32;
    match endianness {
        Endianness::Little => b0 + b1 * 0x100 + b2 * 0x1_0000 + b3 * 0x100_0000,
        Endianness::Big => b0 * 0x100_0000 + b1 * 0x1_0000 + b2 * 0x100 + b3,
    }
}

/// Reads an `i8` from a raw byte slice.
pub fn read_i8(bytes: &[u8], _endianness: Endianness) -> (v: i8)
    requires
        bytes@.len() >= 1,
    ensures
        v == to_signed(bytes@[0] as int, 0x100),
{
    let u = bytes[0];
    if u >= 0x80 {
        (u as i16 - 0x100) as i8
    } else {
        u as i8
    }
}

/// Reads an `i16` from a raw byte slice using the given endianness.
pub fn read_i16(bytes: &[u8], endianness: Endianness) -> (v: i16)
    requires
        bytes@.len() >= 2,
    ensures
        v == to_signed(spec_u16(bytes@, endianness), 0x1_0000),
{
    let u = read_u16(bytes, endianness);
    if u >= 0x8000 {
        (u as i32 - 0x1_0000) as i16
    } else {
        u as i16
    }
}

/// Reads an `i32` from a raw byte slice using the given endianness.
pub fn read_i32(bytes: &[u8], endianness: Endianness) -> (v: i32)
    requires
        bytes@.len() >= 4,
    ensures
        v == to_signed(spec_u32(bytes@, endianness), 0x1_0000_0000),
{
    let u = read_u32(bytes, endianness);
    if u >= 0x8000_0000 {
        (u as i64 - 0x1_0000_0000) as i32
    } else {
        u as i32
    }
}

/// Reads the value of type `value_type` stored at `offset` in `block`, widened to `i64`
/// (an `F32` value is read as its bit pattern).
pub fn read_value(value_type: ValueType, endianness: Endianness, block: &[u8], offset: usize) -> (v:
    i64)
    requires
        offset + value_type.spec_width() <= block@.len(),
    ensures
        v == decode(
            value_type,
            endianness,
            block@.subrange(offset as int, offset + value_type.spec_width()),
        ),
        value_type == ValueType::F32 ==> 0 <= v <= u32::MAX,
{
    proof {
        // a slice never holds more than usize::MAX elements
        assert(block@.len() == block.len());
    }
    let end = offset + value_type.width();
    let window = &block[offset..end];
    match value_type {
        ValueType::U8 => read_u8(window, endianness) as i64,
        ValueType::U16 => read_u16(window, endianness) as i64,
        ValueType::U32 | ValueType::F32 => read_u32(window, endianness) as i64,
        ValueType::I8 => read_i8(window, endianness) as i64,
        ValueType::I16 => read_i16(window, endianness) as i64,
        ValueType::I32 => read_i32(window, endianness) as i64,
    }
}

} // verus!
