//! Little-endian integer fields of a byte buffer.
//!
//! The image headers store every multi-byte field least significant byte
//! first. The spec functions here say what number a field holds; the
//! executable readers compute it.

use vstd::prelude::*;

verus! {

/// The unsigned 16-bit number stored at offset `at`.
pub open spec fn u16_le(bytes: Seq<u8>, at: int) -> int {
    bytes[at] + bytes[at + 1] * 0x100
}

/// The unsigned 32-bit number stored at offset `at`.
pub open spec fn u32_le(bytes: Seq<u8>, at: int) -> int {
    bytes[at] + bytes[at + 1] * 0x100 + bytes[at + 2] * 0x1_0000 + bytes[at + 3] * 0x100_0000
}

/// The signed (two's complement) 32-bit number stored at offset `at`.
pub open spec fn i32_le(bytes: Seq<u8>, at: int) -> int {
    let raw = u32_le(bytes, at);
    if raw < 0x8000_0000 {
        raw
    } else {
        raw - 0x1_0000_0000
    }
}

/// Reads the unsigned 16-bit field at offset `at`.
pub fn read_u16(bytes: &[u8], at: usize) -> (value: u16)
    requires
        at + 2 <= bytes@.len(),
    ensures
        value == u16_le(bytes@, at as int),
{
    let low: u16 = bytes[at] as u16;
    let high: u16 = bytes[at + 1] as u16;
    low + high * 0x100
}

/// Reads the unsigned 32-bit field at offset `at`.
pub fn read_u32(bytes: &[u8], at: usize) -> (value: u32)
    requires
        at + 4 <= bytes@.len(),
    ensures
        value == u32_le(bytes@, at as int),
{
    let b0: u32 = bytes[at] as u32;
    let b1: u32 = bytes[at + 1] as u32;
    let b2: u32 = bytes[at + 2] as u32;
    let b3: u32 = bytes[at + 3] as u32;
    b0 + b1 * 0x100 + b2 * 0x1_0000 + b3 * 0x100_0000
}

/// Reads the signed 32-bit field at offset `at`.
pub fn read_i32(bytes: &[u8], at: usize) -> (value: i32)
    requires
        at + 4 <= bytes@.len(),
    ensures
        value == i32_le(bytes@, at as int),
{
    let raw: u32 = read_u32(bytes, at);
    if raw < 0x8000_0000 {
        raw as i32
    } else {
        let magnitude: u32 = 0xffff_ffff - raw;
        -1 - (magnitude as i32)
    }
}

} // verus!
