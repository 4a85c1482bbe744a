//! Conversions that keep the low bits of a number.

use vstd::prelude::*;

verus! {

/// The low byte of `x`.
pub fn low_byte(x: i16) -> (low: u8)
    ensures
        low == (x as int) % 256,
{
    let low: u8 = #[verifier::truncate]
    (x as u8);
    assert(low == (x as u16) % 256 && (x >= 0 ==> x as u16 == x) && (x < 0 ==> x as u16 == x
        + 0x1_0000)) by (bit_vector)
        requires
            low == x as u8,
    ;
    low
}

/// The low byte of a size.
pub fn low_byte_of_size(x: usize) -> (low: u8)
    ensures
        low == x % 256,
{
    let low: u8 = #[verifier::truncate]
    (x as u8);
    assert(low == x % 256) by (bit_vector)
        requires
            low == x as u8,
    ;
    low
}

/// The two low bytes of a size.
pub fn low_u16_of_size(x: usize) -> (low: u16)
    ensures
        low == x % 0x1_0000,
{
    let low: u16 = #[verifier::truncate]
    (x as u16);
    assert(low == x % 0x1_0000) by (bit_vector)
        requires
            low == x as u16,
    ;
    low
}

/// The four low bytes of `x`.
pub fn low_u32(x: i64) -> (low: u32)
    ensures
        low == (x as int) % 0x1_0000_0000,
{
    let low: u32 = #[verifier::truncate]
    (x as u32);
    assert(low == (x as u64) % 0x1_0000_0000 && (x >= 0 ==> x as u64 == x) && (x < 0 ==> x as u64
        == x + 0x1_0000_0000_0000_0000)) by (bit_vector)
        requires
            low == x as u32,
    ;
    low
}

}
