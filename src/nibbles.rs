//! Splitting bytes into four-bit fields and joining fields back together.
use vstd::prelude::*;

verus! {

/// The high four bits of a byte.
pub fn get_first_nibble(byte: u8) -> (r: u8)
    ensures
        r == byte / 16,
        r < 16,
{
    byte / 16
}

/// The low four bits of a byte.
pub fn get_second_nibble(byte: u8) -> (r: u8)
    ensures
        r == byte % 16,
{
    byte % 16
}

/// Joins two nibbles into a byte, the first one high.
pub fn combine_two_nibbles(high: u8, low: u8) -> (r: u8)
    requires
        high < 16,
        low < 16,
    ensures
        r == high * 16 + low,
{
    high * 16 + low
}

/// Joins three nibbles into a twelve-bit address, the first one highest.
pub fn combine_three_nibbles(high: u8, middle: u8, low: u8) -> (r: u16)
    requires
        high < 16,
        middle < 16,
        low < 16,
    ensures
        r == high * 256 + middle * 16 + low,
        r < 4096,
{
    (high as u16) * 256 + (middle as u16) * 16 + (low as u16)
}

} // verus!
