//! Pure helpers for host keypads: assembling a scanned 4x4 matrix into a
//! 16-bit key mask, and mapping desktop key codes to CHIP-8 key values.
//! The actual pin or window I/O stays with the host.

use vstd::prelude::*;

verus! {

/// The 4-bit mask of one scanned keypad row: bit 0 for the first column,
/// bit 3 for the fourth, each set when that column reads pressed.
pub fn row_bits(c1: bool, c2: bool, c3: bool, c4: bool) -> (bits: u8)
    ensures
        bits == (if c1 { 1int } else { 0 }) + (if c2 { 2int } else { 0 }) + (if c3 {
            4int
        } else {
            0
        }) + (if c4 { 8int } else { 0 }),
{
    let mut bits: u8 = 0;
    if c1 {
        bits = bits + 1;
    }
    if c2 {
        bits = bits + 2;
    }
    if c3 {
        bits = bits + 4;
    }
    if c4 {
        bits = bits + 8;
    }
    bits
}

/// The 16-bit key mask of a fully scanned 4x4 keypad: row 1 in the low
/// nibble, row 4 in the high nibble.
pub fn combine_rows(row1: u8, row2: u8, row3: u8, row4: u8) -> (mask: u16)
    requires
        row1 < 16,
        row2 < 16,
        row3 < 16,
        row4 < 16,
    ensures
        mask == row1 + row2 * 16 + row3 * 256 + row4 * 4096,
{
    row1 as u16 + (row2 as u16) * 16 + (row3 as u16) * 256 + (row4 as u16) * 4096
}

/// The CHIP-8 key a desktop key code stands for: the digit keys map to
/// 0x0..=0x9 and the letter keys `a`..`f` to 0xA..=0xF; anything else is
/// no CHIP-8 key.
pub fn key_value(code: i32) -> (key: Option<u8>)
    ensures
        48 <= code <= 57 ==> key == Some((code - 48) as u8),
        97 <= code <= 102 ==> key == Some((code - 87) as u8),
        !(48 <= code <= 57 || 97 <= code <= 102) ==> key is None,
{
    if code >= 48 && code <= 57 {
        Some((code - 48) as u8)
    } else if code >= 97 && code <= 102 {
        Some((code - 97 + 10) as u8)
    } else {
        None
    }
}

} // verus!
