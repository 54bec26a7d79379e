//! Hexadecimal digits, as bytes of text.
use vstd::prelude::*;

verus! {

/// The value of a hexadecimal digit, in either case; `None` for any other
/// byte.
pub open spec fn hex_digit_of(byte: u8) -> Option<u8> {
    if 0x30 <= byte <= 0x39 {
        Some((byte - 0x30) as u8)
    } else if 0x61 <= byte <= 0x66 {
        Some((byte - 0x61 + 10) as u8)
    } else if 0x41 <= byte <= 0x46 {
        Some((byte - 0x41 + 10) as u8)
    } else {
        None
    }
}

/// The value of two hexadecimal digits, the high one first; `None` unless
/// both are hexadecimal digits.
pub open spec fn hex_pair_of(high: u8, low: u8) -> Option<u8> {
    match (hex_digit_of(high), hex_digit_of(low)) {
        (Some(h), Some(l)) => Some((16 * h + l) as u8),
        _ => None,
    }
}

/// The value of a hexadecimal digit, in either case; `None` for any other
/// byte.
pub fn hex_digit(byte: u8) -> (value: Option<u8>)
    ensures
        value == hex_digit_of(byte),
{
    if 0x30 <= byte && byte <= 0x39 {
        Some(byte - 0x30)
    } else if 0x61 <= byte && byte <= 0x66 {
        Some(byte - 0x61 + 10)
    } else if 0x41 <= byte && byte <= 0x46 {
        Some(byte - 0x41 + 10)
    } else {
        None
    }
}

/// The value of two hexadecimal digits, the high one first; `None` unless
/// both are hexadecimal digits.
pub fn hex_pair(high: u8, low: u8) -> (value: Option<u8>)
    ensures
        value == hex_pair_of(high, low),
{
    match (hex_digit(high), hex_digit(low)) {
        (Some(h), Some(l)) => Some(16 * h + l),
        _ => None,
    }
}

} // verus!
