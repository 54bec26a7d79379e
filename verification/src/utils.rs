//! Reading a color from hexadecimal digits, with or without a `#` in front.
use crate::color::{color_of_code, is_hex_code, Color};
use crate::decimal::{decimal, decimal_of};
use crate::hex::{hex_digit_of, hex_pair, hex_pair_of};
use vstd::prelude::*;
use vstd::string::StringSliceAdditionalSpecFns;

verus! {

/// How many `#` the text starts with.
pub open spec fn leading_hashes(bytes: Seq<u8>) -> nat
    decreases bytes.len(),
{
    if bytes.len() > 0 && bytes[0] == 0x23 {
        1 + leading_hashes(bytes.drop_first())
    } else {
        0
    }
}

/// The color that the digits stand for, or what is wrong with them.
///
/// Any `#` in front do not count. Six digits give red, green and blue of an
/// opaque color, eight give alpha as well. With another number of digits the
/// message says how many there were; otherwise it names the first channel
/// whose two digits are not both hexadecimal.
pub open spec fn alpha_color_of(bytes: Seq<u8>) -> Result<Color, Seq<char>> {
    let digits = bytes.skip(leading_hashes(bytes) as int);
    if digits.len() != 6 && digits.len() != 8 {
        Err("Invalid hex color length: expected 6 or 8 characters, got "@ + decimal_of(digits.len()))
    } else if hex_pair_of(digits[0], digits[1]) is None {
        Err("Invalid red component"@)
    } else if hex_pair_of(digits[2], digits[3]) is None {
        Err("Invalid green component"@)
    } else if hex_pair_of(digits[4], digits[5]) is None {
        Err("Invalid blue component"@)
    } else if digits.len() == 8 && hex_pair_of(digits[6], digits[7]) is None {
        Err("Invalid alpha component"@)
    } else {
        Ok(
            Color {
                r: hex_pair_of(digits[0], digits[1])->0,
                g: hex_pair_of(digits[2], digits[3])->0,
                b: hex_pair_of(digits[4], digits[5])->0,
                a: if digits.len() == 8 {
                    hex_pair_of(digits[6], digits[7])->0
                } else {
                    255
                },
            },
        )
    }
}

/// Reads a color from six or eight hexadecimal digits: `RRGGBB` or
/// `RRGGBBAA`, with any number of `#` in front. Six digits give an opaque
/// color.
pub fn hex_to_alpha_color(hex: &str) -> (parsed: Result<Color, String>)
    ensures
        match parsed {
            Ok(color) => alpha_color_of(hex.spec_bytes()) == Ok::<Color, Seq<char>>(color),
            Err(message) => alpha_color_of(hex.spec_bytes()) == Err::<Color, Seq<char>>(message@),
        },
{
    let bytes = hex.as_bytes();
    let mut start: usize = 0;
    assert(bytes@.skip(0) =~= bytes@);
    while start < bytes.len() && bytes[start] == 0x23
        invariant
            start <= bytes@.len(),
            leading_hashes(bytes@) == start + leading_hashes(bytes@.skip(start as int)),
        decreases bytes@.len() - start,
    {
        proof {
            assert(bytes@.skip(start as int).drop_first() =~= bytes@.skip(start + 1));
        }
        start += 1;
    }
    let len = bytes.len() - start;
    if len != 6 && len != 8 {
        let mut message = String::from_str(
            "Invalid hex color length: expected 6 or 8 characters, got ",
        );
        message.append(decimal(len).as_str());
        return Err(message);
    }
    let r = match hex_pair(bytes[start], bytes[start + 1]) {
        Some(r) => r,
        None => {
            return Err(String::from_str("Invalid red component"));
        },
    };
    let g = match hex_pair(bytes[start + 2], bytes[start + 3]) {
        Some(g) => g,
        None => {
            return Err(String::from_str("Invalid green component"));
        },
    };
    let b = match hex_pair(bytes[start + 4], bytes[start + 5]) {
        Some(b) => b,
        None => {
            return Err(String::from_str("Invalid blue component"));
        },
    };
    let a = if len == 8 {
        match hex_pair(bytes[start + 6], bytes[start + 7]) {
            Some(a) => a,
            None => {
                return Err(String::from_str("Invalid alpha component"));
            },
        }
    } else {
        255
    };
    Ok(Color { r, g, b, a })
}

/// A hex code with its `#` reads the same here as it does as a hex code.
pub proof fn lemma_hex_code_reads_the_same(bytes: Seq<u8>)
    requires
        is_hex_code(bytes),
    ensures
        alpha_color_of(bytes) == Ok::<Color, Seq<char>>(color_of_code(bytes)),
{
    let rest = bytes.drop_first();
    assert(hex_digit_of(bytes[1]) is Some);
    assert(rest[0] == bytes[1]);
    assert(leading_hashes(rest) == 0);
    assert(leading_hashes(bytes) == 1);
    let digits = bytes.skip(1);
    assert forall|i: int| 0 <= i < digits.len() implies hex_digit_of(#[trigger] digits[i])
        is Some by {
        assert(digits[i] == bytes[i + 1]);
    }
    assert(hex_digit_of(digits[0]) is Some && hex_digit_of(digits[1]) is Some);
    assert(hex_digit_of(digits[2]) is Some && hex_digit_of(digits[3]) is Some);
    assert(hex_digit_of(digits[4]) is Some && hex_digit_of(digits[5]) is Some);
    if digits.len() == 8 {
        assert(hex_digit_of(digits[6]) is Some && hex_digit_of(digits[7]) is Some);
    }
}

} // verus!
