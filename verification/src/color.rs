//! A color and opacity
//!
//! A color is read from a hex code, `#RRGGBB` or `#RRGGBBAA`, in either
//! case of the letters, and written in the two forms that a vector image
//! takes it in: `rgb(r,g,b)` for the color and a fraction for the opacity.
use crate::decimal::{decimal, decimal_of, digit_of};
use crate::hex::{hex_digit, hex_digit_of, hex_pair_of};
use hex_color::HexColor;
use vstd::prelude::*;
use vstd::std_specs::convert::TryFromSpecImpl;
use vstd::string::StringSliceAdditionalSpecFns;

verus! {

/// A color and opacity
#[derive(Debug, Clone, Copy, PartialEq, Eq, Structural)]
pub struct Color {
    pub r: u8,
    pub g: u8,
    pub b: u8,
    /// `0` is transparent, `255` is opaque.
    pub a: u8,
}

/// Why a text is no hex code.
#[derive(Debug, Clone, Copy, PartialEq, Eq, Structural)]
pub enum ParseHexColorError {
    /// The text is empty.
    Empty,
    /// The text does not start with `#`, or has another length than seven or
    /// nine bytes.
    InvalidFormat,
    /// The text has the length and the `#` of a hex code, but one of its
    /// digits is not hexadecimal.
    InvalidDigit,
}

/// Whether the bytes are a `#` and six or eight hexadecimal digits.
pub open spec fn is_hex_code(bytes: Seq<u8>) -> bool {
    &&& bytes.len() == 7 || bytes.len() == 9
    &&& bytes[0] == 0x23
    &&& forall|i: int| 1 <= i < bytes.len() ==> hex_digit_of(#[trigger] bytes[i]) is Some
}

/// The color that a hex code stands for: two digits each for red, green and
/// blue, and two for alpha where there are eight. Six digits stand for an
/// opaque color.
pub open spec fn color_of_code(bytes: Seq<u8>) -> Color
    recommends
        is_hex_code(bytes),
{
    Color {
        r: hex_pair_of(bytes[1], bytes[2])->0,
        g: hex_pair_of(bytes[3], bytes[4])->0,
        b: hex_pair_of(bytes[5], bytes[6])->0,
        a: if bytes.len() == 9 {
            hex_pair_of(bytes[7], bytes[8])->0
        } else {
            255
        },
    }
}

/// What reading a text as a hex code gives.
pub open spec fn parse_hex_code(bytes: Seq<u8>) -> Result<Color, ParseHexColorError> {
    if bytes.len() == 0 {
        Err(ParseHexColorError::Empty)
    } else if bytes[0] != 0x23 || (bytes.len() != 7 && bytes.len() != 9) {
        Err(ParseHexColorError::InvalidFormat)
    } else if !is_hex_code(bytes) {
        Err(ParseHexColorError::InvalidDigit)
    } else {
        Ok(color_of_code(bytes))
    }
}

/// The color written as `rgb(r,g,b)`, in decimal.
pub open spec fn svg_color_of(color: Color) -> Seq<char> {
    "rgb("@ + decimal_of(color.r as nat) + ","@ + decimal_of(color.g as nat) + ","@ + decimal_of(
        color.b as nat,
    ) + ")"@
}

/// The opacity `a / 255` in thousandths, rounded to the nearest.
pub open spec fn opacity_thousandths_of(a: u8) -> int {
    (2000 * a + 255) / 510
}

/// A number of thousandths up to 9999 written as a decimal fraction with
/// three places.
pub open spec fn thousandths_text_of(thousandths: nat) -> Seq<char> {
    seq![
        digit_of(thousandths / 1000),
        '.',
        digit_of(thousandths / 100 % 10),
        digit_of(thousandths / 10 % 10),
        digit_of(thousandths % 10),
    ]
}

/// Hands a hex code to `HexColor::parse` of the hex_color crate. For a `#`
/// followed by six or eight hexadecimal digits that function returns the
/// color whose channels are the values of the digit pairs, in the order red,
/// green, blue, alpha, with alpha 255 where there are six digits. Nothing is
/// claimed of any other text, and none is handed in.
#[verifier::external_body]
fn parse_code(hex: &str) -> (parsed: Result<Color, ParseHexColorError>)
    requires
        is_hex_code(hex.spec_bytes()),
    ensures
        parsed is Ok,
        parsed->Ok_0 == color_of_code(hex.spec_bytes()),
{
    match HexColor::parse(hex) {
        Ok(color) => Ok(Color { r: color.r, g: color.g, b: color.b, a: color.a }),
        Err(hex_color::ParseHexColorError::Empty) => Err(ParseHexColorError::Empty),
        Err(hex_color::ParseHexColorError::InvalidFormat) => Err(ParseHexColorError::InvalidFormat),
        Err(_) => Err(ParseHexColorError::InvalidDigit),
    }
}

impl Color {
    /// Define a new color
    pub fn new(r: u8, g: u8, b: u8, a: u8) -> (color: Self)
        ensures
            color == (Color { r, g, b, a }),
    {
        Color { r, g, b, a }
    }

    /// Define a new color from a hex string
    ///
    /// The string is a `#` followed by six hexadecimal digits, or by eight
    /// where the last two give the opacity.
    pub fn from_hex(hex: &str) -> (parsed: Result<Self, ParseHexColorError>)
        ensures
            parsed == parse_hex_code(hex.spec_bytes()),
    {
        let bytes = hex.as_bytes();
        let len = bytes.len();
        if len == 0 {
            return Err(ParseHexColorError::Empty);
        }
        if bytes[0] != 0x23 || (len != 7 && len != 9) {
            return Err(ParseHexColorError::InvalidFormat);
        }
        let mut i: usize = 1;
        while i < len
            invariant
                1 <= i <= len,
                len == bytes@.len(),
                bytes@ == hex.spec_bytes(),
                bytes@[0] == 0x23,
                len == 7 || len == 9,
                forall|j: int| 1 <= j < i ==> hex_digit_of(#[trigger] bytes@[j]) is Some,
            decreases len - i,
        {
            if hex_digit(bytes[i]).is_none() {
                assert(hex_digit_of(bytes@[i as int]) is None);
                return Err(ParseHexColorError::InvalidDigit);
            }
            i += 1;
        }
        parse_code(hex)
    }

    /// The color as a vector image takes it: `rgb(r,g,b)`.
    pub fn to_svg_color(self) -> (text: String)
        ensures
            text@ == svg_color_of(self),
    {
        let mut text = String::from_str("rgb(");
        text.append(decimal(self.r as usize).as_str());
        text.append(",");
        text.append(decimal(self.g as usize).as_str());
        text.append(",");
        text.append(decimal(self.b as usize).as_str());
        text.append(")");
        text
    }

    /// The opacity `a / 255` in thousandths, rounded to the nearest: 0 for
    /// transparent, 1000 for opaque.
    pub fn to_opacity_thousandths(self) -> (thousandths: u16)
        ensures
            thousandths == opacity_thousandths_of(self.a),
            thousandths <= 1000,
    {
        ((2000 * (self.a as u32) + 255) / 510) as u16
    }

    /// The opacity as a decimal fraction with three places, from `0.000` to
    /// `1.000`.
    pub fn to_opacity_text(self) -> (text: String)
        ensures
            text@ == thousandths_text_of(opacity_thousandths_of(self.a) as nat),
    {
        let thousandths = self.to_opacity_thousandths() as usize;
        let mut text = decimal(thousandths / 1000);
        text.append(".");
        text.append(decimal(thousandths / 100 % 10).as_str());
        text.append(decimal(thousandths / 10 % 10).as_str());
        text.append(decimal(thousandths % 10).as_str());
        proof {
            reveal_strlit(".");
            assert(text@ =~= thousandths_text_of(opacity_thousandths_of(self.a) as nat));
        }
        text
    }
}

impl TryFrom<&str> for Color {
    type Error = ParseHexColorError;

    fn try_from(hex_str: &str) -> (parsed: Result<Self, Self::Error>) {
        Color::from_hex(hex_str)
    }
}

impl TryFromSpecImpl<&str> for Color {
    open spec fn obeys_try_from_spec() -> bool {
        true
    }

    open spec fn try_from_spec(hex_str: &str) -> Result<Self, Self::Error> {
        parse_hex_code(hex_str.spec_bytes())
    }
}

/// The opacity in thousandths is the thousandth nearest to `a / 255`: it is
/// less than half a thousandth away. No opacity lies halfway between two
/// thousandths.
pub proof fn lemma_opacity_is_nearest(a: u8)
    ensures
        -255 < 2 * (1000 * a - 255 * opacity_thousandths_of(a)) < 255,
        opacity_thousandths_of(0) == 0,
        opacity_thousandths_of(255) == 1000,
{
}

} // verus!
