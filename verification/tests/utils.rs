use kanoko::color::Color;
use kanoko::decimal::decimal;
use kanoko::hex::{hex_digit, hex_pair};
use kanoko::utils::hex_to_alpha_color;

#[test]
fn six_digits_without_hash() {
    assert_eq!(hex_to_alpha_color("ff0000"), Ok(Color { r: 255, g: 0, b: 0, a: 255 }));
}

#[test]
fn six_digits_with_hash() {
    assert_eq!(hex_to_alpha_color("#002e4e"), Ok(Color { r: 0, g: 46, b: 78, a: 255 }));
}

#[test]
fn eight_digits_carry_alpha() {
    assert_eq!(hex_to_alpha_color("#ff000080"), Ok(Color { r: 255, g: 0, b: 0, a: 128 }));
    assert_eq!(hex_to_alpha_color("01020304"), Ok(Color { r: 1, g: 2, b: 3, a: 4 }));
}

#[test]
fn every_leading_hash_is_dropped() {
    assert_eq!(hex_to_alpha_color("###AbCdEf"), Ok(Color { r: 0xab, g: 0xcd, b: 0xef, a: 255 }));
}

#[test]
fn a_hash_further_in_is_a_digit_that_fails() {
    assert_eq!(hex_to_alpha_color("ff#000"), Err("Invalid green component".to_string()));
}

#[test]
fn wrong_length_names_the_length() {
    assert_eq!(
        hex_to_alpha_color("#abc"),
        Err("Invalid hex color length: expected 6 or 8 characters, got 3".to_string())
    );
    assert_eq!(
        hex_to_alpha_color(""),
        Err("Invalid hex color length: expected 6 or 8 characters, got 0".to_string())
    );
    assert_eq!(
        hex_to_alpha_color("##"),
        Err("Invalid hex color length: expected 6 or 8 characters, got 0".to_string())
    );
    assert_eq!(
        hex_to_alpha_color("#1234567"),
        Err("Invalid hex color length: expected 6 or 8 characters, got 7".to_string())
    );
    assert_eq!(
        hex_to_alpha_color("0123456789abcdef"),
        Err("Invalid hex color length: expected 6 or 8 characters, got 16".to_string())
    );
}

#[test]
fn the_first_bad_channel_is_named() {
    assert_eq!(hex_to_alpha_color("gg0000"), Err("Invalid red component".to_string()));
    assert_eq!(hex_to_alpha_color("f 0000"), Err("Invalid red component".to_string()));
    assert_eq!(hex_to_alpha_color("ffgg00"), Err("Invalid green component".to_string()));
    assert_eq!(hex_to_alpha_color("ffffgg"), Err("Invalid blue component".to_string()));
    assert_eq!(hex_to_alpha_color("ffffffgg"), Err("Invalid alpha component".to_string()));
    assert_eq!(hex_to_alpha_color("zzzzzzzz"), Err("Invalid red component".to_string()));
    assert_eq!(hex_to_alpha_color("00zzzzzz"), Err("Invalid green component".to_string()));
}

#[test]
fn a_sign_is_no_hexadecimal_digit() {
    assert_eq!(hex_to_alpha_color("+f0000"), Err("Invalid red component".to_string()));
    assert_eq!(hex_to_alpha_color("00-100"), Err("Invalid green component".to_string()));
}

#[test]
fn letters_of_several_bytes_count_by_their_bytes() {
    assert_eq!(hex_to_alpha_color("\u{e9}1234"), Err("Invalid red component".to_string()));
    assert_eq!(hex_to_alpha_color("1\u{e9}234"), Err("Invalid red component".to_string()));
    assert_eq!(
        hex_to_alpha_color("\u{e9}"),
        Err("Invalid hex color length: expected 6 or 8 characters, got 2".to_string())
    );
}

#[test]
fn hexadecimal_digits_have_their_values() {
    assert_eq!(hex_digit(b'0'), Some(0));
    assert_eq!(hex_digit(b'9'), Some(9));
    assert_eq!(hex_digit(b'a'), Some(10));
    assert_eq!(hex_digit(b'f'), Some(15));
    assert_eq!(hex_digit(b'A'), Some(10));
    assert_eq!(hex_digit(b'F'), Some(15));
    assert_eq!(hex_digit(b'g'), None);
    assert_eq!(hex_digit(b'G'), None);
    assert_eq!(hex_digit(b'/'), None);
    assert_eq!(hex_digit(b':'), None);
    assert_eq!(hex_digit(b'@'), None);
    assert_eq!(hex_digit(b'`'), None);
    assert_eq!(hex_digit(b'+'), None);
    assert_eq!(hex_digit(0xc3), None);
}

#[test]
fn hexadecimal_pairs_agree_with_std() {
    for value in 0..=255u8 {
        let lower = format!("{:02x}", value);
        let upper = format!("{:02X}", value);
        assert_eq!(hex_pair(lower.as_bytes()[0], lower.as_bytes()[1]), Some(value));
        assert_eq!(hex_pair(upper.as_bytes()[0], upper.as_bytes()[1]), Some(value));
    }
    assert_eq!(hex_pair(b'f', b'g'), None);
    assert_eq!(hex_pair(b'g', b'f'), None);
}

#[test]
fn decimal_writes_numbers_without_leading_zeros() {
    assert_eq!(decimal(0), "0");
    assert_eq!(decimal(7), "7");
    assert_eq!(decimal(10), "10");
    assert_eq!(decimal(255), "255");
    assert_eq!(decimal(1000), "1000");
    assert_eq!(decimal(usize::MAX), usize::MAX.to_string());
}
