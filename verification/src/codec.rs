//! Decoders for the values of presentation options: hexadecimal colours and
//! booleans.

use vstd::prelude::*;
use crate::text::{range_is, to_chars, trim_end, trim_end_index};

verus! {

/// An opaque colour as written in a presentation: one byte per sRGB channel.
///
/// Gamma decoding to linear light needs floating point and is left to the
/// renderer; the alpha channel is always fully opaque.
#[derive(Clone, Copy, Debug, PartialEq, Eq, Structural)]
pub struct SrgbColour {
    pub red: u8,
    pub green: u8,
    pub blue: u8,
}

/// The value of a hexadecimal digit, of either case.
pub open spec fn hex_digit_value(c: char) -> Option<int> {
    if '0' <= c <= '9' {
        Some(c as int - '0' as int)
    } else if 'a' <= c <= 'f' {
        Some(c as int - 'a' as int + 10)
    } else if 'A' <= c <= 'F' {
        Some(c as int - 'A' as int + 10)
    } else {
        None
    }
}

/// The byte that two hexadecimal digits spell, most significant first.
pub open spec fn hex_byte_value(high: char, low: char) -> Option<int> {
    match (hex_digit_value(high), hex_digit_value(low)) {
        (Some(h), Some(l)) => Some(16 * h + l),
        _ => None,
    }
}

/// The digits of a colour value: the text without one leading `#` and
/// without trailing whitespace.
pub open spec fn colour_digits(text: Seq<char>) -> Seq<char> {
    if text.len() > 0 && text.first() == '#' {
        trim_end(text.drop_first())
    } else {
        trim_end(text)
    }
}

/// The colour that `text` spells, if it spells one: exactly six hexadecimal
/// digits after an optional `#`, two per channel in the order red, green,
/// blue.
pub open spec fn colour_of(text: Seq<char>) -> Option<SrgbColour> {
    let digits = colour_digits(text);
    if digits.len() != 6 {
        None
    } else {
        match (
            hex_byte_value(digits[0], digits[1]),
            hex_byte_value(digits[2], digits[3]),
            hex_byte_value(digits[4], digits[5]),
        ) {
            (Some(r), Some(g), Some(b)) => Some(
                SrgbColour { red: r as u8, green: g as u8, blue: b as u8 },
            ),
            _ => None,
        }
    }
}

/// The boolean that `text` spells: only the exact words `true` and `false`
/// spell one.
pub open spec fn bool_of(text: Seq<char>) -> Option<bool> {
    if text == "true"@ {
        Some(true)
    } else if text == "false"@ {
        Some(false)
    } else {
        None
    }
}

fn parse_hex_digit(c: char) -> (value: Option<u8>)
    ensures
        match value {
            Some(v) => hex_digit_value(c) == Some(v as int) && v < 16,
            None => hex_digit_value(c) is None,
        },
{
    let code: u32 = c as u32;
    if 0x30 <= code && code <= 0x39 {
        Some((code - 0x30) as u8)
    } else if 0x61 <= code && code <= 0x66 {
        Some((code - 0x61 + 10) as u8)
    } else if 0x41 <= code && code <= 0x46 {
        Some((code - 0x41 + 10) as u8)
    } else {
        None
    }
}

fn parse_hex_byte(high: char, low: char) -> (value: Option<u8>)
    ensures
        match value {
            Some(v) => hex_byte_value(high, low) == Some(v as int),
            None => hex_byte_value(high, low) is None,
        },
{
    match (parse_hex_digit(high), parse_hex_digit(low)) {
        (Some(h), Some(l)) => Some(16 * h + l),
        _ => None,
    }
}

/// Decodes the colour value held in `chars[start..end]`.
pub fn parse_colour_in(chars: &Vec<char>, start: usize, end: usize) -> (colour: Option<SrgbColour>)
    requires
        start <= end <= chars.len(),
    ensures
        colour == colour_of(chars@.subrange(start as int, end as int)),
{
    let ghost text = chars@.subrange(start as int, end as int);
    let first: usize = if start < end && chars[start] == '#' {
        assert(text.drop_first() == chars@.subrange(start + 1, end as int));
        start + 1
    } else {
        start
    };
    let last = trim_end_index(chars, first, end);
    let ghost digits = chars@.subrange(first as int, last as int);
    assert(digits == colour_digits(text));
    if last - first != 6 {
        return None;
    }
    let red = parse_hex_byte(chars[first], chars[first + 1]);
    let green = parse_hex_byte(chars[first + 2], chars[first + 3]);
    let blue = parse_hex_byte(chars[first + 4], chars[first + 5]);
    match (red, green, blue) {
        (Some(r), Some(g), Some(b)) => Some(SrgbColour { red: r, green: g, blue: b }),
        _ => None,
    }
}

/// Decodes the boolean held in `chars[start..end]`.
pub fn parse_bool_in(chars: &Vec<char>, start: usize, end: usize) -> (value: Option<bool>)
    requires
        start <= end <= chars.len(),
    ensures
        value == bool_of(chars@.subrange(start as int, end as int)),
{
    if range_is(chars, start, end, "true") {
        Some(true)
    } else if range_is(chars, start, end, "false") {
        Some(false)
    } else {
        None
    }
}

/// Decodes a colour written as six hexadecimal digits, with an optional
/// leading `#` and optional trailing whitespace.
pub fn parse_colour_hex_code(hex_value: &str) -> (colour: Option<SrgbColour>)
    ensures
        colour == colour_of(hex_value@),
{
    let chars = to_chars(hex_value);
    assert(chars@.subrange(0, chars.len() as int) == chars@);
    parse_colour_in(&chars, 0, chars.len())
}

/// Decodes a boolean: `true` or `false`, and nothing else.
pub fn parse_bool(bool_string: &str) -> (value: Option<bool>)
    ensures
        value == bool_of(bool_string@),
{
    let chars = to_chars(bool_string);
    assert(chars@.subrange(0, chars.len() as int) == chars@);
    parse_bool_in(&chars, 0, chars.len())
}

} // verus!
