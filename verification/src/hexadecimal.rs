//! Byte strings as hexadecimal text.

use crate::text::concat;
use crate::text::decimal;
use crate::text::decimal_string;
use vstd::prelude::*;
use vstd::string::*;
use vstd::utf8::encode_utf8;
use vstd::utf8::is_ascii_chars;
use vstd::utf8::is_ascii_chars_encode_utf8;

verus! {

/// The lower-case character of a hexadecimal digit.
pub open spec fn hex_digit(d: int) -> char {
    if d < 10 {
        (48 + d) as char
    } else {
        (87 + d) as char
    }
}

/// `bytes` in hexadecimal, two lower-case digits each.
pub open spec fn hex_text(bytes: Seq<u8>) -> Seq<char> {
    Seq::new(
        2 * bytes.len(),
        |i: int|
            if i % 2 == 0 {
                hex_digit(bytes[i / 2] as int / 16)
            } else {
                hex_digit(bytes[i / 2] as int % 16)
            },
    )
}

/// `hex::encode`: two lower-case digits per byte.
#[verifier::external_body]
pub(crate) fn hex_encode(bytes: &[u8]) -> (text: String)
    ensures
        text@ == hex_text(bytes@),
{
    hex::encode(bytes)
}

/// The value of a hexadecimal digit of either case.
pub open spec fn hex_value(c: u8) -> Option<int> {
    if 48 <= c <= 57 {
        Some(c - 48)
    } else if 65 <= c <= 70 {
        Some(c - 55)
    } else if 97 <= c <= 102 {
        Some(c - 87)
    } else {
        None
    }
}

/// `i` is the first position in `digits` that holds no hexadecimal digit.
pub open spec fn first_bad(digits: Seq<u8>, i: int) -> bool {
    0 <= i < digits.len() && hex_value(digits[i]) is None && forall|j: int|
        0 <= j < i ==> hex_value(#[trigger] digits[j]) is Some
}

/// `bytes` is what `digits` spell, two each.
pub open spec fn spells(digits: Seq<u8>, bytes: Seq<u8>) -> bool {
    &&& digits.len() == 2 * bytes.len()
    &&& forall|i: int|
        0 <= i < bytes.len() ==> hex_value(digits[2 * i]) is Some && hex_value(digits[2 * i + 1])
            is Some && (#[trigger] bytes[i]) == 16 * hex_value(digits[2 * i])->0 + hex_value(
            digits[2 * i + 1],
        )->0
}

/// What was written in hexadecimal reads back as the same bytes, and as no
/// others.
pub proof fn hex_roundtrip(bytes: Seq<u8>, other: Seq<u8>)
    ensures
        encode_utf8(hex_text(bytes)).len() == 2 * bytes.len(),
        spells(encode_utf8(hex_text(bytes)), bytes),
        spells(encode_utf8(hex_text(bytes)), other) ==> other == bytes,
{
    let text = hex_text(bytes);
    let digits = encode_utf8(text);
    assert forall|i: int| 0 <= i < text.len() implies 48 <= (#[trigger] text[i]) as u32 <= 102 by {
        let b = bytes[i / 2];
        assert(0 <= b as int / 16 < 16);
        assert(0 <= b as int % 16 < 16);
    }
    assert(is_ascii_chars(text));
    is_ascii_chars_encode_utf8(text);
    assert(digits =~= Seq::new(text.len(), |i: int| text[i] as u8));
    assert forall|i: int| 0 <= i < bytes.len() implies hex_value(digits[2 * i]) is Some
        && hex_value(digits[2 * i + 1]) is Some && (#[trigger] bytes[i]) == 16 * hex_value(
        digits[2 * i],
    )->0 + hex_value(digits[2 * i + 1])->0 by {
        let b = bytes[i];
        assert((2 * i) / 2 == i && (2 * i + 1) / 2 == i);
        assert((2 * i) % 2 == 0 && (2 * i + 1) % 2 == 1);
        assert(text[2 * i] == hex_digit(b as int / 16));
        assert(text[2 * i + 1] == hex_digit(b as int % 16));
        assert(hex_value(digits[2 * i]) == Some(b as int / 16));
        assert(hex_value(digits[2 * i + 1]) == Some(b as int % 16));
    }
    if spells(digits, other) {
        assert forall|i: int| 0 <= i < bytes.len() implies other[i] == bytes[i] by {
            let b = bytes[i];
            let o = other[i];
        }
        assert(other =~= bytes);
    }
}

/// Why a text is not hexadecimal.
#[derive(Clone, Copy, Debug)]
pub enum HexError {
    InvalidCharacter { c: char, index: usize },
    OddLength,
    InvalidLength,
}

/// `hex::decode`, on the text's UTF-8 bytes: refused for an odd length, then
/// for the first byte that is no digit; otherwise what the digits spell.
#[verifier::external_body]
pub(crate) fn hex_decode(text: &str) -> (bytes: Result<Vec<u8>, HexError>)
    ensures
        match bytes {
            Ok(bytes) => spells(encode_utf8(text@), bytes@),
            Err(HexError::OddLength) => encode_utf8(text@).len() % 2 == 1,
            Err(HexError::InvalidCharacter { c, index }) => encode_utf8(text@).len() % 2 == 0
                && first_bad(encode_utf8(text@), index as int) && c as int == encode_utf8(
                text@,
            )[index as int],
            Err(HexError::InvalidLength) => false,
        },
{
    hex::decode(text).map_err(
        |error|
            match error {
                hex::FromHexError::InvalidHexCharacter { c, index } => HexError::InvalidCharacter {
                    c,
                    index,
                },
                hex::FromHexError::OddLength => HexError::OddLength,
                hex::FromHexError::InvalidStringLength => HexError::InvalidLength,
            },
    )
}

/// The text that `{:?}` renders a character as.
pub uninterp spec fn debug_char_text(c: char) -> Seq<char>;

/// `format!("{:?}")` of a character: quoted and escaped, a function of the
/// character alone.
#[verifier::external_body]
pub(crate) fn debug_char(c: char) -> (text: String)
    ensures
        text@ == debug_char_text(c),
{
    format!("{:?}", c)
}

/// The text of a hexadecimal error.
pub open spec fn hex_error_text(error: HexError) -> Seq<char> {
    match error {
        HexError::InvalidCharacter { c, index } => "Invalid character "@ + debug_char_text(c)
            + " at position "@ + decimal(index as nat),
        HexError::OddLength => "Odd number of digits"@,
        HexError::InvalidLength => "Invalid string length"@,
    }
}

impl HexError {
    /// The error as text.
    pub fn message(&self) -> (text: String)
        ensures
            text@ == hex_error_text(*self),
    {
        match self {
            HexError::InvalidCharacter { c, index } => {
                let shown: String = debug_char(*c);
                let mut text: String = concat("Invalid character ", shown.as_str());
                text.append(" at position ");
                let at: String = decimal_string(*index as u64);
                text.append(at.as_str());
                text
            },
            HexError::OddLength => "Odd number of digits".to_owned(),
            HexError::InvalidLength => "Invalid string length".to_owned(),
        }
    }
}

/// A digit counts by its place in its range, and nothing else is a digit.
pub proof fn digits_count_by_their_place(c: u8, i: u8)
    ensures
        i < 10 ==> hex_value((0x30 + i) as u8) == Some(i as int),
        i < 6 ==> hex_value((0x41 + i) as u8) == Some(10 + i),
        i < 6 ==> hex_value((0x61 + i) as u8) == Some(10 + i),
        !(0x30 <= c <= 0x39) && !(0x41 <= c <= 0x46) && !(0x61 <= c <= 0x66) ==> hex_value(c)
            is None,
{
}

/// A byte is written as its higher and then its lower half, in lower case.
pub proof fn bytes_are_written_high_half_first(bytes: Seq<u8>, i: int)
    requires
        0 <= i < bytes.len(),
    ensures
        hex_text(bytes).len() == 2 * bytes.len(),
        hex_text(bytes)[2 * i] == hex_digit(bytes[i] as int / 16),
        hex_text(bytes)[2 * i + 1] == hex_digit(bytes[i] as int % 16),
        forall|d: int|
            0 <= d < 10 ==> (#[trigger] hex_digit(d)) as int == '0' as int + d,
        forall|d: int|
            10 <= d < 16 ==> (#[trigger] hex_digit(d)) as int == 'a' as int + d - 10,
{
}

/// Digits spell bytes pair by pair, the higher half first.
pub proof fn digits_spell_pair_by_pair(digits: Seq<u8>, bytes: Seq<u8>, i: int)
    requires
        spells(digits, bytes),
        0 <= i < bytes.len(),
    ensures
        digits.len() == 2 * bytes.len(),
        hex_value(digits[2 * i]) is Some,
        hex_value(digits[2 * i + 1]) is Some,
        bytes[i] == 16 * hex_value(digits[2 * i])->0 + hex_value(digits[2 * i + 1])->0,
{
    assert(bytes[i] == 16 * hex_value(digits[2 * i])->0 + hex_value(digits[2 * i + 1])->0);
}

/// A text that is refused for a character is refused for its first one that is
/// no digit.
pub proof fn first_bad_digits_are_unique(digits: Seq<u8>, i: int, j: int)
    requires
        first_bad(digits, i),
    ensures
        0 <= i < digits.len(),
        hex_value(digits[i]) is None,
        0 <= j < i ==> hex_value(digits[j]) is Some,
        first_bad(digits, j) ==> j == i,
{
    if first_bad(digits, j) && j < i {
        assert(hex_value(digits[j]) is Some);
    }
    if first_bad(digits, j) && i < j {
        assert(hex_value(digits[i]) is Some);
    }
}

/// An error tells the character and its position, or what is wrong with the
/// length.
pub proof fn hex_errors_tell_the_place(c: char, index: usize)
    ensures
        hex_error_text(HexError::InvalidCharacter { c, index }) == "Invalid character "@
            + debug_char_text(c) + " at position "@ + decimal(index as nat),
        hex_error_text(HexError::OddLength) == "Odd number of digits"@,
        hex_error_text(HexError::InvalidLength) == "Invalid string length"@,
{
}

} // verus!
