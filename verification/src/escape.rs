//! Escape sequences: the byte after a backslash, and the hexadecimal digits after `u`.
use crate::ascii::{
    is_digit, BACKSLASH, DIGIT_0, DIGIT_9, LOWER_A, LOWER_B, LOWER_F, LOWER_N, LOWER_R, LOWER_T,
    LOWER_U, QUOTE, SLASH, UPPER_A, UPPER_F,
};
use crate::error;
use vstd::prelude::*;

verus! {

/// A decoded escape sequence.
///
/// The eight single-character escapes each have a variant of their own;
/// `Unicode` carries the UTF-16 code unit written as `\uXXXX`, which may be
/// one half of a surrogate pair.
#[derive(Clone, Copy, Debug, PartialEq, Eq)]
pub enum Escape {
    /// `\"`
    QuotationMark,
    /// `\\`
    ReverseSolidus,
    /// `\/`
    Solidus,
    /// `\b`
    Backspace,
    /// `\f`
    FormFeed,
    /// `\n`
    LineFeed,
    /// `\r`
    CarriageReturn,
    /// `\t`
    Tab,
    /// `\uXXXX`
    Unicode(u16),
}

/// The escape that the byte `kind` introduces when it follows a backslash.
///
/// For `u` this is `Unicode(0)`: the code unit is known only once the four
/// hexadecimal digits have been read.
pub open spec fn escape_kind(kind: u8) -> Option<Escape> {
    if kind == QUOTE {
        Some(Escape::QuotationMark)
    } else if kind == BACKSLASH {
        Some(Escape::ReverseSolidus)
    } else if kind == SLASH {
        Some(Escape::Solidus)
    } else if kind == LOWER_B {
        Some(Escape::Backspace)
    } else if kind == LOWER_F {
        Some(Escape::FormFeed)
    } else if kind == LOWER_N {
        Some(Escape::LineFeed)
    } else if kind == LOWER_R {
        Some(Escape::CarriageReturn)
    } else if kind == LOWER_T {
        Some(Escape::Tab)
    } else if kind == LOWER_U {
        Some(Escape::Unicode(0))
    } else {
        None
    }
}

/// The value of the hexadecimal digit `b`, in either case, if it is one.
pub open spec fn hex_digit(b: u8) -> Option<u8> {
    if is_digit(b) {
        Some((b - DIGIT_0) as u8)
    } else if LOWER_A <= b <= LOWER_F {
        Some((b - LOWER_A + 10) as u8)
    } else if UPPER_A <= b <= UPPER_F {
        Some((b - UPPER_A + 10) as u8)
    } else {
        None
    }
}

/// The number that four hexadecimal digits write, most significant first,
/// if all four bytes are hexadecimal digits.
pub open spec fn hex4(hex: Seq<u8>) -> Option<u16>
    recommends
        hex.len() == 4,
{
    match (hex_digit(hex[0]), hex_digit(hex[1]), hex_digit(hex[2]), hex_digit(hex[3])) {
        (Some(a), Some(b), Some(c), Some(d)) => Some((a * 4096 + b * 256 + c * 16 + d) as u16),
        _ => None,
    }
}

/// How many bytes the escape sequence at the front of `s` takes, the
/// backslash not counted: the byte that tells its kind, and after `u` the
/// four bytes that follow, if `s` has that many. They are read even where
/// they do not make a valid escape sequence.
pub open spec fn escape_len(s: Seq<u8>) -> int {
    if s.len() == 0 {
        0
    } else if s[0] == LOWER_U && s.len() >= 5 {
        5
    } else {
        1
    }
}

/// The escape sequence at the front of `s`, the backslash not counted, or why there is none.
pub open spec fn decode_escape(s: Seq<u8>) -> Result<Escape, error::Escape> {
    if s.len() == 0 {
        Err(error::Escape::Eof)
    } else {
        match escape_kind(s[0]) {
            None => Err(error::Escape::UnknownKind),
            Some(Escape::Unicode(_)) => if s.len() < 5 {
                Err(error::Escape::Eof)
            } else {
                match hex4(s.subrange(1, 5)) {
                    Some(unit) => Ok(Escape::Unicode(unit)),
                    None => Err(error::Escape::InvalidHex),
                }
            },
            Some(escape) => Ok(escape),
        }
    }
}

impl Escape {
    /// Classifies the byte that follows a backslash.
    pub fn try_from(c: u8) -> (escape: Option<Escape>)
        ensures
            escape == escape_kind(c),
    {
        match c {
            QUOTE => Some(Escape::QuotationMark),
            BACKSLASH => Some(Escape::ReverseSolidus),
            SLASH => Some(Escape::Solidus),
            LOWER_B => Some(Escape::Backspace),
            LOWER_F => Some(Escape::FormFeed),
            LOWER_N => Some(Escape::LineFeed),
            LOWER_R => Some(Escape::CarriageReturn),
            LOWER_T => Some(Escape::Tab),
            LOWER_U => Some(Escape::Unicode(0)),
            _ => None,
        }
    }
}

/// Decodes one hexadecimal digit.
pub fn decode_hex(val: u8) -> (digit: Option<u8>)
    ensures
        digit == hex_digit(val),
        digit matches Some(d) ==> d < 16,
{
    if DIGIT_0 <= val && val <= DIGIT_9 {
        Some(val - DIGIT_0)
    } else if LOWER_A <= val && val <= LOWER_F {
        Some(val - LOWER_A + 10)
    } else if UPPER_A <= val && val <= UPPER_F {
        Some(val - UPPER_A + 10)
    } else {
        None
    }
}

/// Decodes four hexadecimal digits, most significant first, to a 16-bit number.
pub fn decode_hex4(hex: [u8; 4]) -> (value: Option<u16>)
    ensures
        value == hex4(hex@),
{
    match (decode_hex(hex[0]), decode_hex(hex[1]), decode_hex(hex[2]), decode_hex(hex[3])) {
        (Some(a), Some(b), Some(c), Some(d)) => Some(
            a as u16 * 4096 + b as u16 * 256 + c as u16 * 16 + d as u16,
        ),
        _ => None,
    }
}

} // verus!
