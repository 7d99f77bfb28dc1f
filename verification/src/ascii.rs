//! The ASCII bytes that the lexer tells apart, by name.
use vstd::prelude::*;

verus! {

/// `"`
pub const QUOTE: u8 = 0x22;

/// `+`
pub const PLUS: u8 = 0x2b;

/// `-`
pub const MINUS: u8 = 0x2d;

/// `.`
pub const DOT: u8 = 0x2e;

/// `/`
pub const SLASH: u8 = 0x2f;

/// `0`
pub const DIGIT_0: u8 = 0x30;

/// `9`
pub const DIGIT_9: u8 = 0x39;

/// `A`
pub const UPPER_A: u8 = 0x41;

/// `E`
pub const UPPER_E: u8 = 0x45;

/// `F`
pub const UPPER_F: u8 = 0x46;

/// `\`
pub const BACKSLASH: u8 = 0x5c;

/// `a`
pub const LOWER_A: u8 = 0x61;

/// `b`
pub const LOWER_B: u8 = 0x62;

/// `e`
pub const LOWER_E: u8 = 0x65;

/// `f`
pub const LOWER_F: u8 = 0x66;

/// `n`
pub const LOWER_N: u8 = 0x6e;

/// `r`
pub const LOWER_R: u8 = 0x72;

/// `t`
pub const LOWER_T: u8 = 0x74;

/// `u`
pub const LOWER_U: u8 = 0x75;

/// Whether `b` is one of `0` to `9`.
pub open spec fn is_digit(b: u8) -> bool {
    DIGIT_0 <= b <= DIGIT_9
}

} // verus!
