//! The ASCII bytes that the gateway's grammars are written in.

use vstd::prelude::*;

verus! {

/// `\n`
pub const NEWLINE: u8 = 0x0A;

/// `%`
pub const PERCENT: u8 = 0x25;

/// `&`
pub const AMPERSAND: u8 = 0x26;

/// `+`
pub const PLUS: u8 = 0x2B;

/// `.`
pub const DOT: u8 = 0x2E;

/// `/`
pub const SLASH: u8 = 0x2F;

/// `0`
pub const DIGIT_0: u8 = 0x30;

/// `9`
pub const DIGIT_9: u8 = 0x39;

/// `=`
pub const EQUALS: u8 = 0x3D;

/// `?`
pub const QUESTION: u8 = 0x3F;

/// `A`
pub const UPPER_A: u8 = 0x41;

/// `F`
pub const UPPER_F: u8 = 0x46;

/// `a`
pub const LOWER_A: u8 = 0x61;

/// `f`
pub const LOWER_F: u8 = 0x66;

} // verus!
