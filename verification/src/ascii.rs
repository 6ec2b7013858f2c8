//! The bytes that text scenarios give a meaning to.

use vstd::prelude::*;

verus! {

pub const NUL: u8 = 0x00;

pub const TAB: u8 = 0x09;

pub const LINE_FEED: u8 = 0x0a;

pub const CARRIAGE_RETURN: u8 = 0x0d;

pub const SPACE: u8 = 0x20;

pub const DIGIT_0: u8 = 0x30;

pub const DIGIT_9: u8 = 0x39;

pub const UPPER_A: u8 = 0x41;

pub const UPPER_D: u8 = 0x44;

pub const UPPER_E: u8 = 0x45;

pub const UPPER_F: u8 = 0x46;

pub const UPPER_I: u8 = 0x49;

pub const UPPER_N: u8 = 0x4e;

pub const UPPER_Q: u8 = 0x51;

pub const UPPER_R: u8 = 0x52;

pub const UPPER_T: u8 = 0x54;

pub const UPPER_W: u8 = 0x57;

pub const UPPER_X: u8 = 0x58;

pub const UPPER_Z: u8 = 0x5a;

pub const BACKSLASH: u8 = 0x5c;

pub const LOWER_A: u8 = 0x61;

pub const LOWER_F: u8 = 0x66;

pub const LOWER_I: u8 = 0x69;

pub const LOWER_N: u8 = 0x6e;

pub const LOWER_Q: u8 = 0x71;

pub const LOWER_R: u8 = 0x72;

pub const LOWER_T: u8 = 0x74;

pub const LOWER_W: u8 = 0x77;

pub const LOWER_X: u8 = 0x78;

pub const LOWER_Z: u8 = 0x7a;

pub const BAR: u8 = 0x7c;

} // verus!
