use vstd::prelude::*;

verus! {

pub const RIGHT_ARROW: &'static str = "->";
pub const COLON: &'static str = ":";
pub const COMMA: &'static str = ",";
pub const SEMICOLON: &'static str = ";";
pub const DOUBLE_COLON: &'static str = "::";
pub const LINE_COMMENT: &'static str = "//";
pub const BOLLOCKS: &'static str = ":=";
pub const QUOTE: &'static str = "\"";
pub const APOSTROPHE: &'static str = "'";
pub const BACKSLASH: &'static str = "\\";
pub const AMPERSAND: &'static str = "&";
pub const HEX_PFX: &'static str = "0x";
pub const BIN_PFX: &'static str = "0b";
pub const OCT_PFX: &'static str = "0o";
pub const U8_SFX: &'static str = "u8";
pub const U16_SFX: &'static str = "u16";
pub const U32_SFX: &'static str = "u32";
pub const U64_SFX: &'static str = "u64";
pub const U128_SFX: &'static str = "u128";
pub const USIZE_SFX: &'static str = "usize";
pub const I8_SFX: &'static str = "i8";
pub const I16_SFX: &'static str = "i16";
pub const I32_SFX: &'static str = "i32";
pub const I64_SFX: &'static str = "i64";
pub const I128_SFX: &'static str = "i128";
pub const ISIZE_SFX: &'static str = "isize";

} // verus!
