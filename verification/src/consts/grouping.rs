use vstd::prelude::*;

verus! {

pub const OPEN_BRACE: &'static str = "{";
pub const CLOSE_BRACE: &'static str = "}";
pub const OPEN_BRACKET: &'static str = "[";
pub const CLOSE_BRACKET: &'static str = "]";
pub const OPEN_PARENTHESIS: &'static str = "(";
pub const CLOSE_PARENTHESIS: &'static str = ")";
pub const OPEN_CHEVRON: &'static str = "<";
pub const CLOSE_CHEVRON: &'static str = ">";
pub const OPEN_MULTILINE_COMMENT: &'static str = "/*";
pub const CLOSE_MULTILINE_COMMENT: &'static str = "*/";

} // verus!
