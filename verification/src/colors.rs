use vstd::prelude::*;

verus! {

/// Terminal escape sequences for the styles of diagnostics.
pub const BOLD: &'static str = "\x1b[1m";
pub const RED: &'static str = "\x1b[31m";
pub const YELLOW: &'static str = "\x1b[33m";
pub const MAGENTA: &'static str = "\x1b[35m";
pub const CYAN: &'static str = "\x1b[36m";
pub const DARK_GRAY: &'static str = "\x1b[90m";
pub const CLEAR: &'static str = "\x1b[0m";

} // verus!
