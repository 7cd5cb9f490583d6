//! Bookkeeping for a reader of UTF-8 text.

/// Line, column, indentation and byte position of what was read.
pub mod meta;
