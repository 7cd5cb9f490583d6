//! A verified front end for a small systems language: a character-level
//! source reader, whitespace and comment skipping, literal, identifier, type
//! and expression parsers, operator-precedence folding, diagnostics
//! formatting and command-line argument handling.
pub mod span;
pub mod errors;
pub mod source_reader;
pub mod consts;
pub mod seek_read;
pub mod intrinsics;
pub mod ast;
pub mod chars;
pub mod colors;
pub mod make;
pub mod bufreader;
pub mod arg_parser;
pub mod laws;
pub mod tables;
