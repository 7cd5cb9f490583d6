pub mod ident;
pub mod ty;




pub use crate::span::{GetSpan, Span};
pub mod operator;
pub mod expression;
pub mod structure;
