pub mod ident;
pub mod literal;
pub mod qualified;
pub mod ty;
pub mod expression;
pub mod structure;
