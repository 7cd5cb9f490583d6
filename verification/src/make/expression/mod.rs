//! The expression grammar: operands, operators and their folding by
//! precedence, blocks, bindings and control flow.
pub mod grammar;
pub mod relate;
pub mod pemdas;
pub mod expr;
pub mod sub;
pub mod atom;
pub mod binding;
pub mod block;
pub mod control_flow;
