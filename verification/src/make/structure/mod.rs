//! Functions, methods, implementations, structs, traits, type aliases,
//! foreign declarations and namespaces.
pub mod grammar;
pub mod function;
pub mod implementation;
pub mod items;
pub mod namespace;
