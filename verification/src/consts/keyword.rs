use vstd::prelude::*;

verus! {

pub const FN: &'static str = "fn";
pub const TYPE: &'static str = "type";
pub const STRUCT: &'static str = "struct";
pub const INTERFACE: &'static str = "interface";
pub const TRAIT: &'static str = "trait";
pub const IMPL: &'static str = "impl";
pub const IMPLEMENTS: &'static str = "implements";
pub const EXTENDS: &'static str = "extends";
pub const EXTERN: &'static str = "extern";
pub const NAMESPACE: &'static str = "namespace";
pub const PUB: &'static str = "pub";
pub const STATIC: &'static str = "static";
pub const MUT: &'static str = "mut";
pub const INFER: &'static str = "infer";
pub const IMPORT: &'static str = "import";
pub const FROM: &'static str = "from";
pub const EXPORT: &'static str = "export";
pub const IF: &'static str = "if";
pub const ELSE: &'static str = "else";
pub const DO: &'static str = "do";
pub const WHILE: &'static str = "while";
pub const LOOP: &'static str = "loop";
pub const FOR: &'static str = "for";
pub const RETURN: &'static str = "return";
pub const BREAK: &'static str = "break";
pub const AS: &'static str = "as";

} // verus!
