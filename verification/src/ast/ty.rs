use vstd::prelude::*;
use crate::span::{GetSpan, Span};
use crate::ast::ident::{IdentAST, QualifiedAST, join_parts};
use crate::intrinsics::{Intrinsic, intrinsic_name};

verus! {

/// A literal value as written.
#[derive(Debug, Clone)]
pub enum Literal {
    UnicodeString(String),
    ByteString(String),
    CString(String),
    Char(char),
    ByteChar(char),
    FloatLiteral(String),
    IntLiteral(String),
}

#[derive(Debug, Clone)]
pub struct LiteralAST {
    pub span: Span,
    pub l: Literal,
}

/// A bound on a generic parameter: the trait it must implement, by name.
#[derive(Debug, Clone)]
pub enum GenericConstraint {
    ExtendsTrait(QualifiedAST),
}

/// A type. Resolved references to declared items name the item they
/// resolved to; `Defined` holds the definition it stands for.
#[derive(Debug)]
pub enum Type {
    Intrinsic(Intrinsic),
    Function(QualifiedAST),
    External(QualifiedAST),
    Struct(QualifiedAST),
    ConstReferenceTo(Box<TypeAST>),
    MutReferenceTo(Box<TypeAST>),
    ConstPtrTo(Box<TypeAST>),
    MutPtrTo(Box<TypeAST>),
    ArrayOf(Option<LiteralAST>, Box<TypeAST>),
    Defined(Box<TypeAST>),
    Generic(IdentAST, Vec<GenericConstraint>),
    Unknown(QualifiedAST),
    UnresolvedLiteral(Literal),
    Unresolved,
}

#[derive(Debug)]
pub struct TypeAST {
    pub span: Span,
    pub e: Type,
}

/// The literal is a number.
pub open spec fn is_numeric(l: Literal) -> bool {
    l is FloatLiteral || l is IntLiteral
}

/// The text of a numeric literal.
pub open spec fn numeric_text(l: Literal) -> Seq<char> {
    match l {
        Literal::FloatLiteral(t) => t@,
        Literal::IntLiteral(t) => t@,
        _ => Seq::empty(),
    }
}

/// The type can be written as a key: it is built only of intrinsics,
/// references, pointers, arrays of numeric length, definitions and
/// unresolved names.
pub open spec fn has_hashable(t: Type) -> bool
    decreases t,
{
    match t {
        Type::Intrinsic(_) => true,
        Type::ConstReferenceTo(ty) => has_hashable(ty.e),
        Type::MutReferenceTo(ty) => has_hashable(ty.e),
        Type::ConstPtrTo(ty) => has_hashable(ty.e),
        Type::MutPtrTo(ty) => has_hashable(ty.e),
        Type::ArrayOf(sz, ty) => (match sz {
            Some(l) => is_numeric(l.l),
            None => true,
        }) && has_hashable(ty.e),
        Type::Defined(ty) => has_hashable(ty.e),
        Type::Unknown(_) => true,
        _ => false,
    }
}

/// The key a type is written as.
pub open spec fn type_hashable(t: Type) -> Seq<char>
    decreases t,
{
    match t {
        Type::Intrinsic(i) => intrinsic_name(i),
        Type::ConstReferenceTo(ty) => "&"@ + type_hashable(ty.e),
        Type::MutReferenceTo(ty) => "&mut "@ + type_hashable(ty.e),
        Type::ConstPtrTo(ty) => "*"@ + type_hashable(ty.e),
        Type::MutPtrTo(ty) => "*mut "@ + type_hashable(ty.e),
        Type::ArrayOf(sz, ty) => match sz {
            Some(l) => "["@ + numeric_text(l.l) + "]"@ + type_hashable(ty.e),
            None => "[]"@ + type_hashable(ty.e),
        },
        Type::Defined(ty) => type_hashable(ty.e),
        Type::Unknown(q) => join_parts(q.parts@),
        _ => Seq::empty(),
    }
}

fn concat(a: &str, b: String) -> (r: String)
    ensures
        r@ == a@ + b@,
{
    let mut out = String::from_str(a);
    out.append(b.as_str());
    out
}

impl LiteralAST {
    /// The text of a numeric literal.
    pub fn to_hashable(&self) -> (r: String)
        requires
            is_numeric(self.l),
        ensures
            r@ == numeric_text(self.l),
    {
        match &self.l {
            Literal::FloatLiteral(text) => text.clone(),
            Literal::IntLiteral(text) => text.clone(),
            _ => String::new(),
        }
    }
}

impl Type {
    /// The type written out as a key.
    pub fn to_hashable(&self) -> (r: String)
        requires
            has_hashable(*self),
        ensures
            r@ == type_hashable(*self),
        decreases *self,
    {
        match self {
            Type::Intrinsic(s) => s.get_name(),
            Type::ConstReferenceTo(ty) => concat("&", ty.e.to_hashable()),
            Type::MutReferenceTo(ty) => concat("&mut ", ty.e.to_hashable()),
            Type::ConstPtrTo(ty) => concat("*", ty.e.to_hashable()),
            Type::MutPtrTo(ty) => concat("*mut ", ty.e.to_hashable()),
            Type::ArrayOf(sz, ty) => match sz {
                Some(sz) => {
                    let mut out = concat("[", sz.to_hashable());
                    out.append("]");
                    out.append(ty.e.to_hashable().as_str());
                    out
                },
                None => concat("[]", ty.e.to_hashable()),
            },
            Type::Defined(ty) => ty.e.to_hashable(),
            Type::Unknown(qual) => qual.to_hashable(),
            _ => String::new(),
        }
    }
}

impl TypeAST {
    /// The type written out as a key.
    pub fn to_hashable(&self) -> (r: String)
        requires
            has_hashable(self.e),
        ensures
            r@ == type_hashable(self.e),
    {
        self.e.to_hashable()
    }
}

impl GetSpan for TypeAST {
    fn span(&self) -> (r: Span)
        ensures
            r == self.span,
    {
        self.span
    }
}

impl GetSpan for LiteralAST {
    fn span(&self) -> (r: Span)
        ensures
            r == self.span,
    {
        self.span
    }
}

} // verus!
