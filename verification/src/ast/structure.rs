use vstd::prelude::*;
use crate::span::{GetSpan, Span};
use crate::ast::ident::{IdentAST, KeywordAST, QualifiedAST};
use crate::ast::ty::{LiteralAST, TypeAST};
use crate::ast::expression::BlockExpressionAST;

verus! {

/// A generic parameter, free or bounded by a type.
#[derive(Debug)]
pub enum TemplateConstraint {
    Unconstrained(IdentAST),
    Extends(IdentAST, TypeAST),
}

#[derive(Debug)]
pub struct TemplateAST {
    pub span: Span,
    pub constraints: Vec<TemplateConstraint>,
}

/// A named scope of structures, keyed by name in the order they were
/// declared; no name occurs twice.
#[derive(Debug)]
pub struct NamespaceAST {
    pub span: Span,
    pub ident: IdentAST,
    pub map: Vec<(String, Structure)>,
    pub imports: Vec<ImportAST>,
}

#[derive(Debug)]
pub struct FunctionAST {
    pub span: Span,
    pub decl: FunctionDeclAST,
    pub body: BlockExpressionAST,
    pub template: Option<TemplateAST>,
}

#[derive(Debug)]
pub struct StructAST {
    pub span: Span,
    pub ident: IdentAST,
    pub members: Vec<(TypeAST, IdentAST)>,
    pub template: Option<TemplateAST>,
}

/// A function's name, arguments and return type. Arguments are kept in the
/// order written; no name occurs twice, a later argument of the same name
/// replacing the type of the earlier.
#[derive(Debug)]
pub struct FunctionDeclAST {
    pub span: Span,
    pub ident: IdentAST,
    pub args: Vec<(IdentAST, TypeAST)>,
    pub ret: TypeAST,
}

#[derive(Debug)]
pub struct MemberFunctionDeclAST {
    pub span: Span,
    pub public: Option<KeywordAST>,
    pub static_keyword: Option<KeywordAST>,
    pub mut_keyword: Option<KeywordAST>,
    pub decl: FunctionDeclAST,
}

#[derive(Debug)]
pub struct MemberFunctionAST {
    pub span: Span,
    pub decl: MemberFunctionDeclAST,
    pub body: BlockExpressionAST,
    pub template: Option<TemplateAST>,
}

#[derive(Debug)]
pub struct TraitAST {
    pub span: Span,
    pub ident: IdentAST,
    pub decls: Vec<MemberFunctionDeclAST>,
    pub template: Option<TemplateAST>,
}

#[derive(Debug)]
pub struct ImplAST {
    pub span: Span,
    pub ty: TypeAST,
    pub methods: Vec<MemberFunctionAST>,
    pub template: Option<TemplateAST>,
}

#[derive(Debug)]
pub struct ImplForAST {
    pub span: Span,
    pub trait_name: QualifiedAST,
    pub ty: TypeAST,
    pub methods: Vec<MemberFunctionAST>,
    pub template: Option<TemplateAST>,
}

#[derive(Debug)]
pub enum Impl {
    Impl(ImplAST),
    ImplFor(ImplForAST),
}

#[derive(Debug)]
pub struct TypeAliasAST {
    pub span: Span,
    pub ident: IdentAST,
    pub ty: TypeAST,
    pub template: Option<TemplateAST>,
}

#[derive(Debug)]
pub struct ExternDeclAST {
    pub span: Span,
    pub ident: IdentAST,
    pub ret: TypeAST,
    pub args: Vec<(IdentAST, TypeAST)>,
    pub varargs: bool,
}

#[derive(Debug)]
pub enum ImportPatternAST {
    Qualify { span: Span, ident: IdentAST, child: Box<ImportPatternAST> },
    Brace { span: Span, children: Vec<ImportPatternAST> },
    Ident { span: Span, ident: IdentAST, alias: Option<IdentAST> },
}

#[derive(Debug)]
pub struct ImportAST {
    pub span: Span,
    pub pattern: ImportPatternAST,
    pub from: LiteralAST,
    pub ns: NamespaceAST,
}

/// A top-level item. Imported entries hold what they import.
#[derive(Debug)]
pub enum Structure {
    Namespace(NamespaceAST),
    Function(FunctionAST),
    Struct(StructAST),
    Trait(TraitAST),
    Impl(Impl),
    TypeAlias(TypeAliasAST),
    ExternDecl(ExternDeclAST),
    ImportedNamespace { ident: IdentAST, span: Span, ns: Box<NamespaceAST> },
    ImportedStructure { ident: IdentAST, span: Span, structure: Box<Structure> },
}

impl GetSpan for TemplateConstraint {
    /// A bounded parameter spans from its name to the end of its bound.
    fn span(&self) -> (r: Span)
        ensures
            r == match *self {
                TemplateConstraint::Unconstrained(i) => i.span,
                TemplateConstraint::Extends(i, t) => Span { start: i.span.start, end: t.span.end },
            },
    {
        match self {
            TemplateConstraint::Unconstrained(ident) => ident.span,
            TemplateConstraint::Extends(ident, ty) => Span { start: ident.span.start, end: ty.span.end },
        }
    }
}

/// The span of an impl block of either kind.
pub open spec fn impl_span(i: Impl) -> Span {
    match i {
        Impl::Impl(s) => s.span,
        Impl::ImplFor(s) => s.span,
    }
}

impl GetSpan for Impl {
    fn span(&self) -> (r: Span)
        ensures
            r == impl_span(*self),
    {
        match self {
            Impl::Impl(s) => s.span,
            Impl::ImplFor(s) => s.span,
        }
    }
}

impl GetSpan for ImportPatternAST {
    fn span(&self) -> (r: Span)
        ensures
            r == match *self {
                ImportPatternAST::Qualify { span, .. } => span,
                ImportPatternAST::Brace { span, .. } => span,
                ImportPatternAST::Ident { span, .. } => span,
            },
    {
        match self {
            ImportPatternAST::Qualify { span, .. } => *span,
            ImportPatternAST::Brace { span, .. } => *span,
            ImportPatternAST::Ident { span, .. } => *span,
        }
    }
}

/// The span of a structure of any kind.
pub open spec fn structure_span(s: Structure) -> Span {
    match s {
        Structure::Namespace(s) => s.span,
        Structure::Function(s) => s.span,
        Structure::Trait(s) => s.span,
        Structure::Impl(s) => impl_span(s),
        Structure::TypeAlias(s) => s.span,
        Structure::Struct(s) => s.span,
        Structure::ExternDecl(s) => s.span,
        Structure::ImportedNamespace { span, .. } => span,
        Structure::ImportedStructure { span, .. } => span,
    }
}

impl GetSpan for Structure {
    fn span(&self) -> (r: Span)
        ensures
            r == structure_span(*self),
    {
        match self {
            Structure::Namespace(s) => s.span,
            Structure::Function(s) => s.span,
            Structure::Trait(s) => s.span,
            Structure::Impl(s) => s.span(),
            Structure::TypeAlias(s) => s.span,
            Structure::Struct(s) => s.span,
            Structure::ExternDecl(s) => s.span,
            Structure::ImportedNamespace { span, .. } => *span,
            Structure::ImportedStructure { span, .. } => *span,
        }
    }
}

impl GetSpan for NamespaceAST {
    fn span(&self) -> (r: Span) ensures r == self.span, { self.span }
}

impl GetSpan for FunctionDeclAST {
    fn span(&self) -> (r: Span) ensures r == self.span, { self.span }
}

impl GetSpan for FunctionAST {
    fn span(&self) -> (r: Span) ensures r == self.span, { self.span }
}

impl GetSpan for StructAST {
    fn span(&self) -> (r: Span) ensures r == self.span, { self.span }
}

impl GetSpan for MemberFunctionAST {
    fn span(&self) -> (r: Span) ensures r == self.span, { self.span }
}

impl GetSpan for TraitAST {
    fn span(&self) -> (r: Span) ensures r == self.span, { self.span }
}

impl GetSpan for ImplAST {
    fn span(&self) -> (r: Span) ensures r == self.span, { self.span }
}

impl GetSpan for ImplForAST {
    fn span(&self) -> (r: Span) ensures r == self.span, { self.span }
}

impl GetSpan for TypeAliasAST {
    fn span(&self) -> (r: Span) ensures r == self.span, { self.span }
}

impl GetSpan for ExternDeclAST {
    fn span(&self) -> (r: Span) ensures r == self.span, { self.span }
}

impl GetSpan for ImportAST {
    fn span(&self) -> (r: Span) ensures r == self.span, { self.span }
}

impl NamespaceAST {
    /// An empty namespace.
    pub fn new(ident: IdentAST, span: Span) -> (r: Self)
        ensures
            r.ident == ident,
            r.span == span,
            r.map@.len() == 0,
            r.imports@.len() == 0,
    {
        NamespaceAST { span, ident, map: Vec::new(), imports: Vec::new() }
    }
}

} // verus!
