use vstd::prelude::*;
use crate::span::{GetSpan, Span};
use crate::ast::ident::{IdentAST, KeywordAST, QualifiedAST, FullyQualifiedAST};
use crate::ast::ty::{LiteralAST, Type, TypeAST};
use crate::ast::operator::{UnaryOperatorExpressionAST, BinaryOperatorExpressionAST, cover};


verus! {

/// What a variable name was resolved to, by the name of what it denotes.
#[derive(Debug)]
pub enum VariableReference {
    ResolvedVariable(IdentAST),
    ResolvedArgument(IdentAST),
    ResolvedFunction(QualifiedAST),
    ResolvedMemberFunction(QualifiedAST),
    ResolvedMemberOf(Box<VariableReference>, IdentAST),
    ResolvedExternal(QualifiedAST),
}

/// `Name { member: value, ... }`
#[derive(Debug)]
pub struct StructInitializerAST {
    pub span: Span,
    pub fqual: FullyQualifiedAST,
    pub members: Vec<(IdentAST, Expression)>,
}

#[derive(Debug)]
pub enum AtomExpression {
    Literal(LiteralAST),
    UnresolvedVariable(QualifiedAST),
    ValueVariable(QualifiedAST, VariableReference),
    DestinationVariable(QualifiedAST, VariableReference),
    StructInitializer(StructInitializerAST),
    Return(Option<Box<Expression>>),
    Break(Option<Box<Expression>>),
}

#[derive(Debug)]
pub struct AtomExpressionAST {
    pub span: Span,
    pub out: Type,
    pub a: AtomExpression,
}

/// An expression in parentheses.
#[derive(Debug)]
pub struct SubExpressionAST {
    pub span: Span,
    pub out: Type,
    pub e: Box<Expression>,
}

/// `[mut] [type] name [:= value]`
#[derive(Debug)]
pub struct BindingAST {
    pub span: Span,
    pub mut_keyword: Option<KeywordAST>,
    pub ty: Option<TypeAST>,
    pub ident: IdentAST,
    pub value: Option<Box<Expression>>,
}

#[derive(Debug)]
pub enum BlockExpressionChild {
    Binding(BindingAST),
    Expression(Expression),
}

/// `{ child; child; ... }`; `returns_last` when the last child is not
/// followed by a semicolon. `vars` pairs each variable bound in the block
/// with the index of the child that binds it.
#[derive(Debug)]
pub struct BlockExpressionAST {
    pub span: Span,
    pub out: Type,
    pub children: Vec<BlockExpressionChild>,
    pub vars: Vec<(IdentAST, usize)>,
    pub returns_last: bool,
}

#[derive(Debug)]
pub enum ControlFlow {
    If(Vec<(Expression, BlockExpressionAST)>, Option<BlockExpressionAST>),
    While(Box<Expression>, Box<BlockExpressionAST>),
    DoWhile(Box<BlockExpressionAST>, Box<Expression>),
    Loop(Box<BlockExpressionAST>),
}

#[derive(Debug)]
pub struct ControlFlowAST {
    pub span: Span,
    pub e: ControlFlow,
}

#[derive(Debug)]
pub enum Expression {
    Atom(AtomExpressionAST),
    Block(BlockExpressionAST),
    SubExpression(SubExpressionAST),
    ControlFlow(ControlFlowAST),
    UnaryOperator(UnaryOperatorExpressionAST),
    BinaryOperator(BinaryOperatorExpressionAST),
}

/// The span of an expression: its own, that of the expression in
/// parentheses, or for an operator between two operands the range they cover.
pub open spec fn expr_span(e: Expression) -> Span
    decreases e,
{
    match e {
        Expression::Atom(s) => s.span,
        Expression::Block(s) => s.span,
        Expression::SubExpression(s) => expr_span(*s.e),
        Expression::ControlFlow(s) => s.span,
        Expression::UnaryOperator(s) => s.span,
        Expression::BinaryOperator(s) => cover(expr_span(*s.a), expr_span(*s.b)),
    }
}

pub fn expression_span(e: &Expression) -> (r: Span)
    ensures
        r == expr_span(*e),
    decreases *e,
{
    match e {
        Expression::Atom(s) => s.span,
        Expression::Block(s) => s.span,
        Expression::SubExpression(s) => expression_span(&s.e),
        Expression::ControlFlow(s) => s.span,
        Expression::UnaryOperator(s) => s.span,
        Expression::BinaryOperator(s) => {
            let a = expression_span(&s.a);
            let b = expression_span(&s.b);
            Span {
                start: if a.start <= b.start { a.start } else { b.start },
                end: if a.end >= b.end { a.end } else { b.end },
            }
        },
    }
}

impl GetSpan for Expression {
    fn span(&self) -> (r: Span)
        ensures
            r == expr_span(*self),
    {
        expression_span(self)
    }
}

impl GetSpan for SubExpressionAST {
    /// The span of the expression in the parentheses.
    fn span(&self) -> (r: Span)
        ensures
            r == expr_span(*self.e),
    {
        expression_span(&self.e)
    }
}

impl GetSpan for BlockExpressionChild {
    fn span(&self) -> (r: Span)
        ensures
            r == match *self {
                BlockExpressionChild::Binding(b) => b.span,
                BlockExpressionChild::Expression(e) => expr_span(e),
            },
    {
        match self {
            BlockExpressionChild::Binding(binding) => binding.span,
            BlockExpressionChild::Expression(expr) => expression_span(expr),
        }
    }
}

impl GetSpan for BindingAST {
    fn span(&self) -> (r: Span)
        ensures
            r == self.span,
    {
        self.span
    }
}

impl GetSpan for ControlFlowAST {
    fn span(&self) -> (r: Span)
        ensures
            r == self.span,
    {
        self.span
    }
}

impl GetSpan for AtomExpressionAST {
    fn span(&self) -> (r: Span)
        ensures
            r == self.span,
    {
        self.span
    }
}

impl GetSpan for BlockExpressionAST {
    fn span(&self) -> (r: Span)
        ensures
            r == self.span,
    {
        self.span
    }
}

impl GetSpan for StructInitializerAST {
    fn span(&self) -> (r: Span)
        ensures
            r == self.span,
    {
        self.span
    }
}

} // verus!
