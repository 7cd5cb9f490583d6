use vstd::prelude::*;
use crate::span::{GetSpan, Span};
use crate::ast::ty::{Type, TypeAST};
use crate::ast::expression::{Expression, expr_span, expression_span};

verus! {

#[derive(Debug, Clone, Copy, PartialEq, Eq, Structural)]
pub enum BinaryOperator {
    Dot,
    DerefDot,
    Add,
    Sub,
    Mul,
    Div,
    Exp,
    Mod,
    Equals,
    NotEquals,
    Greater,
    GreaterThanEquals,
    LessThan,
    LessThanEquals,
    LogicalAnd,
    LogicalOr,
    LogicalXOR,
    BitAnd,
    BitOr,
    BitXOR,
    ArithmeticShr,
    LogicalShr,
    LogicalShl,
    Pipe,
    Assign,
    AddAssign,
    SubAssign,
    MulAssign,
    DivAssign,
    ExpAssign,
    ModAssign,
    LogicalAndAssign,
    LogicalOrAssign,
    LogicalXORAssign,
    BitAndAssign,
    BitOrAssign,
    BitXORAssign,
    ArithmeticShrAssign,
    LogicalShrAssign,
    LogicalShlAssign,
    AssignPipe,
}

#[derive(Debug, Clone, Copy, PartialEq, Eq, Structural)]
pub enum UnaryPfxOperator {
    MutRef,
    Ref,
    Deref,
    Not,
    Neg,
    NotNeg,
    BitInvert,
    PreIncrement,
    PreDecrement,
}

/// An operator written after its operand. A subscript holds its index
/// expression, a call its arguments and a cast its target type.
#[derive(Debug)]
pub enum UnarySfxOperator {
    PostIncrement,
    PostDecrement,
    Subscript { arg: Box<Expression>, dest: bool },
    Call { args: Vec<Expression> },
    Cast { to: TypeAST },
}

/// Suffix operators compare equal when they are the same kind of operator,
/// whatever their operands.
pub open spec fn same_sfx_kind(a: UnarySfxOperator, b: UnarySfxOperator) -> bool {
    match (a, b) {
        (UnarySfxOperator::PostIncrement, UnarySfxOperator::PostIncrement) => true,
        (UnarySfxOperator::PostDecrement, UnarySfxOperator::PostDecrement) => true,
        (UnarySfxOperator::Subscript { .. }, UnarySfxOperator::Subscript { .. }) => true,
        (UnarySfxOperator::Call { .. }, UnarySfxOperator::Call { .. }) => true,
        (UnarySfxOperator::Cast { .. }, UnarySfxOperator::Cast { .. }) => true,
        _ => false,
    }
}

impl PartialEq for UnarySfxOperator {
    fn eq(&self, other: &Self) -> (r: bool) {
        match (self, other) {
            (UnarySfxOperator::PostIncrement, UnarySfxOperator::PostIncrement) => true,
            (UnarySfxOperator::PostDecrement, UnarySfxOperator::PostDecrement) => true,
            (UnarySfxOperator::Subscript { .. }, UnarySfxOperator::Subscript { .. }) => true,
            (UnarySfxOperator::Call { .. }, UnarySfxOperator::Call { .. }) => true,
            (UnarySfxOperator::Cast { .. }, UnarySfxOperator::Cast { .. }) => true,
            _ => false,
        }
    }
}

impl vstd::std_specs::cmp::PartialEqSpecImpl for UnarySfxOperator {
    open spec fn obeys_eq_spec() -> bool {
        true
    }

    open spec fn eq_spec(&self, other: &Self) -> bool {
        same_sfx_kind(*self, *other)
    }
}

#[derive(Debug)]
pub enum UnaryOperator {
    UnaryPfx(UnaryPfxOperator),
    UnarySfx(UnarySfxOperator),
}

#[derive(Debug)]
pub enum Operator {
    UnaryPfx(UnaryPfxOperator),
    UnarySfx(UnarySfxOperator),
    Binary(BinaryOperator),
}

#[derive(Debug)]
pub struct UnaryOperatorExpressionAST {
    pub span: Span,
    pub out: Type,
    pub expr: Box<Expression>,
    pub op: UnaryOperator,
}

#[derive(Debug)]
pub struct BinaryOperatorExpressionAST {
    pub out: Type,
    pub a: Box<Expression>,
    pub b: Box<Expression>,
    pub op: BinaryOperator,
}

/// The span from the earlier start to the later end of two spans.
pub open spec fn cover(a: Span, b: Span) -> Span {
    Span {
        start: if a.start <= b.start { a.start } else { b.start },
        end: if a.end >= b.end { a.end } else { b.end },
    }
}

impl GetSpan for BinaryOperatorExpressionAST {
    /// From the earlier start to the later end of the two operands.
    fn span(&self) -> (r: Span)
        ensures
            r == cover(expr_span(*self.a), expr_span(*self.b)),
    {
        let a = expression_span(&self.a);
        let b = expression_span(&self.b);
        Span {
            start: if a.start <= b.start { a.start } else { b.start },
            end: if a.end >= b.end { a.end } else { b.end },
        }
    }
}

impl GetSpan for UnaryOperatorExpressionAST {
    fn span(&self) -> (r: Span)
        ensures
            r == self.span,
    {
        self.span
    }
}

} // verus!
