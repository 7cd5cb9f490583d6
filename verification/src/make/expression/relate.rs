use vstd::prelude::*;
use crate::span::Span;
use crate::ast::ty::Type;
use crate::ast::operator::{Operator, UnaryOperator, UnarySfxOperator, cover};
use crate::ast::expression::{
    AtomExpression, BindingAST, BlockExpressionAST, BlockExpressionChild, ControlFlow, Expression,
};
use crate::make::literal::literal_is;
use crate::make::qualified::{ident_is, idents_are, fqidents_are};
use crate::make::ty::{type_is, span_of};
use super::grammar::{AtomSpec, BindingSpec, BlockSpec, ChildSpec, CtrlSpec, ExprSpec, OpSpec, SfxSpec};

verus! {

/// The span of the expression `s` describes, as `expr_span` computes it.
pub open spec fn spec_span(s: ExprSpec) -> Span
    decreases s,
{
    match s {
        ExprSpec::Atom { start, end, .. } => span_of(start, end),
        ExprSpec::Block(b) => span_of(b.start, b.end),
        ExprSpec::Sub { e, .. } => spec_span(*e),
        ExprSpec::Ctrl { start, end, .. } => span_of(start, end),
        ExprSpec::Un { e, .. } => spec_span(*e),
        ExprSpec::Bin { a, b, .. } => cover(spec_span(*a), spec_span(*b)),
    }
}

/// The expression `e` is the one `s` describes; nothing in it is resolved.
pub open spec fn expr_is(e: Expression, s: ExprSpec) -> bool
    decreases s,
{
    match s {
        ExprSpec::Atom { a, start, end } => e matches Expression::Atom(x)
            && x.span == span_of(start, end) && x.out is Unresolved && atom_is(x.a, a, start, end),
        ExprSpec::Block(b) => e matches Expression::Block(x) && block_is(x, b),
        ExprSpec::Sub { e: inner, start, end } => e matches Expression::SubExpression(x)
            && x.span == span_of(start, end) && x.out is Unresolved && expr_is(*x.e, *inner),
        ExprSpec::Ctrl { c, start, end } => e matches Expression::ControlFlow(x)
            && x.span == span_of(start, end) && ctrl_is(x.e, c),
        ExprSpec::Un { op, e: inner } => e matches Expression::UnaryOperator(x)
            && x.out is Unresolved && unop_is(x.op, op) && expr_is(*x.expr, *inner)
            && x.span == spec_span(*inner),
        ExprSpec::Bin { op, a, b } => e matches Expression::BinaryOperator(x)
            && x.out is Unresolved && x.op == op && expr_is(*x.a, *a) && expr_is(*x.b, *b),
    }
}

/// The atom `a`, spanning from `start` to `end`, is the one `s` describes.
pub open spec fn atom_is(a: AtomExpression, s: AtomSpec, start: int, end: int) -> bool
    decreases s,
{
    match s {
        AtomSpec::Return(v) => a matches AtomExpression::Return(x) && match v {
            None => x is None,
            Some(b) => x matches Some(y) && expr_is(*y, *b),
        },
        AtomSpec::Literal(l) => a matches AtomExpression::Literal(x)
            && literal_is(x.l, l) && x.span == span_of(start, end),
        AtomSpec::Init { fq, fq_end, members } => a matches AtomExpression::StructInitializer(x)
            && x.span == span_of(start, end)
            && fqidents_are(x.fqual.parts@, fq) && x.fqual.span == span_of(start, fq_end)
            && x.members@.len() == members.len()
            && forall|k: int| 0 <= k < members.len() ==>
                ident_is(#[trigger] x.members@[k].0, members[k].0) && expr_is(x.members@[k].1, members[k].1),
        AtomSpec::Var(parts) => a matches AtomExpression::UnresolvedVariable(q)
            && idents_are(q.parts@, parts) && q.span == span_of(start, end),
    }
}

/// The suffix operator `x` is the one `s` describes.
pub open spec fn sfx_is(x: UnarySfxOperator, s: SfxSpec) -> bool
    decreases s,
{
    match s {
        SfxSpec::PostIncrement => x is PostIncrement,
        SfxSpec::PostDecrement => x is PostDecrement,
        SfxSpec::Subscript(e) => x matches UnarySfxOperator::Subscript { arg, dest } && !dest && expr_is(*arg, *e),
        SfxSpec::Call(args) => x matches UnarySfxOperator::Call { args: v }
            && v@.len() == args.len()
            && forall|k: int| 0 <= k < args.len() ==> expr_is(#[trigger] v@[k], args[k]),
        SfxSpec::Cast(ty) => x matches UnarySfxOperator::Cast { to } && type_is(to, ty),
    }
}

/// The operator `o` is the one `s` describes.
pub open spec fn op_is(o: Operator, s: OpSpec) -> bool
    decreases s,
{
    match s {
        OpSpec::Pfx(p) => o == Operator::UnaryPfx(p),
        OpSpec::Sfx(x) => o matches Operator::UnarySfx(y) && sfx_is(y, x),
        OpSpec::Bin(b) => o == Operator::Binary(b),
    }
}

/// The operator of a unary expression `o` is the one `s` describes, which
/// is not a binary operator.
pub open spec fn unop_is(o: UnaryOperator, s: OpSpec) -> bool
    decreases s,
{
    match s {
        OpSpec::Pfx(p) => o == UnaryOperator::UnaryPfx(p),
        OpSpec::Sfx(x) => o matches UnaryOperator::UnarySfx(y) && sfx_is(y, x),
        OpSpec::Bin(_) => false,
    }
}

/// The block `b` is the one `s` describes; it binds no variables yet.
pub open spec fn block_is(b: BlockExpressionAST, s: BlockSpec) -> bool
    decreases s,
{
    &&& b.span == span_of(s.start, s.end)
    &&& b.out is Unresolved
    &&& b.vars@.len() == 0
    &&& b.returns_last == s.returns_last
    &&& b.children@.len() == s.children.len()
    &&& forall|k: int| 0 <= k < s.children.len() ==> child_is(#[trigger] b.children@[k], s.children[k])
}

/// The statement `c` is the one `s` describes.
pub open spec fn child_is(c: BlockExpressionChild, s: ChildSpec) -> bool
    decreases s,
{
    match s {
        ChildSpec::Binding(b) => c matches BlockExpressionChild::Binding(x) && binding_is(x, b),
        ChildSpec::Expr(e) => c matches BlockExpressionChild::Expression(x) && expr_is(x, e),
    }
}

/// The binding `b` is the one `s` describes.
pub open spec fn binding_is(b: BindingAST, s: BindingSpec) -> bool
    decreases s,
{
    &&& b.span == span_of(s.start, s.end)
    &&& ident_is(b.ident, s.ident)
    &&& match s.mut_at {
        None => b.mut_keyword is None,
        Some(m) => b.mut_keyword matches Some(k) && k.span == span_of(m, m + 3),
    }
    &&& match s.ty {
        None => b.ty is None,
        Some(ty) => b.ty matches Some(x) && type_is(x, ty),
    }
    &&& match s.value {
        None => b.value is None,
        Some(v) => b.value matches Some(x) && expr_is(*x, v),
    }
}

/// The control flow construct `c` is the one `s` describes.
pub open spec fn ctrl_is(c: ControlFlow, s: CtrlSpec) -> bool
    decreases s,
{
    match s {
        CtrlSpec::While(cond, body) => c matches ControlFlow::While(x, y) && expr_is(*x, *cond) && block_is(*y, body),
        CtrlSpec::Loop(body) => c matches ControlFlow::Loop(y) && block_is(*y, body),
        CtrlSpec::If(branches, last) => c matches ControlFlow::If(v, l)
            && v@.len() == branches.len()
            && (forall|k: int| 0 <= k < branches.len() ==>
                expr_is(#[trigger] v@[k].0, branches[k].0) && block_is(v@[k].1, branches[k].1))
            && match last {
                None => l is None,
                Some(b) => l matches Some(y) && block_is(y, b),
            },
    }
}

/// Each expression of `v` is the one `s` describes at the same place.
pub open spec fn exprs_are(v: Seq<Expression>, s: Seq<ExprSpec>) -> bool {
    v.len() == s.len() && forall|k: int| 0 <= k < v.len() ==> expr_is(#[trigger] v[k], s[k])
}

/// Each operator of `v` is the one `s` describes at the same place.
pub open spec fn ops_are(v: Seq<Operator>, s: Seq<OpSpec>) -> bool {
    v.len() == s.len() && forall|k: int| 0 <= k < v.len() ==> op_is(#[trigger] v[k], s[k])
}

/// An expression described by `s` spans what `spec_span` says.
pub proof fn lemma_expr_span(e: Expression, s: ExprSpec)
    requires
        expr_is(e, s),
    ensures
        crate::ast::expression::expr_span(e) == spec_span(s),
    decreases s,
{
    match s {
        ExprSpec::Sub { e: inner, .. } => {
            let x = e->SubExpression_0;
            lemma_expr_span(*x.e, *inner);
        },
        ExprSpec::Bin { a, b, .. } => {
            let x = e->BinaryOperator_0;
            lemma_expr_span(*x.a, *a);
            lemma_expr_span(*x.b, *b);
        },
        ExprSpec::Block(b) => {
            assert(block_is(e->Block_0, b));
        },
        ExprSpec::Atom { .. } => {},
        ExprSpec::Ctrl { .. } => {},
        ExprSpec::Un { .. } => {},
    }
}

} // verus!
