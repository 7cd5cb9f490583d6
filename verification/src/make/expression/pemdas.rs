use vstd::prelude::*;
use crate::ast::ty::Type;
use crate::ast::operator::{
    BinaryOperator, UnaryPfxOperator, UnarySfxOperator, UnaryOperator, Operator,
    UnaryOperatorExpressionAST, BinaryOperatorExpressionAST,
};
use crate::ast::expression::{Expression, expression_span};
use super::grammar::{ExprSpec, OpSpec, SfxSpec};
use super::relate::{expr_is, op_is, unop_is, exprs_are, ops_are, spec_span, lemma_expr_span};

verus! {

/// The precedence levels, from the one whose operators bind first.
#[derive(Debug, Clone, Copy, PartialEq, Eq, Structural)]
pub enum PEMDAS {
    DotAndSubscriptAndCall,
    Unary,
    Bit,
    Exp,
    MulDivMod,
    AddSub,
    Comparison,
    Testing,
    Assignation,
    Pipe,
}

/// The place of a level in the order in which levels are folded.
pub open spec fn level_of(s: PEMDAS) -> int {
    match s {
        PEMDAS::DotAndSubscriptAndCall => 0,
        PEMDAS::Unary => 1,
        PEMDAS::Bit => 2,
        PEMDAS::Exp => 3,
        PEMDAS::MulDivMod => 4,
        PEMDAS::AddSub => 5,
        PEMDAS::Comparison => 6,
        PEMDAS::Testing => 7,
        PEMDAS::Assignation => 8,
        PEMDAS::Pipe => 9,
    }
}

/// What precedence looks at in an operator: which operator it is, its
/// operands aside.
pub enum OpKind {
    Pfx(UnaryPfxOperator),
    Bin(BinaryOperator),
    PostIncrement,
    PostDecrement,
    Subscript,
    Call,
    Cast,
}

pub open spec fn sfx_kind(s: UnarySfxOperator) -> OpKind {
    match s {
        UnarySfxOperator::PostIncrement => OpKind::PostIncrement,
        UnarySfxOperator::PostDecrement => OpKind::PostDecrement,
        UnarySfxOperator::Subscript { .. } => OpKind::Subscript,
        UnarySfxOperator::Call { .. } => OpKind::Call,
        UnarySfxOperator::Cast { .. } => OpKind::Cast,
    }
}

pub open spec fn kind_of(o: Operator) -> OpKind {
    match o {
        Operator::UnaryPfx(p) => OpKind::Pfx(p),
        Operator::Binary(b) => OpKind::Bin(b),
        Operator::UnarySfx(s) => sfx_kind(s),
    }
}

pub open spec fn spec_kind(s: OpSpec) -> OpKind {
    match s {
        OpSpec::Pfx(p) => OpKind::Pfx(p),
        OpSpec::Bin(b) => OpKind::Bin(b),
        OpSpec::Sfx(x) => match x {
            SfxSpec::PostIncrement => OpKind::PostIncrement,
            SfxSpec::PostDecrement => OpKind::PostDecrement,
            SfxSpec::Subscript(_) => OpKind::Subscript,
            SfxSpec::Call(_) => OpKind::Call,
            SfxSpec::Cast(_) => OpKind::Cast,
        },
    }
}

/// The operators of each level. `~` and the shifts belong to none.
#[verifier::opaque]
pub open spec fn includes_kind(level: int, k: OpKind) -> bool {
    if level == 0 {
        k == OpKind::Bin(BinaryOperator::Dot) || k == OpKind::Bin(BinaryOperator::DerefDot)
            || k == OpKind::Subscript || k == OpKind::Call
    } else if level == 1 {
        k == OpKind::PostIncrement || k == OpKind::PostDecrement || k == OpKind::Cast
            || k == OpKind::Pfx(UnaryPfxOperator::MutRef) || k == OpKind::Pfx(UnaryPfxOperator::Ref)
            || k == OpKind::Pfx(UnaryPfxOperator::Deref) || k == OpKind::Pfx(UnaryPfxOperator::Not)
            || k == OpKind::Pfx(UnaryPfxOperator::Neg) || k == OpKind::Pfx(UnaryPfxOperator::NotNeg)
            || k == OpKind::Pfx(UnaryPfxOperator::PreIncrement) || k == OpKind::Pfx(UnaryPfxOperator::PreDecrement)
    } else if level == 2 {
        k == OpKind::Bin(BinaryOperator::BitAnd) || k == OpKind::Bin(BinaryOperator::BitOr)
            || k == OpKind::Bin(BinaryOperator::BitXOR)
    } else if level == 3 {
        k == OpKind::Bin(BinaryOperator::Exp)
    } else if level == 4 {
        k == OpKind::Bin(BinaryOperator::Mul) || k == OpKind::Bin(BinaryOperator::Div)
            || k == OpKind::Bin(BinaryOperator::Mod)
    } else if level == 5 {
        k == OpKind::Bin(BinaryOperator::Add) || k == OpKind::Bin(BinaryOperator::Sub)
    } else if level == 6 {
        k == OpKind::Bin(BinaryOperator::Equals) || k == OpKind::Bin(BinaryOperator::NotEquals)
            || k == OpKind::Bin(BinaryOperator::Greater) || k == OpKind::Bin(BinaryOperator::GreaterThanEquals)
            || k == OpKind::Bin(BinaryOperator::LessThan) || k == OpKind::Bin(BinaryOperator::LessThanEquals)
    } else if level == 7 {
        k == OpKind::Bin(BinaryOperator::LogicalAnd) || k == OpKind::Bin(BinaryOperator::LogicalOr)
            || k == OpKind::Bin(BinaryOperator::LogicalXOR)
    } else if level == 8 {
        k == OpKind::Bin(BinaryOperator::AddAssign) || k == OpKind::Bin(BinaryOperator::SubAssign)
            || k == OpKind::Bin(BinaryOperator::MulAssign) || k == OpKind::Bin(BinaryOperator::DivAssign)
            || k == OpKind::Bin(BinaryOperator::ExpAssign) || k == OpKind::Bin(BinaryOperator::ModAssign)
            || k == OpKind::Bin(BinaryOperator::LogicalAndAssign) || k == OpKind::Bin(BinaryOperator::LogicalOrAssign)
            || k == OpKind::Bin(BinaryOperator::LogicalXORAssign) || k == OpKind::Bin(BinaryOperator::BitAndAssign)
            || k == OpKind::Bin(BinaryOperator::BitOrAssign) || k == OpKind::Bin(BinaryOperator::BitXORAssign)
            || k == OpKind::Bin(BinaryOperator::ArithmeticShrAssign) || k == OpKind::Bin(BinaryOperator::LogicalShrAssign)
            || k == OpKind::Bin(BinaryOperator::LogicalShlAssign) || k == OpKind::Bin(BinaryOperator::AssignPipe)
            || k == OpKind::Bin(BinaryOperator::Assign)
    } else if level == 9 {
        k == OpKind::Bin(BinaryOperator::Pipe)
    } else {
        false
    }
}

/// The first operator of `os` from `i` on that belongs to `level`.
pub open spec fn first_included(os: Seq<OpSpec>, level: int, i: int) -> Option<int>
    decreases os.len() - i,
{
    if i < 0 || i >= os.len() {
        None
    } else if includes_kind(level, spec_kind(os[i])) {
        Some(i)
    } else {
        first_included(os, level, i + 1)
    }
}

/// Folding the operands `es` by the operators `os`, level by level from
/// `level` on. At each level the first operator that belongs to it takes
/// the operand at its own index, and a binary operator also the next one;
/// then the search starts over. It fails, and the expression reader marks
/// the reader as panicked, when an operand is missing or when anything
/// other than one operand is left.
pub open spec fn fold_at(es: Seq<ExprSpec>, os: Seq<OpSpec>, level: int) -> Option<ExprSpec>
    decreases 10 - level, os.len(),
{
    if level < 0 || level >= 10 {
        if es.len() == 1 && os.len() == 0 {
            Some(es[0])
        } else {
            None
        }
    } else {
        match first_included(os, level, 0) {
            None => fold_at(es, os, level + 1),
            Some(i) => if i < 0 || i >= os.len() {
                None
            } else {
                match os[i] {
                    OpSpec::Bin(b) => if i + 1 < es.len() {
                        fold_at(
                            es.update(i, ExprSpec::Bin { op: b, a: Box::new(es[i]), b: Box::new(es[i + 1]) }).remove(i + 1),
                            os.remove(i),
                            level,
                        )
                    } else {
                        None
                    },
                    _ => if i < es.len() {
                        fold_at(es.update(i, ExprSpec::Un { op: os[i], e: Box::new(es[i]) }), os.remove(i), level)
                    } else {
                        None
                    },
                }
            },
        }
    }
}

/// Folding operands and operators read in turn, from the first level.
pub open spec fn fold(es: Seq<ExprSpec>, os: Seq<OpSpec>) -> Option<ExprSpec> {
    fold_at(es, os, 0)
}

proof fn lemma_first_included(os: Seq<OpSpec>, level: int, i: int)
    requires
        0 <= i,
    ensures
        first_included(os, level, i) matches Some(j) ==> i <= j < os.len()
            && includes_kind(level, spec_kind(os[j])),
    decreases os.len() - i,
{
    if i < os.len() && !includes_kind(level, spec_kind(os[i])) {
        lemma_first_included(os, level, i + 1);
    }
}

proof fn lemma_op_kind(o: Operator, s: OpSpec)
    requires
        op_is(o, s),
    ensures
        kind_of(o) == spec_kind(s),
{
}

impl PEMDAS {
    /// The level at place `i` of the folding order.
    pub fn at_level(i: usize) -> (r: PEMDAS)
        requires
            i < 10,
        ensures
            level_of(r) == i,
    {
        if i == 0 { PEMDAS::DotAndSubscriptAndCall }
        else if i == 1 { PEMDAS::Unary }
        else if i == 2 { PEMDAS::Bit }
        else if i == 3 { PEMDAS::Exp }
        else if i == 4 { PEMDAS::MulDivMod }
        else if i == 5 { PEMDAS::AddSub }
        else if i == 6 { PEMDAS::Comparison }
        else if i == 7 { PEMDAS::Testing }
        else if i == 8 { PEMDAS::Assignation }
        else { PEMDAS::Pipe }
    }

    /// Whether the operator belongs to this level.
    pub fn includes(&self, op: &Operator) -> (r: bool)
        ensures
            r == includes_kind(level_of(*self), kind_of(*op)),
    {
        proof { reveal(includes_kind); }
        match self {
            PEMDAS::DotAndSubscriptAndCall => matches!(op,
                Operator::Binary(BinaryOperator::Dot)
                | Operator::Binary(BinaryOperator::DerefDot)
                | Operator::UnarySfx(UnarySfxOperator::Subscript { .. })
                | Operator::UnarySfx(UnarySfxOperator::Call { .. })
            ),
            PEMDAS::Unary => matches!(op,
                Operator::UnarySfx(UnarySfxOperator::PostIncrement)
                | Operator::UnarySfx(UnarySfxOperator::PostDecrement)
                | Operator::UnarySfx(UnarySfxOperator::Cast { .. })
                | Operator::UnaryPfx(UnaryPfxOperator::MutRef)
                | Operator::UnaryPfx(UnaryPfxOperator::Ref)
                | Operator::UnaryPfx(UnaryPfxOperator::Deref)
                | Operator::UnaryPfx(UnaryPfxOperator::Not)
                | Operator::UnaryPfx(UnaryPfxOperator::Neg)
                | Operator::UnaryPfx(UnaryPfxOperator::NotNeg)
                | Operator::UnaryPfx(UnaryPfxOperator::PreIncrement)
                | Operator::UnaryPfx(UnaryPfxOperator::PreDecrement)
            ),
            PEMDAS::Bit => matches!(op,
                Operator::Binary(BinaryOperator::BitAnd)
                | Operator::Binary(BinaryOperator::BitOr)
                | Operator::Binary(BinaryOperator::BitXOR)
            ),
            PEMDAS::Exp => matches!(op, Operator::Binary(BinaryOperator::Exp)),
            PEMDAS::MulDivMod => matches!(op,
                Operator::Binary(BinaryOperator::Mul)
                | Operator::Binary(BinaryOperator::Div)
                | Operator::Binary(BinaryOperator::Mod)
            ),
            PEMDAS::AddSub => matches!(op,
                Operator::Binary(BinaryOperator::Add)
                | Operator::Binary(BinaryOperator::Sub)
            ),
            PEMDAS::Comparison => matches!(op,
                Operator::Binary(BinaryOperator::Equals)
                | Operator::Binary(BinaryOperator::NotEquals)
                | Operator::Binary(BinaryOperator::Greater)
                | Operator::Binary(BinaryOperator::GreaterThanEquals)
                | Operator::Binary(BinaryOperator::LessThan)
                | Operator::Binary(BinaryOperator::LessThanEquals)
            ),
            PEMDAS::Testing => matches!(op,
                Operator::Binary(BinaryOperator::LogicalAnd)
                | Operator::Binary(BinaryOperator::LogicalOr)
                | Operator::Binary(BinaryOperator::LogicalXOR)
            ),
            PEMDAS::Assignation => matches!(op,
                Operator::Binary(BinaryOperator::AddAssign)
                | Operator::Binary(BinaryOperator::SubAssign)
                | Operator::Binary(BinaryOperator::MulAssign)
                | Operator::Binary(BinaryOperator::DivAssign)
                | Operator::Binary(BinaryOperator::ExpAssign)
                | Operator::Binary(BinaryOperator::ModAssign)
                | Operator::Binary(BinaryOperator::LogicalAndAssign)
                | Operator::Binary(BinaryOperator::LogicalOrAssign)
                | Operator::Binary(BinaryOperator::LogicalXORAssign)
                | Operator::Binary(BinaryOperator::BitAndAssign)
                | Operator::Binary(BinaryOperator::BitOrAssign)
                | Operator::Binary(BinaryOperator::BitXORAssign)
                | Operator::Binary(BinaryOperator::ArithmeticShrAssign)
                | Operator::Binary(BinaryOperator::LogicalShrAssign)
                | Operator::Binary(BinaryOperator::LogicalShlAssign)
                | Operator::Binary(BinaryOperator::AssignPipe)
                | Operator::Binary(BinaryOperator::Assign)
            ),
            PEMDAS::Pipe => matches!(op, Operator::Binary(BinaryOperator::Pipe)),
        }
    }
}

/// Replaces the operand at `i` by the unary operator `u`, which `o`
/// describes, applied to it.
fn apply_unary(exprs: &mut Vec<Expression>, i: usize, u: UnaryOperator, Ghost(es): Ghost<Seq<ExprSpec>>, Ghost(o): Ghost<OpSpec>)
    requires
        i < old(exprs)@.len(),
        exprs_are(old(exprs)@, es),
        unop_is(u, o),
    ensures
        exprs_are(final(exprs)@, es.update(i as int, ExprSpec::Un { op: o, e: Box::new(es[i as int]) })),
{
    let ghost x0 = exprs@;
    let e = exprs.remove(i);
    let span = expression_span(&e);
    proof {
        assert(expr_is(x0[i as int], es[i as int]));
        lemma_expr_span(e, es[i as int]);
    }
    exprs.insert(i, Expression::UnaryOperator(UnaryOperatorExpressionAST {
        span,
        out: Type::Unresolved,
        expr: Box::new(e),
        op: u,
    }));
    proof {
        let ces = es.update(i as int, ExprSpec::Un { op: o, e: Box::new(es[i as int]) });
        assert forall|k: int| 0 <= k < exprs@.len() implies expr_is(#[trigger] exprs@[k], ces[k]) by {
            if k != i {
                assert(exprs@[k] == x0[k]);
            } else {
                assert(unop_is(exprs@[k]->UnaryOperator_0.op, o));
            }
        }
    }
}

/// Folds the operands read by the operators read, level by level, as
/// `fold` describes; `None` where the folding fails.
pub(crate) fn fold_operators(exprs: Vec<Expression>, ops: Vec<Operator>, Ghost(es): Ghost<Seq<ExprSpec>>, Ghost(os): Ghost<Seq<OpSpec>>) -> (r: Option<Expression>)
    requires
        exprs_are(exprs@, es),
        ops_are(ops@, os),
    ensures
        r is Some <==> fold(es, os) is Some,
        r matches Some(x) ==> expr_is(x, fold(es, os)->0),
{
    let mut exprs = exprs;
    let mut ops = ops;
    let ghost mut ces = es;
    let ghost mut cos = os;
    let mut level: usize = 0;
    while level < 10
        invariant
            level <= 10,
            exprs_are(exprs@, ces),
            ops_are(ops@, cos),
            fold(es, os) == fold_at(ces, cos, level as int),
        decreases 10 - level,
    {
        let state = PEMDAS::at_level(level);
        loop
            invariant
                level < 10,
                level_of(state) == level,
                exprs_are(exprs@, ces),
                ops_are(ops@, cos),
                fold(es, os) == fold_at(ces, cos, level as int),
            ensures
                exprs_are(exprs@, ces),
                ops_are(ops@, cos),
                fold(es, os) == fold_at(ces, cos, level + 1),
            decreases ops@.len(),
        {
            let mut i: usize = 0;
            let mut found = false;
            while i < ops.len()
                invariant_except_break
                    first_included(cos, level as int, 0) == first_included(cos, level as int, i as int),
                    !found,
                invariant
                    i <= ops@.len(),
                    ops_are(ops@, cos),
                    level_of(state) == level,
                ensures
                    found ==> i < ops@.len() && first_included(cos, level as int, 0) == Some(i as int),
                    !found ==> first_included(cos, level as int, 0) is None,
                decreases ops@.len() - i,
            {
                proof { lemma_op_kind(ops@[i as int], cos[i as int]); }
                if state.includes(&ops[i]) {
                    found = true;
                    break;
                }
                i = i + 1;
            }
            if !found {
                break;
            }
            let ghost e0 = ces;
            let ghost o0 = cos;
            let ghost o_exec = ops@;
            let fits = match &ops[i] {
                Operator::Binary(_) => i < exprs.len() && exprs.len() - i > 1,
                _ => i < exprs.len(),
            };
            if !fits {
                proof { assert(op_is(ops@[i as int], o0[i as int])); }
                return None;
            }
            let op = ops.remove(i);
            proof { assert(op_is(op, o0[i as int])); }
            match op {
                Operator::Binary(b) => {
                    let ghost x0 = exprs@;
                    let a = exprs.remove(i);
                    let c = exprs.remove(i);
                    let ghost node = ExprSpec::Bin { op: b, a: Box::new(e0[i as int]), b: Box::new(e0[i + 1]) };
                    exprs.insert(i, Expression::BinaryOperator(BinaryOperatorExpressionAST {
                        out: Type::Unresolved,
                        a: Box::new(a),
                        b: Box::new(c),
                        op: b,
                    }));
                    proof {
                        ces = e0.update(i as int, node).remove(i + 1);
                        assert(exprs@.len() == ces.len());
                        assert forall|k: int| 0 <= k < exprs@.len() implies expr_is(#[trigger] exprs@[k], ces[k]) by {
                            if k < i {
                                assert(exprs@[k] == x0[k]);
                            } else if k > i {
                                assert(exprs@[k] == x0[k + 1]);
                            }
                        }
                    }
                },
                Operator::UnaryPfx(p) => {
                    apply_unary(&mut exprs, i, UnaryOperator::UnaryPfx(p), Ghost(e0), Ghost(o0[i as int]));
                    proof { ces = e0.update(i as int, ExprSpec::Un { op: o0[i as int], e: Box::new(e0[i as int]) }); }
                },
                Operator::UnarySfx(x) => {
                    apply_unary(&mut exprs, i, UnaryOperator::UnarySfx(x), Ghost(e0), Ghost(o0[i as int]));
                    proof { ces = e0.update(i as int, ExprSpec::Un { op: o0[i as int], e: Box::new(e0[i as int]) }); }
                },
            }
            proof {
                cos = o0.remove(i as int);
                assert forall|k: int| 0 <= k < ops@.len() implies op_is(#[trigger] ops@[k], cos[k]) by {
                    if k >= i {
                        assert(ops@[k] == o_exec[k + 1]);
                    }
                }
            }
        }
        level = level + 1;
    }
    if exprs.len() != 1 || ops.len() != 0 {
        return None;
    }
    Some(exprs.remove(0))
}

} // verus!
