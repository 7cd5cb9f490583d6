use vstd::prelude::*;
use crate::source_reader::SourceReader;
use crate::errors::{AsterError, AsterResult, ErrKind, Outcome};
use crate::ast::ty::TypeAST;
use crate::ast::operator::{BinaryOperator, UnaryPfxOperator, UnarySfxOperator, Operator};
use crate::ast::expression::{Expression, ControlFlowAST, BlockExpressionAST, AtomExpressionAST, SubExpressionAST};
use crate::seek_read::{moved, starts_at, skip_ws, Skip, lemma_skip_ws_bounds};
use crate::seek_read::seek;
use crate::make::ident::fail;
use crate::make::ty::{type_outcome, type_is, lemma_type_outcome, span_of};
use crate::consts;
use crate::consts::operator::{BIN_COUNT, PFX_COUNT, bin_entry, pfx_entry, bin_entry_spec, pfx_entry_spec, lemma_operator_texts};
use super::grammar::{Parsed, reads, reads_p, bin_lookup, pfx_outcome, pfx_scan, binary_half_outcome, body_outcome, past, after, opt_ws, req_ws, sfx_outcome, call_outcome, call_args, subscript_outcome, cast_outcome, expr_outcome, expr_loop, LastExprComponent, ExprSpec, OpSpec, SfxSpec, expected_at, fail_of};
use super::relate::{expr_is, sfx_is, op_is, exprs_are, ops_are, atom_is, ctrl_is, block_is};
use super::pemdas::{fold, fold_operators};

verus! {

/// Looks up the binary operator whose text stands at the reader, moving
/// past it if there is one.
fn read_bin_operator(reader: &mut SourceReader) -> (r: Option<BinaryOperator>)
    requires
        old(reader).wf(),
    ensures
        ({
            let t = old(reader).text();
            let p = old(reader).pos();
            match bin_lookup(t, p, 0) {
                Some((op, e)) => r == Some(op) && moved(old(reader), final(reader), e),
                None => r is None && moved(old(reader), final(reader), p),
            }
        }),
{
    let ghost t = reader.text();
    let ghost p = reader.pos();
    let mut i: usize = 0;
    while i < BIN_COUNT
        invariant
            i <= 41,
            moved(old(reader), reader, p),
            t == old(reader).text(),
            p == old(reader).pos(),
            bin_lookup(t, p, 0) == bin_lookup(t, p, i as int),
        decreases 41 - i,
    {
        let (txt, variant) = bin_entry(i);
        if seek::begins_with(reader, txt) {
            return Some(variant);
        }
        i = i + 1;
    }
    None
}

proof fn lemma_bin_lookup(t: Seq<char>, p: int, i: int)
    requires
        0 <= i,
        0 <= p,
    ensures
        bin_lookup(t, p, i) matches Some((op, e)) ==> p < e <= t.len(),
    decreases 41 - i,
{
    lemma_operator_texts(i);
    if i < 41 && !starts_at(t, p, bin_entry_spec(i).0) {
        lemma_bin_lookup(t, p, i + 1);
    }
}

impl Expression {
    /// Reads an operand: a control flow construct, a block, an atom or an
    /// expression in parentheses, going back to where it was after each that
    /// does not read.
    #[verifier::rlimit(60)]
    fn make_expr_body(reader: &mut SourceReader) -> (r: AsterResult<Expression>)
        requires
            old(reader).wf(),
            !old(reader).panicked(),
        ensures
            ({
                let o = body_outcome(old(reader).text(), old(reader).pos());
                &&& reads_p(r, o, old(reader), final(reader))
                &&& (o matches Parsed::Done { value, .. } ==> (r matches Ok(x) && expr_is(x, value)))
                &&& (r is Ok ==> old(reader).pos() < final(reader).pos())
            }),
        decreases old(reader).text().len() - old(reader).pos(), 26int,
    {
        proof { reader.lemma_wf(); }
        let start = reader.offset();
        match ControlFlowAST::make(reader) {
            Ok(c) => return Ok(Expression::ControlFlow(c)),
            Err(e) => {
                if reader.has_panicked() {
                    return Err(e);
                }
                let _ = reader.to(start);
            },
        }
        match BlockExpressionAST::make(reader) {
            Ok(b) => return Ok(Expression::Block(b)),
            Err(e) => {
                if reader.has_panicked() {
                    return Err(e);
                }
                let _ = reader.to(start);
            },
        }
        match AtomExpressionAST::make(reader) {
            Ok(a) => return Ok(Expression::Atom(a)),
            Err(e) => {
                if reader.has_panicked() {
                    return Err(e);
                }
                let _ = reader.to(start);
            },
        }
        match SubExpressionAST::make(reader) {
            Ok(e) => return Ok(Expression::SubExpression(e)),
            Err(e) => {
                if reader.has_panicked() {
                    return Err(e);
                }
                let _ = reader.to(start);
            },
        }
        Err(fail(reader, ErrKind::Expected, "Expression (BlockExpression, AtomExpression)", reader.offset()))
    }

    /// Reads a prefix operator: the first of the table whose text stands at
    /// the reader; `&mut` only when blanks or comments follow it.
    pub fn make_unary_pfx(reader: &mut SourceReader) -> (r: AsterResult<UnaryPfxOperator>)
        requires
            old(reader).wf(),
        ensures
            ({
                let o = pfx_outcome(old(reader).text(), old(reader).pos());
                &&& reads(r, o, old(reader), final(reader))
                &&& (o matches Parsed::Done { value, .. } ==> r == Ok::<UnaryPfxOperator, AsterError>(value))
                &&& (r is Ok ==> old(reader).pos() < final(reader).pos())
            }),
    {
        let ghost t = reader.text();
        let ghost p = reader.pos();
        let start = reader.offset();
        let mut i: usize = 0;
        while i < PFX_COUNT
            invariant
                i <= 9,
                moved(old(reader), reader, p),
                t == old(reader).text(),
                p == old(reader).pos(),
                start == p,
                pfx_outcome(t, p) == pfx_scan(t, p, i as int),
            decreases 9 - i,
        {
            proof {
                reader.lemma_wf();
                lemma_operator_texts(i as int);
            }
            let (txt, variant) = pfx_entry(i);
            if seek::begins_with(reader, txt) {
                proof { lemma_skip_ws_bounds(t, reader.pos()); }
                if variant == UnaryPfxOperator::MutRef {
                    let n = seek::optional_whitespace(reader)?;
                    if n != 0 {
                        return Ok(variant);
                    }
                    let _ = reader.to(start);
                } else {
                    return Ok(variant);
                }
            }
            i = i + 1;
        }
        Err(fail(reader, ErrKind::Expected, "Unary Prefix Operator", reader.offset()))
    }

    /// Reads a binary operator and the operand after it. If either does not
    /// read, the reader goes back to where it was.
    pub fn make_binary_half(reader: &mut SourceReader) -> (r: AsterResult<(BinaryOperator, Expression)>)
        requires
            old(reader).wf(),
            !old(reader).panicked(),
        ensures
            ({
                let o = binary_half_outcome(old(reader).text(), old(reader).pos());
                &&& reads_p(r, o, old(reader), final(reader))
                &&& (o matches Parsed::Done { value, .. } ==> (r matches Ok(x) && x.0 == value.0 && expr_is(x.1, value.1)))
                &&& (r is Ok ==> old(reader).pos() < final(reader).pos())
            }),
        decreases old(reader).text().len() - old(reader).pos(), 25int,
    {
        let ghost t = reader.text();
        let start = reader.offset();
        proof { lemma_skip_ws_bounds(t, start as int); }
        seek::optional_whitespace(reader)?;
        proof { lemma_bin_lookup(t, reader.pos(), 0); }
        let found = read_bin_operator(reader);
        match found {
            None => {
                let _ = reader.to(start);
                Err(fail(reader, ErrKind::Expected, "Binary Operator Latter Half", reader.offset()))
            },
            Some(op) => {
                proof { lemma_skip_ws_bounds(t, reader.pos()); }
                seek::optional_whitespace(reader)?;
                match Expression::make_expr_body(reader) {
                    Ok(expr) => Ok((op, expr)),
                    Err(e) => {
                        if reader.has_panicked() {
                            return Err(e);
                        }
                        let _ = reader.to(start);
                        Err(fail(reader, ErrKind::Expected, "Binary Operator Latter Half", reader.offset()))
                    },
                }
            },
        }
    }

    /// Reads `as`, blanks and the type cast to; if any of them does not
    /// read, the reader goes back to where it was.
    fn make_cast(reader: &mut SourceReader) -> (r: AsterResult<UnarySfxOperator>)
        requires
            old(reader).wf(),
        ensures
            ({
                let o = cast_outcome(old(reader).text(), old(reader).pos());
                &&& reads(r, o, old(reader), final(reader))
                &&& (o matches Parsed::Done { value, .. } ==> (r matches Ok(x) && sfx_is(x, SfxSpec::Cast(value))))
                &&& (r is Ok ==> old(reader).pos() < final(reader).pos())
            }),
    {
        proof { reveal_strlit("as"); }
        let ghost t = reader.text();
        let start = reader.offset();
        if !seek::begins_with(reader, consts::keyword::AS) {
            return Err(fail(reader, ErrKind::Expected, "Unary Prefix Operator", reader.offset()));
        }
        proof { lemma_skip_ws_bounds(t, reader.pos()); }
        if seek::required_whitespace(reader).is_err() {
            let _ = reader.to(start);
            return Err(fail(reader, ErrKind::Expected, "Unary Prefix Operator", reader.offset()));
        }
        proof { lemma_type_outcome(t, reader.pos()); }
        match TypeAST::make(reader) {
            Ok(ty) => Ok(UnarySfxOperator::Cast { to: ty }),
            Err(_) => {
                let _ = reader.to(start);
                Err(fail(reader, ErrKind::Expected, "Unary Prefix Operator", reader.offset()))
            },
        }
    }

    /// Reads the arguments of a call, in parentheses and separated by
    /// commas. An argument that does not read sends the reader back to where
    /// it was; a missing closing parenthesis is reported where it is missed.
    fn make_fn_call(reader: &mut SourceReader) -> (r: AsterResult<UnarySfxOperator>)
        requires
            old(reader).wf(),
            !old(reader).panicked(),
        ensures
            ({
                let o = call_outcome(old(reader).text(), old(reader).pos());
                &&& reads_p(r, o, old(reader), final(reader))
                &&& (o matches Parsed::Done { value, .. } ==> (r matches Ok(x) && sfx_is(x, value)))
                &&& (r is Ok ==> old(reader).pos() < final(reader).pos())
            }),
        decreases old(reader).text().len() - old(reader).pos(), 24int,
    {
        proof {
            reveal_strlit("(");
            reveal_strlit(")");
            reveal_strlit(",");
            reader.lemma_wf();
        }
        let ghost t = reader.text();
        let start = reader.offset();
        if !seek::begins_with(reader, consts::grouping::OPEN_PARENTHESIS) {
            return Err(fail(reader, ErrKind::Expected, "Unary Prefix Operator", reader.offset()));
        }
        let mut args: Vec<Expression> = Vec::new();
        let ghost mut acc: Seq<ExprSpec> = Seq::empty();
        loop
            invariant
                reader.wf(),
                reader.same_but_pos(old(reader)),
                t == reader.text(),
                t == old(reader).text(),
                start == old(reader).pos(),
                start < reader.pos() <= t.len(),
                call_outcome(t, start as int) == call_args(t, reader.pos(), acc, start as int),
                !reader.panicked(),
                exprs_are(args@, acc),
                consts::grouping::CLOSE_PARENTHESIS@ == ")"@,
                consts::punctuation::COMMA@ == ","@,
                ")"@.len() == 1,
                ","@.len() == 1,
            decreases t.len() - reader.pos(),
        {
            proof { lemma_skip_ws_bounds(t, reader.pos()); }
            seek::optional_whitespace(reader)?;
            if seek::begins_with(reader, consts::grouping::CLOSE_PARENTHESIS) {
                return Ok(UnarySfxOperator::Call { args });
            }
            let ghost q = reader.pos();
            let arg = match Expression::make(reader) {
                Ok(arg) => arg,
                Err(e) => {
                    if reader.has_panicked() {
                        return Err(e);
                    }
                    let _ = reader.to(start);
                    return Err(fail(reader, ErrKind::Expected, "Unary Prefix Operator", reader.offset()));
                },
            };
            args.push(arg);
            proof { acc = acc.push(expr_outcome(t, q)->Done_value); }
            proof { lemma_skip_ws_bounds(t, reader.pos()); }
            seek::optional_whitespace(reader)?;
            if !seek::begins_with(reader, consts::punctuation::COMMA) {
                if !seek::begins_with(reader, consts::grouping::CLOSE_PARENTHESIS) {
                    return Err(fail(reader, ErrKind::Expected, "Close Parenthesis", reader.offset()));
                }
                return Ok(UnarySfxOperator::Call { args });
            }
        }
    }

    /// Reads a subscript in brackets; if it does not read, the reader goes
    /// back to where it was.
    fn make_subscript(reader: &mut SourceReader) -> (r: AsterResult<UnarySfxOperator>)
        requires
            old(reader).wf(),
            !old(reader).panicked(),
        ensures
            ({
                let o = subscript_outcome(old(reader).text(), old(reader).pos());
                &&& reads_p(r, o, old(reader), final(reader))
                &&& (o matches Parsed::Done { value, .. } ==> (r matches Ok(x) && sfx_is(x, value)))
                &&& (r is Ok ==> old(reader).pos() < final(reader).pos())
            }),
        decreases old(reader).text().len() - old(reader).pos(), 24int,
    {
        proof {
            reveal_strlit("[");
            reveal_strlit("]");
            reader.lemma_wf();
        }
        let ghost t = reader.text();
        let start = reader.offset();
        if !seek::begins_with(reader, consts::grouping::OPEN_BRACKET) {
            return Err(fail(reader, ErrKind::Expected, "Unary Prefix Operator", reader.offset()));
        }
        proof { lemma_skip_ws_bounds(t, reader.pos()); }
        seek::optional_whitespace(reader)?;
        let arg = match Expression::make(reader) {
            Ok(arg) => arg,
            Err(e) => {
                if reader.has_panicked() {
                    return Err(e);
                }
                let _ = reader.to(start);
                return Err(fail(reader, ErrKind::Expected, "Unary Prefix Operator", reader.offset()));
            },
        };
        proof { lemma_skip_ws_bounds(t, reader.pos()); }
        seek::optional_whitespace(reader)?;
        if !seek::begins_with(reader, consts::grouping::CLOSE_BRACKET) {
            let _ = reader.to(start);
            return Err(fail(reader, ErrKind::Expected, "Unary Prefix Operator", reader.offset()));
        }
        Ok(UnarySfxOperator::Subscript { arg: Box::new(arg), dest: false })
    }

    /// Reads a suffix operator: `++` or `--`, else a call, else a subscript,
    /// else a cast, each tried where the one before left the reader.
    #[verifier::rlimit(60)]
    pub fn make_unary_sfx(reader: &mut SourceReader) -> (r: AsterResult<UnarySfxOperator>)
        requires
            old(reader).wf(),
            !old(reader).panicked(),
        ensures
            ({
                let o = sfx_outcome(old(reader).text(), old(reader).pos());
                &&& reads_p(r, o, old(reader), final(reader))
                &&& (o matches Parsed::Done { value, .. } ==> (r matches Ok(x) && sfx_is(x, value)))
                &&& (r is Ok ==> old(reader).pos() < final(reader).pos())
            }),
        decreases old(reader).text().len() - old(reader).pos(), 25int,
    {
        proof {
            reveal_strlit("++");
            reveal_strlit("--");
            reader.lemma_wf();
        }
        if seek::begins_with(reader, "++") {
            return Ok(UnarySfxOperator::PostIncrement);
        }
        if seek::begins_with(reader, "--") {
            return Ok(UnarySfxOperator::PostDecrement);
        }
        match Expression::make_fn_call(reader) {
            Ok(call) => {
                return Ok(call);
            },
            Err(e) => {
                if reader.has_panicked() {
                    return Err(e);
                }
            },
        }
        proof { reader.lemma_wf(); }
        match Expression::make_subscript(reader) {
            Ok(subscript) => {
                return Ok(subscript);
            },
            Err(e) => {
                if reader.has_panicked() {
                    return Err(e);
                }
            },
        }
        proof { reader.lemma_wf(); }
        match Expression::make_cast(reader) {
            Ok(cast) => {
                return Ok(cast);
            },
            Err(e) => {
                if reader.has_panicked() {
                    return Err(e);
                }
            },
        }
        Err(fail(reader, ErrKind::Expected, "Unary Prefix Operator", reader.offset()))
    }

    /// Reads an expression: operands and operators in turn, as far as they
    /// read, then folds them by precedence. The reader ends after the last
    /// operand or operator that read. Where the operators do not fold into
    /// one expression, which stops the program, the reader is marked as
    /// panicked and an error is returned; every parser that reads an
    /// expression does the same, so `has_panicked` tells a caller whether
    /// the text reached that point.
    #[verifier::rlimit(100)]
    #[verifier::spinoff_prover]
    pub fn make(reader: &mut SourceReader) -> (r: AsterResult<Expression>)
        requires
            old(reader).wf(),
            !old(reader).panicked(),
        ensures
            ({
                let o = expr_outcome(old(reader).text(), old(reader).pos());
                &&& reads_p(r, o, old(reader), final(reader))
                &&& (o matches Parsed::Done { value, .. } ==> (r matches Ok(x) && expr_is(x, value)))
                &&& (r is Ok ==> old(reader).pos() < final(reader).pos())
            }),
        decreases old(reader).text().len() - old(reader).pos(), 28int,
    {
        proof { reader.lemma_wf(); }
        let ghost t = reader.text();
        let ghost p0 = reader.pos();
        let mut exprs: Vec<Expression> = Vec::new();
        let mut ops: Vec<Operator> = Vec::new();
        let ghost mut es: Seq<ExprSpec> = Seq::empty();
        let ghost mut os: Seq<OpSpec> = Seq::empty();
        let mut last = LastExprComponent::Empty;
        loop
            invariant
                reader.wf(),
                reader.same_but_pos(old(reader)),
                t == reader.text(),
                t == old(reader).text(),
                p0 == old(reader).pos(),
                p0 <= reader.pos() <= t.len(),
                last == LastExprComponent::Empty ==> reader.pos() == p0,
                last != LastExprComponent::Empty ==> reader.pos() > p0,
                expr_outcome(t, p0) == expr_loop(t, reader.pos(), last, es, os),
                !reader.panicked(),
                exprs_are(exprs@, es),
                ops_are(ops@, os),
            ensures
                reader.wf(),
                reader.same_but_pos(old(reader)),
                p0 < reader.pos(),
                exprs_are(exprs@, es),
                ops_are(ops@, os),
                expr_outcome(t, p0) == match fold(es, os) {
                    Some(e) => Parsed::Done { value: e, end: reader.pos() },
                    None => Parsed::Panic,
                },
            decreases t.len() - reader.pos(),
        {
            let ghost i = reader.pos();
            match last {
                LastExprComponent::Empty => {
                    let start = reader.offset();
                    match Expression::make_expr_body(reader) {
                        Ok(e) => {
                            exprs.push(e);
                            proof { es = es.push(body_outcome(t, i)->Done_value); }
                            last = LastExprComponent::Body;
                        },
                        Err(e) => {
                            if reader.has_panicked() {
                                return Err(e);
                            }
                            let _ = reader.to(start);
                            match Expression::make_unary_pfx(reader) {
                                Ok(op) => {
                                    ops.push(Operator::UnaryPfx(op));
                                    proof { os = os.push(OpSpec::Pfx(op)); }
                                    last = LastExprComponent::PfxOperator;
                                },
                                Err(e) => {
                                    if reader.has_panicked() {
                                        return Err(e);
                                    }
                                    return Err(fail(reader, ErrKind::Expected, "Expression", reader.offset()));
                                },
                            }
                        },
                    }
                },
                LastExprComponent::PfxOperator => {
                    proof { lemma_skip_ws_bounds(t, i); }
                    seek::optional_whitespace(reader)?;
                    let start = reader.offset();
                    match Expression::make_expr_body(reader) {
                        Ok(e) => {
                            exprs.push(e);
                            proof { es = es.push(body_outcome(t, start as int)->Done_value); }
                            last = LastExprComponent::Body;
                        },
                        Err(e) => {
                            if reader.has_panicked() {
                                return Err(e);
                            }
                            let _ = reader.to(start);
                            match Expression::make_unary_pfx(reader) {
                                Ok(op) => {
                                    ops.push(Operator::UnaryPfx(op));
                                    proof { os = os.push(OpSpec::Pfx(op)); }
                                    last = LastExprComponent::PfxOperator;
                                },
                                Err(e) => {
                                    if reader.has_panicked() {
                                        return Err(e);
                                    }
                                    return Err(fail(reader, ErrKind::Expected, "Expression", reader.offset()));
                                },
                            }
                        },
                    }
                },
                _ => {
                    let body_start = reader.offset();
                    proof { lemma_skip_ws_bounds(t, i); }
                    seek::optional_whitespace(reader)?;
                    let ghost e1 = reader.pos();
                    match Expression::make_binary_half(reader) {
                        Ok((op, e)) => {
                            ops.push(Operator::Binary(op));
                            exprs.push(e);
                            proof {
                                os = os.push(OpSpec::Bin(op));
                                es = es.push(binary_half_outcome(t, e1)->Done_value.1);
                            }
                            last = LastExprComponent::Body;
                        },
                        Err(e) => {
                            if reader.has_panicked() {
                                return Err(e);
                            }
                            let ghost e2 = reader.pos();
                            proof { reader.lemma_wf(); }
                            match Expression::make_unary_sfx(reader) {
                                Ok(x) => {
                                    ops.push(Operator::UnarySfx(x));
                                    proof { os = os.push(OpSpec::Sfx(sfx_outcome(t, e2)->Done_value)); }
                                    last = LastExprComponent::SfxOperator;
                                },
                                Err(e) => {
                                    if reader.has_panicked() {
                                        return Err(e);
                                    }
                                    let _ = reader.to(body_start);
                                    break;
                                },
                            }
                        },
                    }
                },
            }
        }
        match fold_operators(exprs, ops, Ghost(es), Ghost(os)) {
            Some(e) => Ok(e),
            None => {
                reader.set_panicked();
                Err(fail(reader, ErrKind::Unknown, "Expression (operators that do not fold)", reader.offset()))
            },
        }
    }
}

} // verus!
