use vstd::prelude::*;
use crate::source_reader::SourceReader;
use crate::errors::{AsterResult, ErrKind};
use crate::ast::expression::{Expression, BlockExpressionAST, ControlFlow, ControlFlowAST};
use crate::seek_read::lemma_skip_ws_bounds;
use crate::seek_read::seek;
use crate::make::ident::fail;
use crate::make::ty::span_of;
use crate::consts;
use super::grammar::{
    Parsed, ExprSpec, BlockSpec, ElseSpec, reads, reads_p, fail_of, CtrlSpec, ctrl_outcome, while_outcome, loop_outcome, if_outcome, else_chain, else_outcome,
    expr_outcome, block_outcome,
};
use super::relate::{expr_is, block_is, ctrl_is};

verus! {

/// What follows a branch of an `if`.
pub enum ElseStep {
    End,
    Last(BlockExpressionAST),
    Branch(Expression, BlockExpressionAST),
}

/// The step `x` is the one `s` describes.
pub open spec fn else_is(x: ElseStep, s: ElseSpec) -> bool {
    match s {
        ElseSpec::End => x is End,
        ElseSpec::Last(b) => x matches ElseStep::Last(y) && block_is(y, b),
        ElseSpec::Branch(c, b) => x matches ElseStep::Branch(y, z) && expr_is(y, c) && block_is(z, b),
    }
}

/// `r` is a control flow construct read from `p` as `o` describes it.
pub open spec fn ctrl_result(r: AsterResult<ControlFlowAST>, o: Parsed<super::grammar::CtrlSpec>, p: int) -> bool {
    o matches Parsed::Done { value, end } ==> (r matches Ok(x) && x.span == span_of(p, end) && ctrl_is(x.e, value))
}

impl ControlFlowAST {
    /// Reads `while`, blanks, the condition, blanks and the body.
    fn make_while(reader: &mut SourceReader) -> (r: AsterResult<Self>)
        requires
            old(reader).wf(),
            !old(reader).panicked(),
        ensures
            ({
                let o = while_outcome(old(reader).text(), old(reader).pos());
                &&& reads_p(r, o, old(reader), final(reader))
                &&& ctrl_result(r, o, old(reader).pos())
                &&& (r is Ok ==> old(reader).pos() < final(reader).pos())
            }),
        decreases old(reader).text().len() - old(reader).pos(), 24int,
    {
        proof {
            reveal_strlit("while");
            reader.lemma_wf();
        }
        let ghost t = reader.text();
        let start = reader.offset();
        if !seek::begins_with(reader, consts::keyword::WHILE) {
            return Err(fail(reader, ErrKind::Expected, "Keyword (while)", reader.offset()));
        }
        proof { lemma_skip_ws_bounds(t, reader.pos()); }
        seek::required_whitespace(reader)?;
        let cond = Expression::make(reader)?;
        proof { lemma_skip_ws_bounds(t, reader.pos()); }
        seek::required_whitespace(reader)?;
        let body = BlockExpressionAST::make(reader)?;
        Ok(ControlFlowAST { span: reader.span_since(start), e: ControlFlow::While(Box::new(cond), Box::new(body)) })
    }

    /// Reads `loop` and the body.
    fn make_loop(reader: &mut SourceReader) -> (r: AsterResult<Self>)
        requires
            old(reader).wf(),
            !old(reader).panicked(),
        ensures
            ({
                let o = loop_outcome(old(reader).text(), old(reader).pos());
                &&& reads_p(r, o, old(reader), final(reader))
                &&& ctrl_result(r, o, old(reader).pos())
                &&& (r is Ok ==> old(reader).pos() < final(reader).pos())
            }),
        decreases old(reader).text().len() - old(reader).pos(), 24int,
    {
        proof {
            reveal_strlit("loop");
            reader.lemma_wf();
        }
        let ghost t = reader.text();
        let start = reader.offset();
        if !seek::begins_with(reader, consts::keyword::LOOP) {
            return Err(fail(reader, ErrKind::Expected, "Keyword (loop)", reader.offset()));
        }
        proof { lemma_skip_ws_bounds(t, reader.pos()); }
        seek::optional_whitespace(reader)?;
        let body = BlockExpressionAST::make(reader)?;
        Ok(ControlFlowAST { span: reader.span_since(start), e: ControlFlow::Loop(Box::new(body)) })
    }

    /// Reads what follows a branch of an `if`: `else` and a block, or `else
    /// if`, a condition and a block, or nothing, in which case the reader
    /// goes back by as many characters as blanks and comments it skipped.
    fn make_else(reader: &mut SourceReader) -> (r: AsterResult<ElseStep>)
        requires
            old(reader).wf(),
            !old(reader).panicked(),
        ensures
            ({
                let o = else_outcome(old(reader).text(), old(reader).pos());
                &&& reads_p(r, o, old(reader), final(reader))
                &&& (o matches Parsed::Done { value, .. } ==> (r matches Ok(x) && else_is(x, value)))
                &&& (r matches Ok(ElseStep::Branch(..)) ==> old(reader).pos() < final(reader).pos())
            }),
        decreases old(reader).text().len() - old(reader).pos(), 29int,
    {
        proof {
            reveal_strlit("if");
            reveal_strlit("else");
            reader.lemma_wf();
        }
        let ghost t = reader.text();
        proof { lemma_skip_ws_bounds(t, reader.pos()); }
        let space_len = seek::optional_whitespace(reader)?;
        if !seek::begins_with(reader, consts::keyword::ELSE) {
            let _ = reader.rewind(space_len);
            return Ok(ElseStep::End);
        }
        proof { lemma_skip_ws_bounds(t, reader.pos()); }
        seek::required_whitespace(reader)?;
        if !seek::begins_with(reader, consts::keyword::IF) {
            let block = BlockExpressionAST::make(reader)?;
            return Ok(ElseStep::Last(block));
        }
        proof { lemma_skip_ws_bounds(t, reader.pos()); }
        seek::required_whitespace(reader)?;
        let cond = Expression::make(reader)?;
        proof { lemma_skip_ws_bounds(t, reader.pos()); }
        seek::required_whitespace(reader)?;
        let body = BlockExpressionAST::make(reader)?;
        Ok(ElseStep::Branch(cond, body))
    }

    /// Reads `if`, blanks, the condition, blanks and the body, then any
    /// number of `else if` branches and a last `else`.
    #[verifier::rlimit(100)]
    #[verifier::spinoff_prover]
    fn make_if(reader: &mut SourceReader) -> (r: AsterResult<Self>)
        requires
            old(reader).wf(),
            !old(reader).panicked(),
        ensures
            ({
                let o = if_outcome(old(reader).text(), old(reader).pos());
                &&& reads_p(r, o, old(reader), final(reader))
                &&& ctrl_result(r, o, old(reader).pos())
                &&& (r is Ok ==> old(reader).pos() < final(reader).pos())
            }),
        decreases old(reader).text().len() - old(reader).pos(), 24int,
    {
        proof {
            reveal_strlit("if");
            reader.lemma_wf();
        }
        let ghost t = reader.text();
        let start = reader.offset();
        if !seek::begins_with(reader, consts::keyword::IF) {
            return Err(fail(reader, ErrKind::Expected, "Keyword (\"if\")", reader.offset()));
        }
        proof { lemma_skip_ws_bounds(t, reader.pos()); }
        seek::required_whitespace(reader)?;
        let ghost e1 = reader.pos();
        let cond = Expression::make(reader)?;
        proof { lemma_skip_ws_bounds(t, reader.pos()); }
        seek::required_whitespace(reader)?;
        let ghost e3 = reader.pos();
        let body = BlockExpressionAST::make(reader)?;
        let ghost mut bs: Seq<(ExprSpec, BlockSpec)> = seq![
            (expr_outcome(t, e1)->Done_value, block_outcome(t, e3)->Done_value)
        ];
        let mut branches: Vec<(Expression, BlockExpressionAST)> = Vec::new();
        branches.push((cond, body));
        loop
            invariant
                reader.wf(),
                reader.same_but_pos(old(reader)),
                t == reader.text(),
                t == old(reader).text(),
                start == old(reader).pos(),
                start < reader.pos() <= t.len(),
                if_outcome(t, start as int) == else_chain(t, reader.pos(), bs),
                !reader.panicked(),
                branches@.len() == bs.len(),
                forall|k: int| 0 <= k < bs.len() ==>
                    expr_is(#[trigger] branches@[k].0, bs[k].0) && block_is(branches@[k].1, bs[k].1),
            decreases t.len() - reader.pos(),
        {
            let ghost i = reader.pos();
            let step = ControlFlowAST::make_else(reader);
            let step = match step {
                Ok(step) => {
                    proof {
                        assert(!(else_outcome(t, i) is Panic));
                        assert(else_outcome(t, i) is Done);
                        assert(else_outcome(t, i)->Done_end == reader.pos());
                    }
                    step
                },
                Err(e) => {
                    proof {
                        let oe = else_outcome(t, i);
                        assert(else_chain(t, i, bs) == fail_of::<ElseSpec, CtrlSpec>(oe));
                    }
                    return Err(e);
                },
            };
            match step {
                ElseStep::End => {
                    proof {
                        assert(else_outcome(t, i)->Done_value is End);
                        assert(if_outcome(t, start as int) == (Parsed::Done { value: CtrlSpec::If(bs, None), end: reader.pos() }));
                    }
                    return Ok(ControlFlowAST { span: reader.span_since(start), e: ControlFlow::If(branches, None) });
                },
                ElseStep::Last(block) => {
                    proof {
                        assert(else_outcome(t, i)->Done_value is Last);
                        assert(if_outcome(t, start as int) == (Parsed::Done {
                            value: CtrlSpec::If(bs, Some(else_outcome(t, i)->Done_value->Last_0)), end: reader.pos() }));
                    }
                    return Ok(ControlFlowAST { span: reader.span_since(start), e: ControlFlow::If(branches, Some(block)) });
                },
                ElseStep::Branch(cond, body) => {
                    branches.push((cond, body));
                    proof {
                        let v = else_outcome(t, i)->Done_value;
                        bs = bs.push((v->Branch_0, v->Branch_1));
                    }
                },
            }
        }
    }

    /// Reads a control flow construct: `while`, `loop` or `if`, going back
    /// to where it was after each that does not read.
    #[verifier::rlimit(60)]
    pub fn make(reader: &mut SourceReader) -> (r: AsterResult<Self>)
        requires
            old(reader).wf(),
            !old(reader).panicked(),
        ensures
            ({
                let o = ctrl_outcome(old(reader).text(), old(reader).pos());
                &&& reads_p(r, o, old(reader), final(reader))
                &&& ctrl_result(r, o, old(reader).pos())
                &&& (r is Ok ==> old(reader).pos() < final(reader).pos())
            }),
        decreases old(reader).text().len() - old(reader).pos(), 25int,
    {
        proof { reader.lemma_wf(); }
        let start = reader.offset();
        match ControlFlowAST::make_while(reader) {
            Ok(w) => return Ok(w),
            Err(e) => {
                if reader.has_panicked() {
                    return Err(e);
                }
                let _ = reader.to(start);
            },
        }
        match ControlFlowAST::make_loop(reader) {
            Ok(l) => return Ok(l),
            Err(e) => {
                if reader.has_panicked() {
                    return Err(e);
                }
                let _ = reader.to(start);
            },
        }
        match ControlFlowAST::make_if(reader) {
            Ok(i) => return Ok(i),
            Err(e) => {
                if reader.has_panicked() {
                    return Err(e);
                }
                let _ = reader.to(start);
            },
        }
        Err(fail(reader, ErrKind::Expected, "Control Flow", reader.offset()))
    }
}

} // verus!
