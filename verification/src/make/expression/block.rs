use vstd::prelude::*;
use crate::source_reader::SourceReader;
use crate::errors::{AsterResult, ErrKind};
use crate::ast::ty::Type;
use crate::ast::ident::IdentAST;
use crate::ast::expression::{Expression, BindingAST, BlockExpressionAST, BlockExpressionChild};
use crate::seek_read::lemma_skip_ws_bounds;
use crate::seek_read::seek;
use crate::make::ident::fail;
use crate::consts;
use super::grammar::{Parsed, ChildSpec, reads, reads_p, block_outcome, block_children, child_outcome};
use super::relate::{child_is, block_is};

verus! {

impl BlockExpressionChild {
    /// Reads a statement of a block: a binding, else an expression, going
    /// back to where it was after each that does not read.
    #[verifier::rlimit(60)]
    fn make(reader: &mut SourceReader) -> (r: AsterResult<Self>)
        requires
            old(reader).wf(),
            !old(reader).panicked(),
        ensures
            ({
                let o = child_outcome(old(reader).text(), old(reader).pos());
                &&& reads_p(r, o, old(reader), final(reader))
                &&& (o matches Parsed::Done { value, .. } ==> (r matches Ok(x) && child_is(x, value)))
                &&& (r is Ok ==> old(reader).pos() < final(reader).pos())
            }),
        decreases old(reader).text().len() - old(reader).pos(), 30int,
    {
        proof { reader.lemma_wf(); }
        let start = reader.offset();
        match BindingAST::make(reader) {
            Ok(binding) => return Ok(BlockExpressionChild::Binding(binding)),
            Err(e) => {
                if reader.has_panicked() {
                    return Err(e);
                }
                let _ = reader.to(start);
            },
        }
        match Expression::make(reader) {
            Ok(expr) => return Ok(BlockExpressionChild::Expression(expr)),
            Err(e) => {
                if reader.has_panicked() {
                    return Err(e);
                }
                let _ = reader.to(start);
            },
        }
        Err(fail(reader, ErrKind::Expected, "Expression or Binding", reader.offset()))
    }
}

impl BlockExpressionAST {
    /// Reads a block: statements in braces, each but the last followed by a
    /// semicolon. The block returns its last statement when no semicolon
    /// follows it.
    pub fn make(reader: &mut SourceReader) -> (r: AsterResult<Self>)
        requires
            old(reader).wf(),
            !old(reader).panicked(),
        ensures
            ({
                let o = block_outcome(old(reader).text(), old(reader).pos());
                &&& reads_p(r, o, old(reader), final(reader))
                &&& (o matches Parsed::Done { value, .. } ==> (r matches Ok(x) && block_is(x, value)))
                &&& (r is Ok ==> old(reader).pos() < final(reader).pos())
            }),
        decreases old(reader).text().len() - old(reader).pos(), 25int,
    {
        proof {
            reveal_strlit("{");
            reveal_strlit("}");
            reveal_strlit(";");
            reader.lemma_wf();
        }
        let ghost t = reader.text();
        let start = reader.offset();
        if !seek::begins_with(reader, consts::grouping::OPEN_BRACE) {
            return Err(fail(reader, ErrKind::Expected, "Open Curly Brace", reader.offset()));
        }
        let mut children: Vec<BlockExpressionChild> = Vec::new();
        let ghost mut acc: Seq<ChildSpec> = Seq::empty();
        loop
            invariant
                reader.wf(),
                reader.same_but_pos(old(reader)),
                t == reader.text(),
                t == old(reader).text(),
                start == old(reader).pos(),
                start < reader.pos() <= t.len(),
                block_outcome(t, start as int) == block_children(t, reader.pos(), acc, start as int),
                !reader.panicked(),
                children@.len() == acc.len(),
                forall|k: int| 0 <= k < acc.len() ==> child_is(#[trigger] children@[k], acc[k]),
                consts::grouping::CLOSE_BRACE@ == "}"@,
                consts::punctuation::SEMICOLON@ == ";"@,
                "}"@.len() == 1,
                ";"@.len() == 1,
            decreases t.len() - reader.pos(),
        {
            proof { lemma_skip_ws_bounds(t, reader.pos()); }
            seek::optional_whitespace(reader)?;
            if seek::begins_with(reader, consts::grouping::CLOSE_BRACE) {
                return Ok(BlockExpressionAST {
                    span: reader.span_since(start),
                    out: Type::Unresolved,
                    children,
                    vars: Vec::new(),
                    returns_last: false,
                });
            }
            let ghost e1 = reader.pos();
            let child = BlockExpressionChild::make(reader)?;
            children.push(child);
            proof { acc = acc.push(child_outcome(t, e1)->Done_value); }
            proof { lemma_skip_ws_bounds(t, reader.pos()); }
            seek::optional_whitespace(reader)?;
            if !seek::begins_with(reader, consts::punctuation::SEMICOLON) {
                if seek::begins_with(reader, consts::grouping::CLOSE_BRACE) {
                    return Ok(BlockExpressionAST {
                        span: reader.span_since(start),
                        out: Type::Unresolved,
                        children,
                        vars: Vec::new(),
                        returns_last: true,
                    });
                }
                return Err(fail(reader, ErrKind::Expected, "Close Curly Brace or Semicolon", reader.offset()));
            }
        }
    }
}

} // verus!
