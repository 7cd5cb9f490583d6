use vstd::prelude::*;
use crate::source_reader::SourceReader;
use crate::errors::{AsterResult, ErrKind};
use crate::ast::ty::Type;
use crate::ast::expression::{Expression, SubExpressionAST};
use crate::seek_read::lemma_skip_ws_bounds;
use crate::seek_read::seek;
use crate::make::ident::fail;
use crate::make::ty::span_of;
use crate::consts;
use super::grammar::{Parsed, reads, reads_p, sub_outcome};
use super::relate::expr_is;

verus! {

impl SubExpressionAST {
    /// Reads an expression in parentheses.
    pub fn make(reader: &mut SourceReader) -> (r: AsterResult<Self>)
        requires
            old(reader).wf(),
            !old(reader).panicked(),
        ensures
            ({
                let o = sub_outcome(old(reader).text(), old(reader).pos());
                &&& reads_p(r, o, old(reader), final(reader))
                &&& (o matches Parsed::Done { value, end } ==> (r matches Ok(x)
                        && x.span == span_of(old(reader).pos(), end) && x.out is Unresolved
                        && expr_is(*x.e, value)))
                &&& (r is Ok ==> old(reader).pos() < final(reader).pos())
            }),
        decreases old(reader).text().len() - old(reader).pos(), 25int,
    {
        proof {
            reveal_strlit("(");
            reveal_strlit(")");
            reader.lemma_wf();
        }
        let ghost t = reader.text();
        let start = reader.offset();
        if !seek::begins_with(reader, consts::grouping::OPEN_PARENTHESIS) {
            return Err(fail(reader, ErrKind::Expected, "Open Parenthesis", reader.offset()));
        }
        proof { lemma_skip_ws_bounds(t, reader.pos()); }
        seek::optional_whitespace(reader)?;
        let expr = Expression::make(reader)?;
        proof { lemma_skip_ws_bounds(t, reader.pos()); }
        seek::optional_whitespace(reader)?;
        if !seek::begins_with(reader, consts::grouping::CLOSE_PARENTHESIS) {
            return Err(fail(reader, ErrKind::Expected, "Close Parenthesis", reader.offset()));
        }
        Ok(SubExpressionAST { span: reader.span_since(start), out: Type::Unresolved, e: Box::new(expr) })
    }
}

} // verus!
