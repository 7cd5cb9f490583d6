use vstd::prelude::*;
use crate::source_reader::SourceReader;
use crate::errors::{AsterResult, ErrKind, Outcome};
use crate::ast::ty::{Type, LiteralAST};
use crate::ast::ident::{IdentAST, QualifiedAST, FullyQualifiedAST};
use crate::ast::expression::{Expression, AtomExpression, AtomExpressionAST, StructInitializerAST};
use crate::seek_read::lemma_skip_ws_bounds;
use crate::seek_read::seek;
use crate::make::ident::{fail, lemma_ident_outcome, ident_outcome};
use crate::make::literal::lemma_literal_outcome;
use crate::make::qualified::{IdentSpec, lemma_qualified_outcome, lemma_fqualified_outcome, fqualified_outcome, ident_is};
use crate::make::ty::span_of;
use crate::consts;
use super::grammar::{Parsed, AtomSpec, ExprSpec, reads, reads_p, atom_outcome, return_outcome, init_outcome, init_members, expr_outcome};
use super::relate::{expr_is, atom_is};

verus! {

impl StructInitializerAST {
    /// Reads a struct initializer: a path with generic arguments, then
    /// `name: value` members in braces, separated by commas.
    pub fn make(reader: &mut SourceReader) -> (r: AsterResult<Self>)
        requires
            old(reader).wf(),
            !old(reader).panicked(),
        ensures
            ({
                let o = init_outcome(old(reader).text(), old(reader).pos());
                &&& reads_p(r, o, old(reader), final(reader))
                &&& (o matches Parsed::Done { value, end } ==> (r matches Ok(x)
                        && atom_is(AtomExpression::StructInitializer(x), value, old(reader).pos(), end)))
                &&& (r is Ok ==> old(reader).pos() < final(reader).pos())
            }),
        decreases old(reader).text().len() - old(reader).pos(), 24int,
    {
        proof {
            reveal_strlit("{");
            reveal_strlit("}");
            reveal_strlit(":");
            reveal_strlit(",");
            reader.lemma_wf();
        }
        let ghost t = reader.text();
        let start = reader.offset();
        proof { lemma_fqualified_outcome(t, start as int); }
        let fqual = FullyQualifiedAST::make(reader)?;
        let ghost fq = fqualified_outcome(t, start as int)->Done_value;
        let ghost fq_end = reader.pos();
        proof { lemma_skip_ws_bounds(t, reader.pos()); }
        seek::optional_whitespace(reader)?;
        if !seek::begins_with(reader, consts::grouping::OPEN_BRACE) {
            return Err(fail(reader, ErrKind::Expected, "Open Brace", reader.offset()));
        }
        let mut members: Vec<(IdentAST, Expression)> = Vec::new();
        let ghost mut acc: Seq<(IdentSpec, ExprSpec)> = Seq::empty();
        loop
            invariant
                reader.wf(),
                reader.same_but_pos(old(reader)),
                t == reader.text(),
                t == old(reader).text(),
                start == old(reader).pos(),
                start < reader.pos() <= t.len(),
                init_outcome(t, start as int) == init_members(t, reader.pos(), acc, fq, fq_end),
                !reader.panicked(),
                fqidents_ok(fqual, fq, start as int, fq_end),
                members@.len() == acc.len(),
                forall|k: int| 0 <= k < acc.len() ==>
                    ident_is(#[trigger] members@[k].0, acc[k].0) && expr_is(members@[k].1, acc[k].1),
                consts::grouping::CLOSE_BRACE@ == "}"@,
                consts::punctuation::COLON@ == ":"@,
                consts::punctuation::COMMA@ == ","@,
                "}"@.len() == 1,
                ":"@.len() == 1,
                ","@.len() == 1,
            decreases t.len() - reader.pos(),
        {
            proof { lemma_skip_ws_bounds(t, reader.pos()); }
            seek::optional_whitespace(reader)?;
            if seek::begins_with(reader, consts::grouping::CLOSE_BRACE) {
                return Ok(StructInitializerAST { span: reader.span_since(start), fqual, members });
            }
            let ghost e1 = reader.pos();
            proof { lemma_ident_outcome(t, e1); }
            let ident = IdentAST::make(reader)?;
            proof { lemma_skip_ws_bounds(t, reader.pos()); }
            seek::optional_whitespace(reader)?;
            if !seek::begins_with(reader, consts::punctuation::COLON) {
                return Err(fail(reader, ErrKind::Expected, "Colon", reader.offset()));
            }
            proof { lemma_skip_ws_bounds(t, reader.pos()); }
            seek::optional_whitespace(reader)?;
            let ghost e4 = reader.pos();
            let expr = Expression::make(reader)?;
            proof {
                let id = ident_outcome(t, e1)->Done_value;
                let e2 = ident_outcome(t, e1)->Done_end;
                acc = acc.push(((id, e1, e2), expr_outcome(t, e4)->Done_value));
            }
            members.push((ident, expr));
            proof { lemma_skip_ws_bounds(t, reader.pos()); }
            seek::optional_whitespace(reader)?;
            if !seek::begins_with(reader, consts::punctuation::COMMA) {
                if !seek::begins_with(reader, consts::grouping::CLOSE_BRACE) {
                    return Err(fail(reader, ErrKind::Expected, "Comma or Semicolon", reader.offset()));
                }
                return Ok(StructInitializerAST { span: reader.span_since(start), fqual, members });
            }
        }
    }
}

/// The path of a struct initializer is the one `fq` describes, from `start`
/// to `fq_end`.
pub open spec fn fqidents_ok(x: FullyQualifiedAST, fq: Seq<crate::make::qualified::FqSpec>, start: int, fq_end: int) -> bool {
    crate::make::qualified::fqidents_are(x.parts@, fq) && x.span == span_of(start, fq_end)
}

impl AtomExpressionAST {
    /// Reads `return` and the value after it, if blanks lead to one that
    /// reads; a name that merely starts with `return` is no `return`.
    #[verifier::rlimit(60)]
    fn make_return(reader: &mut SourceReader) -> (r: AsterResult<Self>)
        requires
            old(reader).wf(),
            !old(reader).panicked(),
        ensures
            ({
                let o = return_outcome(old(reader).text(), old(reader).pos());
                &&& reads_p(r, o, old(reader), final(reader))
                &&& (o matches Parsed::Done { value, end } ==> (r matches Ok(x)
                        && x.span == span_of(old(reader).pos(), end) && x.out is Unresolved
                        && atom_is(x.a, value, old(reader).pos(), end)))
                &&& (r is Ok ==> old(reader).pos() < final(reader).pos())
            }),
        decreases old(reader).text().len() - old(reader).pos(), 24int,
    {
        proof {
            reveal_strlit("return");
            reader.lemma_wf();
        }
        let ghost t = reader.text();
        let start = reader.offset();
        let is_ident = IdentAST::make(reader).is_ok();
        let _ = reader.to(start);
        if is_ident || !seek::begins_with(reader, consts::keyword::RETURN) {
            return Err(fail(reader, ErrKind::Expected, "Keyword (return)", reader.offset()));
        }
        proof { lemma_skip_ws_bounds(t, reader.pos()); }
        let whitespace = seek::optional_whitespace(reader)?;
        let expr = if whitespace == 0 {
            None
        } else {
            match Expression::make(reader) {
                Ok(expr) => Some(Box::new(expr)),
                Err(e) => {
                    if reader.has_panicked() {
                        return Err(e);
                    }
                    let _ = reader.rewind(whitespace);
                    None
                },
            }
        };
        Ok(AtomExpressionAST { span: reader.span_since(start), out: Type::Unresolved, a: AtomExpression::Return(expr) })
    }

    /// Reads an atom: a `return`, a literal, a struct initializer or a path,
    /// going back to where it was after each that does not read.
    #[verifier::rlimit(60)]
    pub fn make(reader: &mut SourceReader) -> (r: AsterResult<Self>)
        requires
            old(reader).wf(),
            !old(reader).panicked(),
        ensures
            ({
                let o = atom_outcome(old(reader).text(), old(reader).pos());
                &&& reads_p(r, o, old(reader), final(reader))
                &&& (o matches Parsed::Done { value, end } ==> (r matches Ok(x)
                        && x.span == span_of(old(reader).pos(), end) && x.out is Unresolved
                        && atom_is(x.a, value, old(reader).pos(), end)))
                &&& (r is Ok ==> old(reader).pos() < final(reader).pos())
            }),
        decreases old(reader).text().len() - old(reader).pos(), 25int,
    {
        proof { reader.lemma_wf(); }
        let ghost t = reader.text();
        let start = reader.offset();
        match AtomExpressionAST::make_return(reader) {
            Ok(ret) => return Ok(ret),
            Err(e) => {
                if reader.has_panicked() {
                    return Err(e);
                }
                let _ = reader.to(start);
            },
        }
        proof { lemma_literal_outcome(t, start as int); }
        match LiteralAST::make(reader) {
            Ok(lit) => {
                return Ok(AtomExpressionAST {
                    span: reader.span_since(start),
                    a: AtomExpression::Literal(lit),
                    out: Type::Unresolved,
                });
            },
            Err(e) => {
                if reader.has_panicked() {
                    return Err(e);
                }
                let _ = reader.to(start);
            },
        }
        match StructInitializerAST::make(reader) {
            Ok(initializer) => {
                return Ok(AtomExpressionAST {
                    span: reader.span_since(start),
                    a: AtomExpression::StructInitializer(initializer),
                    out: Type::Unresolved,
                });
            },
            Err(e) => {
                if reader.has_panicked() {
                    return Err(e);
                }
                let _ = reader.to(start);
            },
        }
        proof { lemma_qualified_outcome(t, start as int); }
        match QualifiedAST::make(reader) {
            Ok(qual) => {
                return Ok(AtomExpressionAST {
                    span: reader.span_since(start),
                    out: Type::Unresolved,
                    a: AtomExpression::UnresolvedVariable(qual),
                });
            },
            Err(e) => {
                if reader.has_panicked() {
                    return Err(e);
                }
                let _ = reader.to(start);
            },
        }
        Err(fail(reader, ErrKind::Unknown, "Expression", reader.offset()))
    }
}

} // verus!
