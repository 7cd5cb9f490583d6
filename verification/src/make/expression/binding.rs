use vstd::prelude::*;
use crate::source_reader::SourceReader;
use crate::errors::{AsterResult, ErrKind, Outcome};
use crate::span::{GetSpan, Span};
use crate::ast::ty::TypeAST;
use crate::ast::ident::{IdentAST, KeywordAST};
use crate::ast::expression::{Expression, BindingAST};
use crate::seek_read::lemma_skip_ws_bounds;
use crate::seek_read::seek;
use crate::make::ident::{fail, lemma_ident_outcome, ident_outcome};
use crate::make::qualified::ident_is;
use crate::make::ty::{type_is, lemma_type_outcome};
use crate::consts;
use super::grammar::{Parsed, reads, reads_p, type_ident_outcome, value_outcome, binding_outcome};
use super::relate::{expr_is, binding_is};

verus! {

/// A type and the name after it, as a binding declares them.
pub struct TypeIdentPair(pub TypeAST, pub IdentAST);

impl GetSpan for TypeIdentPair {
    /// From the start of the type to the end of the name.
    fn span(&self) -> (r: Span)
        ensures
            r == (Span { start: self.0.span.start, end: self.1.span.end }),
    {
        Span { start: self.0.span.start, end: self.1.span.end }
    }
}

impl BindingAST {
    /// Reads a type, blanks and a name.
    fn make_type_ident(reader: &mut SourceReader) -> (r: AsterResult<TypeIdentPair>)
        requires
            old(reader).wf(),
        ensures
            ({
                let o = type_ident_outcome(old(reader).text(), old(reader).pos());
                &&& reads(r, o, old(reader), final(reader))
                &&& (o matches Parsed::Done { value, .. } ==> (r matches Ok(x)
                        && type_is(x.0, value.0) && ident_is(x.1, value.1)))
                &&& (r is Ok ==> old(reader).pos() < final(reader).pos())
            }),
    {
        proof { reader.lemma_wf(); }
        let ghost t = reader.text();
        proof { lemma_type_outcome(t, reader.pos()); }
        let ty = TypeAST::make(reader)?;
        proof { lemma_skip_ws_bounds(t, reader.pos()); }
        seek::required_whitespace(reader)?;
        proof { lemma_ident_outcome(t, reader.pos()); }
        let ident = IdentAST::make(reader)?;
        Ok(TypeIdentPair(ty, ident))
    }

    /// Reads `:=` and the value bound.
    fn make_value(reader: &mut SourceReader) -> (r: AsterResult<Expression>)
        requires
            old(reader).wf(),
            !old(reader).panicked(),
        ensures
            ({
                let o = value_outcome(old(reader).text(), old(reader).pos());
                &&& reads_p(r, o, old(reader), final(reader))
                &&& (o matches Parsed::Done { value, .. } ==> (r matches Ok(x) && expr_is(x, value)))
            }),
        decreases old(reader).text().len() - old(reader).pos(), 29int,
    {
        proof {
            reveal_strlit(":=");
            reader.lemma_wf();
        }
        let ghost t = reader.text();
        proof { lemma_skip_ws_bounds(t, reader.pos()); }
        seek::optional_whitespace(reader)?;
        if !seek::begins_with(reader, consts::punctuation::BOLLOCKS) {
            return Err(fail(reader, ErrKind::Expected, "Punctuation (\":=\")", reader.offset()));
        }
        proof { lemma_skip_ws_bounds(t, reader.pos()); }
        seek::optional_whitespace(reader)?;
        Expression::make(reader)
    }

    /// Reads a binding: `mut` and blanks if written, then a type, blanks
    /// and a name, or else a name alone, then `:=` and a value if they read.
    /// Without a type there must be a value.
    #[verifier::rlimit(60)]
    pub fn make(reader: &mut SourceReader) -> (r: AsterResult<Self>)
        requires
            old(reader).wf(),
            !old(reader).panicked(),
        ensures
            ({
                let o = binding_outcome(old(reader).text(), old(reader).pos());
                &&& reads_p(r, o, old(reader), final(reader))
                &&& (o matches Parsed::Done { value, .. } ==> (r matches Ok(x) && binding_is(x, value)))
                &&& (r is Ok ==> old(reader).pos() < final(reader).pos())
            }),
        decreases old(reader).text().len() - old(reader).pos(), 29int,
    {
        proof {
            reveal_strlit("mut");
            reader.lemma_wf();
        }
        let ghost t = reader.text();
        let start = reader.offset();
        let mut_keyword = match KeywordAST::make(reader, consts::keyword::MUT) {
            Ok(k) => Some(k),
            Err(e) => {
                if reader.has_panicked() {
                    return Err(e);
                }
                let _ = reader.to(start);
                None
            },
        };
        if mut_keyword.is_some() {
            proof { lemma_skip_ws_bounds(t, reader.pos()); }
            seek::required_whitespace(reader)?;
        }
        let named = reader.offset();
        let (ty, ident) = match BindingAST::make_type_ident(reader) {
            Ok(TypeIdentPair(ty, ident)) => (Some(ty), ident),
            Err(e) => {
                if reader.has_panicked() {
                    return Err(e);
                }
                let _ = reader.to(named);
                proof { lemma_ident_outcome(t, named as int); }
                let ident = IdentAST::make(reader)?;
                (None, ident)
            },
        };
        let value_start = reader.offset();
        let value = match BindingAST::make_value(reader) {
            Ok(v) => Some(Box::new(v)),
            Err(e) => {
                if reader.has_panicked() {
                    return Err(e);
                }
                let _ = reader.to(value_start);
                None
            },
        };
        if ty.is_none() && value.is_none() {
            return Err(fail(reader, ErrKind::Expected, "Value expression", reader.offset()));
        }
        Ok(BindingAST { span: reader.span_since(start), mut_keyword, ty, ident, value })
    }
}

} // verus!
