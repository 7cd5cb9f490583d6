use vstd::prelude::*;
use crate::source_reader::SourceReader;
use crate::errors::{AsterError, AsterResult, ErrKind, Outcome, fails_as, outcome_end};
use crate::ast::ident::QualifiedAST;
use crate::ast::ty::{Type, TypeAST, LiteralAST};
use crate::span::Span;
use crate::seek_read::{moved, starts_at, lemma_skip_ws_bounds};
use crate::seek_read::seek;
use crate::make::ident::fail;
use crate::make::literal::{LitSpec, literal_is, numeric_outcome, lemma_numeric_outcome};
use crate::make::qualified::{IdentSpec, idents_are, ws_end, ws_fail, qualified_outcome, lemma_qualified_outcome};
use crate::intrinsics::{get_intrinsic, intrinsic_named};
use crate::consts;

verus! {

/// A type as read: its shape and where each part stands.
pub enum TySpec {
    Reference { inner: Box<TySpec>, start: int, end: int },
    Array { len: Option<(LitSpec, int, int)>, inner: Box<TySpec>, start: int, end: int },
    Named { parts: Seq<IdentSpec>, start: int, end: int },
}

pub open spec fn span_of(start: int, end: int) -> Span {
    Span { start: start as usize, end: end as usize }
}

/// The type `ty` is the one `s` describes. A named type of one part that
/// names an intrinsic is that intrinsic; any other is an unknown name.
pub open spec fn type_is(ty: TypeAST, s: TySpec) -> bool
    decreases s,
{
    match s {
        TySpec::Reference { inner, start, end } => ty.span == span_of(start, end)
            && (ty.e matches Type::ConstReferenceTo(b) && type_is(*b, *inner)),
        TySpec::Array { len, inner, start, end } => ty.span == span_of(start, end)
            && (ty.e matches Type::ArrayOf(l, b) && type_is(*b, *inner) && match len {
                None => l is None,
                Some(x) => l matches Some(lit) && literal_is(lit.l, x.0) && lit.span == span_of(x.1, x.2),
            }),
        TySpec::Named { parts, start, end } => ty.span == span_of(start, end)
            && if parts.len() == 1 && intrinsic_named(parts[0].0) is Some {
                ty.e == Type::Intrinsic(intrinsic_named(parts[0].0)->0)
            } else {
                ty.e matches Type::Unknown(q) && idents_are(q.parts@, parts) && q.span == span_of(start, end)
            },
    }
}

/// Reading a type at `p`: `& type`, `[ length ] type` with an optional
/// numeric length, or a path of names.
pub open spec fn type_outcome(t: Seq<char>, p: int) -> Outcome<TySpec>
    decreases t.len() - p,
{
    if p < 0 || p > t.len() {
        Outcome::Fail { kind: ErrKind::Expected, what: "Type"@, offset: p, end: p }
    } else if starts_at(t, p, "&"@) {
        match ws_end(t, p + 1) {
            None => ws_fail(t),
            Some(e1) => if p < e1 <= t.len() {
                match type_outcome(t, e1) {
                    Outcome::Done { value, end } =>
                        Outcome::Done { value: TySpec::Reference { inner: Box::new(value), start: p, end }, end },
                    Outcome::Fail { kind, what, offset, end } => Outcome::Fail { kind, what, offset, end },
                }
            } else {
                Outcome::Fail { kind: ErrKind::Expected, what: "Type"@, offset: p, end: p }
            },
        }
    } else if starts_at(t, p, "["@) {
        match ws_end(t, p + 1) {
            None => ws_fail(t),
            Some(e1) => {
                let (len, e2) = match numeric_outcome(t, e1) {
                    Outcome::Done { value, end } => (Some((value, e1, end)), end),
                    Outcome::Fail { .. } => (None, e1),
                };
                match ws_end(t, e2) {
                    None => ws_fail(t),
                    Some(e3) => if !starts_at(t, e3, "]"@) {
                        Outcome::Fail { kind: ErrKind::Expected, what: "Closing Bracket"@, offset: e3, end: e3 }
                    } else {
                        match ws_end(t, e3 + 1) {
                            None => ws_fail(t),
                            Some(e4) => if p < e4 <= t.len() {
                                match type_outcome(t, e4) {
                                    Outcome::Done { value, end } => Outcome::Done {
                                        value: TySpec::Array { len, inner: Box::new(value), start: p, end },
                                        end,
                                    },
                                    Outcome::Fail { kind, what, offset, end } => Outcome::Fail { kind, what, offset, end },
                                }
                            } else {
                                Outcome::Fail { kind: ErrKind::Expected, what: "Type"@, offset: p, end: p }
                            },
                        }
                    },
                }
            },
        }
    } else {
        match qualified_outcome(t, p) {
            Outcome::Done { value, end } => Outcome::Done { value: TySpec::Named { parts: value, start: p, end }, end },
            Outcome::Fail { .. } => Outcome::Fail { kind: ErrKind::Expected, what: "Type"@, offset: p, end: p },
        }
    }
}

/// A type read from `p` ends within the text, not before `p`.
pub proof fn lemma_type_outcome(t: Seq<char>, p: int)
    requires
        0 <= p <= t.len(),
    ensures
        p <= outcome_end(type_outcome(t, p)) <= t.len(),
    decreases t.len() - p,
{
    reveal_strlit("&");
    reveal_strlit("[");
    reveal_strlit("]");
    if starts_at(t, p, "&"@) {
        lemma_skip_ws_bounds(t, p + 1);
        if let Some(e1) = ws_end(t, p + 1) {
            if p < e1 <= t.len() {
                lemma_type_outcome(t, e1);
            }
        }
    } else if starts_at(t, p, "["@) {
        lemma_skip_ws_bounds(t, p + 1);
        if let Some(e1) = ws_end(t, p + 1) {
            lemma_numeric_outcome(t, e1);
            let e2 = match numeric_outcome(t, e1) {
                Outcome::Done { end, .. } => end,
                Outcome::Fail { .. } => e1,
            };
            lemma_skip_ws_bounds(t, e2);
            if let Some(e3) = ws_end(t, e2) {
                if starts_at(t, e3, "]"@) {
                    lemma_skip_ws_bounds(t, e3 + 1);
                    if let Some(e4) = ws_end(t, e3 + 1) {
                        if p < e4 <= t.len() {
                            lemma_type_outcome(t, e4);
                        }
                    }
                }
            }
        }
    } else {
        lemma_qualified_outcome(t, p);
    }
}

/// `r` and the reader are what `o` says of a type read from `old`.
pub open spec fn type_result(r: AsterResult<TypeAST>, o: Outcome<TySpec>, old: &SourceReader, new: &SourceReader) -> bool {
    &&& fails_as(r, o, old.file())
    &&& moved(old, new, outcome_end(o))
    &&& (o matches Outcome::Done { value, .. } ==> (r matches Ok(ty) && type_is(ty, value)))
}

impl TypeAST {
    /// Reads a type: a reference `& type`, an array `[length] type` whose
    /// length is optional, or a path naming an intrinsic or another type.
    pub fn make(reader: &mut SourceReader) -> (r: AsterResult<Self>)
        requires
            old(reader).wf(),
        ensures
            type_result(r, type_outcome(old(reader).text(), old(reader).pos()), old(reader), final(reader)),
        decreases old(reader).text().len() - old(reader).pos(),
    {
        proof {
            reveal_strlit("&");
            reveal_strlit("[");
            reveal_strlit("]");
        }
        let ghost t = reader.text();
        let start = reader.offset();
        if seek::begins_with(reader, consts::punctuation::AMPERSAND) {
            proof { lemma_skip_ws_bounds(t, start + 1); }
            seek::optional_whitespace(reader)?;
            let ty = Box::new(TypeAST::make(reader)?);
            Ok(TypeAST { span: reader.span_since(start), e: Type::ConstReferenceTo(ty) })
        } else if seek::begins_with(reader, consts::grouping::OPEN_BRACKET) {
            proof { lemma_skip_ws_bounds(t, start + 1); }
            seek::optional_whitespace(reader)?;
            let lit_start = reader.offset();
            proof { lemma_numeric_outcome(t, lit_start as int); }
            let len = match LiteralAST::make_numeric(reader) {
                Ok(l) => Some(l),
                Err(_) => {
                    let _ = reader.to(lit_start);
                    None
                },
            };
            proof { lemma_skip_ws_bounds(t, reader.pos()); }
            seek::optional_whitespace(reader)?;
            if !seek::begins_with(reader, consts::grouping::CLOSE_BRACKET) {
                return Err(fail(reader, ErrKind::Expected, "Closing Bracket", reader.offset()));
            }
            proof { lemma_skip_ws_bounds(t, reader.pos()); }
            seek::optional_whitespace(reader)?;
            let ty = Box::new(TypeAST::make(reader)?);
            Ok(TypeAST { span: reader.span_since(start), e: Type::ArrayOf(len, ty) })
        } else {
            proof { lemma_qualified_outcome(t, start as int); }
            match QualifiedAST::make(reader) {
                Ok(qual) => {
                    let e = match get_intrinsic(&qual) {
                        Some(ty) => ty,
                        None => Type::Unknown(qual),
                    };
                    Ok(TypeAST { span: reader.span_since(start), e })
                },
                Err(_) => {
                    let _ = reader.to(start);
                    Err(fail(reader, ErrKind::Expected, "Type", reader.offset()))
                },
            }
        }
    }
}

} // verus!
