use vstd::prelude::*;
use crate::source_reader::SourceReader;
use crate::errors::{AsterError, AsterResult, ErrKind, Outcome, fails_as, outcome_end};
use crate::ast::ident::{IdentAST, QualifiedAST, FullyQualifiedIdentAST, FullyQualifiedAST};

use crate::span::Span;
use crate::seek_read::{moved, starts_at, skip_ws, Skip, lemma_skip_ws_bounds};
use crate::seek_read::seek;
use crate::make::ident::{ident_outcome, fail, lemma_ident_outcome};

use crate::consts;
use crate::make::ty::{TySpec, type_outcome, type_is, span_of, lemma_type_outcome};
use crate::ast::ty::TypeAST;

verus! {

/// A name as read: its text, start and end.
pub type IdentSpec = (Seq<char>, int, int);

/// The name `id` is the one `s` describes.
pub open spec fn ident_is(id: IdentAST, s: IdentSpec) -> bool {
    id.text@ == s.0 && id.span == (Span { start: s.1 as usize, end: s.2 as usize })
}

/// Each name of `ids` is the one `s` describes at the same place.
pub open spec fn idents_are(ids: Seq<IdentAST>, s: Seq<IdentSpec>) -> bool {
    ids.len() == s.len() && forall|k: int| 0 <= k < ids.len() ==> ident_is(#[trigger] ids[k], s[k])
}

/// The failure of an unterminated block comment in `t`.
pub open spec fn ws_fail<T>(t: Seq<char>) -> Outcome<T> {
    Outcome::Fail { kind: ErrKind::Expected, what: "End Multiline Comment (*/)"@, offset: t.len() as int, end: t.len() as int }
}

/// The position after the blanks and comments at `p`, if they are closed.
pub open spec fn ws_end(t: Seq<char>, p: int) -> Option<int> {
    match skip_ws(t, p) {
        Skip::Done { end, .. } => Some(end),
        Skip::Unterminated => None,
    }
}

/// Reading the `:: name` parts after the names `acc`, from `i` on. A part
/// that does not read ends the path before the whitespace that led to it.
pub open spec fn qualified_tail(t: Seq<char>, i: int, acc: Seq<IdentSpec>) -> Outcome<Seq<IdentSpec>>
    decreases t.len() - i,
{
    match ws_end(t, i) {
        None => ws_fail(t),
        Some(e1) => if !starts_at(t, e1, "::"@) {
            Outcome::Done { value: acc, end: i }
        } else {
            match ws_end(t, e1 + 2) {
                None => ws_fail(t),
                Some(e2) => match ident_outcome(t, e2) {
                    Outcome::Done { value, end } => if i < end <= t.len() {
                        qualified_tail(t, end, acc.push((value, e2, end)))
                    } else {
                        Outcome::Done { value: acc, end: i }
                    },
                    Outcome::Fail { .. } => Outcome::Done { value: acc, end: i },
                },
            }
        },
    }
}

/// Reading a path of names separated by `::`.
pub open spec fn qualified_outcome(t: Seq<char>, p: int) -> Outcome<Seq<IdentSpec>> {
    match ident_outcome(t, p) {
        Outcome::Done { value, end } => qualified_tail(t, end, seq![(value, p, end)]),
        Outcome::Fail { kind, what, offset, end } => Outcome::Fail { kind, what, offset, end },
    }
}

proof fn lemma_qualified_tail(t: Seq<char>, i: int, acc: Seq<IdentSpec>)
    requires
        0 <= i <= t.len(),
    ensures
        i <= outcome_end(qualified_tail(t, i, acc)) <= t.len(),
    decreases t.len() - i,
{
    reveal_strlit("::");
    lemma_skip_ws_bounds(t, i);
    if let Some(e1) = ws_end(t, i) {
        if starts_at(t, e1, "::"@) {
            lemma_skip_ws_bounds(t, e1 + 2);
            if let Some(e2) = ws_end(t, e1 + 2) {
                if let Outcome::Done { value, end } = ident_outcome(t, e2) {
                    if i < end <= t.len() {
                        lemma_qualified_tail(t, end, acc.push((value, e2, end)));
                    }
                }
            }
        }
    }
}

/// A path read from `p` ends within the text, not before `p`.
pub proof fn lemma_qualified_outcome(t: Seq<char>, p: int)
    requires
        0 <= p <= t.len(),
    ensures
        p <= outcome_end(qualified_outcome(t, p)) <= t.len(),
        qualified_outcome(t, p) is Done ==> p < outcome_end(qualified_outcome(t, p)),
{
    lemma_ident_outcome(t, p);
    if let Outcome::Done { value, end } = ident_outcome(t, p) {
        lemma_qualified_tail(t, end, seq![(value, p, end)]);
    }
}

/// `r` and the reader are what `o` says of a path read from `old`.
pub open spec fn qualified_result(r: AsterResult<QualifiedAST>, o: Outcome<Seq<IdentSpec>>, old: &SourceReader, new: &SourceReader) -> bool {
    &&& fails_as(r, o, old.file())
    &&& moved(old, new, outcome_end(o))
    &&& (o matches Outcome::Done { value, end } ==> (r matches Ok(q) && idents_are(q.parts@, value)
            && q.span == (Span { start: old.pos() as usize, end: end as usize })))
}

impl QualifiedAST {
    /// Reads `name`, `name :: name`, and so on.
    pub fn make(reader: &mut SourceReader) -> (r: AsterResult<Self>)
        requires
            old(reader).wf(),
        ensures
            qualified_result(r, qualified_outcome(old(reader).text(), old(reader).pos()), old(reader), final(reader)),
    {
        proof { reveal_strlit("::"); }
        let ghost t = reader.text();
        let start = reader.offset();
        proof { lemma_ident_outcome(t, start as int); }
        let mut parts: Vec<IdentAST> = Vec::new();
        let first = IdentAST::make(reader)?;
        parts.push(first);
        let ghost mut acc: Seq<IdentSpec> = seq![(first.text@, start as int, reader.pos())];
        loop
            invariant_except_break
                qualified_outcome(t, start as int) == qualified_tail(t, reader.pos(), acc),
            invariant
                reader.wf(),
                reader.same_but_pos(old(reader)),
                t == reader.text(),
                start == old(reader).pos(),
                start <= reader.pos() <= t.len(),
                idents_are(parts@, acc),
                consts::punctuation::DOUBLE_COLON@ == "::"@,
                "::"@.len() == 2,
            ensures
                qualified_outcome(t, start as int) == (Outcome::Done { value: acc, end: reader.pos() }),
            decreases t.len() - reader.pos(),
        {
            proof {
                reader.lemma_wf();
                lemma_skip_ws_bounds(t, reader.pos());
            }
            let before = reader.offset();
            seek::optional_whitespace(reader)?;
            if !seek::begins_with(reader, consts::punctuation::DOUBLE_COLON) {
                let _ = reader.to(before);
                break;
            }
            proof {
                reader.lemma_wf();
                lemma_skip_ws_bounds(t, reader.pos());
            }
            seek::optional_whitespace(reader)?;
            let e2 = reader.offset();
            proof { lemma_ident_outcome(t, e2 as int); }
            let part = match IdentAST::make(reader) {
                Ok(part) => part,
                Err(_) => {
                    let _ = reader.to(before);
                    break;
                },
            };
            proof { acc = acc.push((part.text@, e2 as int, reader.pos())); }
            parts.push(part);
        }
        Ok(QualifiedAST { span: reader.span_since(start), parts })
    }
}

/// A name with generic arguments as read: the name, the argument types if
/// chevrons followed, and where it stands.
pub struct FqSpec {
    pub ident: IdentSpec,
    pub generics: Option<Seq<TySpec>>,
    pub start: int,
    pub end: int,
}

/// Each type of `tys` is the one `s` describes at the same place.
pub open spec fn types_are(tys: Seq<TypeAST>, s: Seq<TySpec>) -> bool {
    tys.len() == s.len() && forall|k: int| 0 <= k < tys.len() ==> type_is(#[trigger] tys[k], s[k])
}

/// `x` is the name with generic arguments that `s` describes.
pub open spec fn fqident_is(x: FullyQualifiedIdentAST, s: FqSpec) -> bool {
    &&& ident_is(x.ident, s.ident)
    &&& x.span == span_of(s.start, s.end)
    &&& match s.generics {
        None => x.generics is None,
        Some(gs) => x.generics matches Some(v) && types_are(v@, gs),
    }
}

/// Each part of `xs` is the one `s` describes.
pub open spec fn fqidents_are(xs: Seq<FullyQualifiedIdentAST>, s: Seq<FqSpec>) -> bool {
    xs.len() == s.len() && forall|k: int| 0 <= k < xs.len() ==> fqident_is(#[trigger] xs[k], s[k])
}

/// Reading generic arguments from `i` on, having read `acc`, up to and
/// including the closing chevron.
pub open spec fn generics_list(t: Seq<char>, i: int, acc: Seq<TySpec>) -> Outcome<Seq<TySpec>>
    decreases t.len() - i,
{
    match ws_end(t, i) {
        None => ws_fail(t),
        Some(e1) => if starts_at(t, e1, ">"@) {
            Outcome::Done { value: acc, end: e1 + 1 }
        } else {
            match type_outcome(t, e1) {
                Outcome::Fail { kind, what, offset, end } => Outcome::Fail { kind, what, offset, end },
                Outcome::Done { value, end: e2 } => match ws_end(t, e2) {
                    None => ws_fail(t),
                    Some(e3) => if starts_at(t, e3, ","@) {
                        if i < e3 + 1 <= t.len() {
                            generics_list(t, e3 + 1, acc.push(value))
                        } else {
                            ws_fail(t)
                        }
                    } else {
                        match ws_end(t, e3) {
                            None => ws_fail(t),
                            Some(e4) => if starts_at(t, e4, ">"@) {
                                Outcome::Done { value: acc.push(value), end: e4 + 1 }
                            } else {
                                Outcome::Fail { kind: ErrKind::Expected, what: "Comma or Close Chevron"@, offset: e4, end: e4 }
                            },
                        }
                    },
                },
            }
        },
    }
}

/// Reading a name followed, after optional whitespace, by generic arguments
/// in chevrons. Without chevrons the reader steps back by as many characters
/// as blanks and comments were passed.
pub open spec fn fqident_outcome(t: Seq<char>, p: int) -> Outcome<FqSpec> {
    match ident_outcome(t, p) {
        Outcome::Fail { kind, what, offset, end } => Outcome::Fail { kind, what, offset, end },
        Outcome::Done { value, end: e } => match skip_ws(t, e) {
            Skip::Unterminated => ws_fail(t),
            Skip::Done { count, end: e1 } => if !starts_at(t, e1, "<"@) {
                Outcome::Done {
                    value: FqSpec { ident: (value, p, e), generics: None, start: p, end: e1 - count },
                    end: e1 - count,
                }
            } else {
                match generics_list(t, e1 + 1, Seq::empty()) {
                    Outcome::Done { value: gs, end } => Outcome::Done {
                        value: FqSpec { ident: (value, p, e), generics: Some(gs), start: p, end },
                        end,
                    },
                    Outcome::Fail { kind, what, offset, end } => Outcome::Fail { kind, what, offset, end },
                }
            },
        },
    }
}

proof fn lemma_generics_list(t: Seq<char>, i: int, acc: Seq<TySpec>)
    requires
        0 <= i <= t.len(),
    ensures
        i <= outcome_end(generics_list(t, i, acc)) <= t.len(),
    decreases t.len() - i,
{
    reveal_strlit(">");
    reveal_strlit(",");
    lemma_skip_ws_bounds(t, i);
    if let Some(e1) = ws_end(t, i) {
        if !starts_at(t, e1, ">"@) {
            lemma_type_outcome(t, e1);
            if let Outcome::Done { value, end: e2 } = type_outcome(t, e1) {
                lemma_skip_ws_bounds(t, e2);
                if let Some(e3) = ws_end(t, e2) {
                    if starts_at(t, e3, ","@) {
                        if i < e3 + 1 <= t.len() {
                            lemma_generics_list(t, e3 + 1, acc.push(value));
                        }
                    } else {
                        lemma_skip_ws_bounds(t, e3);
                    }
                }
            }
        }
    }
}

/// A name with generic arguments read from `p` ends within the text, not
/// before `p`.
pub proof fn lemma_fqident_outcome(t: Seq<char>, p: int)
    requires
        0 <= p <= t.len(),
    ensures
        p <= outcome_end(fqident_outcome(t, p)) <= t.len(),
        fqident_outcome(t, p) is Done ==> p < outcome_end(fqident_outcome(t, p)),
{
    reveal_strlit("<");
    lemma_ident_outcome(t, p);
    if let Outcome::Done { value, end: e } = ident_outcome(t, p) {
        lemma_skip_ws_bounds(t, e);
        if let Skip::Done { count, end: e1 } = skip_ws(t, e) {
            if starts_at(t, e1, "<"@) {
                lemma_generics_list(t, e1 + 1, Seq::empty());
            }
        }
    }
}

/// Reading `:: part` after the parts `acc`, from `i` on. Whitespace not
/// followed by `::` is kept read; a part that does not read ends the path
/// before the whitespace that led to it.
pub open spec fn fq_tail(t: Seq<char>, i: int, acc: Seq<FqSpec>) -> Outcome<Seq<FqSpec>>
    decreases t.len() - i,
{
    match ws_end(t, i) {
        None => ws_fail(t),
        Some(e1) => if !starts_at(t, e1, "::"@) {
            Outcome::Done { value: acc, end: e1 }
        } else {
            match ws_end(t, e1 + 2) {
                None => ws_fail(t),
                Some(e2) => match fqident_outcome(t, e2) {
                    Outcome::Fail { .. } => Outcome::Done { value: acc, end: i },
                    Outcome::Done { value, end } => if i < end <= t.len() {
                        fq_tail(t, end, acc.push(value))
                    } else {
                        Outcome::Done { value: acc, end: i }
                    },
                },
            }
        },
    }
}

proof fn lemma_fq_tail(t: Seq<char>, i: int, acc: Seq<FqSpec>)
    requires
        0 <= i <= t.len(),
    ensures
        i <= outcome_end(fq_tail(t, i, acc)) <= t.len(),
    decreases t.len() - i,
{
    reveal_strlit("::");
    lemma_skip_ws_bounds(t, i);
    if let Some(e1) = ws_end(t, i) {
        if starts_at(t, e1, "::"@) {
            lemma_skip_ws_bounds(t, e1 + 2);
            if let Some(e2) = ws_end(t, e1 + 2) {
                if let Outcome::Done { value, end } = fqident_outcome(t, e2) {
                    if i < end <= t.len() {
                        lemma_fq_tail(t, end, acc.push(value));
                    }
                }
            }
        }
    }
}

/// A path read from `p` ends within the text, after `p` if it reads.
pub proof fn lemma_fqualified_outcome(t: Seq<char>, p: int)
    requires
        0 <= p <= t.len(),
    ensures
        p <= outcome_end(fqualified_outcome(t, p)) <= t.len(),
        fqualified_outcome(t, p) is Done ==> p < outcome_end(fqualified_outcome(t, p)),
{
    lemma_fqident_outcome(t, p);
    if let Outcome::Done { value, end } = fqident_outcome(t, p) {
        lemma_fq_tail(t, end, seq![value]);
    }
}

/// Reading a path of names with generic arguments.
pub open spec fn fqualified_outcome(t: Seq<char>, p: int) -> Outcome<Seq<FqSpec>> {
    match fqident_outcome(t, p) {
        Outcome::Fail { kind, what, offset, end } => Outcome::Fail { kind, what, offset, end },
        Outcome::Done { value, end } => fq_tail(t, end, seq![value]),
    }
}

impl FullyQualifiedIdentAST {
    /// Reads a name and, if chevrons follow, its generic arguments.
    #[verifier::rlimit(50)]
    pub fn make(reader: &mut SourceReader) -> (r: AsterResult<Self>)
        requires
            old(reader).wf(),
        ensures
            ({
                let o = fqident_outcome(old(reader).text(), old(reader).pos());
                &&& fails_as(r, o, old(reader).file())
                &&& moved(old(reader), final(reader), outcome_end(o))
                &&& (o matches Outcome::Done { value, .. } ==> (r matches Ok(x) && fqident_is(x, value)))
            }),
    {
        proof {
            reveal_strlit("<");
            reveal_strlit(">");
            reveal_strlit(",");
        }
        let ghost t = reader.text();
        let start = reader.offset();
        proof { lemma_ident_outcome(t, start as int); }
        let ident = IdentAST::make(reader)?;
        proof { lemma_skip_ws_bounds(t, reader.pos()); }
        let whitespace = seek::optional_whitespace(reader)?;
        if !seek::begins_with(reader, consts::grouping::OPEN_CHEVRON) {
            let _ = reader.rewind(whitespace);
            return Ok(FullyQualifiedIdentAST { span: reader.span_since(start), ident, generics: None });
        }
        let ghost g0 = reader.pos();
        let ghost ie = ident.span.end as int;
        let ghost iv = ident.text@;
        assert(fqident_outcome(t, start as int) == match generics_list(t, g0, Seq::empty()) {
            Outcome::Done { value: gs, end } => Outcome::Done {
                value: FqSpec { ident: (iv, start as int, ie), generics: Some(gs), start: start as int, end },
                end,
            },
            Outcome::Fail { kind, what, offset, end } => Outcome::<FqSpec>::Fail { kind, what, offset, end },
        });
        let mut generics: Vec<TypeAST> = Vec::new();
        let ghost mut acc: Seq<TySpec> = Seq::empty();
        loop
            invariant_except_break
                generics_list(t, g0, Seq::empty()) == generics_list(t, reader.pos(), acc),
            invariant
                reader.wf(),
                reader.same_but_pos(old(reader)),
                t == reader.text(),
                start == old(reader).pos(),
                start < g0 <= reader.pos() <= t.len(),
                ident_is(ident, (iv, start as int, ie)),
                fqident_outcome(t, start as int) == match generics_list(t, g0, Seq::empty()) {
                    Outcome::Done { value: gs, end } => Outcome::Done {
                        value: FqSpec { ident: (iv, start as int, ie), generics: Some(gs), start: start as int, end },
                        end,
                    },
                    Outcome::Fail { kind, what, offset, end } => Outcome::<FqSpec>::Fail { kind, what, offset, end },
                },
                types_are(generics@, acc),
                consts::grouping::CLOSE_CHEVRON@ == ">"@,
                consts::punctuation::COMMA@ == ","@,
                ">"@.len() == 1,
                ","@.len() == 1,
            ensures
                generics_list(t, g0, Seq::empty()) == (Outcome::Done { value: acc, end: reader.pos() }),
            decreases t.len() - reader.pos(),
        {
            proof { lemma_skip_ws_bounds(t, reader.pos()); }
            seek::optional_whitespace(reader)?;
            if seek::begins_with(reader, consts::grouping::CLOSE_CHEVRON) {
                break;
            }
            let ghost p1 = reader.pos();
            proof { lemma_type_outcome(t, p1); }
            let generic = TypeAST::make(reader)?;
            proof { acc = acc.push(type_value(t, p1)); }
            generics.push(generic);
            proof { lemma_skip_ws_bounds(t, reader.pos()); }
            seek::optional_whitespace(reader)?;
            if !seek::begins_with(reader, consts::punctuation::COMMA) {
                proof { lemma_skip_ws_bounds(t, reader.pos()); }
                seek::optional_whitespace(reader)?;
                if !seek::begins_with(reader, consts::grouping::CLOSE_CHEVRON) {
                    return Err(fail(reader, ErrKind::Expected, "Comma or Close Chevron", reader.offset()));
                }
                break;
            }
        }
        Ok(FullyQualifiedIdentAST { span: reader.span_since(start), ident, generics: Some(generics) })
    }
}

impl FullyQualifiedAST {
    /// Reads names with generic arguments separated by `::`.
    pub fn make(reader: &mut SourceReader) -> (r: AsterResult<Self>)
        requires
            old(reader).wf(),
        ensures
            ({
                let o = fqualified_outcome(old(reader).text(), old(reader).pos());
                &&& fails_as(r, o, old(reader).file())
                &&& moved(old(reader), final(reader), outcome_end(o))
                &&& (o matches Outcome::Done { value, end } ==> (r matches Ok(x) && fqidents_are(x.parts@, value)
                        && x.span == span_of(old(reader).pos(), end)))
            }),
    {
        proof { reveal_strlit("::"); }
        let ghost t = reader.text();
        let start = reader.offset();
        proof { lemma_fqident_outcome(t, start as int); }
        let fqual = FullyQualifiedIdentAST::make(reader)?;
        let ghost mut acc: Seq<FqSpec> = seq![fqual_spec(t, start as int)];
        let mut parts = vec![fqual];
        loop
            invariant_except_break
                fqualified_outcome(t, start as int) == fq_tail(t, reader.pos(), acc),
            invariant
                reader.wf(),
                reader.same_but_pos(old(reader)),
                t == reader.text(),
                start == old(reader).pos(),
                start <= reader.pos() <= t.len(),
                fqidents_are(parts@, acc),
                consts::punctuation::DOUBLE_COLON@ == "::"@,
                "::"@.len() == 2,
            ensures
                fqualified_outcome(t, start as int) == (Outcome::Done { value: acc, end: reader.pos() }),
            decreases t.len() - reader.pos(),
        {
            proof { lemma_skip_ws_bounds(t, reader.pos()); }
            let iter_start = reader.offset();
            seek::optional_whitespace(reader)?;
            if !seek::begins_with(reader, consts::punctuation::DOUBLE_COLON) {
                break;
            }
            proof { lemma_skip_ws_bounds(t, reader.pos()); }
            seek::optional_whitespace(reader)?;
            let e2 = reader.offset();
            proof { lemma_fqident_outcome(t, e2 as int); }
            let fqual = match FullyQualifiedIdentAST::make(reader) {
                Ok(f) => f,
                Err(_) => {
                    let _ = reader.to(iter_start);
                    break;
                },
            };
            proof { acc = acc.push(fqual_spec(t, e2 as int)); }
            parts.push(fqual);
        }
        Ok(FullyQualifiedAST { span: reader.span_since(start), parts })
    }
}

/// The description of the type read at `p`.
spec fn type_value(t: Seq<char>, p: int) -> TySpec {
    match type_outcome(t, p) {
        Outcome::Done { value, .. } => value,
        Outcome::Fail { .. } => arbitrary(),
    }
}

/// The description of the name with generic arguments read at `p`.
spec fn fqual_spec(t: Seq<char>, p: int) -> FqSpec {
    match fqident_outcome(t, p) {
        Outcome::Done { value, .. } => value,
        Outcome::Fail { .. } => arbitrary(),
    }
}

} // verus!
