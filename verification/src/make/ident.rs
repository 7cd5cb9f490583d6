use vstd::prelude::*;
use crate::source_reader::SourceReader;
use crate::errors::{AsterError, AsterResult, ErrKind, Outcome, fails_as};
use crate::ast::ident::{IdentAST, KeywordAST};
use crate::span::Span;
use crate::chars::{char_is_alphabetic, char_is_numeric, is_alphabetic, is_numeric};
use crate::seek_read::{moved, starts_at, same_chars};
use crate::seek_read::seek;
use crate::consts;

verus! {

/// `c` may stand in a name; digits may not start one.
pub open spec fn ident_char(c: char, first: bool) -> bool {
    c == '_' || char_is_alphabetic(c) || (!first && char_is_numeric(c))
}

/// The end of the run of name characters that starts at `start`, scanning
/// from `i`.
pub open spec fn ident_run(t: Seq<char>, start: int, i: int) -> int
    decreases t.len() - i,
{
    if i < start || i >= t.len() {
        t.len() as int
    } else if ident_char(t[i], i == start) {
        ident_run(t, start, i + 1)
    } else {
        i
    }
}

/// The words that cannot be names.
pub open spec fn is_reserved(s: Seq<char>) -> bool {
    s == "mut"@ || s == "if"@ || s == "else"@ || s == "do"@ || s == "while"@
        || s == "loop"@ || s == "for"@ || s == "return"@ || s == "break"@
}

/// Reading a name at `p`: it runs until the first character that cannot
/// continue it, which must exist; it must not be empty nor a reserved word.
pub open spec fn ident_outcome(t: Seq<char>, p: int) -> Outcome<Seq<char>> {
    let e = ident_run(t, p, p);
    if e == t.len() {
        Outcome::Fail { kind: ErrKind::Expected, what: "More characters (for Ident)"@, offset: e, end: e }
    } else if e == p {
        Outcome::Fail { kind: ErrKind::Expected, what: "Ident"@, offset: p, end: p }
    } else if is_reserved(t.subrange(p, e)) {
        Outcome::Fail { kind: ErrKind::Expected, what: "Ident"@, offset: e, end: e }
    } else {
        Outcome::Done { value: t.subrange(p, e), end: e }
    }
}

proof fn lemma_ident_run(t: Seq<char>, start: int, i: int)
    requires
        0 <= start <= i <= t.len(),
    ensures
        i <= ident_run(t, start, i) <= t.len(),
    decreases t.len() - i,
{
    if i < t.len() && ident_char(t[i], i == start) {
        lemma_ident_run(t, start, i + 1);
    }
}

/// A name read from `p` ends after `p` and within the text; a failure leaves
/// the reader within the text, not before `p`.
pub proof fn lemma_ident_outcome(t: Seq<char>, p: int)
    requires
        0 <= p <= t.len(),
    ensures
        p <= crate::errors::outcome_end(ident_outcome(t, p)) <= t.len(),
        ident_outcome(t, p) is Done ==> p < crate::errors::outcome_end(ident_outcome(t, p)),
{
    lemma_ident_run(t, p, p);
}

fn is_reserved_word(s: &str) -> (r: bool)
    ensures
        r == is_reserved(s@),
{
    same_chars(s, consts::keyword::MUT)
        || same_chars(s, consts::keyword::IF)
        || same_chars(s, consts::keyword::ELSE)
        || same_chars(s, consts::keyword::DO)
        || same_chars(s, consts::keyword::WHILE)
        || same_chars(s, consts::keyword::LOOP)
        || same_chars(s, consts::keyword::FOR)
        || same_chars(s, consts::keyword::RETURN)
        || same_chars(s, consts::keyword::BREAK)
}

pub(crate) fn fail(reader: &SourceReader, kind: ErrKind, what: &str, offset: usize) -> (r: AsterError)
    requires
        reader.wf(),
    ensures
        fails_as(Err::<(), AsterError>(r), Outcome::<()>::Fail { kind, what: what@, offset: offset as int, end: 0 }, reader.file()),
{
    let w = String::from_str(what);
    let path = reader.path();
    match kind {
        ErrKind::Expected => AsterError::Expected { what: w, offset, path },
        ErrKind::Unknown => AsterError::Unknown { what: w, offset, path },
        ErrKind::BadLiteral => AsterError::BadLiteral { expected: w, offset, path },
        ErrKind::ImportIO => AsterError::ImportIO { error: w, offset, path },
        ErrKind::NotImplemented => AsterError::NotImplemented { what: w, offset, path },
    }
}

impl IdentAST {
    /// Reads a name: a letter or `_`, then letters, digits and `_`.
    pub fn make(reader: &mut SourceReader) -> (r: AsterResult<Self>)
        requires
            old(reader).wf(),
        ensures
            ({
                let o = ident_outcome(old(reader).text(), old(reader).pos());
                &&& fails_as(r, o, old(reader).file())
                &&& moved(old(reader), final(reader), crate::errors::outcome_end(o))
                &&& (o matches Outcome::Done { value, end } ==> (r matches Ok(id)
                        && id.text@ == value && id.span == (Span { start: old(reader).pos() as usize, end: end as usize })))
            }),
    {
        proof {
            reader.lemma_wf();
            lemma_ident_run(reader.text(), reader.pos(), reader.pos());
            reveal_strlit("mut");
        }
        let ghost t = reader.text();
        let start = reader.offset();
        let mut text = String::new();
        let mut ctr: usize = 0;
        loop
            invariant
                reader.wf(),
                reader.same_but_pos(old(reader)),
                t == reader.text(),
                start == old(reader).pos(),
                start <= reader.pos() <= t.len(),
                ctr == reader.pos() - start,
                text@ == t.subrange(start as int, reader.pos() as int),
                ident_run(t, start as int, start as int) == ident_run(t, start as int, reader.pos() as int),
            ensures
                reader.wf(),
                reader.same_but_pos(old(reader)),
                start < reader.pos() < t.len(),
                reader.pos() == ident_run(t, start as int, start as int),
                text@ == t.subrange(start as int, reader.pos() as int),
            decreases t.len() - reader.pos(),
        {
            proof { reader.lemma_wf(); }
            let first = match reader.read(1) {
                Ok(first) => first,
                Err(_) => {
                    return Err(fail(reader, ErrKind::Expected, "More characters (for Ident)", reader.offset()));
                },
            };
            let c = first.get_char(0);
            if c == '_' || is_alphabetic(c) || (ctr != 0 && is_numeric(c)) {
            } else if ctr == 0 {
                let _ = reader.rewind(1);
                return Err(fail(reader, ErrKind::Expected, "Ident", reader.offset()));
            } else {
                let _ = reader.rewind(1);
                break;
            }
            text.append(first);
            proof {
                assert(t.subrange(start as int, reader.pos() as int) =~= t.subrange(start as int, reader.pos() - 1) + first@);
            }
            ctr = ctr + 1;
        }
        let span = reader.span_since(start);
        if !is_reserved_word(text.as_str()) {
            Ok(IdentAST { span, text })
        } else {
            Err(fail(reader, ErrKind::Expected, "Ident", reader.offset()))
        }
    }
}

impl KeywordAST {
    /// Reads the word `text`.
    pub fn make(reader: &mut SourceReader, text: &str) -> (r: AsterResult<Self>)
        requires
            old(reader).wf(),
        ensures
            ({
                let t = old(reader).text();
                let p = old(reader).pos();
                if starts_at(t, p, text@) {
                    &&& r == Ok::<KeywordAST, AsterError>(KeywordAST { span: Span { start: p as usize, end: (p + text@.len()) as usize } })
                    &&& moved(old(reader), final(reader), p + text@.len())
                } else {
                    &&& fails_as(r, Outcome::<()>::Fail { kind: ErrKind::Expected, what: "Keyword ("@ + text@ + ")"@, offset: p, end: p }, old(reader).file())
                    &&& moved(old(reader), final(reader), p)
                }
            }),
    {
        let start = reader.offset();
        if seek::begins_with(reader, text) {
            Ok(KeywordAST { span: reader.span_since(start) })
        } else {
            let mut what = String::from_str("Keyword (");
            what.append(text);
            what.append(")");
            Err(AsterError::Expected { what, offset: reader.offset(), path: reader.path() })
        }
    }
}

} // verus!
