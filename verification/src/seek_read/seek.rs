use vstd::prelude::*;
use vstd::string::StrSliceExecFns;
use crate::source_reader::SourceReader;
use crate::errors::{AsterError, AsterResult, expected_err};
use crate::consts;
use super::{starts_at, moved, line_end, close_end, Skip, add_count, skip_ws, lemma_line_end, lemma_close_end, lemma_skip_ws_bounds, expected, read};

verus! {

/// Whether the text at the reader's position begins with `a`; if it does,
/// the reader moves past it.
pub fn begins_with(reader: &mut SourceReader, a: &str) -> (r: bool)
    requires
        old(reader).wf(),
    ensures
        r == starts_at(old(reader).text(), old(reader).pos(), a@),
        moved(old(reader), final(reader), if r { old(reader).pos() + a@.len() } else { old(reader).pos() }),
{
    let matches_input = read::begins_with(reader, a);
    if matches_input {
        let n = a.unicode_len();
        let _ = reader.seek(n);
    }
    matches_input
}

fn line_comment(reader: &mut SourceReader) -> (r: AsterResult<()>)
    requires
        old(reader).wf(),
        starts_at(old(reader).text(), old(reader).pos(), seq!['/', '/']),
    ensures
        r is Ok,
        moved(old(reader), final(reader), line_end(old(reader).text(), old(reader).pos() + 2)),
{
    proof {
        reveal_strlit("//");
        assert(consts::punctuation::LINE_COMMENT@ =~= seq!['/', '/']);
        reader.lemma_wf();
    }
    let _ = begins_with(reader, consts::punctuation::LINE_COMMENT);
    let ghost t = reader.text();
    let ghost p0 = reader.pos();
    loop
        invariant_except_break
            line_end(t, p0) == line_end(t, reader.pos()),
        invariant
            reader.wf(),
            reader.same_but_pos(old(reader)),
            t == reader.text(),
            p0 <= reader.pos() <= t.len(),
        ensures
            moved(old(reader), reader, line_end(t, p0)),
        decreases t.len() - reader.pos(),
    {
        proof { reader.lemma_wf(); }
        match reader.read_ch() {
            Ok('\n') => break,
            Err(_) => break,
            _ => {},
        }
    }
    Ok(())
}

fn multiline_comment(reader: &mut SourceReader) -> (r: AsterResult<()>)
    requires
        old(reader).wf(),
        starts_at(old(reader).text(), old(reader).pos(), seq!['/', '*']),
    ensures
        ({
            let t = old(reader).text();
            match close_end(t, old(reader).pos() + 2) {
                Some(q) => r is Ok && moved(old(reader), final(reader), q),
                None => moved(old(reader), final(reader), t.len() as int)
                    && expected_err(r, "End Multiline Comment (*/)"@, t.len() as int, old(reader).file()),
            }
        }),
{
    proof {
        reveal_strlit("/*");
        reveal_strlit("*/");
        assert(consts::grouping::OPEN_MULTILINE_COMMENT@ =~= seq!['/', '*']);
        assert(consts::grouping::CLOSE_MULTILINE_COMMENT@ =~= seq!['*', '/']);
        reader.lemma_wf();
    }
    let _ = begins_with(reader, consts::grouping::OPEN_MULTILINE_COMMENT);
    let ghost t = reader.text();
    let ghost p0 = reader.pos();
    loop
        invariant_except_break
            close_end(t, p0) == close_end(t, reader.pos()),
        invariant
            reader.wf(),
            reader.same_but_pos(old(reader)),
            t == reader.text(),
            p0 <= reader.pos() <= t.len(),
            consts::grouping::CLOSE_MULTILINE_COMMENT@ == seq!['*', '/'],
            p0 == old(reader).pos() + 2,
        ensures
            close_end(t, p0) matches Some(q) && moved(old(reader), reader, q),
        decreases t.len() - reader.pos(),
    {
        proof { reader.lemma_wf(); }
        if reader.remaining() == 0 {
            return Err(expected(reader, "End Multiline Comment (*/)"));
        }
        if begins_with(reader, consts::grouping::CLOSE_MULTILINE_COMMENT) {
            break;
        }
        let _ = reader.seek(1);
    }
    Ok(())
}

/// Skips blanks and comments; returns how many blanks and comments were
/// passed. Fails on a block comment that is never closed.
pub fn optional_whitespace(reader: &mut SourceReader) -> (r: AsterResult<usize>)
    requires
        old(reader).wf(),
    ensures
        ({
            let t = old(reader).text();
            match skip_ws(t, old(reader).pos()) {
                Skip::Done { count, end } => r == Ok::<usize, AsterError>(count as usize)
                    && moved(old(reader), final(reader), end),
                Skip::Unterminated => moved(old(reader), final(reader), t.len() as int)
                    && expected_err(r, "End Multiline Comment (*/)"@, t.len() as int, old(reader).file()),
            }
        }),
{
    proof {
        reveal_strlit("//");
        reveal_strlit("/*");
        assert(consts::punctuation::LINE_COMMENT@ =~= seq!['/', '/']);
        assert(consts::grouping::OPEN_MULTILINE_COMMENT@ =~= seq!['/', '*']);
        reader.lemma_wf();
        lemma_skip_ws_bounds(reader.text(), reader.pos());
    }
    let ghost t = reader.text();
    let ghost p0 = reader.pos();
    let mut ctr: usize = 0;
    loop
        invariant
            reader.wf(),
            reader.same_but_pos(old(reader)),
            t == reader.text(),
            p0 <= reader.pos() <= t.len(),
            ctr <= reader.pos() - p0,
            p0 == old(reader).pos(),
            consts::punctuation::LINE_COMMENT@ == seq!['/', '/'],
            consts::grouping::OPEN_MULTILINE_COMMENT@ == seq!['/', '*'],
            skip_ws(t, p0) == add_count(skip_ws(t, reader.pos()), ctr as nat),
        ensures
            skip_ws(t, p0) == (Skip::Done { count: ctr as nat, end: reader.pos() }),
        decreases t.len() - reader.pos(),
    {
        proof { reader.lemma_wf(); }
        let ghost p = reader.pos();
        if read::begins_with(reader, consts::punctuation::LINE_COMMENT) {
            line_comment(reader);
            proof { lemma_line_end(t, p + 2); }
        } else if read::begins_with(reader, consts::grouping::OPEN_MULTILINE_COMMENT) {
            proof { lemma_close_end(t, p + 2); }
            let res = multiline_comment(reader);
            if let Err(e) = res {
                assert(skip_ws(t, p) == Skip::Unterminated);
                return Err(e);
            }
        } else {
            match reader.read_ch() {
                Ok(' ') | Ok('\r') | Ok('\n') | Ok('\t') | Ok('\x0b') => {},
                Err(_) => break,
                _ => {
                    let _ = reader.rewind(1);
                    break;
                },
            }
        }
        ctr = ctr + 1;
    }
    Ok(ctr)
}

/// Skips blanks and comments, of which there must be at least one.
pub fn required_whitespace(reader: &mut SourceReader) -> (r: AsterResult<usize>)
    requires
        old(reader).wf(),
    ensures
        ({
            let t = old(reader).text();
            match skip_ws(t, old(reader).pos()) {
                Skip::Done { count, end } => moved(old(reader), final(reader), end) && if count > 0 {
                    r == Ok::<usize, AsterError>(count as usize)
                } else {
                    expected_err(r, "Whitespace"@, end, old(reader).file())
                },
                Skip::Unterminated => moved(old(reader), final(reader), t.len() as int)
                    && expected_err(r, "End Multiline Comment (*/)"@, t.len() as int, old(reader).file()),
            }
        }),
{
    proof {
        reader.lemma_wf();
        lemma_skip_ws_bounds(reader.text(), reader.pos());
    }
    let len = optional_whitespace(reader)?;
    if len != 0 {
        Ok(len)
    } else {
        Err(expected(reader, "Whitespace"))
    }
}
} // verus!
