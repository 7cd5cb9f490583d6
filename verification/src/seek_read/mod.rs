use vstd::prelude::*;
use vstd::string::StrSliceExecFns;
use crate::source_reader::SourceReader;
use crate::errors::{AsterError, AsterResult, expected_err};

pub mod read;
pub mod seek;

verus! {

/// `a` occurs in `t` at position `p`.
pub open spec fn starts_at(t: Seq<char>, p: int, a: Seq<char>) -> bool {
    &&& 0 <= p
    &&& p + a.len() <= t.len()
    &&& t.subrange(p, p + a.len()) == a
}

/// `new` is `old` moved to position `p`, everything else kept.
pub open spec fn moved(old: &SourceReader, new: &SourceReader, p: int) -> bool {
    &&& new.wf()
    &&& new.same_but_pos(old)
    &&& new.pos() == p
}

/// The characters the language skips between tokens.
pub open spec fn is_blank(c: char) -> bool {
    c == ' ' || c == '\r' || c == '\n' || c == '\t' || c == '\x0b'
}

/// The position just after the first line feed at or after `i`, or the end
/// of the text if there is none.
pub open spec fn line_end(t: Seq<char>, i: int) -> int
    decreases t.len() - i,
{
    if i >= t.len() {
        t.len() as int
    } else if t[i] == '\n' {
        i + 1
    } else {
        line_end(t, i + 1)
    }
}

/// The position just after the first `*/` at or after `i`, if there is one.
pub open spec fn close_end(t: Seq<char>, i: int) -> Option<int>
    decreases t.len() - i,
{
    if i >= t.len() {
        None
    } else if starts_at(t, i, seq!['*', '/']) {
        Some(i + 2)
    } else {
        close_end(t, i + 1)
    }
}

/// What skipping blanks and comments from a position comes to: the number of
/// blanks and comments passed and the position reached, or an unterminated
/// block comment.
pub enum Skip {
    Done { count: nat, end: int },
    Unterminated,
}

pub open spec fn add_count(s: Skip, k: nat) -> Skip {
    match s {
        Skip::Done { count, end } => Skip::Done { count: count + k, end },
        Skip::Unterminated => Skip::Unterminated,
    }
}

pub(crate) proof fn lemma_line_end(t: Seq<char>, i: int)
    requires
        0 <= i <= t.len(),
    ensures
        i <= line_end(t, i) <= t.len(),
        line_end(t, i) > i || i == t.len(),
    decreases t.len() - i,
{
    if i < t.len() && t[i] != '\n' {
        lemma_line_end(t, i + 1);
    }
}

pub(crate) proof fn lemma_close_end(t: Seq<char>, i: int)
    requires
        0 <= i,
    ensures
        close_end(t, i) matches Some(q) ==> i + 2 <= q <= t.len(),
    decreases t.len() - i,
{
    if i < t.len() && !starts_at(t, i, seq!['*', '/']) {
        lemma_close_end(t, i + 1);
    }
}

/// Skipping blanks, `//` line comments and `/* */` block comments from `p`.
pub open spec fn skip_ws(t: Seq<char>, p: int) -> Skip
    decreases t.len() - p,
{
    if p < 0 || p > t.len() {
        Skip::Done { count: 0, end: p }
    } else if starts_at(t, p, seq!['/', '/']) {
        let q = line_end(t, p + 2);
        if p < q <= t.len() {
            add_count(skip_ws(t, q), 1)
        } else {
            Skip::Done { count: 0, end: p }
        }
    } else if starts_at(t, p, seq!['/', '*']) {
        match close_end(t, p + 2) {
            None => Skip::Unterminated,
            Some(q) => if p < q <= t.len() {
                add_count(skip_ws(t, q), 1)
            } else {
                Skip::Done { count: 0, end: p }
            },
        }
    } else if p < t.len() && is_blank(t[p]) {
        add_count(skip_ws(t, p + 1), 1)
    } else {
        Skip::Done { count: 0, end: p }
    }
}

pub(crate) proof fn lemma_skip_ws_bounds(t: Seq<char>, p: int)
    requires
        0 <= p <= t.len(),
    ensures
        skip_ws(t, p) matches Skip::Done { count, end } ==> p <= end <= t.len() && count <= end - p,
    decreases t.len() - p,
{
    if starts_at(t, p, seq!['/', '/']) {
        lemma_line_end(t, p + 2);
        lemma_skip_ws_bounds(t, line_end(t, p + 2));
    } else if starts_at(t, p, seq!['/', '*']) {
        lemma_close_end(t, p + 2);
        if let Some(q) = close_end(t, p + 2) {
            lemma_skip_ws_bounds(t, q);
        }
    } else if p < t.len() && is_blank(t[p]) {
        lemma_skip_ws_bounds(t, p + 1);
    }
}

/// Two strings with the same characters.
pub(crate) fn same_chars(a: &str, b: &str) -> (r: bool)
    ensures
        r == (a@ == b@),
{
    let n = a.unicode_len();
    let m = b.unicode_len();
    if n != m {
        return false;
    }
    let mut i: usize = 0;
    while i < n
        invariant
            n == a@.len(),
            m == b@.len(),
            n == m,
            i <= n,
            forall|j: int| 0 <= j < i ==> a@[j] == b@[j],
        decreases n - i,
    {
        if a.get_char(i) != b.get_char(i) {
            return false;
        }
        i = i + 1;
    }
    assert(a@ =~= b@);
    true
}

pub(crate) fn expected(reader: &SourceReader, what: &str) -> (r: AsterError)
    requires
        reader.wf(),
    ensures
        expected_err(Err::<(), AsterError>(r), what@, reader.pos(), reader.file()),
{
    AsterError::Expected { what: String::from_str(what), offset: reader.offset(), path: reader.path() }
}

} // verus!
