use vstd::prelude::*;
use vstd::string::StrSliceExecFns;
use crate::span::Span;
use crate::source_reader::SourceReader;
use crate::chars::{chars_of, string_from_chars, is_whitespace, char_is_whitespace};
use crate::colors;

verus! {

/// How many decimal digits `n` takes; zero takes one.
pub open spec fn digits(n: nat) -> nat
    decreases n,
{
    if n < 10 { 1 } else { 1 + digits(n / 10) }
}

/// The decimal digit for `d`.
pub open spec fn digit_char(d: nat) -> char {
    if d == 0 { '0' }
    else if d == 1 { '1' }
    else if d == 2 { '2' }
    else if d == 3 { '3' }
    else if d == 4 { '4' }
    else if d == 5 { '5' }
    else if d == 6 { '6' }
    else if d == 7 { '7' }
    else if d == 8 { '8' }
    else { '9' }
}

/// `n` written in decimal.
pub open spec fn decimal(n: nat) -> Seq<char>
    decreases n,
{
    if n < 10 { seq![digit_char(n)] } else { decimal(n / 10).push(digit_char(n % 10)) }
}

/// `c` written `n` times.
pub open spec fn repeat(c: char, n: int) -> Seq<char> {
    Seq::new(if n < 0 { 0 } else { n as nat }, |i: int| c)
}

/// The start of the line at `i`, as `start_end` finds it: going back from
/// `i` to the first line feed or to the start of the text.
pub open spec fn line_start(t: Seq<char>, i: int) -> int
    decreases i,
{
    if i <= 0 {
        0
    } else if t[i] == '\n' {
        i
    } else {
        line_start(t, i - 1)
    }
}

/// The end of the line at `i`, as `start_end` finds it: going on from `i`
/// to the first line feed or to the last character.
pub open spec fn line_stop(t: Seq<char>, i: int) -> int
    decreases t.len() - i,
{
    if i + 1 >= t.len() {
        i
    } else if t[i] == '\n' {
        i
    } else {
        line_stop(t, i + 1)
    }
}

/// The line feeds among the characters of `t` from `i` to `j`, `j` excluded.
pub open spec fn count_nl(t: Seq<char>, i: int, j: int) -> nat
    decreases j - i,
{
    if i >= j {
        0
    } else {
        count_nl(t, i, j - 1) + if t[j - 1] == '\n' { 1nat } else { 0nat }
    }
}

/// The line and column of `offset`, as `line_col` computes them: the line
/// feeds up to and including the start of its line, and the characters
/// other than line feeds from there to `offset`, less one.
pub open spec fn line_col_spec(t: Seq<char>, offset: int) -> (nat, nat) {
    let start = line_start(t, offset);
    let col: int = (offset - start + 1) - count_nl(t, start, offset + 1);
    (count_nl(t, 0, start + 1), if col > 0 { (col - 1) as nat } else { 0 })
}

/// The position from `i` on past any line feeds.
pub open spec fn skip_nl_forward(t: Seq<char>, i: int) -> int
    decreases t.len() - i,
{
    if 0 <= i < t.len() && t[i] == '\n' { skip_nl_forward(t, i + 1) } else { i }
}

/// The position from `i` back past any line feeds; -1 if there are only
/// line feeds down to the start.
pub open spec fn skip_nl_back(t: Seq<char>, i: int) -> int
    decreases i + 1,
{
    if i < 0 {
        -1
    } else if t[i] != '\n' {
        i
    } else {
        skip_nl_back(t, i - 1)
    }
}

/// `get_code` can show the line at `offset`: it lies within the text and
/// holds something other than line feeds up to its end.
pub open spec fn code_ok(t: Seq<char>, offset: int) -> bool {
    0 <= offset < t.len() && skip_nl_back(t, line_stop(t, offset)) >= 0
}

/// The code of the line at `offset`, as `get_code` gives it: the line
/// without the line feeds at its ends.
pub open spec fn code_spec(t: Seq<char>, offset: int) -> Seq<char> {
    let a = skip_nl_forward(t, line_start(t, offset));
    let b = skip_nl_back(t, line_stop(t, offset));
    if a <= b { t.subrange(a, b + 1) } else { Seq::empty() }
}

/// The first position from `i` on at which `ctr`, counting line feeds
/// passed, reaches `line`.
pub open spec fn find_line(t: Seq<char>, line: int, i: int, ctr: int) -> Option<int>
    decreases t.len() - i,
{
    if i < 0 || i >= t.len() {
        None
    } else if ctr == line {
        Some(i)
    } else {
        find_line(t, line, i + 1, ctr + if t[i] == '\n' { 1int } else { 0int })
    }
}

/// Where `get_code_of_line` looks for the line `line`: its first position,
/// or else the last character of the text.
pub open spec fn line_offset(t: Seq<char>, line: int) -> int {
    match find_line(t, line, 0, 0) {
        Some(i) => i,
        None => if t.len() != 0 { t.len() - 1 } else { 0 },
    }
}

/// `line_no + 1` in decimal, padded with spaces in front to `pfx_len`.
pub open spec fn pad_spec(pfx_len: int, line_no: nat) -> Seq<char> {
    repeat(' ', pfx_len - digits(line_no + 1)) + decimal(line_no + 1)
}

/// The line number `line`, cut to the low 32 bits as a cast to `u32`
/// cuts it, and counted from 1: the number a diagnostic's gutter shows
/// and measures.
pub open spec fn gutter_no(line: nat) -> nat {
    ((line as u32) + 1) as nat
}

/// The line `bl` can stand in a gutter `pfx` wide: its number, cut to 32
/// bits, is below `u32::MAX` and takes no more than `pfx` digits.
pub open spec fn pads_to(bl: int, pfx: nat) -> bool {
    &&& (bl as u32) < u32::MAX
    &&& digits(gutter_no(bl as nat)) <= pfx
}

/// The severity of a diagnostic.
#[derive(Debug, Clone, Copy, PartialEq, Eq, Structural)]
pub enum Level {
    Debug,
    Note,
    Warning,
    Error,
}

/// The name of a level, in bold and its color.
pub open spec fn level_text(l: Level) -> Seq<char> {
    match l {
        Level::Debug => colors::BOLD@ + colors::MAGENTA@ + "debug"@ + colors::CLEAR@,
        Level::Note => colors::BOLD@ + colors::CYAN@ + "note"@ + colors::CLEAR@,
        Level::Warning => colors::BOLD@ + colors::YELLOW@ + "warning"@ + colors::CLEAR@,
        Level::Error => colors::BOLD@ + colors::RED@ + "error"@ + colors::CLEAR@,
    }
}

/// A diagnostic: its level, its message, the note under the code and the
/// span of code it is about.
pub struct Message {
    pub level: Level,
    pub msg: String,
    pub sub: String,
    pub span: Span,
}

/// The line of every character of `s` is a blank.
pub open spec fn all_blank(s: Seq<char>) -> bool {
    forall|i: int| 0 <= i < s.len() ==> char_is_whitespace(#[trigger] s[i])
}

/// The line `bl` of a diagnostic over several lines that end at
/// `end_line`: its number and code, then a rule under it as long as the
/// code, with the note after the rule of the line before the last.
pub open spec fn line_piece(t: Seq<char>, bl: int, end_line: int, pfx: int, sub: Seq<char>) -> Seq<char> {
    let code = code_spec(t, line_offset(t, bl));
    pad_spec(pfx, (bl as u32) as nat) + " | "@ + code + "\n"@
        + repeat(' ', pfx) + " | "@ + repeat('─', code.len() as int)
        + (if bl == end_line - 1 { " "@ + sub } else { Seq::empty() }) + "\n"@
}

/// The lines from `bl` to `end_line` of a diagnostic over several lines.
pub open spec fn between_lines(t: Seq<char>, bl: int, end_line: int, pfx: int, sub: Seq<char>) -> Seq<char>
    decreases end_line - bl + 1,
{
    if bl > end_line || bl < 0 {
        Seq::empty()
    } else {
        line_piece(t, bl, end_line, pfx, sub) + between_lines(t, bl + 1, end_line, pfx, sub)
    }
}

/// The text of the diagnostic `m` about the source `t`.
pub open spec fn message_text(t: Seq<char>, level: Level, msg: Seq<char>, sub: Seq<char>, span: Span) -> Seq<char> {
    let (start_line, start_col) = line_col_spec(t, span.start as int);
    let (end_line, end_col) = line_col_spec(t, span.end as int);
    let head = level_text(level) + ": "@ + colors::BOLD@ + msg + colors::CLEAR@ + "\n"@;
    if start_line != end_line {
        let pfx = digits(gutter_no(end_line)) as int;
        let s1 = line_start(t, span.start as int);
        let e1 = line_stop(t, span.start as int);
        head + repeat(' ', pfx) + " |\n"@
            + pad_spec(pfx, (start_line as u32) as nat) + " | "@ + code_spec(t, span.start as int) + "\n"@
            + repeat(' ', pfx) + " | "@ + repeat(' ', start_col as int) + repeat('─', e1 - s1 - start_col) + "\n"@
            + between_lines(t, (start_line + 1) as int, end_line as int, pfx, sub)
    } else {
        let pfx = digits(gutter_no(start_line)) as int;
        let line_code = code_spec(t, span.start as int);
        let code = if all_blank(line_code) { colors::DARK_GRAY@ + "[blank line]"@ + colors::CLEAR@ } else { line_code };
        let width: int = if end_col >= start_col + 1 { end_col - start_col } else { 1 };
        head + repeat(' ', pfx) + " |\n"@
            + decimal(start_line + 1) + " | "@ + code + "\n"@
            + repeat(' ', pfx) + " | "@ + repeat(' ', start_col as int) + repeat('─', width) + " "@ + sub + "\n"@
    }
}

/// `format_message` does not panic on `t` for a diagnostic spanning
/// `span`: both ends lie within the text, every line number shown in the
/// gutter, cut to `u32` as a cast cuts it, stays below `u32::MAX` and fits
/// the gutter, every line shown has code, and the rules it draws have no
/// negative length.
pub open spec fn message_ok(t: Seq<char>, span: Span) -> bool {
    let (start_line, start_col) = line_col_spec(t, span.start as int);
    let (end_line, end_col) = line_col_spec(t, span.end as int);
    &&& span.start < t.len()
    &&& span.end < t.len()
    &&& t.len() <= usize::MAX
    &&& start_line + 1 <= usize::MAX
    &&& code_ok(t, span.start as int)
    &&& if start_line != end_line {
        let pfx = digits(gutter_no(end_line));
        &&& (end_line as u32) < u32::MAX
        &&& pads_to(start_line as int, pfx)
        &&& start_col <= line_stop(t, span.start as int) - line_start(t, span.start as int)
        &&& forall|bl: int| start_line < bl <= end_line ==> #[trigger] code_ok(t, line_offset(t, bl))
        &&& forall|bl: int| start_line < bl <= end_line ==> #[trigger] pads_to(bl, pfx)
    } else {
        &&& (start_line as u32) < u32::MAX
        &&& start_col <= end_col
    }
}

/// The digits of `n`, as `num_length` counts them.
fn num_length(n: u32) -> (r: usize)
    ensures
        r == digits(n as nat),
        1 <= r <= 10,
{
    proof { lemma_digits_bound(n as nat); }
    let mut k: usize = 1;
    let mut m = n;
    while m >= 10
        invariant
            1 <= k,
            digits(n as nat) <= 10,
            digits(n as nat) == k - 1 + digits(m as nat),
            digits(m as nat) >= 1,
        decreases m,
    {
        m = m / 10;
        k = k + 1;
    }
    k
}

proof fn lemma_digits_bound(n: nat)
    requires
        n <= u32::MAX,
    ensures
        digits(n) <= 10,
{
    assert(digits(n) <= 10) by {
        reveal_with_fuel(digits, 11);
    }
}

/// Appends the characters of `s`.
fn push_str(out: &mut Vec<char>, s: &str)
    ensures
        final(out)@ == old(out)@ + s@,
{
    let n = s.unicode_len();
    let mut i: usize = 0;
    while i < n
        invariant
            n == s@.len(),
            i <= n,
            out@ == old(out)@ + s@.subrange(0, i as int),
        decreases n - i,
    {
        out.push(s.get_char(i));
        proof { assert(s@.subrange(0, i + 1) == s@.subrange(0, i as int).push(s@[i as int])); }
        i = i + 1;
    }
    proof { assert(s@.subrange(0, n as int) == s@); }
}

/// Appends `c`, `n` times.
fn push_repeat(out: &mut Vec<char>, c: char, n: usize)
    ensures
        final(out)@ == old(out)@ + repeat(c, n as int),
{
    let mut i: usize = 0;
    while i < n
        invariant
            i <= n,
            out@ == old(out)@ + repeat(c, i as int),
        decreases n - i,
    {
        out.push(c);
        proof { assert(repeat(c, i + 1) == repeat(c, i as int).push(c)); }
        i = i + 1;
    }
}

/// The decimal digit for `d`.
fn digit(d: usize) -> (r: char)
    requires
        d < 10,
    ensures
        r == digit_char(d as nat),
{
    if d == 0 { '0' }
    else if d == 1 { '1' }
    else if d == 2 { '2' }
    else if d == 3 { '3' }
    else if d == 4 { '4' }
    else if d == 5 { '5' }
    else if d == 6 { '6' }
    else if d == 7 { '7' }
    else if d == 8 { '8' }
    else { '9' }
}

/// Appends `n` in decimal.
fn push_decimal(out: &mut Vec<char>, n: usize)
    ensures
        final(out)@ == old(out)@ + decimal(n as nat),
    decreases n,
{
    if n < 10 {
        out.push(digit(n));
        proof { assert(decimal(n as nat) == seq![digit_char(n as nat)]); }
    } else {
        push_decimal(out, n / 10);
        out.push(digit(n % 10));
        proof { assert(old(out)@ + decimal(n as nat) == (old(out)@ + decimal((n / 10) as nat)).push(digit_char((n % 10) as nat))); }
    }
}

/// The start and end of the line at `offset`: back to a line feed or the
/// start of the text, on to a line feed or the last character. Offsets
/// here are character offsets into `src`, not byte offsets.
pub fn start_end(src: &String, offset: usize) -> (r: (usize, usize))
    requires
        offset == 0 || offset < src@.len(),
    ensures
        r.0 == line_start(src@, offset as int),
        r.1 == line_stop(src@, offset as int),
{
    let chars = chars_of(src);
    start_end_of(&chars, offset)
}

fn start_end_of(t: &Vec<char>, offset: usize) -> (r: (usize, usize))
    requires
        offset == 0 || offset < t@.len(),
    ensures
        r.0 == line_start(t@, offset as int),
        r.1 == line_stop(t@, offset as int),
{
    let mut start = offset;
    let mut end = offset;
    loop
        invariant
            start <= offset,
            offset == 0 || offset < t@.len(),
            line_start(t@, offset as int) == line_start(t@, start as int),
        ensures
            line_start(t@, offset as int) == start,
        decreases start,
    {
        if start == 0 {
            break;
        }
        if t[start] == '\n' {
            break;
        }
        start = start - 1;
    }
    let n = t.len();
    loop
        invariant
            n == t@.len(),
            offset <= end,
            end == 0 || end < t@.len(),
            line_stop(t@, offset as int) == line_stop(t@, end as int),
        ensures
            line_stop(t@, offset as int) == end,
        decreases t@.len() - end,
    {
        if end + 1 >= n {
            break;
        }
        if t[end] == '\n' {
            break;
        }
        end = end + 1;
    }
    (start, end)
}

proof fn lemma_line_bounds(t: Seq<char>, offset: int)
    requires
        0 <= offset < t.len(),
    ensures
        0 <= line_start(t, offset) <= offset,
        offset <= line_stop(t, offset) < t.len(),
{
    lemma_line_start(t, offset);
    lemma_line_stop(t, offset);
}

proof fn lemma_line_start(t: Seq<char>, i: int)
    requires
        0 <= i,
    ensures
        0 <= line_start(t, i) <= i,
    decreases i,
{
    if i > 0 && t[i] != '\n' {
        lemma_line_start(t, i - 1);
    }
}

proof fn lemma_line_stop(t: Seq<char>, i: int)
    requires
        0 <= i < t.len(),
    ensures
        i <= line_stop(t, i) < t.len(),
    decreases t.len() - i,
{
    if i + 1 < t.len() && t[i] != '\n' {
        lemma_line_stop(t, i + 1);
    }
}

/// The line and column of `offset`: line feeds up to the start of its line,
/// and the characters other than line feeds from there to it, less one.
/// `offset` is a character offset into `src`, not a byte offset.
pub fn line_col(src: &String, offset: usize) -> (r: (usize, usize))
    requires
        offset < src@.len(),
    ensures
        r.0 == line_col_spec(src@, offset as int).0,
        r.1 == line_col_spec(src@, offset as int).1,
{
    let t = chars_of(src);
    line_col_of(&t, offset)
}

fn line_col_of(t: &Vec<char>, offset: usize) -> (r: (usize, usize))
    requires
        offset < t@.len(),
    ensures
        r.0 == line_col_spec(t@, offset as int).0,
        r.1 == line_col_spec(t@, offset as int).1,
{
    proof { lemma_line_bounds(t@, offset as int); }
    let (start, _) = start_end_of(t, offset);
    let n = t.len();
    let mut line: usize = 0;
    let mut i: usize = 0;
    while i <= start
        invariant
            n == t@.len(),
            start <= offset < t@.len(),
            i <= start + 1,
            line == count_nl(t@, 0, i as int),
            line <= i,
        decreases start + 1 - i,
    {
        if t[i] == '\n' {
            line = line + 1;
        }
        i = i + 1;
    }
    let mut col: usize = 0;
    let mut j: usize = start;
    while j <= offset
        invariant
            n == t@.len(),
            start <= offset < t@.len(),
            start <= j <= offset + 1,
            col == (j - start) - count_nl(t@, start as int, j as int),
            count_nl(t@, start as int, j as int) <= j - start,
        decreases offset + 1 - j,
    {
        if t[j] != '\n' {
            col = col + 1;
        }
        j = j + 1;
    }
    (line, if col > 0 { col - 1 } else { 0 })
}

/// The code of the line at `offset`, without the line feeds at its ends.
fn get_code_of(t: &Vec<char>, offset: usize) -> (r: Vec<char>)
    requires
        code_ok(t@, offset as int),
    ensures
        r@ == code_spec(t@, offset as int),
{
    proof { lemma_line_bounds(t@, offset as int); }
    let (mut start, mut end) = start_end_of(t, offset);
    let n = t.len();
    while start < n && t[start] == '\n'
        invariant
            n == t@.len(),
            start <= n,
            skip_nl_forward(t@, line_start(t@, offset as int)) == skip_nl_forward(t@, start as int),
        decreases n - start,
    {
        start = start + 1;
    }
    while t[end] == '\n'
        invariant
            end < n,
            n == t@.len(),
            skip_nl_back(t@, line_stop(t@, offset as int)) == skip_nl_back(t@, end as int),
            skip_nl_back(t@, end as int) >= 0,
        decreases end,
    {
        proof {
            if end == 0 {
                assert(skip_nl_back(t@, -1) == -1);
            }
        }
        end = end - 1;
    }
    let mut out: Vec<char> = Vec::new();
    if start <= end {
        let mut k = start;
        while k <= end
            invariant
                start <= end < n,
                n == t@.len(),
                start <= k <= end + 1,
                out@ == t@.subrange(start as int, k as int),
            decreases end + 1 - k,
        {
            out.push(t[k]);
            proof { assert(t@.subrange(start as int, k + 1) == t@.subrange(start as int, k as int).push(t@[k as int])); }
            k = k + 1;
        }
    }
    out
}

/// The code of the line at `offset`, without the line feeds at its ends.
fn get_code(src: &String, offset: usize) -> (r: String)
    requires
        code_ok(src@, offset as int),
    ensures
        r@ == code_spec(src@, offset as int),
{
    let t = chars_of(src);
    let code = get_code_of(&t, offset);
    string_from_chars(&code)
}

/// `line_no + 1`, padded with spaces in front to `pfx_len` characters.
fn space_pad_line_to_len(pfx_len: usize, line_no: u32) -> (r: String)
    requires
        line_no < u32::MAX,
        pfx_len >= digits(line_no as nat + 1),
    ensures
        r@ == pad_spec(pfx_len as int, line_no as nat),
{
    let mut out: Vec<char> = Vec::new();
    push_pad(&mut out, pfx_len, line_no);
    string_from_chars(&out)
}

fn push_pad(out: &mut Vec<char>, pfx_len: usize, line_no: u32)
    requires
        line_no < u32::MAX,
        pfx_len >= digits(line_no as nat + 1),
    ensures
        final(out)@ == old(out)@ + pad_spec(pfx_len as int, line_no as nat),
{
    let line_no = line_no + 1;
    let line_no_len = num_length(line_no);
    push_repeat(out, ' ', pfx_len - line_no_len);
    push_decimal(out, line_no as usize);
    proof {
        assert(old(out)@ + pad_spec(pfx_len as int, (line_no - 1) as nat)
            == old(out)@ + repeat(' ', (pfx_len - line_no_len) as int) + decimal(line_no as nat));
    }
}

/// The code of the line `line`: of the first position after as many line
/// feeds, or else of the last character.
fn get_code_of_line(t: &Vec<char>, line: usize) -> (r: Vec<char>)
    requires
        code_ok(t@, line_offset(t@, line as int)),
    ensures
        r@ == code_spec(t@, line_offset(t@, line as int)),
{
    let n = t.len();
    let mut ctr: usize = 0;
    let mut i: usize = 0;
    while i < n
        invariant
            n == t@.len(),
            i <= n,
            ctr <= i,
            find_line(t@, line as int, 0, 0) == find_line(t@, line as int, i as int, ctr as int),
            code_ok(t@, line_offset(t@, line as int)),
        decreases n - i,
    {
        if ctr == line {
            return get_code_of(t, i);
        }
        if t[i] == '\n' {
            ctr = ctr + 1;
        }
        i = i + 1;
    }
    get_code_of(t, if n != 0 { n - 1 } else { 0 })
}

/// The place of `offset` as `at` shows it: the line and column of the start
/// of its line, its code, and a rule of `~` up to a caret under the code.
pub open spec fn at_text(t: Seq<char>, offset: int) -> Seq<char> {
    let (line, col) = line_col_spec(t, line_start(t, offset));
    decimal(line + 1) + ":"@ + decimal(col) + ": "@ + code_spec(t, offset) + "\n"@
        + repeat('~', (col + digits(gutter_no(line)) + digits((col as u32) as nat) + 3) as int) + "^ here"@
}

/// `at` does not panic at `offset`: the line there has code, its number
/// cut to `u32` as a cast cuts it stays below `u32::MAX`, and the length
/// of the rule fits in `usize`.
pub open spec fn at_ok(t: Seq<char>, offset: int) -> bool {
    let (line, col) = line_col_spec(t, line_start(t, offset));
    &&& code_ok(t, offset)
    &&& line + 1 <= usize::MAX
    &&& (line as u32) < u32::MAX
    &&& col + digits(gutter_no(line)) + digits((col as u32) as nat) + 3 <= usize::MAX
}

/// The place of `offset` in `src`: `line:col: code` of its line, then a
/// rule of `~` ending in `^ here`.
fn at(src: &String, offset: usize) -> (r: String)
    requires
        at_ok(src@, offset as int),
    ensures
        r@ == at_text(src@, offset as int),
{
    let t = chars_of(src);
    proof { lemma_line_bounds(t@, offset as int); }
    let (start, _end) = start_end_of(&t, offset);
    let (line, col) = line_col_of(&t, start);
    let line_no_length = num_length(line as u32 + 1);
    let col_length = num_length(col as u32);
    let mut out: Vec<char> = Vec::new();
    push_decimal(&mut out, line + 1);
    push_str(&mut out, ":");
    push_decimal(&mut out, col);
    push_str(&mut out, ": ");
    let code = get_code_of(&t, offset);
    push_chars(&mut out, &code);
    push_str(&mut out, "\n");
    push_repeat(&mut out, '~', col + line_no_length + col_length + 3);
    push_str(&mut out, "^ here");
    string_from_chars(&out)
}

/// Appends the characters of `s`.
fn push_chars(out: &mut Vec<char>, s: &Vec<char>)
    ensures
        final(out)@ == old(out)@ + s@,
{
    let n = s.len();
    let mut i: usize = 0;
    while i < n
        invariant
            n == s@.len(),
            i <= n,
            out@ == old(out)@ + s@.subrange(0, i as int),
        decreases n - i,
    {
        out.push(s[i]);
        proof { assert(s@.subrange(0, i + 1) == s@.subrange(0, i as int).push(s@[i as int])); }
        i = i + 1;
    }
    proof { assert(s@.subrange(0, n as int) == s@); }
}

impl Level {
    /// The name of the level, in bold and its color.
    pub fn to_string(&self) -> (r: String)
        ensures
            r@ == level_text(*self),
    {
        let (color, name) = match self {
            Level::Debug => (colors::MAGENTA, "debug"),
            Level::Note => (colors::CYAN, "note"),
            Level::Warning => (colors::YELLOW, "warning"),
            Level::Error => (colors::RED, "error"),
        };
        let mut out = String::from_str(colors::BOLD);
        out.append(color);
        out.append(name);
        out.append(colors::CLEAR);
        out
    }
}

impl SourceReader<'_> {
    /// The place of the reader's position, as `at` shows it.
    pub fn at(&self) -> (r: String)
        requires
            self.wf(),
            at_ok(self.text(), self.pos()),
        ensures
            r@ == at_text(self.text(), self.pos()),
    {
        at(self.src(), self.offset())
    }
}

impl SourceReader<'_> {
    /// Whether `at` can show the reader's position: whether `at_ok` holds
    /// there.
    pub fn can_show_at(&self) -> (r: bool)
        requires
            self.wf(),
        ensures
            r == at_ok(self.text(), self.pos()),
    {
        let t = chars_of(self.src());
        at_fits(&t, self.offset())
    }
}

/// Whether `get_code` can show the line at `offset`.
fn code_shows(t: &Vec<char>, offset: usize) -> (r: bool)
    ensures
        r == code_ok(t@, offset as int),
{
    if offset >= t.len() {
        return false;
    }
    proof { lemma_line_bounds(t@, offset as int); }
    let (_, end) = start_end_of(t, offset);
    let n = t.len();
    let mut e = end;
    while t[e] == '\n'
        invariant
            e < n,
            n == t@.len(),
            skip_nl_back(t@, line_stop(t@, offset as int)) == skip_nl_back(t@, e as int),
        decreases e,
    {
        if e == 0 {
            proof { assert(skip_nl_back(t@, -1) == -1); }
            return false;
        }
        e = e - 1;
    }
    true
}

/// Whether `at` can show `offset` in `t`.
fn at_fits(t: &Vec<char>, offset: usize) -> (r: bool)
    ensures
        r == at_ok(t@, offset as int),
{
    if !code_shows(t, offset) {
        return false;
    }
    proof { lemma_line_bounds(t@, offset as int); }
    let (start, _) = start_end_of(t, offset);
    let (line, col) = line_col_of(t, start);
    if line == usize::MAX {
        return false;
    }
    if line as u32 == u32::MAX {
        return false;
    }
    let line_no_length = num_length(line as u32 + 1);
    let col_length = num_length(col as u32);
    col <= usize::MAX - (line_no_length + col_length + 3)
}

/// Whether every character is a blank, as `char::is_whitespace` decides.
fn is_blank_line(s: &Vec<char>) -> (r: bool)
    ensures
        r == all_blank(s@),
{
    let n = s.len();
    let mut i: usize = 0;
    while i < n
        invariant
            n == s@.len(),
            i <= n,
            forall|k: int| 0 <= k < i ==> char_is_whitespace(#[trigger] s@[k]),
        decreases n - i,
    {
        if !is_whitespace(s[i]) {
            return false;
        }
        i = i + 1;
    }
    true
}

/// Appends the line `bl` of a diagnostic over several lines ending at
/// `end_line`, as `line_piece` lays it out.
fn push_line(w: &mut Vec<char>, t: &Vec<char>, bl: usize, end_line: usize, pfx_len: usize, sub: &String)
    requires
        1 <= bl <= end_line,
        pads_to(bl as int, pfx_len as nat),
        code_ok(t@, line_offset(t@, bl as int)),
    ensures
        final(w)@ == old(w)@ + line_piece(t@, bl as int, end_line as int, pfx_len as int, sub@),
{
    let code = get_code_of_line(t, bl);
    push_pad(w, pfx_len, bl as u32);
    push_str(w, " | ");
    push_chars(w, &code);
    push_str(w, "\n");
    push_repeat(w, ' ', pfx_len);
    push_str(w, " | ");
    push_repeat(w, '─', code.len());
    if bl == end_line - 1 {
        push_str(w, " ");
        push_str(w, sub.as_str());
    }
    push_str(w, "\n");
}

/// Lays out the diagnostic `message` about `src`: the level and message,
/// then the code of the lines it spans with their numbers, ruled under the
/// span, and the note after the rule. The span is in character offsets
/// into `src`, and the rules are as many characters long as the code they
/// underline.
#[verifier::rlimit(60)]
pub fn format_message(src: &String, message: Message) -> (r: String)
    requires
        message_ok(src@, message.span),
    ensures
        r@ == message_text(src@, message.level, message.msg@, message.sub@, message.span),
{
    let t = chars_of(src);
    let ghost tt = t@;
    let start = message.span.start;
    let end = message.span.end;
    proof {
        lemma_line_bounds(tt, start as int);
        lemma_line_bounds(tt, end as int);
    }
    let (start_line, start_col) = line_col_of(&t, start);
    let (end_line, end_col) = line_col_of(&t, end);
    let mut w: Vec<char> = Vec::new();
    let level = message.level.to_string();
    push_str(&mut w, level.as_str());
    push_str(&mut w, ": ");
    push_str(&mut w, colors::BOLD);
    push_str(&mut w, message.msg.as_str());
    push_str(&mut w, colors::CLEAR);
    push_str(&mut w, "\n");
    let ghost head = w@;
    proof {
        assert(head == level_text(message.level) + ": "@ + colors::BOLD@ + message.msg@ + colors::CLEAR@ + "\n"@);
    }
    if start_line != end_line {
        let pfx_len = num_length(end_line as u32 + 1);
        push_repeat(&mut w, ' ', pfx_len);
        push_str(&mut w, " |\n");
        push_pad(&mut w, pfx_len, start_line as u32);
        push_str(&mut w, " | ");
        let code = get_code_of(&t, start);
        push_chars(&mut w, &code);
        push_str(&mut w, "\n");
        let (s1, e1) = start_end_of(&t, start);
        push_repeat(&mut w, ' ', pfx_len);
        push_str(&mut w, " | ");
        push_repeat(&mut w, ' ', start_col);
        push_repeat(&mut w, '─', e1 - s1 - start_col);
        push_str(&mut w, "\n");
        let ghost pfx = pfx_len as int;
        let ghost sub = message.sub@;
        let ghost whole = message_text(tt, message.level, message.msg@, sub, message.span);
        proof {
            assert(whole == w@ + between_lines(tt, start_line + 1, end_line as int, pfx, sub));
        }
        let first = start_line + 1;
        let count = if end_line > start_line { end_line - start_line } else { 0 };
        let mut k: usize = 0;
        while k < count
            invariant
                tt == t@,
                pfx == pfx_len as int,
                first == start_line + 1,
                k <= count,
                count == (if end_line > start_line { end_line - start_line } else { 0 }),
                pfx_len == digits(gutter_no(end_line as nat)),
                sub == message.sub@,
                whole == w@ + between_lines(tt, first + k, end_line as int, pfx, sub),
                forall|k: int| start_line < k <= end_line ==> #[trigger] code_ok(tt, line_offset(tt, k)),
                forall|k: int| start_line < k <= end_line ==> #[trigger] pads_to(k, pfx_len as nat),
            decreases count - k,
        {
            let bl = first + k;
            let ghost w0 = w@;
            proof {
                assert(code_ok(tt, line_offset(tt, bl as int)));
                assert(pads_to(bl as int, pfx_len as nat));
            }
            push_line(&mut w, &t, bl, end_line, pfx_len, &message.sub);
            proof {
                assert(between_lines(tt, bl as int, end_line as int, pfx, sub)
                    == line_piece(tt, bl as int, end_line as int, pfx, sub) + between_lines(tt, bl + 1, end_line as int, pfx, sub));
                assert(w0 + (line_piece(tt, bl as int, end_line as int, pfx, sub) + between_lines(tt, bl + 1, end_line as int, pfx, sub))
                    == (w0 + line_piece(tt, bl as int, end_line as int, pfx, sub)) + between_lines(tt, bl + 1, end_line as int, pfx, sub));
            }
            k = k + 1;
        }
        proof {
            assert(between_lines(tt, first + k, end_line as int, pfx, sub) == Seq::<char>::empty());
            assert(w@ + Seq::<char>::empty() == w@);
        }
    } else {
        let pfx_len = num_length(start_line as u32 + 1);
        let line_code = get_code_of(&t, start);
        let blank = is_blank_line(&line_code);
        push_repeat(&mut w, ' ', pfx_len);
        push_str(&mut w, " |\n");
        push_decimal(&mut w, start_line + 1);
        push_str(&mut w, " | ");
        if blank {
            push_str(&mut w, colors::DARK_GRAY);
            push_str(&mut w, "[blank line]");
            push_str(&mut w, colors::CLEAR);
        } else {
            push_chars(&mut w, &line_code);
        }
        push_str(&mut w, "\n");
        push_repeat(&mut w, ' ', pfx_len);
        push_str(&mut w, " | ");
        push_repeat(&mut w, ' ', start_col);
        let width = if end_col - start_col >= 1 { end_col - start_col } else { 1 };
        push_repeat(&mut w, '─', width);
        push_str(&mut w, " ");
        push_str(&mut w, message.sub.as_str());
        push_str(&mut w, "\n");
    }
    string_from_chars(&w)
}

} // verus!
