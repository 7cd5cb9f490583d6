use vstd::prelude::*;
use crate::chars::{len_utf8, utf8_len};

verus! {

/// Where a reader of UTF-8 text stands, kept one character behind: the
/// line and column (from 1), the blanks that began the line, and the byte
/// position of the characters accounted for, and the character taken last,
/// not yet accounted for.
#[derive(Debug)]
pub struct Metadata {
    pub line: usize,
    pub column: usize,
    pub whitespace: usize,
    pub position: usize,
    pub reading_whitespace: bool,
    pub last_ch: Option<char>,
}

/// The counts of a `Metadata`, as numbers.
pub struct MetaState {
    pub line: int,
    pub column: int,
    pub whitespace: int,
    pub position: int,
    pub reading_whitespace: bool,
    pub last_ch: Option<char>,
}

pub open spec fn meta_view(m: Metadata) -> MetaState {
    MetaState {
        line: m.line as int,
        column: m.column as int,
        whitespace: m.whitespace as int,
        position: m.position as int,
        reading_whitespace: m.reading_whitespace,
        last_ch: m.last_ch,
    }
}

/// The state at the start of the text.
pub open spec fn start_state() -> MetaState {
    MetaState { line: 1, column: 1, whitespace: 0, position: 0, reading_whitespace: true, last_ch: None }
}

/// Taking `ch` in the state `m`: the character taken before is accounted
/// for and `ch` waits its turn.
pub open spec fn take_spec(m: MetaState, ch: char) -> MetaState {
    match m.last_ch {
        None => MetaState { last_ch: Some(ch), ..m },
        Some(p) => if p == '\n' {
            MetaState {
                line: m.line + 1,
                column: 1,
                whitespace: 0,
                position: m.position + utf8_len(p),
                reading_whitespace: true,
                last_ch: Some(ch),
            }
        } else {
            let blank = p == ' ' || p == '\t';
            MetaState {
                line: m.line,
                column: m.column + 1,
                whitespace: m.whitespace + if m.reading_whitespace && blank { 1int } else { 0int },
                position: m.position + utf8_len(p),
                reading_whitespace: m.reading_whitespace && blank,
                last_ch: Some(ch),
            }
        },
    }
}

/// Every count of `m` fits in a `usize`.
pub open spec fn fits(m: MetaState) -> bool {
    &&& m.line <= usize::MAX
    &&& m.column <= usize::MAX
    &&& m.whitespace <= usize::MAX
    &&& m.position <= usize::MAX
}

/// The state after taking the characters of `s` in turn from `m`.
pub open spec fn take_all(m: MetaState, s: Seq<char>) -> MetaState
    decreases s.len(),
{
    if s.len() == 0 { m } else { take_spec(take_all(m, s.drop_last()), s.last()) }
}

impl Metadata {
    /// At the start of the text: line and column 1, nothing read.
    pub fn new() -> (r: Self)
        ensures
            meta_view(r) == start_state(),
    {
        Metadata { line: 1, column: 1, whitespace: 0, position: 0, reading_whitespace: true, last_ch: None }
    }

    /// Takes the next character and accounts for the one taken before it:
    /// its bytes move the position; a line feed starts a new line, whose
    /// leading spaces and tabs are counted until something else comes;
    /// anything else moves the column on. No count may pass `usize::MAX`.
    pub fn take(&mut self, ch: char)
        requires
            fits(take_spec(meta_view(*old(self)), ch)),
        ensures
            meta_view(*final(self)) == take_spec(meta_view(*old(self)), ch),
    {
        let prev = self.last_ch;
        self.last_ch = Some(ch);
        let ch = match prev {
            Some(c) => c,
            None => {
                return;
            },
        };
        self.position = self.position + len_utf8(ch);
        if ch == '\n' {
            self.line = self.line + 1;
            self.column = 1;
            self.whitespace = 0;
            self.reading_whitespace = true;
            return;
        }
        if self.reading_whitespace {
            if ch == ' ' || ch == '\t' {
                self.whitespace = self.whitespace + 1;
            } else {
                self.reading_whitespace = false;
            }
        }
        self.column = self.column + 1;
    }
}

} // verus!
