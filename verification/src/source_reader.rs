use vstd::prelude::*;
use crate::span::Span;
use crate::errors::{AsterError, AsterResult};
use crate::chars::chars_of;

/// Diagnostics: where an offset stands in the text and how a message about
/// a span of code is laid out.
pub mod formatting;

verus! {

/// Returned when a move of the reader would leave the text.
#[derive(Debug, Clone, Copy, PartialEq, Eq, Structural)]
pub enum SourceReaderError {
    InvalidSeekRewind,
}

/// A cursor over the characters of a source text.
///
/// Every offset, length and move counts characters, not bytes: on text
/// that is not ASCII, the position is an index into the characters of the
/// `String`, never a byte offset into it, `len` is the number of
/// characters rather than `String::len`, and `peek` and `read` take whole
/// characters. On ASCII text the two counts agree.
pub struct SourceReader<'a> {
    src: &'a String,
    chars: Vec<char>,
    offset: usize,
    intent_offset: usize,
    intent_error: Option<AsterError>,
    path: String,
    panicked: bool,
}

impl<'a> SourceReader<'a> {
    /// The reader's internal consistency: its characters are those of its
    /// text and its position lies within them.
    pub open spec fn wf(&self) -> bool {
        &&& self.consistent()
        &&& 0 <= self.pos() <= self.text().len()
        &&& self.text().len() <= usize::MAX
    }

    /// The reader's characters are those of its text.
    pub closed spec fn consistent(&self) -> bool {
        &&& self.chars@ == self.src@
        &&& self.chars@.len() <= usize::MAX
        &&& self.offset <= self.chars@.len()
    }

    /// The whole text being read.
    pub closed spec fn text(&self) -> Seq<char> {
        self.chars@
    }

    /// The current position.
    pub closed spec fn pos(&self) -> int {
        self.offset as int
    }

    /// The position recorded by the last `set_intent_offset`.
    pub closed spec fn intent_pos(&self) -> int {
        self.intent_offset as int
    }

    /// The error recorded by the last failing `set_intent_error`.
    pub closed spec fn intent(&self) -> Option<AsterError> {
        self.intent_error
    }

    /// Whether the expression reader has met operators that do not fold
    /// into one expression, where the program stops with a panic. Nothing
    /// read after that point means anything.
    pub closed spec fn panicked(&self) -> bool {
        self.panicked
    }

    /// The path of the file the text was read from, recorded in errors.
    pub closed spec fn file(&self) -> String {
        self.path
    }

    /// The text not yet read.
    pub open spec fn rest(&self) -> Seq<char> {
        self.text().subrange(self.pos(), self.text().len() as int)
    }

    /// The reader's position always lies within its text.
    pub proof fn lemma_wf(&self)
        requires
            self.wf(),
        ensures
            0 <= self.pos() <= self.text().len(),
            self.text().len() <= usize::MAX,
    {
    }

    /// Two readers over the same text, path and recorded intent, differing at
    /// most in position.
    pub open spec fn same_but_pos(&self, other: &SourceReader) -> bool {
        &&& self.wf() == other.wf()
        &&& self.text() == other.text()
        &&& self.file() == other.file()
        &&& self.intent_pos() == other.intent_pos()
        &&& self.intent() == other.intent()
        &&& self.panicked() == other.panicked()
    }

    /// Two readers over the same text and path with the same recorded
    /// intent: the position and the panic mark may differ.
    pub open spec fn same_text(&self, other: &SourceReader) -> bool {
        &&& self.wf() == other.wf()
        &&& self.text() == other.text()
        &&& self.file() == other.file()
        &&& self.intent_pos() == other.intent_pos()
        &&& self.intent() == other.intent()
    }

    pub fn new(src: &'a String) -> (r: Self)
        ensures
            r.wf(),
            r.text() == src@,
            r.pos() == 0,
            r.intent_pos() == 0,
            r.intent() is None,
            r.file()@ == Seq::<char>::empty(),
            !r.panicked(),
    {
        let chars = chars_of(src);
        let _n = chars.len();
        SourceReader { src, chars, offset: 0, intent_offset: 0, intent_error: None, path: String::new(), panicked: false }
    }

    /// Records the path of the file the text came from.
    pub fn set_path(&mut self, path: String)
        requires
            old(self).wf(),
        ensures
            final(self).wf(),
            final(self).text() == old(self).text(),
            final(self).pos() == old(self).pos(),
            final(self).intent_pos() == old(self).intent_pos(),
            final(self).intent() == old(self).intent(),
            final(self).file() == path,
            final(self).panicked() == old(self).panicked(),
    {
        self.path = path;
    }

    /// Whether the expression reader has met operators that do not fold,
    /// where the program stops with a panic.
    pub fn has_panicked(&self) -> (r: bool)
        ensures
            r == self.panicked(),
    {
        self.panicked
    }

    /// Marks that operators did not fold into one expression.
    pub(crate) fn set_panicked(&mut self)
        requires
            old(self).wf(),
        ensures
            final(self).wf(),
            final(self).same_text(old(self)),
            final(self).pos() == old(self).pos(),
            final(self).panicked(),
    {
        self.panicked = true;
    }

    /// A copy of the recorded path.
    pub fn path(&self) -> (r: String)
        requires
            self.wf(),
        ensures
            r == self.file(),
    {
        self.path.clone()
    }

    pub fn set_intent_offset(&mut self)
        requires
            old(self).wf(),
        ensures
            final(self).wf(),
            final(self).text() == old(self).text(),
            final(self).pos() == old(self).pos(),
            final(self).file() == old(self).file(),
            final(self).intent() == old(self).intent(),
            final(self).intent_pos() == old(self).pos(),
            final(self).panicked() == old(self).panicked(),
    {
        self.intent_offset = self.offset;
    }

    /// Hands `result` back unchanged; if it is an error, records that error as
    /// the reader's intent error.
    pub fn set_intent_error<T>(&mut self, result: AsterResult<T>) -> (r: AsterResult<T>)
        requires
            old(self).wf(),
        ensures
            r == result,
            final(self).wf(),
            final(self).text() == old(self).text(),
            final(self).pos() == old(self).pos(),
            final(self).file() == old(self).file(),
            final(self).intent_pos() == old(self).intent_pos(),
            final(self).panicked() == old(self).panicked(),
            final(self).intent() == match result {
                Ok(_) => old(self).intent(),
                Err(e) => Some(e),
            },
    {
        if let Err(e) = &result {
            self.intent_error = Some(e.duplicate());
        }
        result
    }

    pub fn get_intent_offset(&self) -> (r: usize)
        requires
            self.wf(),
        ensures
            r == self.intent_pos(),
    {
        self.intent_offset
    }

    pub fn src(&self) -> (r: &'a String)
        requires
            self.wf(),
        ensures
            r@ == self.text(),
    {
        self.src
    }

    /// The position, in characters from the start.
    pub fn offset(&self) -> (r: usize)
        requires
            self.wf(),
        ensures
            r == self.pos(),
    {
        self.offset
    }

    /// The length of the text in characters, not in bytes.
    pub fn len(&self) -> (r: usize)
        requires
            self.wf(),
        ensures
            r == self.text().len(),
    {
        self.chars.len()
    }

    /// The characters, not bytes, left after the position.
    pub fn remaining(&self) -> (r: usize)
        requires
            self.wf(),
        ensures
            r == self.text().len() - self.pos(),
    {
        self.chars.len() - self.offset
    }

    /// The next `len` characters (not bytes), if that many remain.
    pub fn peek(&self, len: usize) -> (r: Option<&'a str>)
        requires
            self.wf(),
        ensures
            r is Some <==> self.pos() + len <= self.text().len(),
            r matches Some(t) ==> t@ == self.text().subrange(self.pos(), self.pos() + len),
    {
        if self.chars.len() - self.offset >= len {
            Some(self.src.as_str().substring_char(self.offset, self.offset + len))
        } else {
            None
        }
    }

    /// The character at the current position, if any remains.
    pub fn peek_ch(&self) -> (r: Option<char>)
        requires
            self.wf(),
        ensures
            r is Some <==> self.pos() < self.text().len(),
            r matches Some(c) ==> c == self.text()[self.pos()],
    {
        if self.offset < self.chars.len() {
            Some(self.chars[self.offset])
        } else {
            None
        }
    }

    /// Moves forward by `len` characters (not bytes); fails, moving nothing,
    /// past the end.
    pub fn seek(&mut self, len: usize) -> (r: Result<(), SourceReaderError>)
        requires
            old(self).wf(),
        ensures
            final(self).same_but_pos(old(self)),
            r is Ok <==> old(self).pos() + len <= old(self).text().len(),
            r is Ok ==> final(self).pos() == old(self).pos() + len,
            r is Err ==> final(self).pos() == old(self).pos(),
    {
        if self.chars.len() - self.offset >= len {
            self.offset = self.offset + len;
            Ok(())
        } else {
            Err(SourceReaderError::InvalidSeekRewind)
        }
    }

    /// Moves back by `len` characters (not bytes); fails, moving nothing,
    /// before the start.
    pub fn rewind(&mut self, len: usize) -> (r: Result<(), SourceReaderError>)
        requires
            old(self).wf(),
        ensures
            final(self).same_but_pos(old(self)),
            r is Ok <==> len <= old(self).pos(),
            r is Ok ==> final(self).pos() == old(self).pos() - len,
            r is Err ==> final(self).pos() == old(self).pos(),
    {
        if self.offset >= len {
            self.offset = self.offset - len;
            Ok(())
        } else {
            Err(SourceReaderError::InvalidSeekRewind)
        }
    }

    /// Moves to the character offset `offset`; fails, moving nothing, past
    /// the end.
    pub fn to(&mut self, offset: usize) -> (r: Result<(), SourceReaderError>)
        requires
            old(self).wf(),
        ensures
            final(self).same_but_pos(old(self)),
            r is Ok <==> offset <= old(self).text().len(),
            r is Ok ==> final(self).pos() == offset,
            r is Err ==> final(self).pos() == old(self).pos(),
    {
        if offset > self.chars.len() {
            return Err(SourceReaderError::InvalidSeekRewind);
        }
        self.offset = offset;
        Ok(())
    }

    /// Reads one character; fails, moving nothing, at the end.
    pub fn read_ch(&mut self) -> (r: Result<char, SourceReaderError>)
        requires
            old(self).wf(),
        ensures
            final(self).same_but_pos(old(self)),
            r is Ok <==> old(self).pos() < old(self).text().len(),
            r matches Ok(c) ==> c == old(self).text()[old(self).pos()]
                && final(self).pos() == old(self).pos() + 1,
            r is Err ==> final(self).pos() == old(self).pos(),
    {
        if self.offset < self.chars.len() {
            let ch = self.chars[self.offset];
            self.offset = self.offset + 1;
            Ok(ch)
        } else {
            Err(SourceReaderError::InvalidSeekRewind)
        }
    }

    /// Reads the next `len` characters (not bytes); fails, moving nothing,
    /// if fewer remain.
    pub fn read(&mut self, len: usize) -> (r: Result<&'a str, SourceReaderError>)
        requires
            old(self).wf(),
        ensures
            final(self).same_but_pos(old(self)),
            r is Ok <==> old(self).pos() + len <= old(self).text().len(),
            r matches Ok(t) ==> t@ == old(self).text().subrange(old(self).pos(), old(self).pos() + len)
                && final(self).pos() == old(self).pos() + len,
            r is Err ==> final(self).pos() == old(self).pos(),
    {
        let text = match self.peek(len) {
            Some(text) => text,
            None => { return Err(SourceReaderError::InvalidSeekRewind); }
        };
        let _ = self.seek(len);
        Ok(text)
    }

    /// The span from `start` to the current position.
    pub fn span_since(&self, start: usize) -> (r: Span)
        requires
            self.wf(),
        ensures
            r == (Span { start, end: self.pos() as usize }),
    {
        Span { start, end: self.offset }
    }
}

} // verus!
