use vstd::prelude::*;
use vstd::string::StrSliceExecFns;
use crate::source_reader::SourceReader;
use crate::errors::{AsterError, AsterResult, ErrKind, Outcome, fails_as, outcome_end};
use crate::ast::ty::{Literal, LiteralAST};
use crate::span::Span;
use crate::seek_read::{moved, starts_at};
use crate::seek_read::seek;
use crate::make::ident::fail;
use crate::consts;
use crate::chars::string_from_chars;

verus! {

/// The radix of a numeric literal, chosen by its prefix.
#[derive(Debug, Clone, Copy, PartialEq, Eq, Structural)]
pub enum Base {
    Binary,
    Octal,
    Decimal,
    Hexadecimal,
}

/// The kind of a string literal, chosen by its prefix.
#[derive(Debug, Clone, Copy, PartialEq, Eq, Structural)]
pub enum StringType {
    C,
    Byte,
    Unicode,
}

/// What a literal parser read.
pub enum LitSpec {
    Number { float: bool, text: Seq<char> },
    Text { ty: StringType, text: Seq<char> },
    Character { byte: bool, c: char },
}

/// The literal `l` is what `s` describes.
pub open spec fn literal_is(l: Literal, s: LitSpec) -> bool {
    match s {
        LitSpec::Number { float, text } => if float {
            l matches Literal::FloatLiteral(x) && x@ == text
        } else {
            l matches Literal::IntLiteral(x) && x@ == text
        },
        LitSpec::Text { ty, text } => match ty {
            StringType::Unicode => l matches Literal::UnicodeString(x) && x@ == text,
            StringType::Byte => l matches Literal::ByteString(x) && x@ == text,
            StringType::C => l matches Literal::CString(x) && x@ == text,
        },
        LitSpec::Character { byte, c } => if byte {
            l == Literal::ByteChar(c)
        } else {
            l == Literal::Char(c)
        },
    }
}

/// The reader ended where `o` says and `r` is what `o` describes: a literal
/// spanning from `p` to its end, or the described error.
pub open spec fn literal_result(r: AsterResult<LiteralAST>, o: Outcome<LitSpec>, old: &SourceReader, new: &SourceReader) -> bool {
    &&& fails_as(r, o, old.file())
    &&& moved(old, new, outcome_end(o))
    &&& (o matches Outcome::Done { value, end } ==> (r matches Ok(l) && literal_is(l.l, value)
            && l.span == (Span { start: old.pos() as usize, end: end as usize })))
}

/// The character a simple escape letter stands for.
pub open spec fn escape_of(c: char) -> Option<char> {
    if c == '\'' { Some('\'') }
    else if c == '"' { Some('"') }
    else if c == '\\' { Some('\\') }
    else if c == '0' { Some('\0') }
    else if c == 'a' { Some('\x07') }
    else if c == 'b' { Some('\x08') }
    else if c == 't' { Some('\t') }
    else if c == 'n' { Some('\n') }
    else if c == 'v' { Some('\x0b') }
    else if c == 'f' { Some('\x0c') }
    else if c == 'r' { Some('\r') }
    else if c == 'e' { Some('\x1b') }
    else { None }
}

/// Reading the escape letter at `p`, just after a backslash. Hexadecimal
/// (`x`) and Unicode (`u`) escapes are not implemented.
pub open spec fn escape_outcome(t: Seq<char>, p: int) -> Outcome<char> {
    if p >= t.len() {
        Outcome::Fail { kind: ErrKind::Expected, what: "Escape Sequence"@, offset: p, end: p }
    } else {
        match escape_of(t[p]) {
            Some(v) => Outcome::Done { value: v, end: p + 1 },
            None => if t[p] == 'x' {
                Outcome::Fail { kind: ErrKind::NotImplemented, what: "hex escape"@, offset: p + 1, end: p + 1 }
            } else if t[p] == 'u' {
                Outcome::Fail { kind: ErrKind::NotImplemented, what: "unicode escape"@, offset: p + 1, end: p + 1 }
            } else {
                Outcome::Fail { kind: ErrKind::Expected, what: "Escape Sequence"@, offset: p + 1, end: p + 1 }
            },
        }
    }
}

/// A digit of the base.
pub open spec fn digit_of(base: Base, c: char) -> bool {
    match base {
        Base::Binary => c == '0' || c == '1',
        Base::Octal => '0' <= c <= '7',
        Base::Decimal => '0' <= c <= '9',
        Base::Hexadecimal => ('0' <= c <= '9') || ('A' <= c <= 'F') || ('a' <= c <= 'f'),
    }
}

/// The end of the digits, separators and (in decimal, once) point from `i`,
/// and whether a point was met.
pub open spec fn numeric_scan(t: Seq<char>, i: int, base: Base, dec: bool) -> (int, bool)
    decreases t.len() - i,
{
    if i < 0 || i >= t.len() {
        (i, dec)
    } else if digit_of(base, t[i]) {
        numeric_scan(t, i + 1, base, dec)
    } else if base == Base::Decimal && !dec && t[i] == '.' {
        numeric_scan(t, i + 1, base, true)
    } else if t[i] == '_' {
        numeric_scan(t, i + 1, base, dec)
    } else {
        (i, dec)
    }
}

/// The base a prefix at `p` selects, and where the digits start.
pub open spec fn numeric_prefix(t: Seq<char>, p: int) -> (Base, int) {
    if starts_at(t, p, "0x"@) { (Base::Hexadecimal, p + 2) }
    else if starts_at(t, p, "0b"@) { (Base::Binary, p + 2) }
    else if starts_at(t, p, "0o"@) { (Base::Octal, p + 2) }
    else { (Base::Decimal, p) }
}

/// Reading a number at `p`: an optional base prefix and at least one digit,
/// separator or point. A number with a point is a float literal.
pub open spec fn numeric_outcome(t: Seq<char>, p: int) -> Outcome<LitSpec> {
    let (base, q) = numeric_prefix(t, p);
    let (e, dec) = numeric_scan(t, q, base, false);
    if e == q {
        Outcome::Fail { kind: ErrKind::Expected, what: "Numeric Literal"@, offset: q, end: q }
    } else {
        Outcome::Done { value: LitSpec::Number { float: dec, text: t.subrange(p, e) }, end: e }
    }
}

/// Reading the body of a string from `i` on, having read `acc`, up to and
/// including the closing quote.
pub open spec fn string_body(t: Seq<char>, i: int, acc: Seq<char>) -> Outcome<Seq<char>>
    decreases t.len() - i,
{
    if i < 0 || i >= t.len() {
        Outcome::Fail { kind: ErrKind::Expected, what: "String Literal"@, offset: t.len() as int, end: t.len() as int }
    } else if t[i] == '"' {
        Outcome::Done { value: acc, end: i + 1 }
    } else if t[i] == '\\' {
        match escape_outcome(t, i + 1) {
            Outcome::Done { value, end } => if end > i {
                string_body(t, end, acc.push(value))
            } else {
                Outcome::Fail { kind: ErrKind::Expected, what: Seq::empty(), offset: 0, end: 0 }
            },
            Outcome::Fail { kind, what, offset, end } => Outcome::Fail { kind, what, offset, end },
        }
    } else {
        string_body(t, i + 1, acc.push(t[i]))
    }
}

/// Reading a string at `p`: an optional `b` or `c` prefix, a quote, the body
/// with its escapes, and a closing quote.
pub open spec fn string_outcome(t: Seq<char>, p: int) -> Outcome<LitSpec> {
    if p < 0 || p >= t.len() {
        Outcome::Fail { kind: ErrKind::Expected, what: "String Literal"@, offset: p, end: p }
    } else if t[p] != 'b' && t[p] != 'c' && t[p] != '"' {
        Outcome::Fail { kind: ErrKind::Expected, what: "String Literal"@, offset: p, end: p }
    } else {
        let ty = if t[p] == 'b' { StringType::Byte } else if t[p] == 'c' { StringType::C } else { StringType::Unicode };
        let q = if t[p] == '"' { p } else { p + 1 };
        if !starts_at(t, q, "\""@) {
            Outcome::Fail { kind: ErrKind::Expected, what: "Quotation Mark"@, offset: q, end: q }
        } else {
            match string_body(t, q + 1, Seq::empty()) {
                Outcome::Done { value, end } => Outcome::Done { value: LitSpec::Text { ty, text: value }, end },
                Outcome::Fail { kind, what, offset, end } => Outcome::Fail { kind, what, offset, end },
            }
        }
    }
}

/// Reading a character at `p`: an optional `b` prefix, a single quote, one
/// character or escape, and a single quote.
pub open spec fn char_outcome(t: Seq<char>, p: int) -> Outcome<LitSpec> {
    if p < 0 || p >= t.len() {
        Outcome::Fail { kind: ErrKind::Expected, what: "Char Literal"@, offset: p, end: p }
    } else {
        let byte = t[p] == 'b';
        let q = if byte { p + 1 } else { p };
        if !starts_at(t, q, "'"@) {
            Outcome::Fail { kind: ErrKind::Expected, what: "Single Quote"@, offset: q, end: q }
        } else if q + 1 >= t.len() {
            Outcome::Fail { kind: ErrKind::Expected, what: "Character"@, offset: t.len() as int, end: t.len() as int }
        } else {
            let ce: Outcome<char> = if t[q + 1] == '\\' {
                escape_outcome(t, q + 2)
            } else {
                Outcome::Done { value: t[q + 1], end: q + 2 }
            };
            match ce {
                Outcome::Done { value, end } => if starts_at(t, end, "'"@) {
                    Outcome::Done { value: LitSpec::Character { byte, c: value }, end: end + 1 }
                } else {
                    Outcome::Fail { kind: ErrKind::Expected, what: "Single Quote"@, offset: end, end: end }
                },
                Outcome::Fail { kind, what, offset, end } => Outcome::Fail { kind, what, offset, end },
            }
        }
    }
}

/// Reading any literal at `p`: a number, else a string, else a character.
pub open spec fn literal_outcome(t: Seq<char>, p: int) -> Outcome<LitSpec> {
    if numeric_outcome(t, p) is Done {
        numeric_outcome(t, p)
    } else if string_outcome(t, p) is Done {
        string_outcome(t, p)
    } else if char_outcome(t, p) is Done {
        char_outcome(t, p)
    } else {
        Outcome::Fail { kind: ErrKind::Expected, what: "Literal"@, offset: p, end: p }
    }
}

proof fn lemma_numeric_scan(t: Seq<char>, i: int, base: Base, dec: bool)
    requires
        0 <= i <= t.len(),
    ensures
        i <= numeric_scan(t, i, base, dec).0 <= t.len(),
    decreases t.len() - i,
{
    if i < t.len() {
        if digit_of(base, t[i]) {
            lemma_numeric_scan(t, i + 1, base, dec);
        } else if base == Base::Decimal && !dec && t[i] == '.' {
            lemma_numeric_scan(t, i + 1, base, true);
        } else if t[i] == '_' {
            lemma_numeric_scan(t, i + 1, base, dec);
        }
    }
}

/// A number read from `p` ends within the text, not before `p`.
pub proof fn lemma_numeric_outcome(t: Seq<char>, p: int)
    requires
        0 <= p <= t.len(),
    ensures
        p <= outcome_end(numeric_outcome(t, p)) <= t.len(),
{
    reveal_strlit("0x");
    reveal_strlit("0b");
    reveal_strlit("0o");
    let (base, q) = numeric_prefix(t, p);
    lemma_numeric_scan(t, q, base, false);
}

proof fn lemma_string_body(t: Seq<char>, i: int, acc: Seq<char>)
    requires
        0 <= i,
    ensures
        string_body(t, i, acc) matches Outcome::Done { end, .. } ==> i < end <= t.len(),
    decreases t.len() - i,
{
    if 0 <= i < t.len() && t[i] != '"' {
        if t[i] == '\\' {
            if let Outcome::Done { value, end } = escape_outcome(t, i + 1) {
                if end > i {
                    lemma_string_body(t, end, acc.push(value));
                }
            }
        } else {
            lemma_string_body(t, i + 1, acc.push(t[i]));
        }
    }
}

/// A literal read from `p` ends after `p` and within the text.
pub proof fn lemma_literal_outcome(t: Seq<char>, p: int)
    requires
        0 <= p <= t.len(),
    ensures
        literal_outcome(t, p) matches Outcome::Done { end, .. } ==> p < end <= t.len(),
{
    reveal_strlit("0x");
    reveal_strlit("0b");
    reveal_strlit("0o");
    reveal_strlit("\"");
    reveal_strlit("'");
    let (base, q) = numeric_prefix(t, p);
    lemma_numeric_scan(t, q, base, false);
    if p < t.len() {
        let q2 = if t[p] == '"' { p } else { p + 1 };
        lemma_string_body(t, q2 + 1, Seq::empty());
    }
}

/// Reads the letter after a backslash and gives the character it stands for.
fn make_escape_sequence(reader: &mut SourceReader) -> (r: AsterResult<char>)
    requires
        old(reader).wf(),
    ensures
        ({
            let o = escape_outcome(old(reader).text(), old(reader).pos());
            &&& fails_as(r, o, old(reader).file())
            &&& moved(old(reader), final(reader), outcome_end(o))
            &&& (o matches Outcome::Done { value, .. } ==> r == Ok::<char, AsterError>(value))
        }),
{
    proof { reader.lemma_wf(); }
    match reader.read_ch() {
        Ok('\'') => Ok('\''),
        Ok('"') => Ok('"'),
        Ok('\\') => Ok('\\'),
        Ok('0') => Ok(consts::ascii::NL),
        Ok('a') => Ok(consts::ascii::BL),
        Ok('b') => Ok(consts::ascii::BS),
        Ok('t') => Ok(consts::ascii::HT),
        Ok('n') => Ok(consts::ascii::LF),
        Ok('v') => Ok(consts::ascii::VT),
        Ok('f') => Ok(consts::ascii::FF),
        Ok('r') => Ok(consts::ascii::CR),
        Ok('e') => Ok(consts::ascii::ES),
        Ok('x') => Err(fail(reader, ErrKind::NotImplemented, "hex escape", reader.offset())),
        Ok('u') => Err(fail(reader, ErrKind::NotImplemented, "unicode escape", reader.offset())),
        _ => Err(fail(reader, ErrKind::Expected, "Escape Sequence", reader.offset())),
    }
}

/// The characters from `start` to the reader's position.
fn text_since(reader: &SourceReader, start: usize) -> (r: String)
    requires
        reader.wf(),
        start <= reader.pos(),
    ensures
        r@ == reader.text().subrange(start as int, reader.pos()),
{
    proof { reader.lemma_wf(); }
    let src = reader.src();
    String::from_str(src.as_str().substring_char(start, reader.offset()))
}

impl LiteralAST {
    /// Reads a number: `0x`, `0b` or `0o` and digits of that base, or decimal
    /// digits with at most one point; `_` may stand among the digits.
    pub fn make_numeric(reader: &mut SourceReader) -> (r: AsterResult<Self>)
        requires
            old(reader).wf(),
        ensures
            literal_result(r, numeric_outcome(old(reader).text(), old(reader).pos()), old(reader), final(reader)),
    {
        proof {
            reader.lemma_wf();
            reveal_strlit("0x");
            reveal_strlit("0b");
            reveal_strlit("0o");
        }
        let ghost t = reader.text();
        let start = reader.offset();
        let base = if seek::begins_with(reader, consts::punctuation::HEX_PFX) {
            Base::Hexadecimal
        } else if seek::begins_with(reader, consts::punctuation::BIN_PFX) {
            Base::Binary
        } else if seek::begins_with(reader, consts::punctuation::OCT_PFX) {
            Base::Octal
        } else {
            Base::Decimal
        };
        let numeric_body_start = reader.offset();
        proof {
            assert(numeric_prefix(t, start as int) == (base, numeric_body_start as int));
            lemma_numeric_scan(t, numeric_body_start as int, base, false);
        }
        let mut decimal = false;
        loop
            invariant
                reader.wf(),
                reader.same_but_pos(old(reader)),
                t == reader.text(),
                start == old(reader).pos(),
                numeric_body_start <= reader.pos() <= t.len(),
                numeric_scan(t, numeric_body_start as int, base, false)
                    == numeric_scan(t, reader.pos(), base, decimal),
            ensures
                reader.wf(),
                reader.same_but_pos(old(reader)),
                numeric_body_start <= reader.pos() <= t.len(),
                numeric_scan(t, numeric_body_start as int, base, false) == (reader.pos(), decimal),
            decreases t.len() - reader.pos(),
        {
            proof { reader.lemma_wf(); }
            let ch = match reader.peek_ch() {
                Some(ch) => ch,
                None => break,
            };
            let ok = match base {
                Base::Binary => ch == '0' || ch == '1',
                Base::Octal => '0' <= ch && ch <= '7',
                Base::Decimal => '0' <= ch && ch <= '9',
                Base::Hexadecimal => ('0' <= ch && ch <= '9') || ('A' <= ch && ch <= 'F') || ('a' <= ch && ch <= 'f'),
            };
            if ok {
            } else if base == Base::Decimal && !decimal && ch == '.' {
                decimal = true;
            } else if ch == '_' {
            } else {
                break;
            }
            if reader.seek(1).is_err() {
                break;
            }
        }
        if reader.offset() == numeric_body_start {
            return Err(fail(reader, ErrKind::Expected, "Numeric Literal", reader.offset()));
        }
        let text = text_since(reader, start);
        let l = if decimal { Literal::FloatLiteral(text) } else { Literal::IntLiteral(text) };
        Ok(LiteralAST { span: reader.span_since(start), l })
    }

    /// Reads a string: an optional `b` or `c` prefix, then text in double
    /// quotes with backslash escapes.
    pub fn make_string(reader: &mut SourceReader) -> (r: AsterResult<Self>)
        requires
            old(reader).wf(),
        ensures
            literal_result(r, string_outcome(old(reader).text(), old(reader).pos()), old(reader), final(reader)),
    {
        proof {
            reader.lemma_wf();
            reveal_strlit("\"");
        }
        let ghost t = reader.text();
        let start = reader.offset();
        let ty = match reader.peek_ch() {
            Some('b') => {
                let _ = reader.seek(1);
                StringType::Byte
            },
            Some('c') => {
                let _ = reader.seek(1);
                StringType::C
            },
            Some('"') => StringType::Unicode,
            _ => {
                return Err(fail(reader, ErrKind::Expected, "String Literal", reader.offset()));
            },
        };
        if !seek::begins_with(reader, consts::punctuation::QUOTE) {
            return Err(fail(reader, ErrKind::Expected, "Quotation Mark", reader.offset()));
        }
        let mut chars: Vec<char> = Vec::new();
        loop
            invariant_except_break
                string_outcome(t, start as int) == match string_body(t, reader.pos(), chars@) {
                    Outcome::Done { value, end } => Outcome::Done { value: LitSpec::Text { ty, text: value }, end },
                    Outcome::Fail { kind, what, offset, end } => Outcome::<LitSpec>::Fail { kind, what, offset, end },
                },
            invariant
                reader.wf(),
                reader.same_but_pos(old(reader)),
                t == reader.text(),
                start == old(reader).pos(),
                start < reader.pos() <= t.len(),
            ensures
                reader.wf(),
                reader.same_but_pos(old(reader)),
                start < reader.pos() <= t.len(),
                string_outcome(t, start as int) == (Outcome::Done { value: LitSpec::Text { ty, text: chars@ }, end: reader.pos() }),
            decreases t.len() - reader.pos(),
        {
            proof { reader.lemma_wf(); }
            let ch = match reader.read_ch() {
                Ok('"') => break,
                Ok('\\') => {
                    let e = make_escape_sequence(reader);
                    match e {
                        Ok(c) => c,
                        Err(e) => { return Err(e); },
                    }
                },
                Ok(ch) => ch,
                Err(_) => {
                    return Err(fail(reader, ErrKind::Expected, "String Literal", reader.offset()));
                },
            };
            chars.push(ch);
        }
        let text = string_from_chars(&chars);
        let l = match ty {
            StringType::Unicode => Literal::UnicodeString(text),
            StringType::Byte => Literal::ByteString(text),
            StringType::C => Literal::CString(text),
        };
        Ok(LiteralAST { span: reader.span_since(start), l })
    }

    /// Reads a character: an optional `b` prefix, then one character or
    /// escape in single quotes.
    pub fn make_char(reader: &mut SourceReader) -> (r: AsterResult<Self>)
        requires
            old(reader).wf(),
        ensures
            literal_result(r, char_outcome(old(reader).text(), old(reader).pos()), old(reader), final(reader)),
    {
        proof {
            reader.lemma_wf();
            reveal_strlit("'");
        }
        let start = reader.offset();
        let byte = match reader.peek_ch() {
            Some('b') => {
                let _ = reader.seek(1);
                true
            },
            Some(_) => false,
            None => {
                return Err(fail(reader, ErrKind::Expected, "Char Literal", reader.offset()));
            },
        };
        if !seek::begins_with(reader, consts::punctuation::APOSTROPHE) {
            return Err(fail(reader, ErrKind::Expected, "Single Quote", reader.offset()));
        }
        let ch = match reader.read_ch() {
            Ok('\\') => make_escape_sequence(reader)?,
            Ok(ch) => ch,
            Err(_) => {
                return Err(fail(reader, ErrKind::Expected, "Character", reader.offset()));
            },
        };
        if !seek::begins_with(reader, consts::punctuation::APOSTROPHE) {
            return Err(fail(reader, ErrKind::Expected, "Single Quote", reader.offset()));
        }
        let l = if byte { Literal::ByteChar(ch) } else { Literal::Char(ch) };
        Ok(LiteralAST { span: reader.span_since(start), l })
    }

    /// Reads a number, else a string, else a character, starting over at the
    /// same place after each failure.
    pub fn make(reader: &mut SourceReader) -> (r: AsterResult<Self>)
        requires
            old(reader).wf(),
        ensures
            literal_result(r, literal_outcome(old(reader).text(), old(reader).pos()), old(reader), final(reader)),
    {
        let start = reader.offset();
        if let Ok(numeric) = LiteralAST::make_numeric(reader) {
            return Ok(numeric);
        }
        let _ = reader.to(start);
        if let Ok(string) = LiteralAST::make_string(reader) {
            return Ok(string);
        }
        let _ = reader.to(start);
        if let Ok(ch) = LiteralAST::make_char(reader) {
            return Ok(ch);
        }
        let _ = reader.to(start);
        Err(fail(reader, ErrKind::Expected, "Literal", reader.offset()))
    }
}

} // verus!
