use vstd::prelude::*;
use crate::span::Span;

verus! {

/// An error met while building the syntax tree. Every variant but the last
/// records the character offset at which it was found and the path of the
/// source file; a name defined twice records the spans of both definitions.
#[derive(Debug, Clone)]
pub enum AsterError {
    Expected { what: String, offset: usize, path: String },
    Unknown { what: String, offset: usize, path: String },
    BadLiteral { expected: String, offset: usize, path: String },
    ImportIO { error: String, offset: usize, path: String },
    NotImplemented { what: String, offset: usize, path: String },
    DuplicateIdent { text: String, a: Span, b: Span },
}

pub type AsterResult<T> = Result<T, AsterError>;

/// `r` is an `Expected` error saying `what`, found at `offset` in `path`.
pub open spec fn expected_err<T>(r: AsterResult<T>, what: Seq<char>, offset: int, path: String) -> bool {
    match r {
        Err(AsterError::Expected { what: w, offset: o, path: p }) => w@ == what && o == offset && p == path,
        _ => false,
    }
}

/// The kinds of error a parser reports.
#[derive(Debug, Clone, Copy, PartialEq, Eq, Structural)]
pub enum ErrKind {
    Expected,
    Unknown,
    BadLiteral,
    ImportIO,
    NotImplemented,
}

/// `e` is of kind `kind`, says `what`, and was found at `offset` in `path`.
pub open spec fn err_is(e: AsterError, kind: ErrKind, what: Seq<char>, offset: int, path: String) -> bool {
    match e {
        AsterError::Expected { what: w, offset: o, path: p } => kind == ErrKind::Expected && w@ == what && o == offset && p == path,
        AsterError::Unknown { what: w, offset: o, path: p } => kind == ErrKind::Unknown && w@ == what && o == offset && p == path,
        AsterError::BadLiteral { expected: w, offset: o, path: p } => kind == ErrKind::BadLiteral && w@ == what && o == offset && p == path,
        AsterError::ImportIO { error: w, offset: o, path: p } => kind == ErrKind::ImportIO && w@ == what && o == offset && p == path,
        AsterError::NotImplemented { what: w, offset: o, path: p } => kind == ErrKind::NotImplemented && w@ == what && o == offset && p == path,
        AsterError::DuplicateIdent { .. } => false,
    }
}

/// `r` failed with an error of kind `kind` saying `what` at `offset` in `path`.
pub open spec fn fails_with<T>(r: AsterResult<T>, kind: ErrKind, what: Seq<char>, offset: int, path: String) -> bool {
    match r {
        Err(e) => err_is(e, kind, what, offset, path),
        Ok(_) => false,
    }
}

/// What a parser comes to on a text: a value and the position after it, or
/// an error and the position the reader is left at.
pub enum Outcome<T> {
    Done { value: T, end: int },
    Fail { kind: ErrKind, what: Seq<char>, offset: int, end: int },
}

/// The position a parser leaves the reader at.
pub open spec fn outcome_end<T>(o: Outcome<T>) -> int {
    match o {
        Outcome::Done { end, .. } => end,
        Outcome::Fail { end, .. } => end,
    }
}

/// `r` is a failure as `o` describes it, if `o` is one.
pub open spec fn fails_as<T, U>(r: AsterResult<T>, o: Outcome<U>, path: String) -> bool {
    match o {
        Outcome::Fail { kind, what, offset, .. } => fails_with(r, kind, what, offset, path),
        Outcome::Done { .. } => r is Ok,
    }
}

impl AsterError {
    /// The offset recorded in the error; for a name defined twice, where the
    /// second definition starts.
    pub open spec fn spec_offset(&self) -> usize {
        match self {
            AsterError::Expected { offset, .. } => *offset,
            AsterError::Unknown { offset, .. } => *offset,
            AsterError::BadLiteral { offset, .. } => *offset,
            AsterError::ImportIO { offset, .. } => *offset,
            AsterError::NotImplemented { offset, .. } => *offset,
            AsterError::DuplicateIdent { b, .. } => b.start,
        }
    }

    /// The offset at which the error was found.
    pub fn offset(&self) -> (r: usize)
        ensures
            r == self.spec_offset(),
    {
        match self {
            AsterError::Expected { offset, .. } => *offset,
            AsterError::Unknown { offset, .. } => *offset,
            AsterError::BadLiteral { offset, .. } => *offset,
            AsterError::ImportIO { offset, .. } => *offset,
            AsterError::NotImplemented { offset, .. } => *offset,
            AsterError::DuplicateIdent { b, .. } => b.start,
        }
    }

    /// A copy of this error, equal to it field by field.
    pub fn duplicate(&self) -> (r: AsterError)
        ensures
            r == *self,
    {
        match self {
            AsterError::Expected { what, offset, path } =>
                AsterError::Expected { what: what.clone(), offset: *offset, path: path.clone() },
            AsterError::Unknown { what, offset, path } =>
                AsterError::Unknown { what: what.clone(), offset: *offset, path: path.clone() },
            AsterError::BadLiteral { expected, offset, path } =>
                AsterError::BadLiteral { expected: expected.clone(), offset: *offset, path: path.clone() },
            AsterError::ImportIO { error, offset, path } =>
                AsterError::ImportIO { error: error.clone(), offset: *offset, path: path.clone() },
            AsterError::NotImplemented { what, offset, path } =>
                AsterError::NotImplemented { what: what.clone(), offset: *offset, path: path.clone() },
            AsterError::DuplicateIdent { text, a, b } =>
                AsterError::DuplicateIdent { text: text.clone(), a: *a, b: *b },
        }
    }
}

} // verus!
