use vstd::prelude::*;

verus! {

/// A half-open range `[start, end)` of character offsets into a source text.
#[derive(Debug, Clone, Copy, PartialEq, Eq, Structural)]
pub struct Span {
    pub start: usize,
    pub end: usize,
}

/// Anything that covers a range of the source text.
pub trait GetSpan {
    fn span(&self) -> Span;
}

} // verus!
