use vstd::prelude::*;
use vstd::string::StrSliceExecFns;
use crate::source_reader::SourceReader;
use super::{starts_at, same_chars};

verus! {

/// Whether the text at the reader's position begins with `a`.
pub fn begins_with(reader: &SourceReader, a: &str) -> (r: bool)
    requires
        reader.wf(),
    ensures
        r == starts_at(reader.text(), reader.pos(), a@),
{
    proof { reader.lemma_wf(); }
    let n = a.unicode_len();
    match reader.peek(n) {
        Some(b) => same_chars(a, b),
        None => false,
    }
}
} // verus!
