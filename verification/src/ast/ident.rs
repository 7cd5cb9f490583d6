use vstd::prelude::*;
use crate::span::{GetSpan, Span};
use crate::ast::ty::TypeAST;

verus! {

/// A reserved word, by where it was written.
#[derive(Debug, Clone, Copy)]
pub struct KeywordAST {
    pub span: Span,
}

/// A name.
#[derive(Debug, Clone)]
pub struct IdentAST {
    pub span: Span,
    pub text: String,
}

/// A path of names separated by `::`.
#[derive(Debug, Clone)]
pub struct QualifiedAST {
    pub span: Span,
    pub parts: Vec<IdentAST>,
}

/// A name with an optional list of generic arguments in chevrons.
#[derive(Debug)]
pub struct FullyQualifiedIdentAST {
    pub span: Span,
    pub ident: IdentAST,
    pub generics: Option<Vec<TypeAST>>,
}

/// A path of names with generic arguments, separated by `::`.
#[derive(Debug)]
pub struct FullyQualifiedAST {
    pub span: Span,
    pub parts: Vec<FullyQualifiedIdentAST>,
}

/// The texts of `parts` joined by `::`.
pub open spec fn join_parts(parts: Seq<IdentAST>) -> Seq<char>
    decreases parts.len(),
{
    if parts.len() == 0 {
        Seq::empty()
    } else if parts.len() == 1 {
        parts[0].text@
    } else {
        join_parts(parts.drop_last()) + "::"@ + parts.last().text@
    }
}

impl QualifiedAST {
    /// The path written with `::` between its names.
    pub fn to_hashable(&self) -> (r: String)
        ensures
            r@ == join_parts(self.parts@),
    {
        let mut out = String::new();
        let mut i: usize = 0;
        let n = self.parts.len();
        while i < n
            invariant
                n == self.parts@.len(),
                i <= n,
                out@ == join_parts(self.parts@.take(i as int)),
            decreases n - i,
        {
            if i != 0 {
                out.append("::");
            }
            out.append(self.parts[i].text.as_str());
            proof {
                let next = self.parts@.take(i + 1);
                assert(next.drop_last() =~= self.parts@.take(i as int));
            }
            i = i + 1;
        }
        proof {
            assert(self.parts@.take(n as int) =~= self.parts@);
        }
        out
    }
}

impl PartialEq for IdentAST {
    /// Two names are equal when they are spelled the same, wherever they stand.
    fn eq(&self, other: &Self) -> (r: bool) {
        self.text == other.text
    }
}

impl vstd::std_specs::cmp::PartialEqSpecImpl for IdentAST {
    open spec fn obeys_eq_spec() -> bool {
        true
    }

    open spec fn eq_spec(&self, other: &Self) -> bool {
        self.text@ == other.text@
    }
}

impl Eq for IdentAST {}

impl GetSpan for KeywordAST {
    fn span(&self) -> (r: Span)
        ensures
            r == self.span,
    {
        self.span
    }
}

impl GetSpan for IdentAST {
    fn span(&self) -> (r: Span)
        ensures
            r == self.span,
    {
        self.span
    }
}

impl GetSpan for QualifiedAST {
    fn span(&self) -> (r: Span)
        ensures
            r == self.span,
    {
        self.span
    }
}

impl GetSpan for FullyQualifiedIdentAST {
    fn span(&self) -> (r: Span)
        ensures
            r == self.span,
    {
        self.span
    }
}

impl GetSpan for FullyQualifiedAST {
    fn span(&self) -> (r: Span)
        ensures
            r == self.span,
    {
        self.span
    }
}

} // verus!
