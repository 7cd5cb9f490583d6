use vstd::prelude::*;
use crate::source_reader::SourceReader;
use crate::errors::{AsterResult, ErrKind, Outcome};
use crate::ast::ty::{Type, TypeAST};
use crate::ast::ident::{IdentAST, KeywordAST};
use crate::ast::expression::BlockExpressionAST;
use crate::ast::structure::{FunctionDeclAST, FunctionAST, MemberFunctionDeclAST, MemberFunctionAST};
use crate::intrinsics::Intrinsic;
use crate::seek_read::{lemma_skip_ws_bounds, same_chars};
use crate::seek_read::seek;
use crate::make::ident::{lemma_ident_outcome, ident_outcome};
use crate::make::qualified::{IdentSpec, ident_is};
use crate::make::ty::{TySpec, type_outcome, lemma_type_outcome};
use crate::make::expression::grammar::{Parsed, reads, reads_p, block_outcome};
use crate::consts;
use super::grammar::{
    DeclSpec, MemberDeclSpec, find_arg, insert_arg, args_are, decl_args, decl_outcome, decl_is, function_outcome,
    function_is, keyword_ws, member_decl_outcome, member_decl_is, member_outcome, member_is,
};

verus! {

/// Adds the argument `id` of type `ty` to `args`: one of the same name keeps
/// its place and name and takes the new type; a new name goes last.
fn add_arg(args: &mut Vec<(IdentAST, TypeAST)>, id: IdentAST, ty: TypeAST, Ghost(s): Ghost<Seq<(IdentSpec, TySpec)>>, Ghost(ids): Ghost<IdentSpec>, Ghost(tys): Ghost<TySpec>)
    requires
        args_are(old(args)@, s),
        ident_is(id, ids),
        crate::make::ty::type_is(ty, tys),
    ensures
        args_are(final(args)@, insert_arg(s, ids, tys)),
{
    let mut k: usize = 0;
    let n = args.len();
    while k < n
        invariant
            n == args@.len(),
            k <= n,
            args_are(args@, s),
            args@ == old(args)@,
            ident_is(id, ids),
            crate::make::ty::type_is(ty, tys),
            find_arg(s, ids.0, 0) == find_arg(s, ids.0, k as int),
        decreases n - k,
    {
        if same_chars(args[k].0.text.as_str(), id.text.as_str()) {
            proof {
                assert(ident_is(old(args)@[k as int].0, s[k as int].0));
                assert(find_arg(s, ids.0, k as int) == Some(k as int));
            }
            let ghost gty = ty;
            let (old_id, _old_ty) = args.remove(k);
            proof { assert(old_id == old(args)@[k as int].0); }
            args.insert(k, (old_id, ty));
            proof {
                let next = s.update(k as int, (s[k as int].0, tys));
                assert(args@[k as int].0 == old(args)@[k as int].0);
                assert(args@[k as int].1 == gty);
                assert(ident_is(args@[k as int].0, next[k as int].0));
                assert(crate::make::ty::type_is(args@[k as int].1, next[k as int].1));
                assert forall|j: int| 0 <= j < next.len() implies ident_is(#[trigger] args@[j].0, next[j].0)
                    && crate::make::ty::type_is(args@[j].1, next[j].1) by {
                    if j != k {
                        assert(args@[j] == old(args)@[j]);
                    }
                }
                assert(args@.len() == next.len());
                assert(args_are(args@, next));
                assert(insert_arg(s, ids, tys) == next);
            }
            return;
        }
        k = k + 1;
    }
    args.push((id, ty));
    proof {
        let next = s.push((ids, tys));
        assert forall|j: int| 0 <= j < next.len() implies ident_is(#[trigger] args@[j].0, next[j].0)
            && crate::make::ty::type_is(args@[j].1, next[j].1) by {
            if j < s.len() {
                assert(args@[j] == old(args)@[j]);
            }
        }
    }
}

/// Reads arguments: blanks, a type, blanks, a name and blanks, then a comma
/// if more follow.
fn make_args(reader: &mut SourceReader) -> (r: AsterResult<Vec<(IdentAST, TypeAST)>>)
    requires
        old(reader).wf(),
    ensures
        ({
            let o = decl_args(old(reader).text(), old(reader).pos(), Seq::empty());
            &&& reads(r, o, old(reader), final(reader))
            &&& (o matches Parsed::Done { value, .. } ==> (r matches Ok(x) && args_are(x@, value)))
        }),
{
    proof {
        reveal_strlit(",");
        reader.lemma_wf();
    }
    let ghost t = reader.text();
    let ghost p0 = reader.pos();
    let mut args: Vec<(IdentAST, TypeAST)> = Vec::new();
    let ghost mut acc: Seq<(IdentSpec, TySpec)> = Seq::empty();
    loop
        invariant
            reader.wf(),
            reader.same_but_pos(old(reader)),
            t == reader.text(),
            t == old(reader).text(),
            p0 == old(reader).pos(),
            p0 <= reader.pos() <= t.len(),
            decl_args(t, p0, Seq::empty()) == decl_args(t, reader.pos(), acc),
            args_are(args@, acc),
            consts::punctuation::COMMA@ == ","@,
            ","@.len() == 1,
        decreases t.len() - reader.pos(),
    {
        proof { lemma_skip_ws_bounds(t, reader.pos()); }
        seek::optional_whitespace(reader)?;
        let ghost e1 = reader.pos();
        proof { lemma_type_outcome(t, e1); }
        let ty = TypeAST::make(reader)?;
        proof { lemma_skip_ws_bounds(t, reader.pos()); }
        seek::required_whitespace(reader)?;
        let ghost e3 = reader.pos();
        proof { lemma_ident_outcome(t, e3); }
        let id = IdentAST::make(reader)?;
        let ghost e4 = reader.pos();
        proof { lemma_skip_ws_bounds(t, reader.pos()); }
        seek::optional_whitespace(reader)?;
        let ghost ids: IdentSpec = (ident_outcome(t, e3)->Done_value, e3, e4);
        let ghost tys: TySpec = type_outcome(t, e1)->Done_value;
        add_arg(&mut args, id, ty, Ghost(acc), Ghost(ids), Ghost(tys));
        proof { acc = insert_arg(acc, ids, tys); }
        if !seek::begins_with(reader, consts::punctuation::COMMA) {
            return Ok(args);
        }
    }
}

impl FunctionDeclAST {
    /// Reads a function declaration: a name, `->` and a return type if
    /// written, then `:` and arguments if written. An argument named like
    /// an earlier one replaces its type.
    pub fn make(reader: &mut SourceReader) -> (r: AsterResult<Self>)
        requires
            old(reader).wf(),
        ensures
            ({
                let o = decl_outcome(old(reader).text(), old(reader).pos());
                &&& reads(r, o, old(reader), final(reader))
                &&& !(o is Panic)
                &&& (o matches Parsed::Done { value, .. } ==> (r matches Ok(x) && decl_is(x, value)))
                &&& (r is Ok ==> old(reader).pos() < final(reader).pos())
            }),
    {
        proof {
            reveal_strlit("->");
            reveal_strlit(":");
            reader.lemma_wf();
        }
        let ghost t = reader.text();
        let start = reader.offset();
        proof { lemma_ident_outcome(t, start as int); }
        let ident = IdentAST::make(reader)?;
        proof { lemma_skip_ws_bounds(t, reader.pos()); }
        seek::optional_whitespace(reader)?;
        let ret = if seek::begins_with(reader, consts::punctuation::RIGHT_ARROW) {
            proof { lemma_skip_ws_bounds(t, reader.pos()); }
            seek::optional_whitespace(reader)?;
            proof { lemma_type_outcome(t, reader.pos()); }
            let ret = TypeAST::make(reader)?;
            proof { lemma_skip_ws_bounds(t, reader.pos()); }
            seek::optional_whitespace(reader)?;
            ret
        } else {
            TypeAST { span: reader.span_since(start), e: Type::Intrinsic(Intrinsic::VOID) }
        };
        let args = if seek::begins_with(reader, consts::punctuation::COLON) {
            let args = make_args(reader)?;
            proof { lemma_skip_ws_bounds(t, reader.pos()); }
            seek::optional_whitespace(reader)?;
            args
        } else {
            Vec::new()
        };
        Ok(FunctionDeclAST { span: reader.span_since(start), ident, args, ret })
    }
}

impl FunctionAST {
    /// Reads a function: its declaration, then its body.
    #[verifier::rlimit(60)]
    pub fn make(reader: &mut SourceReader) -> (r: AsterResult<Self>)
        requires
            old(reader).wf(),
            !old(reader).panicked(),
        ensures
            ({
                let o = function_outcome(old(reader).text(), old(reader).pos());
                &&& reads_p(r, o, old(reader), final(reader))
                &&& (o matches Parsed::Done { value, end } ==> (r matches Ok(x) && function_is(x, value, old(reader).pos(), end)))
                &&& (r is Ok ==> old(reader).pos() < final(reader).pos())
            }),
    {
        let start = reader.offset();
        let decl = FunctionDeclAST::make(reader)?;
        let body = BlockExpressionAST::make(reader)?;
        Ok(FunctionAST { span: reader.span_since(start), decl, body, template: None })
    }
}

/// Reads the keyword `kw` and the blanks that must follow it, if the keyword
/// is written.
fn make_keyword(reader: &mut SourceReader, kw: &str) -> (r: AsterResult<Option<KeywordAST>>)
    requires
        old(reader).wf(),
    ensures
        ({
            let o = keyword_ws(old(reader).text(), old(reader).pos(), kw@);
            &&& reads(r, o, old(reader), final(reader))
            &&& (o matches Parsed::Done { value, .. } ==> (r matches Ok(x)
                    && super::grammar::keyword_at(x, value, kw@.len() as int)))
        }),
{
    proof { reader.lemma_wf(); }
    let ghost t = reader.text();
    let start = reader.offset();
    match KeywordAST::make(reader, kw) {
        Ok(k) => {
            proof { lemma_skip_ws_bounds(t, reader.pos()); }
            seek::required_whitespace(reader)?;
            Ok(Some(k))
        },
        Err(_) => {
            let _ = reader.to(start);
            Ok(None)
        },
    }
}

impl MemberFunctionDeclAST {
    /// Reads a method declaration: `pub`, `static` and `mut`, each followed
    /// by blanks, where written, then a function declaration.
    pub fn make(reader: &mut SourceReader) -> (r: AsterResult<Self>)
        requires
            old(reader).wf(),
        ensures
            ({
                let o = member_decl_outcome(old(reader).text(), old(reader).pos());
                &&& reads(r, o, old(reader), final(reader))
                &&& !(o is Panic)
                &&& (o matches Parsed::Done { value, .. } ==> (r matches Ok(x) && member_decl_is(x, value)))
                &&& (r is Ok ==> old(reader).pos() < final(reader).pos())
            }),
    {
        proof {
            reveal_strlit("pub");
            reveal_strlit("static");
            reveal_strlit("mut");
        }
        let start = reader.offset();
        let public = make_keyword(reader, consts::keyword::PUB)?;
        let static_keyword = make_keyword(reader, consts::keyword::STATIC)?;
        let mut_keyword = make_keyword(reader, consts::keyword::MUT)?;
        let decl = FunctionDeclAST::make(reader)?;
        Ok(MemberFunctionDeclAST { span: reader.span_since(start), public, static_keyword, mut_keyword, decl })
    }
}

impl MemberFunctionAST {
    /// Reads a method: its declaration, blanks and its body.
    #[verifier::rlimit(60)]
    pub fn make(reader: &mut SourceReader) -> (r: AsterResult<Self>)
        requires
            old(reader).wf(),
            !old(reader).panicked(),
        ensures
            ({
                let o = member_outcome(old(reader).text(), old(reader).pos());
                &&& reads_p(r, o, old(reader), final(reader))
                &&& (o matches Parsed::Done { value, end } ==> (r matches Ok(x) && member_is(x, value, old(reader).pos(), end)))
                &&& (r is Ok ==> old(reader).pos() < final(reader).pos())
            }),
    {
        let ghost t = reader.text();
        let start = reader.offset();
        let decl = MemberFunctionDeclAST::make(reader)?;
        proof { lemma_skip_ws_bounds(t, reader.pos()); }
        seek::optional_whitespace(reader)?;
        let body = BlockExpressionAST::make(reader)?;
        Ok(MemberFunctionAST { span: reader.span_since(start), decl, body, template: None })
    }
}

} // verus!
