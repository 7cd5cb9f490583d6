use vstd::prelude::*;
use crate::source_reader::SourceReader;
use crate::errors::{AsterResult, ErrKind, Outcome};
use crate::ast::ty::{Type, TypeAST};
use crate::ast::ident::IdentAST;
use crate::ast::structure::{FunctionDeclAST, MemberFunctionDeclAST, StructAST, TraitAST, TypeAliasAST, ExternDeclAST};
use crate::intrinsics::Intrinsic;
use crate::seek_read::lemma_skip_ws_bounds;
use crate::seek_read::seek;
use crate::make::ident::{fail, lemma_ident_outcome, ident_outcome};
use crate::make::qualified::{IdentSpec, ident_is};
use crate::make::ty::{TySpec, type_is, type_outcome, lemma_type_outcome, span_of};
use crate::make::expression::grammar::{Parsed, reads};
use crate::consts;
use super::grammar::{
    DeclSpec, MemberDeclSpec, args_are, member_decl_is, member_decl_outcome, struct_members, struct_outcome,
    trait_decls, trait_outcome, alias_outcome, foreign_outcome,
};

verus! {

/// Each member of `v` is the typed name `s` describes at the same place.
pub open spec fn members_are(v: Seq<(TypeAST, IdentAST)>, s: Seq<(TySpec, IdentSpec)>) -> bool {
    v.len() == s.len() && forall|k: int| 0 <= k < s.len() ==> type_is(#[trigger] v[k].0, s[k].0) && ident_is(v[k].1, s[k].1)
}

/// Each declaration of `v` is the one `s` describes at the same place.
pub open spec fn member_decls_are(v: Seq<MemberFunctionDeclAST>, s: Seq<MemberDeclSpec>) -> bool {
    v.len() == s.len() && forall|k: int| 0 <= k < s.len() ==> member_decl_is(#[trigger] v[k], s[k])
}

/// Reads the members of a struct after its opening brace: blanks, then a
/// closing brace, or a type, blanks, a name and blanks, then a comma or the
/// closing brace.
#[verifier::spinoff_prover]
fn make_struct_members(reader: &mut SourceReader) -> (r: AsterResult<Vec<(TypeAST, IdentAST)>>)
    requires
        old(reader).wf(),
    ensures
        ({
            let o = struct_members(old(reader).text(), old(reader).pos(), Seq::empty());
            &&& reads(r, o, old(reader), final(reader))
            &&& (o matches Parsed::Done { value, .. } ==> (r matches Ok(x) && members_are(x@, value)))
        }),
{
    proof {
        reveal_strlit("}");
        reveal_strlit(",");
        reader.lemma_wf();
    }
    let ghost t = reader.text();
    let ghost b0 = reader.pos();
    let mut members: Vec<(TypeAST, IdentAST)> = Vec::new();
    let ghost mut acc: Seq<(TySpec, IdentSpec)> = Seq::empty();
    loop
        invariant
            reader.wf(),
            reader.same_but_pos(old(reader)),
            t == reader.text(),
            t == old(reader).text(),
            b0 == old(reader).pos(),
            b0 <= reader.pos() <= t.len(),
            struct_members(t, b0, Seq::empty()) == struct_members(t, reader.pos(), acc),
            members_are(members@, acc),
            consts::grouping::CLOSE_BRACE@ == "}"@,
            consts::punctuation::COMMA@ == ","@,
            "}"@.len() == 1,
            ","@.len() == 1,
        decreases t.len() - reader.pos(),
    {
        proof { lemma_skip_ws_bounds(t, reader.pos()); }
        seek::optional_whitespace(reader)?;
        if seek::begins_with(reader, consts::grouping::CLOSE_BRACE) {
            return Ok(members);
        }
        let ghost e1 = reader.pos();
        proof { lemma_type_outcome(t, e1); }
        let ty = TypeAST::make(reader)?;
        proof { lemma_skip_ws_bounds(t, reader.pos()); }
        seek::required_whitespace(reader)?;
        let ghost e3 = reader.pos();
        proof { lemma_ident_outcome(t, e3); }
        let ident = IdentAST::make(reader)?;
        let ghost e4 = reader.pos();
        proof { lemma_skip_ws_bounds(t, reader.pos()); }
        seek::optional_whitespace(reader)?;
        members.push((ty, ident));
        proof { acc = acc.push((type_outcome(t, e1)->Done_value, (ident_outcome(t, e3)->Done_value, e3, e4))); }
        proof { lemma_skip_ws_bounds(t, reader.pos()); }
        seek::optional_whitespace(reader)?;
        if !seek::begins_with(reader, consts::punctuation::COMMA) {
            if !seek::begins_with(reader, consts::grouping::CLOSE_BRACE) {
                return Err(fail(reader, ErrKind::Expected, "Close Brace", reader.offset()));
            }
            return Ok(members);
        }
    }
}

/// Reads the method declarations of a trait after its opening brace:
/// blanks, then a closing brace, or a declaration, blanks and a semicolon.
#[verifier::spinoff_prover]
fn make_trait_decls(reader: &mut SourceReader) -> (r: AsterResult<Vec<MemberFunctionDeclAST>>)
    requires
        old(reader).wf(),
    ensures
        ({
            let o = trait_decls(old(reader).text(), old(reader).pos(), Seq::empty());
            &&& reads(r, o, old(reader), final(reader))
            &&& (o matches Parsed::Done { value, .. } ==> (r matches Ok(x) && member_decls_are(x@, value)))
        }),
{
    proof {
        reveal_strlit("}");
        reveal_strlit(";");
        reader.lemma_wf();
    }
    let ghost t = reader.text();
    let ghost b0 = reader.pos();
    let mut decls: Vec<MemberFunctionDeclAST> = Vec::new();
    let ghost mut acc: Seq<MemberDeclSpec> = Seq::empty();
    loop
        invariant
            reader.wf(),
            reader.same_but_pos(old(reader)),
            t == reader.text(),
            t == old(reader).text(),
            b0 == old(reader).pos(),
            b0 <= reader.pos() <= t.len(),
            trait_decls(t, b0, Seq::empty()) == trait_decls(t, reader.pos(), acc),
            member_decls_are(decls@, acc),
            consts::grouping::CLOSE_BRACE@ == "}"@,
            consts::punctuation::SEMICOLON@ == ";"@,
            "}"@.len() == 1,
            ";"@.len() == 1,
        decreases t.len() - reader.pos(),
    {
        proof { lemma_skip_ws_bounds(t, reader.pos()); }
        seek::optional_whitespace(reader)?;
        if seek::begins_with(reader, consts::grouping::CLOSE_BRACE) {
            return Ok(decls);
        }
        let ghost e1 = reader.pos();
        let decl = MemberFunctionDeclAST::make(reader)?;
        decls.push(decl);
        proof { acc = acc.push(member_decl_outcome(t, e1)->Done_value); }
        proof { lemma_skip_ws_bounds(t, reader.pos()); }
        seek::optional_whitespace(reader)?;
        if !seek::begins_with(reader, consts::punctuation::SEMICOLON) {
            return Err(fail(reader, ErrKind::Expected, "Semicolon", reader.offset()));
        }
    }
}

impl StructAST {
    /// Reads `struct`, blanks, a name, blanks, then members in braces: a
    /// type, blanks and a name each, separated by commas.
    pub fn make(reader: &mut SourceReader) -> (r: AsterResult<Self>)
        requires
            old(reader).wf(),
        ensures
            ({
                let o = struct_outcome(old(reader).text(), old(reader).pos());
                &&& reads(r, o, old(reader), final(reader))
                &&& (o matches Parsed::Done { value, end } ==> (r matches Ok(x)
                        && x.span == span_of(old(reader).pos(), end) && ident_is(x.ident, value.0)
                        && members_are(x.members@, value.1) && x.template is None))
            }),
    {
        proof {
            reveal_strlit("struct");
            reveal_strlit("{");
            reveal_strlit("}");
            reveal_strlit(",");
            reader.lemma_wf();
        }
        let ghost t = reader.text();
        let start = reader.offset();
        if !seek::begins_with(reader, consts::keyword::STRUCT) {
            return Err(fail(reader, ErrKind::Expected, "Keyword (struct)", reader.offset()));
        }
        proof { lemma_skip_ws_bounds(t, reader.pos()); }
        seek::required_whitespace(reader)?;
        proof { lemma_ident_outcome(t, reader.pos()); }
        let ident = IdentAST::make(reader)?;
        proof { lemma_skip_ws_bounds(t, reader.pos()); }
        seek::optional_whitespace(reader)?;
        if !seek::begins_with(reader, consts::grouping::OPEN_BRACE) {
            return Err(fail(reader, ErrKind::Expected, "Open Brace", reader.offset()));
        }
        let members = make_struct_members(reader)?;
        Ok(StructAST { span: reader.span_since(start), ident, members, template: None })
    }
}

impl TraitAST {
    /// Reads `trait`, blanks, a name, blanks, then method declarations in
    /// braces, each followed by a semicolon.
    pub fn make(reader: &mut SourceReader) -> (r: AsterResult<Self>)
        requires
            old(reader).wf(),
        ensures
            ({
                let o = trait_outcome(old(reader).text(), old(reader).pos());
                &&& reads(r, o, old(reader), final(reader))
                &&& (o matches Parsed::Done { value, end } ==> (r matches Ok(x)
                        && x.span == span_of(old(reader).pos(), end) && ident_is(x.ident, value.0)
                        && member_decls_are(x.decls@, value.1) && x.template is None))
            }),
    {
        proof {
            reveal_strlit("trait");
            reveal_strlit("{");
            reveal_strlit("}");
            reveal_strlit(";");
            reader.lemma_wf();
        }
        let ghost t = reader.text();
        let start = reader.offset();
        if !seek::begins_with(reader, consts::keyword::TRAIT) {
            return Err(fail(reader, ErrKind::Expected, "Keyword (trait)", reader.offset()));
        }
        proof { lemma_skip_ws_bounds(t, reader.pos()); }
        seek::required_whitespace(reader)?;
        proof { lemma_ident_outcome(t, reader.pos()); }
        let ident = IdentAST::make(reader)?;
        proof { lemma_skip_ws_bounds(t, reader.pos()); }
        seek::optional_whitespace(reader)?;
        if !seek::begins_with(reader, consts::grouping::OPEN_BRACE) {
            return Err(fail(reader, ErrKind::Expected, "Open Brace", reader.offset()));
        }
        let decls = make_trait_decls(reader)?;
        Ok(TraitAST { span: reader.span_since(start), ident, decls, template: None })
    }
}

impl TypeAliasAST {
    /// Reads `type`, blanks, a name, blanks, `:=`, blanks and the type the
    /// name stands for.
    pub fn make(reader: &mut SourceReader) -> (r: AsterResult<Self>)
        requires
            old(reader).wf(),
        ensures
            ({
                let o = alias_outcome(old(reader).text(), old(reader).pos());
                &&& reads(r, o, old(reader), final(reader))
                &&& (o matches Parsed::Done { value, end } ==> (r matches Ok(x)
                        && x.span == span_of(old(reader).pos(), end) && ident_is(x.ident, value.0)
                        && type_is(x.ty, value.1) && x.template is None))
            }),
    {
        proof {
            reveal_strlit("type");
            reveal_strlit(":=");
            reader.lemma_wf();
        }
        let ghost t = reader.text();
        let start = reader.offset();
        if !seek::begins_with(reader, consts::keyword::TYPE) {
            return Err(fail(reader, ErrKind::Expected, "Keyword (type)", reader.offset()));
        }
        proof { lemma_skip_ws_bounds(t, reader.pos()); }
        seek::required_whitespace(reader)?;
        proof { lemma_ident_outcome(t, reader.pos()); }
        let ident = IdentAST::make(reader)?;
        proof { lemma_skip_ws_bounds(t, reader.pos()); }
        seek::optional_whitespace(reader)?;
        if !seek::begins_with(reader, consts::punctuation::BOLLOCKS) {
            return Err(fail(reader, ErrKind::Expected, "Punctuation (\":=\")", reader.offset()));
        }
        proof { lemma_skip_ws_bounds(t, reader.pos()); }
        seek::optional_whitespace(reader)?;
        proof { lemma_type_outcome(t, reader.pos()); }
        let ty = TypeAST::make(reader)?;
        Ok(TypeAliasAST { span: reader.span_since(start), ident, ty, template: None })
    }
}

/// The foreign declaration `x` has the name, arguments and return type `d`
/// describes, and no variadic arguments.
pub open spec fn foreign_is(x: ExternDeclAST, d: DeclSpec) -> bool {
    &&& ident_is(x.ident, d.ident)
    &&& args_are(x.args@, d.args)
    &&& !x.varargs
    &&& match d.ret {
        Some(ty) => type_is(x.ret, ty),
        None => x.ret.span == span_of(d.start, d.void_end) && x.ret.e == Type::Intrinsic(Intrinsic::VOID),
    }
}

/// The description of a missing keyword `kw`.
fn keyword_what(kw: &str) -> (r: String)
    ensures
        r@ == "Keyword (\""@ + kw@ + "\")"@,
{
    let mut what = String::from_str("Keyword (\"");
    what.append(kw);
    what.append("\")");
    what
}

impl ExternDeclAST {
    /// Reads the keyword for a foreign function, blanks and its declaration.
    pub fn make(reader: &mut SourceReader) -> (r: AsterResult<Self>)
        requires
            old(reader).wf(),
        ensures
            ({
                let o = foreign_outcome(old(reader).text(), old(reader).pos(), consts::keyword::EXTERN@);
                &&& reads(r, o, old(reader), final(reader))
                &&& (o matches Parsed::Done { value, end } ==> (r matches Ok(x)
                        && x.span == span_of(old(reader).pos(), end) && foreign_is(x, value)))
            }),
    {
        proof { reader.lemma_wf(); }
        let ghost t = reader.text();
        let start = reader.offset();
        if !seek::begins_with(reader, consts::keyword::EXTERN) {
            let what = keyword_what(consts::keyword::EXTERN);
            return Err(fail(reader, ErrKind::Expected, what.as_str(), reader.offset()));
        }
        proof { lemma_skip_ws_bounds(t, reader.pos()); }
        seek::required_whitespace(reader)?;
        let decl = FunctionDeclAST::make(reader)?;
        Ok(ExternDeclAST {
            span: reader.span_since(start),
            ident: decl.ident,
            ret: decl.ret,
            args: decl.args,
            varargs: false,
        })
    }
}

} // verus!
