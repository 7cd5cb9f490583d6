use vstd::prelude::*;
use crate::source_reader::SourceReader;
use crate::errors::{AsterResult, ErrKind};
use crate::ast::ty::TypeAST;
use crate::ast::ident::QualifiedAST;
use crate::ast::structure::{MemberFunctionAST, ImplAST, ImplForAST};
use crate::seek_read::lemma_skip_ws_bounds;
use crate::seek_read::seek;
use crate::make::ident::fail;
use crate::make::qualified::{idents_are, lemma_qualified_outcome};
use crate::make::ty::{type_is, lemma_type_outcome, span_of};
use crate::make::expression::grammar::{Parsed, reads, reads_p};
use crate::consts;
use super::grammar::{MethodSpec, methods_are, methods_list, methods_outcome, member_outcome, impl_outcome, impl_for_outcome};

verus! {

/// Reads methods in braces, each directly followed by a semicolon.
fn parse_methods(reader: &mut SourceReader) -> (r: AsterResult<Vec<MemberFunctionAST>>)
    requires
        old(reader).wf(),
        !old(reader).panicked(),
    ensures
        ({
            let o = methods_outcome(old(reader).text(), old(reader).pos());
            &&& reads_p(r, o, old(reader), final(reader))
            &&& (o matches Parsed::Done { value, .. } ==> (r matches Ok(x) && methods_are(x@, value)))
        }),
{
    proof {
        reveal_strlit("{");
        reveal_strlit("}");
        reveal_strlit(";");
        reader.lemma_wf();
    }
    let ghost t = reader.text();
    let ghost p0 = reader.pos();
    if !seek::begins_with(reader, consts::grouping::OPEN_BRACE) {
        return Err(fail(reader, ErrKind::Expected, "Punctuation (\"{\")", reader.offset()));
    }
    let mut methods: Vec<MemberFunctionAST> = Vec::new();
    let ghost mut acc: Seq<MethodSpec> = Seq::empty();
    loop
        invariant
            reader.wf(),
            reader.same_but_pos(old(reader)),
            t == reader.text(),
            t == old(reader).text(),
            p0 == old(reader).pos(),
            p0 < reader.pos() <= t.len(),
            methods_outcome(t, p0) == methods_list(t, reader.pos(), acc),
            !reader.panicked(),
            methods_are(methods@, acc),
            consts::grouping::CLOSE_BRACE@ == "}"@,
            consts::punctuation::SEMICOLON@ == ";"@,
            "}"@.len() == 1,
            ";"@.len() == 1,
        decreases t.len() - reader.pos(),
    {
        proof { lemma_skip_ws_bounds(t, reader.pos()); }
        seek::optional_whitespace(reader)?;
        if seek::begins_with(reader, consts::grouping::CLOSE_BRACE) {
            return Ok(methods);
        }
        let ghost e1 = reader.pos();
        let method = MemberFunctionAST::make(reader)?;
        methods.push(method);
        proof { acc = acc.push((member_outcome(t, e1)->Done_value, e1, reader.pos())); }
        if !seek::begins_with(reader, consts::punctuation::SEMICOLON) {
            return Err(fail(reader, ErrKind::Expected, "Semicolon", reader.offset()));
        }
    }
}

impl ImplAST {
    /// Reads `impl`, blanks, the type implemented for, blanks and methods.
    pub fn make(reader: &mut SourceReader) -> (r: AsterResult<Self>)
        requires
            old(reader).wf(),
            !old(reader).panicked(),
        ensures
            ({
                let o = impl_outcome(old(reader).text(), old(reader).pos());
                &&& reads_p(r, o, old(reader), final(reader))
                &&& (o matches Parsed::Done { value, end } ==> (r matches Ok(x)
                        && x.span == span_of(old(reader).pos(), end) && type_is(x.ty, value.0)
                        && methods_are(x.methods@, value.1) && x.template is None))
            }),
    {
        proof {
            reveal_strlit("impl");
            reader.lemma_wf();
        }
        let ghost t = reader.text();
        let start = reader.offset();
        if !seek::begins_with(reader, consts::keyword::IMPL) {
            return Err(fail(reader, ErrKind::Expected, "Keyword (impl)", reader.offset()));
        }
        proof { lemma_skip_ws_bounds(t, reader.pos()); }
        seek::required_whitespace(reader)?;
        proof { lemma_type_outcome(t, reader.pos()); }
        let ty = TypeAST::make(reader)?;
        proof { lemma_skip_ws_bounds(t, reader.pos()); }
        seek::optional_whitespace(reader)?;
        let methods = parse_methods(reader)?;
        Ok(ImplAST { span: reader.span_since(start), ty, methods, template: None })
    }
}

impl ImplForAST {
    /// Reads `impl`, blanks, the type implemented for, `:`, the path of the
    /// trait and methods, with blanks allowed around the colon.
    pub fn make(reader: &mut SourceReader) -> (r: AsterResult<Self>)
        requires
            old(reader).wf(),
            !old(reader).panicked(),
        ensures
            ({
                let o = impl_for_outcome(old(reader).text(), old(reader).pos());
                &&& reads_p(r, o, old(reader), final(reader))
                &&& (o matches Parsed::Done { value, end } ==> (r matches Ok(x)
                        && x.span == span_of(old(reader).pos(), end) && type_is(x.ty, value.0)
                        && idents_are(x.trait_name.parts@, value.1.0)
                        && x.trait_name.span == span_of(value.1.1, value.1.2)
                        && methods_are(x.methods@, value.2) && x.template is None))
            }),
    {
        proof {
            reveal_strlit("impl");
            reveal_strlit(":");
            reader.lemma_wf();
        }
        let ghost t = reader.text();
        let start = reader.offset();
        if !seek::begins_with(reader, consts::keyword::IMPL) {
            return Err(fail(reader, ErrKind::Expected, "Keyword (impl)", reader.offset()));
        }
        proof { lemma_skip_ws_bounds(t, reader.pos()); }
        seek::required_whitespace(reader)?;
        proof { lemma_type_outcome(t, reader.pos()); }
        let ty = TypeAST::make(reader)?;
        proof { lemma_skip_ws_bounds(t, reader.pos()); }
        seek::optional_whitespace(reader)?;
        if !seek::begins_with(reader, consts::punctuation::COLON) {
            return Err(fail(reader, ErrKind::Expected, "Punctuation (\":\")", reader.offset()));
        }
        proof { lemma_skip_ws_bounds(t, reader.pos()); }
        seek::optional_whitespace(reader)?;
        proof { lemma_qualified_outcome(t, reader.pos()); }
        let trait_name = QualifiedAST::make(reader)?;
        proof { lemma_skip_ws_bounds(t, reader.pos()); }
        seek::optional_whitespace(reader)?;
        let methods = parse_methods(reader)?;
        Ok(ImplForAST { span: reader.span_since(start), trait_name, ty, methods, template: None })
    }
}

} // verus!
