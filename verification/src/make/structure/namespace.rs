use vstd::prelude::*;
use crate::source_reader::SourceReader;
use crate::errors::{AsterError, AsterResult, ErrKind};
use crate::span::Span;
use crate::ast::ident::IdentAST;
use crate::ast::structure::{FunctionAST, NamespaceAST, Structure, structure_span};
use crate::seek_read::{starts_at, lemma_skip_ws_bounds, same_chars};
use crate::seek_read::{read, seek};
use crate::make::ident::fail;
use crate::make::ty::span_of;
use crate::make::expression::grammar::{Parsed, BlockSpec, reads, reads_p, opt_ws, fail_of, past, impossible};
use crate::consts;
use super::grammar::{DeclSpec, function_outcome, function_is};

verus! {

/// The index of the first entry of `m` from `i` on whose key is `key`.
pub open spec fn key_index<V>(m: Seq<(String, V)>, key: Seq<char>, i: int) -> Option<int>
    decreases m.len() - i,
{
    if i < 0 || i >= m.len() {
        None
    } else if m[i].0@ == key {
        Some(i)
    } else {
        key_index(m, key, i + 1)
    }
}

/// No two entries of `m` have the same key.
pub open spec fn keys_unique<V>(m: Seq<(String, V)>) -> bool {
    forall|j: int, k: int| 0 <= j < k < m.len() ==> m[j].0@ != m[k].0@
}

proof fn lemma_key_index<V>(m: Seq<(String, V)>, key: Seq<char>, i: int)
    requires
        0 <= i,
    ensures
        key_index(m, key, i) matches Some(j) ==> i <= j < m.len() && m[j].0@ == key,
        key_index(m, key, i) is None ==> forall|j: int| i <= j < m.len() ==> m[j].0@ != key,
    decreases m.len() - i,
{
    if i < m.len() && m[i].0@ != key {
        lemma_key_index(m, key, i + 1);
    }
}

impl NamespaceAST {
    /// Adds `value` under `key`, unless the key is taken: then the map is
    /// left as it was and the error names the key and the spans of both
    /// definitions.
    pub fn insert_unique(map: &mut Vec<(String, Structure)>, key: String, value: Structure) -> (r: AsterResult<()>)
        ensures
            match key_index(old(map)@, key@, 0) {
                Some(k) => (r matches Err(AsterError::DuplicateIdent { text, a, b })
                    && text@ == key@ && a == structure_span(old(map)@[k].1) && b == structure_span(value))
                    && final(map)@ == old(map)@,
                None => r is Ok && final(map)@ == old(map)@.push((key, value)),
            },
            keys_unique(old(map)@) ==> keys_unique(final(map)@),
    {
        proof { lemma_key_index(map@, key@, 0); }
        let n = map.len();
        let mut i: usize = 0;
        while i < n
            invariant
                n == map@.len(),
                i <= n,
                map@ == old(map)@,
                key_index(map@, key@, 0) == key_index(map@, key@, i as int),
            decreases n - i,
        {
            if same_chars(map[i].0.as_str(), key.as_str()) {
                let a = crate::span::GetSpan::span(&map[i].1);
                let b = crate::span::GetSpan::span(&value);
                return Err(AsterError::DuplicateIdent { text: key, a, b });
            }
            i = i + 1;
        }
        map.push((key, value));
        Ok(())
    }
}

/// A function read at the top level, with where it starts and ends.
pub type FnEntry = ((DeclSpec, BlockSpec), int, int);

/// Putting `v` under `key`: an entry with the key keeps its place and key
/// and takes the new function; a new key goes last.
pub open spec fn put_function(m: Seq<(Seq<char>, FnEntry)>, key: Seq<char>, v: FnEntry) -> Seq<(Seq<char>, FnEntry)> {
    match spec_key_index(m, key, 0) {
        Some(k) => m.update(k, (m[k].0, v)),
        None => m.push((key, v)),
    }
}

/// The index of the first entry of `m` from `i` on whose key is `key`.
pub open spec fn spec_key_index(m: Seq<(Seq<char>, FnEntry)>, key: Seq<char>, i: int) -> Option<int>
    decreases m.len() - i,
{
    if i < 0 || i >= m.len() {
        None
    } else if m[i].0 == key {
        Some(i)
    } else {
        spec_key_index(m, key, i + 1)
    }
}

/// Going on reading the top level at `i`, having read the functions `m`:
/// blanks, then the end of the text, or a function where `fn` stands, put
/// under its name; anything else is an unknown structure.
pub open spec fn top_level(t: Seq<char>, i: int, m: Seq<(Seq<char>, FnEntry)>) -> Parsed<Seq<(Seq<char>, FnEntry)>>
    decreases t.len() - i,
{
    match opt_ws(t, i) {
        Parsed::Done { end: e1, .. } => if e1 >= t.len() {
            Parsed::Done { value: m, end: e1 }
        } else if starts_at(t, e1, "fn"@) {
            match function_outcome(t, e1) {
                Parsed::Done { value: f, end: e2 } => if past(t, i, e2) {
                    top_level(t, e2, put_function(m, f.0.ident.0, (f, e1, e2)))
                } else {
                    impossible()
                },
                o => fail_of(o),
            }
        } else {
            Parsed::Fail { kind: ErrKind::Unknown, what: "Structure"@, offset: e1, end: e1 }
        },
        o => fail_of(o),
    }
}

/// The entries of `v` are the functions `m` describes, in the same order.
pub open spec fn functions_are(v: Seq<(String, Structure)>, m: Seq<(Seq<char>, FnEntry)>) -> bool {
    v.len() == m.len() && forall|k: int| 0 <= k < m.len() ==> (#[trigger] v[k]).0@ == m[k].0
        && (v[k].1 matches Structure::Function(f) && function_is(f, m[k].1.0, m[k].1.1, m[k].1.2))
}

/// Puts the function `f` under `key` in `map`, as `put_function` describes.
fn put(map: &mut Vec<(String, Structure)>, key: String, f: FunctionAST, Ghost(m): Ghost<Seq<(Seq<char>, FnEntry)>>, Ghost(v): Ghost<FnEntry>)
    requires
        functions_are(old(map)@, m),
        function_is(f, v.0, v.1, v.2),
    ensures
        functions_are(final(map)@, put_function(m, key@, v)),
{
    let n = map.len();
    let mut i: usize = 0;
    while i < n
        invariant
            n == map@.len(),
            i <= n,
            map@ == old(map)@,
            functions_are(map@, m),
            function_is(f, v.0, v.1, v.2),
            spec_key_index(m, key@, 0) == spec_key_index(m, key@, i as int),
        decreases n - i,
    {
        if same_chars(map[i].0.as_str(), key.as_str()) {
            proof { assert(spec_key_index(m, key@, i as int) == Some(i as int)); }
            let (k0, _old) = map.remove(i);
            proof { assert(k0 == old(map)@[i as int].0); }
            map.insert(i, (k0, Structure::Function(f)));
            proof {
                let next = m.update(i as int, (m[i as int].0, v));
                assert(map@.len() == next.len());
                assert forall|k: int| 0 <= k < next.len() implies (#[trigger] map@[k]).0@ == next[k].0
                    && (map@[k].1 matches Structure::Function(g) && function_is(g, next[k].1.0, next[k].1.1, next[k].1.2)) by {
                    if k != i {
                        assert(map@[k] == old(map)@[k]);
                    }
                }
            }
            return;
        }
        i = i + 1;
    }
    map.push((key, Structure::Function(f)));
    proof {
        let next = m.push((key@, v));
        assert forall|k: int| 0 <= k < next.len() implies (#[trigger] map@[k]).0@ == next[k].0
            && (map@[k].1 matches Structure::Function(g) && function_is(g, next[k].1.0, next[k].1.1, next[k].1.2)) by {
            if k < m.len() {
                assert(map@[k] == old(map)@[k]);
            }
        }
    }
}

/// The namespace that `asterize` builds: the global namespace, spanning
/// the whole text, holding the functions read.
pub open spec fn global_is(ns: NamespaceAST, len: int, m: Seq<(Seq<char>, FnEntry)>) -> bool {
    &&& ns.span == span_of(0, len)
    &&& ns.ident.text@ == "global"@
    &&& ns.ident.span == span_of(0, 0)
    &&& ns.imports@.len() == 0
    &&& functions_are(ns.map@, m)
}

/// Reads the functions of a text, from the reader's position to its end,
/// into the global namespace. A function goes under its name, replacing an
/// earlier one of the same name; anything but blanks and functions is an
/// error. Where an expression's operators do not fold, which stops the
/// program, the reader is left marked as panicked (see `Expression::make`).
pub fn asterize(reader: &mut SourceReader) -> (r: AsterResult<NamespaceAST>)
    requires
        old(reader).wf(),
        !old(reader).panicked(),
    ensures
        ({
            let o = top_level(old(reader).text(), old(reader).pos(), Seq::empty());
            &&& reads_p(r, o, old(reader), final(reader))
            &&& (o matches Parsed::Done { value, .. } ==> (r matches Ok(ns) && global_is(ns, old(reader).text().len() as int, value)))
        }),
{
    proof {
        reveal_strlit("fn");
        reveal_strlit("global");
        reader.lemma_wf();
    }
    let ghost t = reader.text();
    let ghost p0 = reader.pos();
    let span = Span { start: 0, end: 0 };
    let ident = IdentAST { span, text: String::from_str("global") };
    let mut map: Vec<(String, Structure)> = Vec::new();
    let ghost mut m: Seq<(Seq<char>, FnEntry)> = Seq::empty();
    loop
        invariant
            reader.wf(),
            reader.same_but_pos(old(reader)),
            t == reader.text(),
            t == old(reader).text(),
            p0 == old(reader).pos(),
            p0 <= reader.pos() <= t.len(),
            top_level(t, p0, Seq::empty()) == top_level(t, reader.pos(), m),
            !reader.panicked(),
            functions_are(map@, m),
            ident.text@ == "global"@,
            ident.span == span_of(0, 0),
            consts::keyword::FN@ == "fn"@,
        decreases t.len() - reader.pos(),
    {
        proof { lemma_skip_ws_bounds(t, reader.pos()); }
        seek::optional_whitespace(reader)?;
        if reader.remaining() == 0 {
            return Ok(NamespaceAST {
                span: Span { start: 0, end: reader.len() },
                ident,
                map,
                imports: Vec::new(),
            });
        }
        if read::begins_with(reader, consts::keyword::FN) {
            let ghost e1 = reader.pos();
            let func = FunctionAST::make(reader)?;
            let key = func.decl.ident.text.clone();
            proof {
                let v: FnEntry = (function_outcome(t, e1)->Done_value, e1, reader.pos());
                assert(key@ == v.0.0.ident.0);
            }
            put(&mut map, key, func, Ghost(m), Ghost((function_outcome(t, e1)->Done_value, e1, reader.pos() as int)));
            proof { m = put_function(m, function_outcome(t, e1)->Done_value.0.ident.0, (function_outcome(t, e1)->Done_value, e1, reader.pos() as int)); }
        } else {
            return Err(fail(reader, ErrKind::Unknown, "Structure", reader.offset()));
        }
    }
}

} // verus!
