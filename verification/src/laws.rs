use vstd::prelude::*;
use crate::span::Span;
use crate::seek_read::{skip_ws, Skip, starts_at, is_blank, line_end, close_end};
use crate::make::ident::{ident_outcome, is_reserved};
use crate::intrinsics::{Intrinsic, intrinsic_name, intrinsic_named, intrinsic_lookup, intrinsic_entry_spec};
use crate::ast::operator::cover;
use crate::source_reader::formatting::{digits, decimal, pad_spec, repeat};
use crate::ast::operator::BinaryOperator;
use crate::make::expression::grammar::{ExprSpec, OpSpec};
use crate::make::expression::pemdas::{OpKind, includes_kind, spec_kind, first_included, fold_at, fold};
use crate::make::expression::grammar::{Parsed, opt_ws, req_ws};
use crate::make::qualified::IdentSpec;
use crate::make::ty::TySpec;
use crate::make::structure::grammar::{find_arg, insert_arg, unique_names, decl_args, decl_outcome};
use crate::make::structure::namespace::{FnEntry, put_function, spec_key_index, top_level};
use crate::arg_parser::parse_all;
use crate::bufreader::meta::{MetaState, start_state, take_spec, take_all};
use crate::chars::utf8_len;
use crate::ast::ident::{IdentAST, join_parts};
use crate::arg_parser::error::ArgumentErrorView;
use crate::arg_parser::parser::{ParserView, State, step, first_spec, eq_index, slot};
use crate::arg_parser::parser::options::{Argument, flag_named, argument_named, long_name_spec};

verus! {

/// Skipping blanks and comments a second time skips nothing: where
/// `optional_whitespace` stops, it finds nothing more to skip.
pub proof fn law_whitespace_idempotent(t: Seq<char>, p: int)
    requires
        0 <= p <= t.len(),
    ensures
        skip_ws(t, p) matches Skip::Done { end, .. } ==> skip_ws(t, end) == (Skip::Done { count: 0, end }),
    decreases t.len() - p,
{
    if starts_at(t, p, seq!['/', '/']) {
        crate::seek_read::lemma_line_end(t, p + 2);
        let q = line_end(t, p + 2);
        if p < q <= t.len() {
            law_whitespace_idempotent(t, q);
        }
    } else if starts_at(t, p, seq!['/', '*']) {
        crate::seek_read::lemma_close_end(t, p + 2);
        if let Some(q) = close_end(t, p + 2) {
            if p < q <= t.len() {
                law_whitespace_idempotent(t, q);
            }
        }
    } else if p < t.len() && is_blank(t[p]) {
        law_whitespace_idempotent(t, p + 1);
    }
}

/// A name that reads is the text it spans, is not empty and is no reserved
/// word.
pub proof fn law_names_are_not_reserved(t: Seq<char>, p: int)
    requires
        0 <= p <= t.len(),
    ensures
        ident_outcome(t, p) matches crate::errors::Outcome::Done { value, end } ==>
            value == t.subrange(p, end) && value.len() > 0 && !is_reserved(value),
{
    crate::make::ident::lemma_ident_outcome(t, p);
}

/// The name of an intrinsic type names that type: `get_name` and
/// `get_intrinsic` undo each other.
pub proof fn law_intrinsic_names_round_trip(i: Intrinsic)
    ensures
        intrinsic_named(intrinsic_name(i)) == Some(i),
{
    reveal_strlit("void");
    reveal_strlit("bool");
    reveal_strlit("char");
    reveal_strlit("u8");
    reveal_strlit("u16");
    reveal_strlit("u32");
    reveal_strlit("u64");
    reveal_strlit("usize");
    reveal_strlit("i8");
    reveal_strlit("i16");
    reveal_strlit("i32");
    reveal_strlit("i64");
    reveal_strlit("isize");
    let n = intrinsic_name(i);
    assert forall|k: int| 0 <= k < 13 && intrinsic_entry_spec(k).0 == n implies intrinsic_entry_spec(k).1 == i by {
        assert(name_sig(intrinsic_entry_spec(k).0) == name_sig(n));
    }
    let k0 = match i {
        Intrinsic::VOID => 0int,
        Intrinsic::BOOL => 1,
        Intrinsic::CHAR => 2,
        Intrinsic::U8 => 3,
        Intrinsic::U16 => 4,
        Intrinsic::U32 => 5,
        Intrinsic::U64 => 6,
        Intrinsic::USIZE => 7,
        Intrinsic::I8 => 8,
        Intrinsic::I16 => 9,
        Intrinsic::I32 => 10,
        Intrinsic::I64 => 11,
        Intrinsic::ISIZE => 12,
    };
    assert(intrinsic_entry_spec(k0) == (n, i));
    lemma_lookup_finds(n, 0, i, k0);
}

proof fn lemma_lookup_finds(n: Seq<char>, j: int, i: Intrinsic, k0: int)
    requires
        0 <= j <= k0 < 13,
        intrinsic_entry_spec(k0) == (n, i),
        forall|k: int| 0 <= k < 13 && intrinsic_entry_spec(k).0 == n ==> intrinsic_entry_spec(k).1 == i,
    ensures
        intrinsic_lookup(n, j) == Some(i),
    decreases 13 - j,
{
    if intrinsic_entry_spec(j).0 != n {
        lemma_lookup_finds(n, j + 1, i, k0);
    }
}

/// The length and first two characters of a name.
spec fn name_sig(s: Seq<char>) -> (nat, char, char) {
    (s.len(), s[0], s[1])
}

/// The span of an operator between two operands does not depend on their
/// order, and covers both.
pub proof fn law_cover(a: Span, b: Span)
    ensures
        cover(a, b) == cover(b, a),
        cover(a, b).start <= a.start && cover(a, b).start <= b.start,
        cover(a, b).end >= a.end && cover(a, b).end >= b.end,
{
}

/// A number is written with as many digits as `num_length` counts.
pub proof fn law_decimal_length(n: nat)
    ensures
        decimal(n).len() == digits(n),
    decreases n,
{
    if n >= 10 {
        law_decimal_length(n / 10);
    }
}

/// Padded line numbers take exactly the width given, when it is wide
/// enough: the gutter of a diagnostic lines up.
pub proof fn law_padded_line_numbers_align(pfx: int, line: nat)
    requires
        pfx >= digits(line + 1),
    ensures
        pad_spec(pfx, line).len() == pfx,
{
    law_decimal_length(line + 1);
}

/// The precedence level of a binary operator: the first that includes it,
/// or 10 for the shifts, which none includes.
pub open spec fn bin_level(b: BinaryOperator) -> int {
    if includes_kind(0, OpKind::Bin(b)) { 0 }
    else if includes_kind(1, OpKind::Bin(b)) { 1 }
    else if includes_kind(2, OpKind::Bin(b)) { 2 }
    else if includes_kind(3, OpKind::Bin(b)) { 3 }
    else if includes_kind(4, OpKind::Bin(b)) { 4 }
    else if includes_kind(5, OpKind::Bin(b)) { 5 }
    else if includes_kind(6, OpKind::Bin(b)) { 6 }
    else if includes_kind(7, OpKind::Bin(b)) { 7 }
    else if includes_kind(8, OpKind::Bin(b)) { 8 }
    else if includes_kind(9, OpKind::Bin(b)) { 9 }
    else { 10 }
}

proof fn lemma_level_unique(b: BinaryOperator, l: int)
    requires
        0 <= l < 10,
    ensures
        includes_kind(l, OpKind::Bin(b)) <==> l == bin_level(b),
{
    reveal(includes_kind);
}

proof fn lemma_levels(x: BinaryOperator, y: BinaryOperator)
    ensures
        forall|l: int| 0 <= l < 10 ==> (#[trigger] includes_kind(l, OpKind::Bin(x)) <==> l == bin_level(x)),
        forall|l: int| 0 <= l < 10 ==> (#[trigger] includes_kind(l, OpKind::Bin(y)) <==> l == bin_level(y)),
        0 <= bin_level(x) <= 10,
        0 <= bin_level(y) <= 10,
{
    assert forall|l: int| 0 <= l < 10 implies (#[trigger] includes_kind(l, OpKind::Bin(x)) <==> l == bin_level(x)) by {
        lemma_level_unique(x, l);
    }
    assert forall|l: int| 0 <= l < 10 implies (#[trigger] includes_kind(l, OpKind::Bin(y)) <==> l == bin_level(y)) by {
        lemma_level_unique(y, l);
    }
}

proof fn lemma_none_included(os: Seq<OpSpec>, l: int, i: int)
    requires
        0 <= i,
        forall|k: int| i <= k < os.len() ==> !includes_kind(l, spec_kind(#[trigger] os[k])),
    ensures
        first_included(os, l, i) is None,
    decreases os.len() - i,
{
    if i < os.len() {
        lemma_none_included(os, l, i + 1);
    }
}

proof fn lemma_fold_skip(es: Seq<ExprSpec>, os: Seq<OpSpec>, l: int, m: int)
    requires
        0 <= l <= m <= 10,
        forall|k: int, n: int| 0 <= k < os.len() && l <= n < m ==> !#[trigger] includes_kind(n, spec_kind(os[k])),
    ensures
        fold_at(es, os, l) == fold_at(es, os, m),
    decreases m - l,
{
    if l < m {
        lemma_none_included(os, l, 0);
        lemma_fold_skip(es, os, l + 1, m);
    }
}

proof fn lemma_fold_one(e: ExprSpec, l: int)
    requires
        0 <= l <= 10,
    ensures
        fold_at(seq![e], Seq::empty(), l) == Some(e),
{
    lemma_fold_skip(seq![e], Seq::empty(), l, 10);
}

/// One operand and no operator fold to that operand.
pub proof fn law_fold_single(e: ExprSpec)
    ensures
        fold(seq![e], Seq::empty()) == Some(e),
{
    lemma_fold_one(e, 0);
}

/// Of two binary operators, the one of the earlier level takes its
/// operands first; of two at the same level, the left one does: `a x b y c`
/// folds to `(a x b) y c` unless `y` binds tighter, and then to
/// `a x (b y c)`.
pub proof fn law_fold_precedence(a: ExprSpec, b: ExprSpec, c: ExprSpec, x: BinaryOperator, y: BinaryOperator)
    requires
        bin_level(x) < 10,
        bin_level(y) < 10,
    ensures
        fold(seq![a, b, c], seq![OpSpec::Bin(x), OpSpec::Bin(y)]) == if bin_level(y) < bin_level(x) {
            Some(ExprSpec::Bin { op: x, a: Box::new(a), b: Box::new(ExprSpec::Bin { op: y, a: Box::new(b), b: Box::new(c) }) })
        } else {
            Some(ExprSpec::Bin { op: y, a: Box::new(ExprSpec::Bin { op: x, a: Box::new(a), b: Box::new(b) }), b: Box::new(c) })
        },
{
    let lx = bin_level(x);
    let ly = bin_level(y);
    let es = seq![a, b, c];
    let os = seq![OpSpec::Bin(x), OpSpec::Bin(y)];
    lemma_levels(x, y);
    assert(spec_kind(os[0]) == OpKind::Bin(x));
    assert(spec_kind(os[1]) == OpKind::Bin(y));
    if ly < lx {
        lemma_fold_skip(es, os, 0, ly);
        assert(!includes_kind(ly, OpKind::Bin(x)));
        assert(includes_kind(ly, OpKind::Bin(y)));
        assert(first_included(os, ly, 1) == Some(1int));
        assert(first_included(os, ly, 0) == Some(1int));
        let inner = ExprSpec::Bin { op: y, a: Box::new(b), b: Box::new(c) };
        let es1 = es.update(1, inner).remove(2);
        let os1 = os.remove(1);
        assert(es1 =~= seq![a, inner]);
        assert(os1 =~= seq![OpSpec::Bin(x)]);
        assert(fold_at(es, os, ly) == fold_at(es1, os1, ly));
        assert(spec_kind(os1[0]) == OpKind::Bin(x));
        lemma_fold_skip(es1, os1, ly, lx);
        assert(includes_kind(lx, OpKind::Bin(x)));
        assert(first_included(os1, lx, 0) == Some(0int));
        let top = ExprSpec::Bin { op: x, a: Box::new(a), b: Box::new(inner) };
        let es2 = es1.update(0, top).remove(1);
        let os2 = os1.remove(0);
        assert(es2 =~= seq![top]);
        assert(os2 =~= Seq::<OpSpec>::empty());
        assert(fold_at(es1, os1, lx) == fold_at(es2, os2, lx));
        lemma_fold_one(top, lx);
    } else {
        lemma_fold_skip(es, os, 0, lx);
        assert(includes_kind(lx, OpKind::Bin(x)));
        assert(first_included(os, lx, 0) == Some(0int));
        let inner = ExprSpec::Bin { op: x, a: Box::new(a), b: Box::new(b) };
        let es1 = es.update(0, inner).remove(1);
        let os1 = os.remove(0);
        assert(es1 =~= seq![inner, c]);
        assert(os1 =~= seq![OpSpec::Bin(y)]);
        assert(fold_at(es, os, lx) == fold_at(es1, os1, lx));
        assert(spec_kind(os1[0]) == OpKind::Bin(y));
        lemma_fold_skip(es1, os1, lx, ly);
        assert(includes_kind(ly, OpKind::Bin(y)));
        assert(first_included(os1, ly, 0) == Some(0int));
        let top = ExprSpec::Bin { op: y, a: Box::new(inner), b: Box::new(c) };
        let es2 = es1.update(0, top).remove(1);
        let os2 = os1.remove(0);
        assert(es2 =~= seq![top]);
        assert(os2 =~= Seq::<OpSpec>::empty());
        assert(fold_at(es1, os1, ly) == fold_at(es2, os2, ly));
        lemma_fold_one(top, ly);
    }
}

proof fn lemma_find_arg(args: Seq<(IdentSpec, TySpec)>, name: Seq<char>, i: int)
    requires
        0 <= i,
    ensures
        find_arg(args, name, i) matches Some(k) ==> i <= k < args.len() && args[k].0.0 == name,
        find_arg(args, name, i) is None ==> forall|k: int| i <= k < args.len() ==> args[k].0.0 != name,
    decreases args.len() - i,
{
    if i < args.len() && args[i].0.0 != name {
        lemma_find_arg(args, name, i + 1);
    }
}

proof fn lemma_insert_arg_unique(args: Seq<(IdentSpec, TySpec)>, id: IdentSpec, ty: TySpec)
    requires
        unique_names(args),
    ensures
        unique_names(insert_arg(args, id, ty)),
{
    lemma_find_arg(args, id.0, 0);
    let next = insert_arg(args, id, ty);
    assert forall|j: int, k: int| 0 <= j < k < next.len() implies next[j].0.0 != next[k].0.0 by {
        if k == args.len() {
            assert(next[j] == args[j]);
        }
    }
}

proof fn lemma_decl_args_unique(t: Seq<char>, i: int, acc: Seq<(IdentSpec, TySpec)>)
    requires
        unique_names(acc),
    ensures
        decl_args(t, i, acc) matches Parsed::Done { value, .. } ==> unique_names(value),
    decreases t.len() - i,
{
    if let Parsed::Done { end: e1, .. } = opt_ws(t, i) {
        if let crate::errors::Outcome::Done { value: ty, end: e2 } = crate::make::ty::type_outcome(t, e1) {
            if let Parsed::Done { end: e3, .. } = req_ws(t, e2) {
                if let crate::errors::Outcome::Done { value: id, end: e4 } = ident_outcome(t, e3) {
                    if let Parsed::Done { end: e5, .. } = opt_ws(t, e4) {
                        let next = insert_arg(acc, (id, e3, e4), ty);
                        lemma_insert_arg_unique(acc, (id, e3, e4), ty);
                        if starts_at(t, e5, ","@) && crate::make::expression::grammar::past(t, i, e5 + 1) {
                            lemma_decl_args_unique(t, e5 + 1, next);
                        }
                    }
                }
            }
        }
    }
}

/// A function declaration never has two arguments of the same name: one
/// named again takes the place of the first.
pub proof fn law_declared_arguments_are_unique(t: Seq<char>, p: int)
    ensures
        decl_outcome(t, p) matches Parsed::Done { value, .. } ==> unique_names(value.args),
{
    let s: Seq<(IdentSpec, TySpec)> = Seq::empty();
    if let crate::errors::Outcome::Done { value: id, end: e1 } = ident_outcome(t, p) {
        if let Parsed::Done { end: e2, .. } = opt_ws(t, e1) {
            let ret: Parsed<Option<TySpec>> = if starts_at(t, e2, "->"@) {
                match opt_ws(t, e2 + 2) {
                    Parsed::Done { end: e3, .. } => match crate::make::ty::type_outcome(t, e3) {
                        crate::errors::Outcome::Done { value: ty, end: e4 } => match opt_ws(t, e4) {
                            Parsed::Done { end: e5, .. } => Parsed::Done { value: Some(ty), end: e5 },
                            o => crate::make::expression::grammar::fail_of(o),
                        },
                        o => crate::make::expression::grammar::fail_of_o(o),
                    },
                    o => crate::make::expression::grammar::fail_of(o),
                }
            } else {
                Parsed::Done { value: None, end: e2 }
            };
            if let Parsed::Done { end: e6, .. } = ret {
                lemma_decl_args_unique(t, e6 + 1, s);
            }
        }
    }
}

/// No two functions at the top level have the same name: a function named
/// again replaces the first.
pub proof fn law_top_level_names_are_unique(t: Seq<char>, i: int, m: Seq<(Seq<char>, FnEntry)>)
    requires
        forall|j: int, k: int| 0 <= j < k < m.len() ==> m[j].0 != m[k].0,
    ensures
        top_level(t, i, m) matches Parsed::Done { value, .. } ==>
            forall|j: int, k: int| 0 <= j < k < value.len() ==> value[j].0 != value[k].0,
    decreases t.len() - i,
{
    if let Parsed::Done { end: e1, .. } = opt_ws(t, i) {
        if e1 < t.len() && starts_at(t, e1, "fn"@) {
            if let Parsed::Done { value: f, end: e2 } = crate::make::structure::grammar::function_outcome(t, e1) {
                if crate::make::expression::grammar::past(t, i, e2) {
                    let key = f.0.ident.0;
                    let next = put_function(m, key, (f, e1, e2));
                    lemma_key_index(m, key, 0);
                    assert forall|j: int, k: int| 0 <= j < k < next.len() implies next[j].0 != next[k].0 by {
                        if k == m.len() {
                            assert(next[j] == m[j]);
                        }
                    }
                    law_top_level_names_are_unique(t, e2, next);
                }
            }
        }
    }
}

proof fn lemma_key_index(m: Seq<(Seq<char>, FnEntry)>, key: Seq<char>, i: int)
    requires
        0 <= i,
    ensures
        spec_key_index(m, key, i) matches Some(k) ==> i <= k < m.len() && m[k].0 == key,
        spec_key_index(m, key, i) is None ==> forall|k: int| i <= k < m.len() ==> m[k].0 != key,
    decreases m.len() - i,
{
    if i < m.len() && m[i].0 != key {
        lemma_key_index(m, key, i + 1);
    }
}

proof fn lemma_eq_index_after(s: Seq<char>, i: int, n: int)
    requires
        0 <= i <= n < s.len(),
        s[n] == '=',
        forall|k: int| i <= k < n ==> s[k] != '=',
    ensures
        eq_index(s, i) == Some(n),
    decreases n - i,
{
    if i < n {
        lemma_eq_index_after(s, i + 1, n);
    }
}

/// Reading `--name=value` for an argument: the argument takes the value,
/// unless it has one already.
proof fn lemma_named_value(v: ParserView, kind: Argument, value: Seq<char>)
    requires
        v.state == State::First,
    ensures
        step(v, long_name_spec(kind) + "="@ + value) == crate::arg_parser::parser::set_value(v, kind, value),
{
    reveal_strlit("=");
    reveal_strlit("-h");
    reveal_strlit("--help");
    reveal_strlit("-i");
    reveal_strlit("--input");
    reveal_strlit("-o");
    reveal_strlit("--output");
    reveal_strlit("--llc");
    reveal_strlit("--cc");
    let name = long_name_spec(kind);
    let arg = name + "="@ + value;
    assert(arg[name.len() as int] == '=');
    assert forall|k: int| 0 <= k < name.len() implies arg[k] != '=' by {
        assert(arg[k] == name[k]);
    }
    lemma_eq_index_after(arg, 0, name.len() as int);
    assert(arg.take(name.len() as int) =~= name);
    assert(arg.skip(name.len() as int + 1) =~= value);
    assert(flag_named(arg) is None) by {
        assert(arg.len() != 2 || arg[1] == '=' || arg[0] != '-' || arg[1] != 'h');
        if arg == "-h"@ {
            assert(arg[name.len() as int] == "-h"@[name.len() as int]);
        }
        if arg == "--help"@ {
            assert(arg[name.len() as int] == "--help"@[name.len() as int]);
        }
    }
    assert(argument_named(name) == Some(kind));
}

/// An argument given twice with `=` is refused, naming the argument, when
/// the parser expects a new argument and has no value for it yet.
pub proof fn law_repeated_argument_is_refused(v: ParserView, kind: Argument, a: Seq<char>, b: Seq<char>)
    requires
        v.state == State::First,
        slot(v, kind) is None,
    ensures
        parse_all(v, seq![long_name_spec(kind) + "="@ + a, long_name_spec(kind) + "="@ + b])
            == Err::<ParserView, ArgumentErrorView>(ArgumentErrorView::Duplicate(long_name_spec(kind))),
{
    let args = seq![long_name_spec(kind) + "="@ + a, long_name_spec(kind) + "="@ + b];
    lemma_named_value(v, kind, a);
    let w = crate::arg_parser::parser::with_slot(v, kind, Some(a));
    lemma_named_value(w, kind, b);
    let rest = args.skip(1);
    assert(rest =~= seq![long_name_spec(kind) + "="@ + b]);
    assert(step(v, args[0]) == Ok::<ParserView, ArgumentErrorView>(w));
    assert(w.state == State::First);
    assert(slot(w, kind) == Some(a));
    assert(step(w, rest[0]) == Err::<ParserView, ArgumentErrorView>(ArgumentErrorView::Duplicate(long_name_spec(kind))));
    assert(parse_all(w, rest) == Err::<ParserView, ArgumentErrorView>(ArgumentErrorView::Duplicate(long_name_spec(kind))));
}

/// The line feeds among the characters of `s`.
pub open spec fn newlines(s: Seq<char>) -> int
    decreases s.len(),
{
    if s.len() == 0 { 0 } else { newlines(s.drop_last()) + if s.last() == '\n' { 1int } else { 0int } }
}

/// The bytes the characters of `s` take in UTF-8.
pub open spec fn utf8_bytes(s: Seq<char>) -> int
    decreases s.len(),
{
    if s.len() == 0 { 0 } else { utf8_bytes(s.drop_last()) + utf8_len(s.last()) }
}

/// After taking the characters of `s` from the start of a text, all but
/// the last are accounted for: the line is one more than the line feeds
/// among them and the position is the bytes they take; the last waits.
/// `Metadata::new` and one `Metadata::take` per character reach this
/// state, each `take` being callable whenever the counts it makes fit in
/// a `usize`.
pub proof fn law_metadata_counts(s: Seq<char>)
    ensures
        ({
            let m = take_all(start_state(), s);
            let done = if s.len() == 0 { s } else { s.drop_last() };
            &&& m.line == 1 + newlines(done)
            &&& m.position == utf8_bytes(done)
            &&& m.last_ch == (if s.len() == 0 { None } else { Some(s.last()) })
        }),
    decreases s.len(),
{
    if s.len() > 0 {
        let prev = s.drop_last();
        law_metadata_counts(prev);
        if prev.len() > 0 {
            assert(prev.drop_last() =~= prev.subrange(0, prev.len() - 1));
        }
    }
}


/// The first place from `i` on where `::` starts in `s`.
pub open spec fn first_colons(s: Seq<char>, i: int) -> Option<int>
    decreases s.len() - i,
{
    if i < 0 || i + 1 >= s.len() {
        None
    } else if s[i] == ':' && s[i + 1] == ':' {
        Some(i)
    } else {
        first_colons(s, i + 1)
    }
}

/// The pieces of `s` between the `::` in it, read from the left as
/// `str::split` reads them.
pub open spec fn split_colons(s: Seq<char>) -> Seq<Seq<char>>
    decreases s.len(),
{
    match first_colons(s, 0) {
        Some(i) => if 0 <= i && i + 2 <= s.len() {
            seq![s.take(i)] + split_colons(s.skip(i + 2))
        } else {
            seq![s]
        },
        None => seq![s],
    }
}

/// No character of `s` is a colon.
pub open spec fn no_colon(s: Seq<char>) -> bool {
    forall|k: int| 0 <= k < s.len() ==> s[k] != ':'
}

proof fn lemma_no_colons(s: Seq<char>, i: int)
    requires
        no_colon(s),
        0 <= i,
    ensures
        first_colons(s, i) is None,
    decreases s.len() - i,
{
    if i + 1 < s.len() {
        lemma_no_colons(s, i + 1);
    }
}

proof fn lemma_first_colons(a: Seq<char>, b: Seq<char>, i: int)
    requires
        no_colon(a),
        0 <= i <= a.len(),
    ensures
        first_colons(a + "::"@ + b, i) == Some(a.len() as int),
    decreases a.len() - i,
{
    reveal_strlit("::");
    let s = a + "::"@ + b;
    assert(s[a.len() as int] == ':');
    assert(s[a.len() as int + 1] == ':');
    if i < a.len() {
        assert(s[i] == a[i]);
        lemma_first_colons(a, b, i + 1);
    }
}

proof fn lemma_join_front(parts: Seq<IdentAST>)
    requires
        parts.len() >= 2,
    ensures
        join_parts(parts) == parts[0].text@ + "::"@ + join_parts(parts.drop_first()),
    decreases parts.len(),
{
    let rest = parts.drop_first();
    if parts.len() == 2 {
        assert(parts.drop_last() =~= seq![parts[0]]);
        assert(join_parts(parts.drop_last()) == parts[0].text@);
        assert(rest =~= seq![parts[1]]);
        assert(join_parts(rest) == parts[1].text@);
        assert(parts.last() == parts[1]);
    } else {
        let dl = parts.drop_last();
        lemma_join_front(dl);
        assert(dl[0] == parts[0]);
        assert(join_parts(parts) == join_parts(dl) + "::"@ + parts.last().text@);
        assert(dl.drop_first() =~= rest.drop_last());
        assert(rest.last() == parts.last());
        assert(join_parts(rest) == join_parts(rest.drop_last()) + "::"@ + rest.last().text@);
        assert(parts[0].text@ + "::"@ + join_parts(dl.drop_first()) + "::"@ + parts.last().text@
            =~= parts[0].text@ + "::"@ + (join_parts(dl.drop_first()) + "::"@ + parts.last().text@));
    }
}

/// Splitting a path written by `QualifiedAST::to_hashable` at its `::`
/// gives back the names of its parts, in order, when there is at least one
/// part and no name holds a colon. The spans of the parts play no part.
pub proof fn law_qualified_path_splits_back(parts: Seq<IdentAST>)
    requires
        parts.len() > 0,
        forall|j: int| 0 <= j < parts.len() ==> no_colon(#[trigger] parts[j].text@),
    ensures
        split_colons(join_parts(parts)) == parts.map_values(|p: IdentAST| p.text@),
    decreases parts.len(),
{
    reveal_strlit("::");
    let names = parts.map_values(|p: IdentAST| p.text@);
    if parts.len() == 1 {
        assert(no_colon(parts[0].text@));
        lemma_no_colons(parts[0].text@, 0);
        assert(names =~= seq![parts[0].text@]);
    } else {
        let a = parts[0].text@;
        let rest = parts.drop_first();
        let b = join_parts(rest);
        assert(no_colon(a));
        lemma_join_front(parts);
        lemma_first_colons(a, b, 0);
        let s = a + "::"@ + b;
        assert(s.take(a.len() as int) =~= a);
        assert(s.skip(a.len() as int + 2) =~= b);
        assert forall|j: int| 0 <= j < rest.len() implies no_colon(#[trigger] rest[j].text@) by {
            assert(rest[j] == parts[j + 1]);
        }
        law_qualified_path_splits_back(rest);
        assert(names =~= seq![a] + rest.map_values(|p: IdentAST| p.text@));
    }
}


/// The characters of `s` after its last line feed: the line being read.
pub open spec fn line_tail(s: Seq<char>) -> Seq<char>
    decreases s.len(),
{
    if s.len() == 0 {
        s
    } else if s.last() == '\n' {
        Seq::empty()
    } else {
        line_tail(s.drop_last()).push(s.last())
    }
}

/// How many spaces and tabs open `s`.
pub open spec fn leading_blanks(s: Seq<char>) -> nat
    decreases s.len(),
{
    if s.len() == 0 {
        0
    } else {
        let k = leading_blanks(s.drop_last());
        if k == s.len() - 1 && (s.last() == ' ' || s.last() == '\t') { k + 1 } else { k }
    }
}

proof fn lemma_leading_blanks_bound(s: Seq<char>)
    ensures
        leading_blanks(s) <= s.len(),
    decreases s.len(),
{
    if s.len() > 0 {
        lemma_leading_blanks_bound(s.drop_last());
    }
}

/// After taking the characters of `s` from the start of a text, the
/// column is one more than the characters accounted for on the current
/// line, the whitespace is the spaces and tabs that open that line, and
/// the reader is still reading whitespace when nothing else has come on it.
pub proof fn law_metadata_columns(s: Seq<char>)
    ensures
        ({
            let m = take_all(start_state(), s);
            let tail = line_tail(if s.len() == 0 { s } else { s.drop_last() });
            &&& m.column == 1 + tail.len()
            &&& m.whitespace == leading_blanks(tail)
            &&& m.reading_whitespace == (leading_blanks(tail) == tail.len())
            &&& m.last_ch == (if s.len() == 0 { None } else { Some(s.last()) })
        }),
    decreases s.len(),
{
    if s.len() > 0 {
        let prev = s.drop_last();
        law_metadata_columns(prev);
        assert(take_all(start_state(), s) == take_spec(take_all(start_state(), prev), s.last()));
        if prev.len() > 0 {
            let done = prev.drop_last();
            let tail = line_tail(done);
            lemma_leading_blanks_bound(tail);
            let c = prev.last();
            if c != '\n' {
                assert(line_tail(prev) == tail.push(c));
                assert(tail.push(c).drop_last() =~= tail);
                assert(leading_blanks(tail.push(c)) == (if leading_blanks(tail) == tail.len() && (c == ' ' || c == '\t') {
                    leading_blanks(tail) + 1
                } else {
                    leading_blanks(tail)
                }));
            }
        }
    }
}

} // verus!
