use vstd::prelude::*;
use crate::errors::Outcome;
use crate::ast::ty::Type;
use crate::ast::ident::IdentAST;
use crate::ast::ty::TypeAST;
use crate::ast::structure::{
    FunctionDeclAST, FunctionAST, MemberFunctionDeclAST, MemberFunctionAST, ImplAST, ImplForAST,
    StructAST, TraitAST, TypeAliasAST, ExternDeclAST,
};
use crate::intrinsics::Intrinsic;
use crate::seek_read::starts_at;
use crate::make::ident::ident_outcome;
use crate::make::qualified::{IdentSpec, ident_is, idents_are, qualified_outcome};
use crate::make::ty::{TySpec, type_is, type_outcome, span_of};
use crate::make::expression::grammar::{
    Parsed, BlockSpec, opt_ws, req_ws, fail_of, fail_of_o, expected_at, past, block_outcome, impossible,
};
use crate::make::expression::relate::block_is;

verus! {

/// The index of the argument named `name` among `args` from `i` on, if any.
pub open spec fn find_arg(args: Seq<(IdentSpec, TySpec)>, name: Seq<char>, i: int) -> Option<int>
    decreases args.len() - i,
{
    if i < 0 || i >= args.len() {
        None
    } else if args[i].0.0 == name {
        Some(i)
    } else {
        find_arg(args, name, i + 1)
    }
}

/// Adding the argument `id` of type `ty`: an argument of the same name keeps
/// its place and name and takes the new type; a new name goes last.
pub open spec fn insert_arg(args: Seq<(IdentSpec, TySpec)>, id: IdentSpec, ty: TySpec) -> Seq<(IdentSpec, TySpec)> {
    match find_arg(args, id.0, 0) {
        Some(k) => args.update(k, (args[k].0, ty)),
        None => args.push((id, ty)),
    }
}

/// No two arguments have the same name.
pub open spec fn unique_names(args: Seq<(IdentSpec, TySpec)>) -> bool {
    forall|j: int, k: int| 0 <= j < k < args.len() ==> args[j].0.0 != args[k].0.0
}

/// A function declaration as read.
pub struct DeclSpec {
    pub ident: IdentSpec,
    pub ret: Option<TySpec>,
    pub void_end: int,
    pub args: Seq<(IdentSpec, TySpec)>,
    pub start: int,
    pub end: int,
}

/// Going on reading arguments at `i`, having read `acc`: blanks, a type,
/// blanks, a name and blanks, then a comma if more follow.
pub open spec fn decl_args(t: Seq<char>, i: int, acc: Seq<(IdentSpec, TySpec)>) -> Parsed<Seq<(IdentSpec, TySpec)>>
    decreases t.len() - i,
{
    match opt_ws(t, i) {
        Parsed::Done { end: e1, .. } => match type_outcome(t, e1) {
            Outcome::Done { value: ty, end: e2 } => match req_ws(t, e2) {
                Parsed::Done { end: e3, .. } => match ident_outcome(t, e3) {
                    Outcome::Done { value: id, end: e4 } => match opt_ws(t, e4) {
                        Parsed::Done { end: e5, .. } => {
                            let next = insert_arg(acc, (id, e3, e4), ty);
                            if starts_at(t, e5, ","@) {
                                if past(t, i, e5 + 1) {
                                    decl_args(t, e5 + 1, next)
                                } else {
                                    impossible()
                                }
                            } else {
                                Parsed::Done { value: next, end: e5 }
                            }
                        },
                        o => fail_of(o),
                    },
                    o => fail_of_o(o),
                },
                o => fail_of(o),
            },
            o => fail_of_o(o),
        },
        o => fail_of(o),
    }
}

/// Reading a function declaration at `p`: a name, blanks, `->`, a return
/// type and blanks if written, then `:` and arguments if written. Without a
/// return type the function returns `void`.
pub open spec fn decl_outcome(t: Seq<char>, p: int) -> Parsed<DeclSpec> {
    match ident_outcome(t, p) {
        Outcome::Done { value: id, end: e1 } => match opt_ws(t, e1) {
            Parsed::Done { end: e2, .. } => {
                let ret: Parsed<Option<TySpec>> = if starts_at(t, e2, "->"@) {
                    match opt_ws(t, e2 + 2) {
                        Parsed::Done { end: e3, .. } => match type_outcome(t, e3) {
                            Outcome::Done { value: ty, end: e4 } => match opt_ws(t, e4) {
                                Parsed::Done { end: e5, .. } => Parsed::Done { value: Some(ty), end: e5 },
                                o => fail_of(o),
                            },
                            o => fail_of_o(o),
                        },
                        o => fail_of(o),
                    }
                } else {
                    Parsed::Done { value: None, end: e2 }
                };
                match ret {
                    Parsed::Done { value: r, end: e6 } => {
                        let args: Parsed<Seq<(IdentSpec, TySpec)>> = if starts_at(t, e6, ":"@) {
                            match decl_args(t, e6 + 1, Seq::empty()) {
                                Parsed::Done { value, end: e7 } => match opt_ws(t, e7) {
                                    Parsed::Done { end: e8, .. } => Parsed::Done { value, end: e8 },
                                    o => fail_of(o),
                                },
                                o => fail_of(o),
                            }
                        } else {
                            Parsed::Done { value: Seq::empty(), end: e6 }
                        };
                        match args {
                            Parsed::Done { value: a, end } => Parsed::Done {
                                value: DeclSpec { ident: (id, p, e1), ret: r, void_end: e2, args: a, start: p, end },
                                end,
                            },
                            o => fail_of(o),
                        }
                    },
                    o => fail_of(o),
                }
            },
            o => fail_of(o),
        },
        o => fail_of_o(o),
    }
}

/// Each argument of `v` is the one `s` describes at the same place.
pub open spec fn args_are(v: Seq<(IdentAST, TypeAST)>, s: Seq<(IdentSpec, TySpec)>) -> bool {
    v.len() == s.len() && forall|k: int| 0 <= k < s.len() ==> ident_is(#[trigger] v[k].0, s[k].0) && type_is(v[k].1, s[k].1)
}

/// The declaration `d` is the one `s` describes.
pub open spec fn decl_is(d: FunctionDeclAST, s: DeclSpec) -> bool {
    &&& d.span == span_of(s.start, s.end)
    &&& ident_is(d.ident, s.ident)
    &&& args_are(d.args@, s.args)
    &&& match s.ret {
        Some(ty) => type_is(d.ret, ty),
        None => d.ret.span == span_of(s.start, s.void_end) && d.ret.e == Type::Intrinsic(Intrinsic::VOID),
    }
}

/// Reading a function at `p`: its declaration, then its body.
pub open spec fn function_outcome(t: Seq<char>, p: int) -> Parsed<(DeclSpec, BlockSpec)> {
    match decl_outcome(t, p) {
        Parsed::Done { value: d, end: e1 } => match block_outcome(t, e1) {
            Parsed::Done { value: b, end } => Parsed::Done { value: (d, b), end },
            o => fail_of(o),
        },
        o => fail_of(o),
    }
}

/// The function `f` is the one `s` describes, read from `p` to `end`.
pub open spec fn function_is(f: FunctionAST, s: (DeclSpec, BlockSpec), p: int, end: int) -> bool {
    f.span == span_of(p, end) && decl_is(f.decl, s.0) && block_is(f.body, s.1) && f.template is None
}

/// Reading the optional keyword `kw` at `p`, with the blanks that must
/// follow it: where it was, if written, and the position after.
pub open spec fn keyword_ws(t: Seq<char>, p: int, kw: Seq<char>) -> Parsed<Option<int>> {
    if starts_at(t, p, kw) {
        match req_ws(t, p + kw.len()) {
            Parsed::Done { end, .. } => Parsed::Done { value: Some(p), end },
            o => fail_of(o),
        }
    } else {
        Parsed::Done { value: None, end: p }
    }
}

/// A method declaration as read: where `pub`, `static` and `mut` stand if
/// written, and the declaration.
pub struct MemberDeclSpec {
    pub public: Option<int>,
    pub static_at: Option<int>,
    pub mut_at: Option<int>,
    pub decl: DeclSpec,
    pub start: int,
    pub end: int,
}

/// Reading a method declaration at `p`: `pub`, `static` and `mut`, each with
/// blanks after it, if written, then a function declaration.
pub open spec fn member_decl_outcome(t: Seq<char>, p: int) -> Parsed<MemberDeclSpec> {
    match keyword_ws(t, p, "pub"@) {
        Parsed::Done { value: public, end: e1 } => match keyword_ws(t, e1, "static"@) {
            Parsed::Done { value: static_at, end: e2 } => match keyword_ws(t, e2, "mut"@) {
                Parsed::Done { value: mut_at, end: e3 } => match decl_outcome(t, e3) {
                    Parsed::Done { value: decl, end } => Parsed::Done {
                        value: MemberDeclSpec { public, static_at, mut_at, decl, start: p, end },
                        end,
                    },
                    o => fail_of(o),
                },
                o => fail_of(o),
            },
            o => fail_of(o),
        },
        o => fail_of(o),
    }
}

/// The keyword `k` stands where `s` says, if anywhere, and is `len` long.
pub open spec fn keyword_at(k: Option<crate::ast::ident::KeywordAST>, s: Option<int>, len: int) -> bool {
    match s {
        None => k is None,
        Some(at) => k matches Some(x) && x.span == span_of(at, at + len),
    }
}

/// The method declaration `d` is the one `s` describes.
pub open spec fn member_decl_is(d: MemberFunctionDeclAST, s: MemberDeclSpec) -> bool {
    &&& d.span == span_of(s.start, s.end)
    &&& keyword_at(d.public, s.public, 3)
    &&& keyword_at(d.static_keyword, s.static_at, 6)
    &&& keyword_at(d.mut_keyword, s.mut_at, 3)
    &&& decl_is(d.decl, s.decl)
}

/// Reading a method at `p`: its declaration, blanks and its body.
pub open spec fn member_outcome(t: Seq<char>, p: int) -> Parsed<(MemberDeclSpec, BlockSpec)> {
    match member_decl_outcome(t, p) {
        Parsed::Done { value: d, end: e1 } => match opt_ws(t, e1) {
            Parsed::Done { end: e2, .. } => match block_outcome(t, e2) {
                Parsed::Done { value: b, end } => Parsed::Done { value: (d, b), end },
                o => fail_of(o),
            },
            o => fail_of(o),
        },
        o => fail_of(o),
    }
}

/// The method `m` is the one `s` describes, read from `p` to `end`.
pub open spec fn member_is(m: MemberFunctionAST, s: (MemberDeclSpec, BlockSpec), p: int, end: int) -> bool {
    m.span == span_of(p, end) && member_decl_is(m.decl, s.0) && block_is(m.body, s.1) && m.template is None
}

/// A method as read, with where it starts and ends.
pub type MethodSpec = ((MemberDeclSpec, BlockSpec), int, int);

/// Each method of `v` is the one `s` describes.
pub open spec fn methods_are(v: Seq<MemberFunctionAST>, s: Seq<MethodSpec>) -> bool {
    v.len() == s.len() && forall|k: int| 0 <= k < s.len() ==> member_is(#[trigger] v[k], s[k].0, s[k].1, s[k].2)
}

/// Going on reading methods at `i`, having read `acc`: blanks, then a
/// closing brace or a method directly followed by a semicolon.
pub open spec fn methods_list(t: Seq<char>, i: int, acc: Seq<MethodSpec>) -> Parsed<Seq<MethodSpec>>
    decreases t.len() - i,
{
    match opt_ws(t, i) {
        Parsed::Done { end: e1, .. } => if starts_at(t, e1, "}"@) {
            Parsed::Done { value: acc, end: e1 + 1 }
        } else {
            match member_outcome(t, e1) {
                Parsed::Done { value: m, end: e2 } => if !starts_at(t, e2, ";"@) {
                    expected_at("Semicolon"@, e2)
                } else if past(t, i, e2 + 1) {
                    methods_list(t, e2 + 1, acc.push((m, e1, e2)))
                } else {
                    impossible()
                },
                o => fail_of(o),
            }
        },
        o => fail_of(o),
    }
}

/// Reading methods in braces at `p`.
pub open spec fn methods_outcome(t: Seq<char>, p: int) -> Parsed<Seq<MethodSpec>> {
    if !starts_at(t, p, "{"@) {
        expected_at("Punctuation (\"{\")"@, p)
    } else {
        methods_list(t, p + 1, Seq::empty())
    }
}

/// Reading `impl`, blanks, a type, blanks and methods at `p`.
pub open spec fn impl_outcome(t: Seq<char>, p: int) -> Parsed<(TySpec, Seq<MethodSpec>)> {
    if !starts_at(t, p, "impl"@) {
        expected_at("Keyword (impl)"@, p)
    } else {
        match req_ws(t, p + 4) {
            Parsed::Done { end: e1, .. } => match type_outcome(t, e1) {
                Outcome::Done { value: ty, end: e2 } => match opt_ws(t, e2) {
                    Parsed::Done { end: e3, .. } => match methods_outcome(t, e3) {
                        Parsed::Done { value: ms, end } => Parsed::Done { value: (ty, ms), end },
                        o => fail_of(o),
                    },
                    o => fail_of(o),
                },
                o => fail_of_o(o),
            },
            o => fail_of(o),
        }
    }
}

/// Reading `impl`, blanks, a type, `:`, the path of a trait and methods at
/// `p`, with blanks allowed around the colon and before the methods.
pub open spec fn impl_for_outcome(t: Seq<char>, p: int) -> Parsed<(TySpec, (Seq<IdentSpec>, int, int), Seq<MethodSpec>)> {
    if !starts_at(t, p, "impl"@) {
        expected_at("Keyword (impl)"@, p)
    } else {
        match req_ws(t, p + 4) {
            Parsed::Done { end: e1, .. } => match type_outcome(t, e1) {
                Outcome::Done { value: ty, end: e2 } => match opt_ws(t, e2) {
                    Parsed::Done { end: e3, .. } => if !starts_at(t, e3, ":"@) {
                        expected_at("Punctuation (\":\")"@, e3)
                    } else {
                        match opt_ws(t, e3 + 1) {
                            Parsed::Done { end: e4, .. } => match qualified_outcome(t, e4) {
                                Outcome::Done { value: q, end: e5 } => match opt_ws(t, e5) {
                                    Parsed::Done { end: e6, .. } => match methods_outcome(t, e6) {
                                        Parsed::Done { value: ms, end } => Parsed::Done { value: (ty, (q, e4, e5), ms), end },
                                        o => fail_of(o),
                                    },
                                    o => fail_of(o),
                                },
                                o => fail_of_o(o),
                            },
                            o => fail_of(o),
                        }
                    },
                    o => fail_of(o),
                },
                o => fail_of_o(o),
            },
            o => fail_of(o),
        }
    }
}

/// Going on reading the members of a struct at `i`, having read `acc`:
/// blanks, then a closing brace, or a type, blanks, a name and blanks, then
/// a comma or the closing brace.
pub open spec fn struct_members(t: Seq<char>, i: int, acc: Seq<(TySpec, IdentSpec)>) -> Parsed<Seq<(TySpec, IdentSpec)>>
    decreases t.len() - i,
{
    match opt_ws(t, i) {
        Parsed::Done { end: e1, .. } => if starts_at(t, e1, "}"@) {
            Parsed::Done { value: acc, end: e1 + 1 }
        } else {
            match type_outcome(t, e1) {
                Outcome::Done { value: ty, end: e2 } => match req_ws(t, e2) {
                    Parsed::Done { end: e3, .. } => match ident_outcome(t, e3) {
                        Outcome::Done { value: id, end: e4 } => match opt_ws(t, e4) {
                            Parsed::Done { end: e5, .. } => match opt_ws(t, e5) {
                                Parsed::Done { end: e6, .. } => {
                                    let next = acc.push((ty, (id, e3, e4)));
                                    if starts_at(t, e6, ","@) {
                                        if past(t, i, e6 + 1) {
                                            struct_members(t, e6 + 1, next)
                                        } else {
                                            impossible()
                                        }
                                    } else if starts_at(t, e6, "}"@) {
                                        Parsed::Done { value: next, end: e6 + 1 }
                                    } else {
                                        expected_at("Close Brace"@, e6)
                                    }
                                },
                                o => fail_of(o),
                            },
                            o => fail_of(o),
                        },
                        o => fail_of_o(o),
                    },
                    o => fail_of(o),
                },
                o => fail_of_o(o),
            }
        },
        o => fail_of(o),
    }
}

/// Reading `struct`, blanks, a name, blanks and members in braces at `p`.
pub open spec fn struct_outcome(t: Seq<char>, p: int) -> Parsed<(IdentSpec, Seq<(TySpec, IdentSpec)>)> {
    if !starts_at(t, p, "struct"@) {
        expected_at("Keyword (struct)"@, p)
    } else {
        match req_ws(t, p + 6) {
            Parsed::Done { end: e1, .. } => match ident_outcome(t, e1) {
                Outcome::Done { value: id, end: e2 } => match opt_ws(t, e2) {
                    Parsed::Done { end: e3, .. } => if !starts_at(t, e3, "{"@) {
                        expected_at("Open Brace"@, e3)
                    } else {
                        match struct_members(t, e3 + 1, Seq::empty()) {
                            Parsed::Done { value: ms, end } => Parsed::Done { value: ((id, e1, e2), ms), end },
                            o => fail_of(o),
                        }
                    },
                    o => fail_of(o),
                },
                o => fail_of_o(o),
            },
            o => fail_of(o),
        }
    }
}

/// Going on reading the method declarations of a trait at `i`, having read
/// `acc`: blanks, then a closing brace, or a declaration, blanks and a
/// semicolon.
pub open spec fn trait_decls(t: Seq<char>, i: int, acc: Seq<MemberDeclSpec>) -> Parsed<Seq<MemberDeclSpec>>
    decreases t.len() - i,
{
    match opt_ws(t, i) {
        Parsed::Done { end: e1, .. } => if starts_at(t, e1, "}"@) {
            Parsed::Done { value: acc, end: e1 + 1 }
        } else {
            match member_decl_outcome(t, e1) {
                Parsed::Done { value: d, end: e2 } => match opt_ws(t, e2) {
                    Parsed::Done { end: e3, .. } => if !starts_at(t, e3, ";"@) {
                        expected_at("Semicolon"@, e3)
                    } else if past(t, i, e3 + 1) {
                        trait_decls(t, e3 + 1, acc.push(d))
                    } else {
                        impossible()
                    },
                    o => fail_of(o),
                },
                o => fail_of(o),
            }
        },
        o => fail_of(o),
    }
}

/// Reading `trait`, blanks, a name, blanks and method declarations in
/// braces at `p`.
pub open spec fn trait_outcome(t: Seq<char>, p: int) -> Parsed<(IdentSpec, Seq<MemberDeclSpec>)> {
    if !starts_at(t, p, "trait"@) {
        expected_at("Keyword (trait)"@, p)
    } else {
        match req_ws(t, p + 5) {
            Parsed::Done { end: e1, .. } => match ident_outcome(t, e1) {
                Outcome::Done { value: id, end: e2 } => match opt_ws(t, e2) {
                    Parsed::Done { end: e3, .. } => if !starts_at(t, e3, "{"@) {
                        expected_at("Open Brace"@, e3)
                    } else {
                        match trait_decls(t, e3 + 1, Seq::empty()) {
                            Parsed::Done { value: ds, end } => Parsed::Done { value: ((id, e1, e2), ds), end },
                            o => fail_of(o),
                        }
                    },
                    o => fail_of(o),
                },
                o => fail_of_o(o),
            },
            o => fail_of(o),
        }
    }
}

/// Reading `type`, blanks, a name, blanks, `:=`, blanks and a type at `p`.
pub open spec fn alias_outcome(t: Seq<char>, p: int) -> Parsed<(IdentSpec, TySpec)> {
    if !starts_at(t, p, "type"@) {
        expected_at("Keyword (type)"@, p)
    } else {
        match req_ws(t, p + 4) {
            Parsed::Done { end: e1, .. } => match ident_outcome(t, e1) {
                Outcome::Done { value: id, end: e2 } => match opt_ws(t, e2) {
                    Parsed::Done { end: e3, .. } => if !starts_at(t, e3, ":="@) {
                        expected_at("Punctuation (\":=\")"@, e3)
                    } else {
                        match opt_ws(t, e3 + 2) {
                            Parsed::Done { end: e4, .. } => match type_outcome(t, e4) {
                                Outcome::Done { value: ty, end } => Parsed::Done { value: ((id, e1, e2), ty), end },
                                o => fail_of_o(o),
                            },
                            o => fail_of(o),
                        }
                    },
                    o => fail_of(o),
                },
                o => fail_of_o(o),
            },
            o => fail_of(o),
        }
    }
}

/// Reading the keyword `kw` for a foreign function, blanks and its
/// declaration at `p`.
pub open spec fn foreign_outcome(t: Seq<char>, p: int, kw: Seq<char>) -> Parsed<DeclSpec> {
    if !starts_at(t, p, kw) {
        Parsed::Fail { kind: crate::errors::ErrKind::Expected, what: "Keyword (\""@ + kw + "\")"@, offset: p, end: p }
    } else {
        match req_ws(t, p + kw.len()) {
            Parsed::Done { end: e1, .. } => decl_outcome(t, e1),
            o => fail_of(o),
        }
    }
}

} // verus!
