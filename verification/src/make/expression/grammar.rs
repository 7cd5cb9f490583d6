use vstd::prelude::*;
use crate::errors::{AsterResult, ErrKind, Outcome, fails_with};
use crate::ast::operator::{BinaryOperator, UnaryPfxOperator};
use crate::seek_read::{starts_at, skip_ws, Skip, moved};
use crate::source_reader::SourceReader;
use crate::make::ident::ident_outcome;
use crate::make::literal::{LitSpec, literal_outcome};
use crate::make::qualified::{IdentSpec, FqSpec, ws_end, qualified_outcome, fqualified_outcome};
use crate::make::ty::{TySpec, type_outcome};
use crate::consts::operator::{bin_entry_spec, pfx_entry_spec};
use super::pemdas::fold;

verus! {

/// What a parser of the expression grammar comes to on a text: a value and
/// the position after it, an error and the position the reader is left at,
/// or a panic, which the operator folding raises when operators and
/// operands do not pair up.
pub enum Parsed<T> {
    Done { value: T, end: int },
    Fail { kind: ErrKind, what: Seq<char>, offset: int, end: int },
    Panic,
}

/// `r` and the reader are what `o` says: the reader moved to where `o`
/// ends, not back, and `r` fails as `o` does.
pub open spec fn reads<T, U>(r: AsterResult<T>, o: Parsed<U>, old: &SourceReader, new: &SourceReader) -> bool {
    &&& fails_p(r, o, old.file())
    &&& moved(old, new, parsed_end(o))
    &&& old.pos() <= new.pos()
}

/// `r` and the reader are what `o` says, for a parser that reaches the
/// expression reader: the reader keeps its text; it is marked as panicked
/// exactly when `o` is a panic, and then `r` is an error; otherwise `reads`
/// holds.
pub open spec fn reads_p<T, U>(r: AsterResult<T>, o: Parsed<U>, old: &SourceReader, new: &SourceReader) -> bool {
    &&& new.wf()
    &&& new.same_text(old)
    &&& new.panicked() == (o is Panic)
    &&& (o is Panic ==> r is Err)
    &&& (!(o is Panic) ==> reads(r, o, old, new))
}

/// The position a parser leaves the reader at.
pub open spec fn parsed_end<T>(o: Parsed<T>) -> int {
    match o {
        Parsed::Done { end, .. } => end,
        Parsed::Fail { end, .. } => end,
        Parsed::Panic => 0,
    }
}

/// `r` fails as `o` describes, if `o` is a failure, and succeeds if `o` does.
pub open spec fn fails_p<T, U>(r: AsterResult<T>, o: Parsed<U>, path: String) -> bool {
    match o {
        Parsed::Fail { kind, what, offset, .. } => fails_with(r, kind, what, offset, path),
        Parsed::Done { .. } => r is Ok,
        Parsed::Panic => true,
    }
}

/// The failure or panic of `o`, as the outcome of another parser.
pub open spec fn fail_of<A, B>(o: Parsed<A>) -> Parsed<B> {
    match o {
        Parsed::Fail { kind, what, offset, end } => Parsed::Fail { kind, what, offset, end },
        _ => Parsed::Panic,
    }
}

/// The failure of `o`, as the outcome of a parser of the expression grammar.
pub open spec fn fail_of_o<A, B>(o: Outcome<A>) -> Parsed<B> {
    match o {
        Outcome::Fail { kind, what, offset, end } => Parsed::Fail { kind, what, offset, end },
        _ => Parsed::Panic,
    }
}

/// An `Expected` failure saying `what` at `at`, leaving the reader there.
pub open spec fn expected_at<T>(what: Seq<char>, at: int) -> Parsed<T> {
    Parsed::Fail { kind: ErrKind::Expected, what, offset: at, end: at }
}

/// The failure of an unterminated block comment in `t`.
pub open spec fn ws_failure<T>(t: Seq<char>) -> Parsed<T> {
    expected_at("End Multiline Comment (*/)"@, t.len() as int)
}

/// Skipping blanks and comments at `p`: their number and the position after.
pub open spec fn opt_ws(t: Seq<char>, p: int) -> Parsed<nat> {
    match skip_ws(t, p) {
        Skip::Done { count, end } => Parsed::Done { value: count, end },
        Skip::Unterminated => ws_failure(t),
    }
}

/// Skipping blanks and comments at `p`, of which there must be one.
pub open spec fn req_ws(t: Seq<char>, p: int) -> Parsed<nat> {
    match skip_ws(t, p) {
        Skip::Done { count, end } => if count > 0 {
            Parsed::Done { value: count, end }
        } else {
            expected_at("Whitespace"@, end)
        },
        Skip::Unterminated => ws_failure(t),
    }
}

/// A suffix operator as read.
pub enum SfxSpec {
    PostIncrement,
    PostDecrement,
    Subscript(Box<ExprSpec>),
    Call(Seq<ExprSpec>),
    Cast(TySpec),
}

/// An operator as read, in the order of the expression.
pub enum OpSpec {
    Pfx(UnaryPfxOperator),
    Sfx(SfxSpec),
    Bin(BinaryOperator),
}

/// An atom as read.
pub enum AtomSpec {
    Return(Option<Box<ExprSpec>>),
    Literal(LitSpec),
    Init { fq: Seq<FqSpec>, fq_end: int, members: Seq<(IdentSpec, ExprSpec)> },
    Var(Seq<IdentSpec>),
}

/// A binding as read: the place of `mut`, the type, the name and the value.
pub struct BindingSpec {
    pub mut_at: Option<int>,
    pub ty: Option<TySpec>,
    pub ident: IdentSpec,
    pub value: Option<ExprSpec>,
    pub start: int,
    pub end: int,
}

/// A statement of a block as read.
pub enum ChildSpec {
    Binding(BindingSpec),
    Expr(ExprSpec),
}

/// A block as read.
pub struct BlockSpec {
    pub children: Seq<ChildSpec>,
    pub returns_last: bool,
    pub start: int,
    pub end: int,
}

/// A control flow construct as read.
pub enum CtrlSpec {
    While(Box<ExprSpec>, BlockSpec),
    Loop(BlockSpec),
    If(Seq<(ExprSpec, BlockSpec)>, Option<BlockSpec>),
}

/// An expression as read, after its operators are folded.
pub enum ExprSpec {
    Atom { a: AtomSpec, start: int, end: int },
    Block(BlockSpec),
    Sub { e: Box<ExprSpec>, start: int, end: int },
    Ctrl { c: CtrlSpec, start: int, end: int },
    Un { op: OpSpec, e: Box<ExprSpec> },
    Bin { op: BinaryOperator, a: Box<ExprSpec>, b: Box<ExprSpec> },
}

/// The first binary operator of the table from entry `i` on whose text
/// stands at `p`, with the position after it.
pub open spec fn bin_lookup(t: Seq<char>, p: int, i: int) -> Option<(BinaryOperator, int)>
    decreases 41 - i,
{
    if i < 0 || i >= 41 {
        None
    } else if starts_at(t, p, bin_entry_spec(i).0) {
        Some((bin_entry_spec(i).1, p + bin_entry_spec(i).0.len()))
    } else {
        bin_lookup(t, p, i + 1)
    }
}

/// Reading a prefix operator from entry `i` of the table on. `&mut` counts
/// only when blanks or comments follow it, and takes them with it.
pub open spec fn pfx_scan(t: Seq<char>, p: int, i: int) -> Parsed<UnaryPfxOperator>
    decreases 9 - i,
{
    if i < 0 || i >= 9 {
        expected_at("Unary Prefix Operator"@, p)
    } else if starts_at(t, p, pfx_entry_spec(i).0) {
        let e = p + pfx_entry_spec(i).0.len();
        if pfx_entry_spec(i).1 == UnaryPfxOperator::MutRef {
            match skip_ws(t, e) {
                Skip::Unterminated => ws_failure(t),
                Skip::Done { count, end } => if count == 0 {
                    pfx_scan(t, p, i + 1)
                } else {
                    Parsed::Done { value: UnaryPfxOperator::MutRef, end }
                },
            }
        } else {
            Parsed::Done { value: pfx_entry_spec(i).1, end: e }
        }
    } else {
        pfx_scan(t, p, i + 1)
    }
}

/// Reading a prefix operator at `p`.
pub open spec fn pfx_outcome(t: Seq<char>, p: int) -> Parsed<UnaryPfxOperator> {
    pfx_scan(t, p, 0)
}

/// Reading `as`, blanks and a type at `p`: the type cast to.
pub open spec fn cast_outcome(t: Seq<char>, p: int) -> Parsed<TySpec> {
    if !starts_at(t, p, "as"@) {
        expected_at("Unary Prefix Operator"@, p)
    } else {
        match req_ws(t, p + 2) {
            Parsed::Done { end: e1, .. } => match type_outcome(t, e1) {
                Outcome::Done { value, end } => Parsed::Done { value, end },
                Outcome::Fail { .. } => expected_at("Unary Prefix Operator"@, p),
            },
            _ => expected_at("Unary Prefix Operator"@, p),
        }
    }
}

/// `p` and `q` are positions of `t`, `q` not before `p`.
pub open spec fn after(t: Seq<char>, p: int, q: int) -> bool {
    0 <= p <= q <= t.len()
}

/// `q` is a position of `t` after `p`.
pub open spec fn past(t: Seq<char>, p: int, q: int) -> bool {
    0 <= p < q <= t.len()
}

/// The panic of an outcome that cannot come about: a part read that ends
/// before it starts.
pub open spec fn impossible<T>() -> Parsed<T> {
    Parsed::Panic
}

/// The state of the expression reader: what was read last.
#[derive(Debug, Clone, Copy, PartialEq, Eq, Structural)]
pub enum LastExprComponent {
    Empty,
    PfxOperator,
    SfxOperator,
    Body,
}

/// Reading an expression at `p`: operands and operators in turn, then
/// folding them by precedence.
pub open spec fn expr_outcome(t: Seq<char>, p: int) -> Parsed<ExprSpec>
    decreases t.len() - p, 28int,
{
    if after(t, p, p) {
        expr_loop(t, p, LastExprComponent::Empty, Seq::empty(), Seq::empty())
    } else {
        impossible()
    }
}

/// Going on reading an expression at `i`, having read the operands `es`
/// and operators `os`, the last of which is `last`.
pub open spec fn expr_loop(t: Seq<char>, i: int, last: LastExprComponent, es: Seq<ExprSpec>, os: Seq<OpSpec>) -> Parsed<ExprSpec>
    decreases t.len() - i, 27int,
{
    if !after(t, i, i) {
        impossible()
    } else {
        match last {
            LastExprComponent::Empty => match body_outcome(t, i) {
                Parsed::Done { value, end } => if past(t, i, end) {
                    expr_loop(t, end, LastExprComponent::Body, es.push(value), os)
                } else {
                    impossible()
                },
                Parsed::Fail { .. } => match pfx_outcome(t, i) {
                    Parsed::Done { value, end } => if past(t, i, end) {
                        expr_loop(t, end, LastExprComponent::PfxOperator, es, os.push(OpSpec::Pfx(value)))
                    } else {
                        impossible()
                    },
                    o => expected_at("Expression"@, parsed_end(o)),
                },
                Parsed::Panic => Parsed::Panic,
            },
            LastExprComponent::PfxOperator => match opt_ws(t, i) {
                Parsed::Done { end: e1, .. } => if !after(t, i, e1) {
                    impossible()
                } else {
                    match body_outcome(t, e1) {
                        Parsed::Done { value, end } => if past(t, i, end) {
                            expr_loop(t, end, LastExprComponent::Body, es.push(value), os)
                        } else {
                            impossible()
                        },
                        Parsed::Fail { .. } => match pfx_outcome(t, e1) {
                            Parsed::Done { value, end } => if past(t, i, end) {
                                expr_loop(t, end, LastExprComponent::PfxOperator, es, os.push(OpSpec::Pfx(value)))
                            } else {
                                impossible()
                            },
                            o => expected_at("Expression"@, parsed_end(o)),
                        },
                        Parsed::Panic => Parsed::Panic,
                    }
                },
                o => fail_of(o),
            },
            _ => match opt_ws(t, i) {
                Parsed::Done { end: e1, .. } => if !after(t, i, e1) {
                    impossible()
                } else {
                    match binary_half_outcome(t, e1) {
                        Parsed::Done { value, end } => if past(t, i, end) {
                            expr_loop(t, end, LastExprComponent::Body, es.push(value.1), os.push(OpSpec::Bin(value.0)))
                        } else {
                            impossible()
                        },
                        Parsed::Fail { end: e2, .. } => if !after(t, i, e2) {
                            impossible()
                        } else {
                            match sfx_outcome(t, e2) {
                                Parsed::Done { value, end } => if past(t, i, end) {
                                    expr_loop(t, end, LastExprComponent::SfxOperator, es, os.push(OpSpec::Sfx(value)))
                                } else {
                                    impossible()
                                },
                                Parsed::Fail { .. } => match fold(es, os) {
                                    Some(e) => Parsed::Done { value: e, end: i },
                                    None => Parsed::Panic,
                                },
                                Parsed::Panic => Parsed::Panic,
                            }
                        },
                        Parsed::Panic => Parsed::Panic,
                    }
                },
                o => fail_of(o),
            },
        }
    }
}

/// Reading an operand: a control flow construct, a block, an atom or an
/// expression in parentheses, tried in that order from `p`.
pub open spec fn body_outcome(t: Seq<char>, p: int) -> Parsed<ExprSpec>
    decreases t.len() - p, 26int,
{
    if !after(t, p, p) {
        impossible()
    } else {
        match ctrl_outcome(t, p) {
            Parsed::Done { value, end } => Parsed::Done { value: ExprSpec::Ctrl { c: value, start: p, end }, end },
            Parsed::Panic => Parsed::Panic,
            Parsed::Fail { .. } => match block_outcome(t, p) {
                Parsed::Done { value, end } => Parsed::Done { value: ExprSpec::Block(value), end },
                Parsed::Panic => Parsed::Panic,
                Parsed::Fail { .. } => match atom_outcome(t, p) {
                    Parsed::Done { value, end } => Parsed::Done { value: ExprSpec::Atom { a: value, start: p, end }, end },
                    Parsed::Panic => Parsed::Panic,
                    Parsed::Fail { .. } => match sub_outcome(t, p) {
                        Parsed::Done { value, end } => Parsed::Done {
                            value: ExprSpec::Sub { e: Box::new(value), start: p, end },
                            end,
                        },
                        Parsed::Panic => Parsed::Panic,
                        Parsed::Fail { .. } => expected_at("Expression (BlockExpression, AtomExpression)"@, p),
                    },
                },
            },
        }
    }
}

/// Reading a binary operator and the operand after it, with the blanks and
/// comments around the operator.
pub open spec fn binary_half_outcome(t: Seq<char>, p: int) -> Parsed<(BinaryOperator, ExprSpec)>
    decreases t.len() - p, 25int,
{
    match opt_ws(t, p) {
        Parsed::Done { end: e1, .. } => match bin_lookup(t, e1, 0) {
            None => expected_at("Binary Operator Latter Half"@, p),
            Some((op, e2)) => match opt_ws(t, e2) {
                Parsed::Done { end: e3, .. } => if !past(t, p, e3) {
                    impossible()
                } else {
                    match body_outcome(t, e3) {
                        Parsed::Done { value, end } => Parsed::Done { value: (op, value), end },
                        Parsed::Panic => Parsed::Panic,
                        Parsed::Fail { .. } => expected_at("Binary Operator Latter Half"@, p),
                    }
                },
                o => fail_of(o),
            },
        },
        o => fail_of(o),
    }
}

/// Reading a suffix operator: `++` or `--`, else a call, else a subscript
/// where the call left the reader, else a cast where the subscript left it.
pub open spec fn sfx_outcome(t: Seq<char>, p: int) -> Parsed<SfxSpec>
    decreases t.len() - p, 25int,
{
    if !after(t, p, p) {
        impossible()
    } else if starts_at(t, p, "++"@) {
        Parsed::Done { value: SfxSpec::PostIncrement, end: p + 2 }
    } else if starts_at(t, p, "--"@) {
        Parsed::Done { value: SfxSpec::PostDecrement, end: p + 2 }
    } else {
        match call_outcome(t, p) {
            Parsed::Done { value, end } => Parsed::Done { value, end },
            Parsed::Panic => Parsed::Panic,
            Parsed::Fail { end: e1, .. } => if !after(t, p, e1) {
                impossible()
            } else {
                match subscript_outcome(t, e1) {
                    Parsed::Done { value, end } => Parsed::Done { value, end },
                    Parsed::Panic => Parsed::Panic,
                    Parsed::Fail { end: e2, .. } => match cast_outcome(t, e2) {
                        Parsed::Done { value, end } => Parsed::Done { value: SfxSpec::Cast(value), end },
                        o => expected_at("Unary Prefix Operator"@, parsed_end(o)),
                    },
                }
            },
        }
    }
}

/// Reading a call's arguments in parentheses at `p`.
pub open spec fn call_outcome(t: Seq<char>, p: int) -> Parsed<SfxSpec>
    decreases t.len() - p, 24int,
{
    if !after(t, p, p) {
        impossible()
    } else if !starts_at(t, p, "("@) {
        expected_at("Unary Prefix Operator"@, p)
    } else if past(t, p, p + 1) {
        call_args(t, p + 1, Seq::empty(), p)
    } else {
        impossible()
    }
}

/// Going on reading a call's arguments at `i`, having read `acc`; `p` is
/// where the call started.
pub open spec fn call_args(t: Seq<char>, i: int, acc: Seq<ExprSpec>, p: int) -> Parsed<SfxSpec>
    decreases t.len() - i, 30int,
{
    match opt_ws(t, i) {
        Parsed::Done { end: e1, .. } => if !after(t, i, e1) {
            impossible()
        } else if starts_at(t, e1, ")"@) {
            Parsed::Done { value: SfxSpec::Call(acc), end: e1 + 1 }
        } else {
            match expr_outcome(t, e1) {
                Parsed::Panic => Parsed::Panic,
                Parsed::Fail { .. } => expected_at("Unary Prefix Operator"@, p),
                Parsed::Done { value, end: e2 } => match opt_ws(t, e2) {
                    Parsed::Done { end: e3, .. } => if starts_at(t, e3, ","@) {
                        if past(t, i, e3 + 1) {
                            call_args(t, e3 + 1, acc.push(value), p)
                        } else {
                            impossible()
                        }
                    } else if starts_at(t, e3, ")"@) {
                        Parsed::Done { value: SfxSpec::Call(acc.push(value)), end: e3 + 1 }
                    } else {
                        expected_at("Close Parenthesis"@, e3)
                    },
                    o => fail_of(o),
                },
            }
        },
        o => fail_of(o),
    }
}

/// Reading a subscript in brackets at `p`.
pub open spec fn subscript_outcome(t: Seq<char>, p: int) -> Parsed<SfxSpec>
    decreases t.len() - p, 24int,
{
    if !starts_at(t, p, "["@) {
        expected_at("Unary Prefix Operator"@, p)
    } else {
        match opt_ws(t, p + 1) {
            Parsed::Done { end: e1, .. } => if !past(t, p, e1) {
                impossible()
            } else {
                match expr_outcome(t, e1) {
                    Parsed::Panic => Parsed::Panic,
                    Parsed::Fail { .. } => expected_at("Unary Prefix Operator"@, p),
                    Parsed::Done { value, end: e2 } => match opt_ws(t, e2) {
                        Parsed::Done { end: e3, .. } => if starts_at(t, e3, "]"@) {
                            Parsed::Done { value: SfxSpec::Subscript(Box::new(value)), end: e3 + 1 }
                        } else {
                            expected_at("Unary Prefix Operator"@, p)
                        },
                        o => fail_of(o),
                    },
                }
            },
            o => fail_of(o),
        }
    }
}

/// Reading a control flow construct: `while`, `loop` or `if`, tried in that
/// order at `p`.
pub open spec fn ctrl_outcome(t: Seq<char>, p: int) -> Parsed<CtrlSpec>
    decreases t.len() - p, 25int,
{
    match while_outcome(t, p) {
        Parsed::Done { value, end } => Parsed::Done { value, end },
        Parsed::Panic => Parsed::Panic,
        Parsed::Fail { .. } => match loop_outcome(t, p) {
            Parsed::Done { value, end } => Parsed::Done { value, end },
            Parsed::Panic => Parsed::Panic,
            Parsed::Fail { .. } => match if_outcome(t, p) {
                Parsed::Done { value, end } => Parsed::Done { value, end },
                Parsed::Panic => Parsed::Panic,
                Parsed::Fail { .. } => expected_at("Control Flow"@, p),
            },
        },
    }
}

/// `while`, blanks, the condition, blanks and the body.
pub open spec fn while_outcome(t: Seq<char>, p: int) -> Parsed<CtrlSpec>
    decreases t.len() - p, 24int,
{
    if !starts_at(t, p, "while"@) {
        expected_at("Keyword (while)"@, p)
    } else {
        match req_ws(t, p + 5) {
            Parsed::Done { end: e1, .. } => if !past(t, p, e1) {
                impossible()
            } else {
                match expr_outcome(t, e1) {
                    Parsed::Done { value: c, end: e2 } => match req_ws(t, e2) {
                        Parsed::Done { end: e3, .. } => if !past(t, p, e3) {
                            impossible()
                        } else {
                            match block_outcome(t, e3) {
                                Parsed::Done { value: b, end } => Parsed::Done { value: CtrlSpec::While(Box::new(c), b), end },
                                o => fail_of(o),
                            }
                        },
                        o => fail_of(o),
                    },
                    o => fail_of(o),
                }
            },
            o => fail_of(o),
        }
    }
}

/// `loop` and the body.
pub open spec fn loop_outcome(t: Seq<char>, p: int) -> Parsed<CtrlSpec>
    decreases t.len() - p, 24int,
{
    if !starts_at(t, p, "loop"@) {
        expected_at("Keyword (loop)"@, p)
    } else {
        match opt_ws(t, p + 4) {
            Parsed::Done { end: e1, .. } => if !past(t, p, e1) {
                impossible()
            } else {
                match block_outcome(t, e1) {
                    Parsed::Done { value: b, end } => Parsed::Done { value: CtrlSpec::Loop(b), end },
                    o => fail_of(o),
                }
            },
            o => fail_of(o),
        }
    }
}

/// `if`, blanks, the condition, blanks, the body, then the `else` branches.
pub open spec fn if_outcome(t: Seq<char>, p: int) -> Parsed<CtrlSpec>
    decreases t.len() - p, 24int,
{
    if !starts_at(t, p, "if"@) {
        expected_at("Keyword (\"if\")"@, p)
    } else {
        match req_ws(t, p + 2) {
            Parsed::Done { end: e1, .. } => if !past(t, p, e1) {
                impossible()
            } else {
                match expr_outcome(t, e1) {
                    Parsed::Done { value: c, end: e2 } => match req_ws(t, e2) {
                        Parsed::Done { end: e3, .. } => if !past(t, p, e3) {
                            impossible()
                        } else {
                            match block_outcome(t, e3) {
                                Parsed::Done { value: b, end: e4 } => if past(t, p, e4) {
                                    else_chain(t, e4, seq![(c, b)])
                                } else {
                                    impossible()
                                },
                                o => fail_of(o),
                            }
                        },
                        o => fail_of(o),
                    },
                    o => fail_of(o),
                }
            },
            o => fail_of(o),
        }
    }
}

/// What follows a branch of an `if`, as read.
pub enum ElseSpec {
    End,
    Last(BlockSpec),
    Branch(ExprSpec, BlockSpec),
}

/// Reading what follows a branch of an `if` at `i`: nothing more, in which
/// case the reader goes back by as many characters as blanks and comments
/// were skipped looking for `else`; or `else` and a last block; or
/// `else if`, a condition and a block.
pub open spec fn else_outcome(t: Seq<char>, i: int) -> Parsed<ElseSpec>
    decreases t.len() - i, 29int,
{
    match opt_ws(t, i) {
        Parsed::Done { value: n, end: e1 } => if !starts_at(t, e1, "else"@) {
            Parsed::Done { value: ElseSpec::End, end: e1 - n }
        } else {
            match req_ws(t, e1 + 4) {
                Parsed::Done { end: e2, .. } => if !past(t, i, e2) {
                    impossible()
                } else if !starts_at(t, e2, "if"@) {
                    match block_outcome(t, e2) {
                        Parsed::Done { value: b, end } => Parsed::Done { value: ElseSpec::Last(b), end },
                        o => fail_of(o),
                    }
                } else {
                    match req_ws(t, e2 + 2) {
                        Parsed::Done { end: e3, .. } => if !past(t, i, e3) {
                            impossible()
                        } else {
                            match expr_outcome(t, e3) {
                                Parsed::Done { value: c, end: e4 } => match req_ws(t, e4) {
                                    Parsed::Done { end: e5, .. } => if !past(t, i, e5) {
                                        impossible()
                                    } else {
                                        match block_outcome(t, e5) {
                                            Parsed::Done { value: b, end } => Parsed::Done { value: ElseSpec::Branch(c, b), end },
                                            o => fail_of(o),
                                        }
                                    },
                                    o => fail_of(o),
                                },
                                o => fail_of(o),
                            }
                        },
                        o => fail_of(o),
                    }
                },
                o => fail_of(o),
            }
        },
        o => fail_of(o),
    }
}

/// Going on reading `else if` branches and a last `else` at `i`, having read
/// the branches `bs`.
pub open spec fn else_chain(t: Seq<char>, i: int, bs: Seq<(ExprSpec, BlockSpec)>) -> Parsed<CtrlSpec>
    decreases t.len() - i, 30int,
{
    match else_outcome(t, i) {
        Parsed::Done { value: ElseSpec::End, end } => Parsed::Done { value: CtrlSpec::If(bs, None), end },
        Parsed::Done { value: ElseSpec::Last(b), end } => Parsed::Done { value: CtrlSpec::If(bs, Some(b)), end },
        Parsed::Done { value: ElseSpec::Branch(c, b), end } => if past(t, i, end) {
            else_chain(t, end, bs.push((c, b)))
        } else {
            impossible()
        },
        o => fail_of(o),
    }
}

/// Reading a block in braces at `p`.
pub open spec fn block_outcome(t: Seq<char>, p: int) -> Parsed<BlockSpec>
    decreases t.len() - p, 25int,
{
    if !starts_at(t, p, "{"@) {
        expected_at("Open Curly Brace"@, p)
    } else if past(t, p, p + 1) {
        block_children(t, p + 1, Seq::empty(), p)
    } else {
        impossible()
    }
}

/// Reading a statement of a block at `p`: a binding, else an expression.
pub open spec fn child_outcome(t: Seq<char>, p: int) -> Parsed<ChildSpec>
    decreases t.len() - p, 30int,
{
    if !after(t, p, p) {
        impossible()
    } else {
        match binding_outcome(t, p) {
            Parsed::Done { value, end } => Parsed::Done { value: ChildSpec::Binding(value), end },
            Parsed::Panic => Parsed::Panic,
            Parsed::Fail { .. } => match expr_outcome(t, p) {
                Parsed::Done { value, end } => Parsed::Done { value: ChildSpec::Expr(value), end },
                Parsed::Panic => Parsed::Panic,
                Parsed::Fail { .. } => expected_at("Expression or Binding"@, p),
            },
        }
    }
}

/// Going on reading the statements of a block at `i`, having read `acc`;
/// `p` is where the block started.
pub open spec fn block_children(t: Seq<char>, i: int, acc: Seq<ChildSpec>, p: int) -> Parsed<BlockSpec>
    decreases t.len() - i, 31int,
{
    match opt_ws(t, i) {
        Parsed::Done { end: e1, .. } => if !after(t, i, e1) {
            impossible()
        } else if starts_at(t, e1, "}"@) {
            Parsed::Done {
                value: BlockSpec { children: acc, returns_last: false, start: p, end: e1 + 1 },
                end: e1 + 1,
            }
        } else {
            match child_outcome(t, e1) {
                Parsed::Done { value, end: e2 } => match opt_ws(t, e2) {
                    Parsed::Done { end: e3, .. } => if starts_at(t, e3, ";"@) {
                        if past(t, i, e3 + 1) {
                            block_children(t, e3 + 1, acc.push(value), p)
                        } else {
                            impossible()
                        }
                    } else if starts_at(t, e3, "}"@) {
                        Parsed::Done {
                            value: BlockSpec { children: acc.push(value), returns_last: true, start: p, end: e3 + 1 },
                            end: e3 + 1,
                        }
                    } else {
                        expected_at("Close Curly Brace or Semicolon"@, e3)
                    },
                    o => fail_of(o),
                },
                o => fail_of(o),
            }
        },
        o => fail_of(o),
    }
}

/// Reading a type, blanks and a name at `p`, for a binding.
pub open spec fn type_ident_outcome(t: Seq<char>, p: int) -> Parsed<(TySpec, IdentSpec)> {
    match type_outcome(t, p) {
        Outcome::Done { value: ty, end: e1 } => match req_ws(t, e1) {
            Parsed::Done { end: e2, .. } => match ident_outcome(t, e2) {
                Outcome::Done { value: id, end } => Parsed::Done { value: (ty, (id, e2, end)), end },
                o => fail_of_o(o),
            },
            o => fail_of(o),
        },
        o => fail_of_o(o),
    }
}

/// Reading `:=` and the value of a binding at `p`.
pub open spec fn value_outcome(t: Seq<char>, p: int) -> Parsed<ExprSpec>
    decreases t.len() - p, 29int,
{
    match opt_ws(t, p) {
        Parsed::Done { end: e1, .. } => if !starts_at(t, e1, ":="@) {
            expected_at("Punctuation (\":=\")"@, e1)
        } else {
            match opt_ws(t, e1 + 2) {
                Parsed::Done { end: e2, .. } => if past(t, p, e2) {
                    expr_outcome(t, e2)
                } else {
                    impossible()
                },
                o => fail_of(o),
            }
        },
        o => fail_of(o),
    }
}

/// Reading a binding at `p`: `mut` and blanks if written, then a type,
/// blanks and a name, or else a name alone, then `:=` and a value if they
/// read. Without a type there must be a value.
pub open spec fn binding_outcome(t: Seq<char>, p: int) -> Parsed<BindingSpec>
    decreases t.len() - p, 29int,
{
    let m = starts_at(t, p, "mut"@);
    let q1: Parsed<nat> = if m { req_ws(t, p + 3) } else { Parsed::Done { value: 0, end: p } };
    match q1 {
        Parsed::Done { end: e1, .. } => {
            let named: Parsed<(Option<TySpec>, IdentSpec)> = match type_ident_outcome(t, e1) {
                Parsed::Done { value, end } => Parsed::Done { value: (Some(value.0), value.1), end },
                _ => match ident_outcome(t, e1) {
                    Outcome::Done { value, end } => Parsed::Done { value: (None, (value, e1, end)), end },
                    o => fail_of_o(o),
                },
            };
            match named {
                Parsed::Done { value: (ty, ident), end: e2 } => if !past(t, p, e2) {
                    impossible()
                } else {
                    let v: Parsed<Option<ExprSpec>> = match value_outcome(t, e2) {
                        Parsed::Done { value, end } => Parsed::Done { value: Some(value), end },
                        Parsed::Fail { .. } => Parsed::Done { value: None, end: e2 },
                        Parsed::Panic => Parsed::Panic,
                    };
                    match v {
                        Parsed::Done { value, end } => if ty is None && value is None {
                            expected_at("Value expression"@, end)
                        } else {
                            Parsed::Done {
                                value: BindingSpec {
                                    mut_at: if m { Some(p) } else { None },
                                    ty,
                                    ident,
                                    value,
                                    start: p,
                                    end,
                                },
                                end,
                            }
                        },
                        o => fail_of(o),
                    }
                },
                o => fail_of(o),
            }
        },
        o => fail_of(o),
    }
}

/// Reading an atom at `p`: a `return`, a literal, a struct initializer or a
/// path, tried in that order.
pub open spec fn atom_outcome(t: Seq<char>, p: int) -> Parsed<AtomSpec>
    decreases t.len() - p, 25int,
{
    match return_outcome(t, p) {
        Parsed::Done { value, end } => Parsed::Done { value, end },
        Parsed::Panic => Parsed::Panic,
        Parsed::Fail { .. } => match literal_outcome(t, p) {
            Outcome::Done { value, end } => Parsed::Done { value: AtomSpec::Literal(value), end },
            Outcome::Fail { .. } => match init_outcome(t, p) {
                Parsed::Done { value, end } => Parsed::Done { value, end },
                Parsed::Panic => Parsed::Panic,
                Parsed::Fail { .. } => match qualified_outcome(t, p) {
                    Outcome::Done { value, end } => Parsed::Done { value: AtomSpec::Var(value), end },
                    Outcome::Fail { .. } => Parsed::Fail { kind: ErrKind::Unknown, what: "Expression"@, offset: p, end: p },
                },
            },
        },
    }
}

/// Reading `return` at `p`, where no name stands, and the value after it
/// if blanks lead to one; if none reads, the reader goes back by as many
/// characters as blanks and comments were skipped.
pub open spec fn return_outcome(t: Seq<char>, p: int) -> Parsed<AtomSpec>
    decreases t.len() - p, 24int,
{
    if ident_outcome(t, p) is Done || !starts_at(t, p, "return"@) {
        expected_at("Keyword (return)"@, p)
    } else {
        match opt_ws(t, p + 6) {
            Parsed::Done { value: n, end: e1 } => if n == 0 {
                Parsed::Done { value: AtomSpec::Return(None), end: e1 }
            } else if !past(t, p, e1) {
                impossible()
            } else {
                match expr_outcome(t, e1) {
                    Parsed::Done { value, end } => Parsed::Done { value: AtomSpec::Return(Some(Box::new(value))), end },
                    Parsed::Panic => Parsed::Panic,
                    Parsed::Fail { end, .. } => Parsed::Done { value: AtomSpec::Return(None), end: end - n },
                }
            },
            o => fail_of(o),
        }
    }
}

/// Reading a struct initializer at `p`: a path with generic arguments,
/// then members in braces.
pub open spec fn init_outcome(t: Seq<char>, p: int) -> Parsed<AtomSpec>
    decreases t.len() - p, 24int,
{
    match fqualified_outcome(t, p) {
        Outcome::Done { value: fq, end: e1 } => match opt_ws(t, e1) {
            Parsed::Done { end: e2, .. } => if !starts_at(t, e2, "{"@) {
                expected_at("Open Brace"@, e2)
            } else if !past(t, p, e2 + 1) {
                impossible()
            } else {
                init_members(t, e2 + 1, Seq::empty(), fq, e1)
            },
            o => fail_of(o),
        },
        o => fail_of_o(o),
    }
}

/// Going on reading the members of a struct initializer at `i`, having
/// read `acc`.
pub open spec fn init_members(t: Seq<char>, i: int, acc: Seq<(IdentSpec, ExprSpec)>, fq: Seq<FqSpec>, fq_end: int) -> Parsed<AtomSpec>
    decreases t.len() - i, 30int,
{
    match opt_ws(t, i) {
        Parsed::Done { end: e1, .. } => if starts_at(t, e1, "}"@) {
            Parsed::Done { value: AtomSpec::Init { fq, fq_end, members: acc }, end: e1 + 1 }
        } else {
            match ident_outcome(t, e1) {
                Outcome::Done { value: id, end: e2 } => match opt_ws(t, e2) {
                    Parsed::Done { end: e3, .. } => if !starts_at(t, e3, ":"@) {
                        expected_at("Colon"@, e3)
                    } else {
                        match opt_ws(t, e3 + 1) {
                            Parsed::Done { end: e4, .. } => if !past(t, i, e4) {
                                impossible()
                            } else {
                                match expr_outcome(t, e4) {
                                    Parsed::Done { value: x, end: e5 } => match opt_ws(t, e5) {
                                        Parsed::Done { end: e6, .. } => if starts_at(t, e6, ","@) {
                                            if past(t, i, e6 + 1) {
                                                init_members(t, e6 + 1, acc.push(((id, e1, e2), x)), fq, fq_end)
                                            } else {
                                                impossible()
                                            }
                                        } else if !starts_at(t, e6, "}"@) {
                                            expected_at("Comma or Semicolon"@, e6)
                                        } else {
                                            Parsed::Done {
                                                value: AtomSpec::Init { fq, fq_end, members: acc.push(((id, e1, e2), x)) },
                                                end: e6 + 1,
                                            }
                                        },
                                        o => fail_of(o),
                                    },
                                    o => fail_of(o),
                                }
                            },
                            o => fail_of(o),
                        }
                    },
                    o => fail_of(o),
                },
                o => fail_of_o(o),
            }
        },
        o => fail_of(o),
    }
}

/// Reading an expression in parentheses at `p`.
pub open spec fn sub_outcome(t: Seq<char>, p: int) -> Parsed<ExprSpec>
    decreases t.len() - p, 25int,
{
    if !starts_at(t, p, "("@) {
        expected_at("Open Parenthesis"@, p)
    } else {
        match opt_ws(t, p + 1) {
            Parsed::Done { end: e1, .. } => if !past(t, p, e1) {
                impossible()
            } else {
                match expr_outcome(t, e1) {
                    Parsed::Done { value, end: e2 } => match opt_ws(t, e2) {
                        Parsed::Done { end: e3, .. } => if !starts_at(t, e3, ")"@) {
                            expected_at("Close Parenthesis"@, e3)
                        } else {
                            Parsed::Done { value, end: e3 + 1 }
                        },
                        o => fail_of(o),
                    },
                    o => fail_of(o),
                }
            },
            o => fail_of(o),
        }
    }
}

} // verus!
