//! Laws that fix the language's tables by their literal contents: the
//! precedence of each operator, the escape letters, the blank characters,
//! the names of the intrinsic types and the reserved words.
use vstd::prelude::*;
use crate::seek_read::{skip_ws, Skip, add_count};
use crate::make::ident::{ident_outcome, ident_run};
use crate::make::literal::{escape_outcome, string_body};
use crate::intrinsics::{Intrinsic, intrinsic_name, intrinsic_named, intrinsic_lookup};
use crate::ast::operator::{BinaryOperator, UnaryPfxOperator};
use crate::make::expression::grammar::{ExprSpec, OpSpec};
use crate::make::expression::pemdas::{OpKind, includes_kind, fold};
use crate::laws::{bin_level, law_fold_precedence};
use crate::errors::Outcome;
use crate::seek_read::starts_at;
use crate::consts::operator::{bin_entry_spec, pfx_entry_spec};
use crate::make::expression::grammar::{Parsed, bin_lookup, pfx_scan, pfx_outcome, while_outcome, loop_outcome, if_outcome, return_outcome};
use crate::make::structure::grammar::{impl_outcome, struct_outcome, trait_outcome, alias_outcome};
use crate::make::literal::{Base, numeric_prefix, numeric_scan, numeric_outcome, digit_of, string_outcome, LitSpec, StringType};
use crate::make::ident::ident_char;
use crate::chars::{char_is_alphabetic, char_is_numeric};
use crate::seek_read::{line_end, close_end};
use crate::arg_parser::parser::options::{Flag, Argument, flag_named, argument_named, long_name_spec};
use crate::source_reader::formatting::{Level, level_text, digit_char};
use crate::chars::utf8_len;
use crate::make::ty::type_outcome;
use crate::make::qualified::{IdentSpec, qualified_outcome, qualified_tail, ws_end};
use crate::seek_read::lemma_skip_ws_bounds;

verus! {

/// The precedence level of every binary operator, from the one folded
/// first: `.` and `->`; the bit operators `&`, `|` and `^`; `**`; `*`, `/`
/// and `%`; `+` and `-`; the comparisons; `&&`, `||` and `^^`; the
/// assignments; `|>`. The shifts belong to no level (10).
pub proof fn law_binary_precedence_levels(b: BinaryOperator)
    ensures
        bin_level(b) == match b {
            BinaryOperator::Dot | BinaryOperator::DerefDot => 0int,
            BinaryOperator::BitAnd | BinaryOperator::BitOr | BinaryOperator::BitXOR => 2,
            BinaryOperator::Exp => 3,
            BinaryOperator::Mul | BinaryOperator::Div | BinaryOperator::Mod => 4,
            BinaryOperator::Add | BinaryOperator::Sub => 5,
            BinaryOperator::Equals | BinaryOperator::NotEquals | BinaryOperator::Greater
                | BinaryOperator::GreaterThanEquals | BinaryOperator::LessThan
                | BinaryOperator::LessThanEquals => 6,
            BinaryOperator::LogicalAnd | BinaryOperator::LogicalOr | BinaryOperator::LogicalXOR => 7,
            BinaryOperator::Pipe => 9,
            BinaryOperator::ArithmeticShr | BinaryOperator::LogicalShr | BinaryOperator::LogicalShl => 10,
            _ => 8,
        },
{
    reveal(includes_kind);
}

/// The operators that are not binary: calls and subscripts belong to the
/// first level, the postfix increments and decrements, casts and every
/// prefix operator but `~` to the second; `~` belongs to none.
pub proof fn law_unary_precedence_levels(l: int, p: UnaryPfxOperator)
    requires
        0 <= l < 10,
    ensures
        includes_kind(l, OpKind::Call) <==> l == 0,
        includes_kind(l, OpKind::Subscript) <==> l == 0,
        includes_kind(l, OpKind::PostIncrement) <==> l == 1,
        includes_kind(l, OpKind::PostDecrement) <==> l == 1,
        includes_kind(l, OpKind::Cast) <==> l == 1,
        includes_kind(l, OpKind::Pfx(p)) <==> (l == 1 && p != UnaryPfxOperator::BitInvert),
{
    reveal(includes_kind);
}

/// `*`, `/` and `%` take their operands before `+` and `-`, whichever
/// comes first: `a y b x c` folds to `a y (b x c)` and `a x b y c` to
/// `(a x b) y c`, for `x` a multiplicative and `y` an additive operator.
pub proof fn law_products_fold_before_sums(a: ExprSpec, b: ExprSpec, c: ExprSpec, x: BinaryOperator, y: BinaryOperator)
    requires
        x == BinaryOperator::Mul || x == BinaryOperator::Div || x == BinaryOperator::Mod,
        y == BinaryOperator::Add || y == BinaryOperator::Sub,
    ensures
        fold(seq![a, b, c], seq![OpSpec::Bin(y), OpSpec::Bin(x)])
            == Some(ExprSpec::Bin { op: y, a: Box::new(a), b: Box::new(ExprSpec::Bin { op: x, a: Box::new(b), b: Box::new(c) }) }),
        fold(seq![a, b, c], seq![OpSpec::Bin(x), OpSpec::Bin(y)])
            == Some(ExprSpec::Bin { op: y, a: Box::new(ExprSpec::Bin { op: x, a: Box::new(a), b: Box::new(b) }), b: Box::new(c) }),
{
    law_binary_precedence_levels(x);
    law_binary_precedence_levels(y);
    law_fold_precedence(a, b, c, y, x);
    law_fold_precedence(a, b, c, x, y);
}

/// Operators of one level fold from the left: `a x b y c` is
/// `(a x b) y c` when `x` and `y` are both multiplicative, or both
/// additive.
pub proof fn law_same_level_folds_left(a: ExprSpec, b: ExprSpec, c: ExprSpec, x: BinaryOperator, y: BinaryOperator)
    requires
        ((x == BinaryOperator::Mul || x == BinaryOperator::Div || x == BinaryOperator::Mod)
            && (y == BinaryOperator::Mul || y == BinaryOperator::Div || y == BinaryOperator::Mod))
        || ((x == BinaryOperator::Add || x == BinaryOperator::Sub)
            && (y == BinaryOperator::Add || y == BinaryOperator::Sub)),
    ensures
        fold(seq![a, b, c], seq![OpSpec::Bin(x), OpSpec::Bin(y)])
            == Some(ExprSpec::Bin { op: y, a: Box::new(ExprSpec::Bin { op: x, a: Box::new(a), b: Box::new(b) }), b: Box::new(c) }),
{
    law_binary_precedence_levels(x);
    law_binary_precedence_levels(y);
    law_fold_precedence(a, b, c, x, y);
}

/// The escape letters after a backslash and the characters they stand for:
/// `\'`, `\"`, `\\`, `\0` (nul), `\a` (bell), `\b` (backspace), `\t` (tab),
/// `\n` (line feed), `\v` (vertical tab), `\f` (form feed), `\r` (carriage
/// return) and `\e` (escape), each one letter long.
pub proof fn law_escape_letters(t: Seq<char>, p: int)
    requires
        0 <= p < t.len(),
    ensures
        t[p] == '\'' ==> escape_outcome(t, p) == (Outcome::Done { value: '\'', end: p + 1 }),
        t[p] == '"' ==> escape_outcome(t, p) == (Outcome::Done { value: '"', end: p + 1 }),
        t[p] == '\\' ==> escape_outcome(t, p) == (Outcome::Done { value: '\\', end: p + 1 }),
        t[p] == '0' ==> escape_outcome(t, p) == (Outcome::Done { value: '\u{0}', end: p + 1 }),
        t[p] == 'a' ==> escape_outcome(t, p) == (Outcome::Done { value: '\u{7}', end: p + 1 }),
        t[p] == 'b' ==> escape_outcome(t, p) == (Outcome::Done { value: '\u{8}', end: p + 1 }),
        t[p] == 't' ==> escape_outcome(t, p) == (Outcome::Done { value: '\u{9}', end: p + 1 }),
        t[p] == 'n' ==> escape_outcome(t, p) == (Outcome::Done { value: '\u{a}', end: p + 1 }),
        t[p] == 'v' ==> escape_outcome(t, p) == (Outcome::Done { value: '\u{b}', end: p + 1 }),
        t[p] == 'f' ==> escape_outcome(t, p) == (Outcome::Done { value: '\u{c}', end: p + 1 }),
        t[p] == 'r' ==> escape_outcome(t, p) == (Outcome::Done { value: '\u{d}', end: p + 1 }),
        t[p] == 'e' ==> escape_outcome(t, p) == (Outcome::Done { value: '\u{1b}', end: p + 1 }),
{
}

/// In a string, a backslash and a carriage-return or line-feed escape
/// letter put that control character into the text and the reading goes on
/// after the letter.
pub proof fn law_string_control_escapes(t: Seq<char>, i: int, acc: Seq<char>)
    requires
        0 <= i,
        i + 1 < t.len(),
        t[i] == '\\',
    ensures
        t[i + 1] == 'r' ==> string_body(t, i, acc) == string_body(t, i + 2, acc.push('\u{d}')),
        t[i + 1] == 'n' ==> string_body(t, i, acc) == string_body(t, i + 2, acc.push('\u{a}')),
        t[i + 1] == 't' ==> string_body(t, i, acc) == string_body(t, i + 2, acc.push('\u{9}')),
{
    law_escape_letters(t, i + 1);
}

/// Between tokens, a space, a carriage return, a line feed, a tab and a
/// vertical tab are each skipped as one blank; any other character that
/// does not start a comment stops the skipping where it stands.
pub proof fn law_blanks_are_skipped(t: Seq<char>, p: int)
    requires
        0 <= p < t.len(),
    ensures
        (t[p] == ' ' || t[p] == '\r' || t[p] == '\n' || t[p] == '\t' || t[p] == '\u{b}')
            ==> skip_ws(t, p) == add_count(skip_ws(t, p + 1), 1),
        !(t[p] == ' ' || t[p] == '\r' || t[p] == '\n' || t[p] == '\t' || t[p] == '\u{b}' || t[p] == '/')
            ==> skip_ws(t, p) == (Skip::Done { count: 0, end: p }),
{
    if t[p] != '/' && p + 2 <= t.len() {
        assert(t.subrange(p, p + 2)[0] == t[p]);
        assert(t.subrange(p, p + 2) != seq!['/', '/']);
        assert(t.subrange(p, p + 2) != seq!['/', '*']);
    }
}

/// The names of the intrinsic types: a text names one exactly when it is
/// one of these thirteen words.
pub proof fn law_intrinsic_names_by_text(s: Seq<char>)
    ensures
        intrinsic_named(s) == if s == "void"@ { Some(Intrinsic::VOID) }
            else if s == "bool"@ { Some(Intrinsic::BOOL) }
            else if s == "char"@ { Some(Intrinsic::CHAR) }
            else if s == "u8"@ { Some(Intrinsic::U8) }
            else if s == "u16"@ { Some(Intrinsic::U16) }
            else if s == "u32"@ { Some(Intrinsic::U32) }
            else if s == "u64"@ { Some(Intrinsic::U64) }
            else if s == "usize"@ { Some(Intrinsic::USIZE) }
            else if s == "i8"@ { Some(Intrinsic::I8) }
            else if s == "i16"@ { Some(Intrinsic::I16) }
            else if s == "i32"@ { Some(Intrinsic::I32) }
            else if s == "i64"@ { Some(Intrinsic::I64) }
            else if s == "isize"@ { Some(Intrinsic::ISIZE) }
            else { None },
{
    reveal_with_fuel(intrinsic_lookup, 14);
}

/// The name each intrinsic type is written with.
pub proof fn law_intrinsic_name_text(i: Intrinsic)
    ensures
        intrinsic_name(i) == match i {
            Intrinsic::VOID => "void"@,
            Intrinsic::BOOL => "bool"@,
            Intrinsic::CHAR => "char"@,
            Intrinsic::U8 => "u8"@,
            Intrinsic::U16 => "u16"@,
            Intrinsic::U32 => "u32"@,
            Intrinsic::U64 => "u64"@,
            Intrinsic::USIZE => "usize"@,
            Intrinsic::I8 => "i8"@,
            Intrinsic::I16 => "i16"@,
            Intrinsic::I32 => "i32"@,
            Intrinsic::I64 => "i64"@,
            Intrinsic::ISIZE => "isize"@,
        },
{
}

/// A run of name characters reads as a name exactly when it is not empty,
/// does not run to the end of the text, and it is none of the words `mut`, `if`, `else`,
/// `do`, `while`, `loop`, `for`, `return` and `break`.
pub proof fn law_keywords_are_not_names(t: Seq<char>, p: int)
    requires
        0 <= p <= t.len(),
    ensures
        ({
            let e = ident_run(t, p, p);
            let w = t.subrange(p, e);
            (ident_outcome(t, p) is Done) == (e != p && e != t.len()
                && !(w == "mut"@ || w == "if"@ || w == "else"@ || w == "do"@ || w == "while"@
                    || w == "loop"@ || w == "for"@ || w == "return"@ || w == "break"@))
        }),
{
}


/// The text each binary operator is written with.
pub open spec fn binary_text(b: BinaryOperator) -> Seq<char> {
    match b {
        BinaryOperator::Add => "+"@,
        BinaryOperator::AddAssign => "+="@,
        BinaryOperator::ArithmeticShr => ">>"@,
        BinaryOperator::ArithmeticShrAssign => ">>="@,
        BinaryOperator::Assign => "="@,
        BinaryOperator::AssignPipe => "|>="@,
        BinaryOperator::BitAnd => "&"@,
        BinaryOperator::BitAndAssign => "&="@,
        BinaryOperator::BitOr => "|"@,
        BinaryOperator::BitOrAssign => "|="@,
        BinaryOperator::BitXOR => "^"@,
        BinaryOperator::BitXORAssign => "^="@,
        BinaryOperator::DerefDot => "->"@,
        BinaryOperator::Div => "/"@,
        BinaryOperator::DivAssign => "/="@,
        BinaryOperator::Dot => "."@,
        BinaryOperator::Equals => "=="@,
        BinaryOperator::Exp => "**"@,
        BinaryOperator::ExpAssign => "**="@,
        BinaryOperator::Greater => ">"@,
        BinaryOperator::GreaterThanEquals => ">="@,
        BinaryOperator::LessThan => "<"@,
        BinaryOperator::LessThanEquals => "<="@,
        BinaryOperator::LogicalAnd => "&&"@,
        BinaryOperator::LogicalAndAssign => "&&="@,
        BinaryOperator::LogicalOr => "||"@,
        BinaryOperator::LogicalOrAssign => "||="@,
        BinaryOperator::LogicalShl => "<<"@,
        BinaryOperator::LogicalShlAssign => "<<="@,
        BinaryOperator::LogicalShr => ">>>"@,
        BinaryOperator::LogicalShrAssign => ">>>="@,
        BinaryOperator::LogicalXOR => "^^"@,
        BinaryOperator::LogicalXORAssign => "^^="@,
        BinaryOperator::Mod => "%"@,
        BinaryOperator::ModAssign => "%="@,
        BinaryOperator::Mul => "*"@,
        BinaryOperator::MulAssign => "*="@,
        BinaryOperator::NotEquals => "!="@,
        BinaryOperator::Pipe => "|>"@,
        BinaryOperator::Sub => "-"@,
        BinaryOperator::SubAssign => "-="@,
    }
}

/// The text each prefix operator is written with.
pub open spec fn prefix_text(u: UnaryPfxOperator) -> Seq<char> {
    match u {
        UnaryPfxOperator::MutRef => "&mut"@,
        UnaryPfxOperator::Ref => "&"@,
        UnaryPfxOperator::Deref => "*"@,
        UnaryPfxOperator::Not => "!"@,
        UnaryPfxOperator::Neg => "-"@,
        UnaryPfxOperator::NotNeg => "+"@,
        UnaryPfxOperator::BitInvert => "~"@,
        UnaryPfxOperator::PreIncrement => "++"@,
        UnaryPfxOperator::PreDecrement => "--"@,
    }
}

proof fn lemma_binary_entries(i: int)
    requires
        0 <= i < 41,
    ensures
        bin_entry_spec(i).0 == binary_text(bin_entry_spec(i).1),
{
}

proof fn lemma_binary_read(t: Seq<char>, p: int, i: int)
    requires
        0 <= i,
    ensures
        bin_lookup(t, p, i) matches Some((b, e)) ==> starts_at(t, p, binary_text(b)) && e == p + binary_text(b).len(),
    decreases 41 - i,
{
    if i < 41 {
        lemma_binary_entries(i);
        lemma_binary_read(t, p, i + 1);
    }
}

/// A binary operator that reads at `p` is written there with its own text,
/// and the reading ends right after that text.
pub proof fn law_binary_operator_reads_its_text(t: Seq<char>, p: int)
    ensures
        bin_lookup(t, p, 0) matches Some((b, e)) ==> starts_at(t, p, binary_text(b)) && e == p + binary_text(b).len(),
{
    lemma_binary_read(t, p, 0);
}

/// A compound assignment, written `+=`, `-=`, `*=` or `/=`, reads whole, not
/// as its first character.
pub proof fn law_compound_assignments_read_whole(t: Seq<char>, p: int)
    ensures
        starts_at(t, p, "+="@) ==> bin_lookup(t, p, 0) == Some((BinaryOperator::AddAssign, p + 2)),
        starts_at(t, p, "-="@) ==> bin_lookup(t, p, 0) == Some((BinaryOperator::SubAssign, p + 2)),
        starts_at(t, p, "*="@) ==> bin_lookup(t, p, 0) == Some((BinaryOperator::MulAssign, p + 2)),
        starts_at(t, p, "/="@) ==> bin_lookup(t, p, 0) == Some((BinaryOperator::DivAssign, p + 2)),
{
    reveal_strlit("+=");
    reveal_strlit("-=");
    reveal_strlit("*=");
    reveal_strlit("/=");
    reveal_with_fuel(bin_lookup, 5);
    if starts_at(t, p, "-="@) {
        assert(t.subrange(p, p + 2)[0] == '-');
    }
    if starts_at(t, p, "*="@) {
        assert(t.subrange(p, p + 2)[0] == '*');
    }
    if starts_at(t, p, "/="@) {
        assert(t.subrange(p, p + 2)[0] == '/');
    }
}

proof fn lemma_prefix_entries(i: int)
    requires
        0 <= i < 9,
    ensures
        pfx_entry_spec(i).0 == prefix_text(pfx_entry_spec(i).1),
{
}

proof fn lemma_prefix_read(t: Seq<char>, p: int, i: int)
    requires
        0 <= i,
    ensures
        pfx_scan(t, p, i) matches Parsed::Done { value, .. } ==> starts_at(t, p, prefix_text(value)),
    decreases 9 - i,
{
    if i < 9 {
        lemma_prefix_entries(i);
        if starts_at(t, p, pfx_entry_spec(i).0) && pfx_entry_spec(i).1 == UnaryPfxOperator::MutRef {
            match skip_ws(t, p + pfx_entry_spec(i).0.len()) {
                Skip::Done { count, .. } => {
                    if count == 0 {
                        lemma_prefix_read(t, p, i + 1);
                    }
                },
                _ => {},
            }
        } else {
            lemma_prefix_read(t, p, i + 1);
        }
    }
}

/// A prefix operator that reads at `p` is written there with its own text.
pub proof fn law_prefix_operator_reads_its_text(t: Seq<char>, p: int)
    ensures
        pfx_outcome(t, p) matches Parsed::Done { value, .. } ==> starts_at(t, p, prefix_text(value)),
{
    lemma_prefix_read(t, p, 0);
}

/// The prefix of a number selects its base: `0x` hexadecimal, `0b` binary,
/// `0o` octal, and no prefix decimal; the digits follow the prefix.
pub proof fn law_number_prefixes(t: Seq<char>, p: int)
    ensures
        starts_at(t, p, "0x"@) ==> numeric_prefix(t, p) == (Base::Hexadecimal, p + 2),
        starts_at(t, p, "0b"@) ==> numeric_prefix(t, p) == (Base::Binary, p + 2),
        starts_at(t, p, "0o"@) ==> numeric_prefix(t, p) == (Base::Octal, p + 2),
        !starts_at(t, p, "0x"@) && !starts_at(t, p, "0b"@) && !starts_at(t, p, "0o"@)
            ==> numeric_prefix(t, p) == (Base::Decimal, p),
{
    reveal_strlit("0x");
    reveal_strlit("0b");
    reveal_strlit("0o");
    if starts_at(t, p, "0b"@) {
        assert(t.subrange(p, p + 2)[1] == 'b');
    }
    if starts_at(t, p, "0o"@) {
        assert(t.subrange(p, p + 2)[1] == 'o');
    }
}

/// The digits of each base: `0` and `1`; `0` to `7`; `0` to `9`; and `0`
/// to `9` with `a` to `f` in either case.
pub proof fn law_digits_of_each_base(c: char)
    ensures
        digit_of(Base::Binary, c) <==> (c == '0' || c == '1'),
        digit_of(Base::Octal, c) <==> ('0' <= c && c <= '7'),
        digit_of(Base::Decimal, c) <==> ('0' <= c && c <= '9'),
        digit_of(Base::Hexadecimal, c) <==> (('0' <= c && c <= '9') || ('a' <= c && c <= 'f') || ('A' <= c && c <= 'F')),
{
}

/// Each construct opens with its keyword: without `while`, `loop`, `if`,
/// `impl`, `struct`, `trait` or `type` at `p` the construct does not read.
pub proof fn law_constructs_open_with_their_keywords(t: Seq<char>, p: int)
    ensures
        !starts_at(t, p, "while"@) ==> while_outcome(t, p) is Fail,
        !starts_at(t, p, "loop"@) ==> loop_outcome(t, p) is Fail,
        !starts_at(t, p, "if"@) ==> if_outcome(t, p) is Fail,
        !starts_at(t, p, "return"@) ==> return_outcome(t, p) is Fail,
        !starts_at(t, p, "impl"@) ==> impl_outcome(t, p) is Fail,
        !starts_at(t, p, "struct"@) ==> struct_outcome(t, p) is Fail,
        !starts_at(t, p, "trait"@) ==> trait_outcome(t, p) is Fail,
        !starts_at(t, p, "type"@) ==> alias_outcome(t, p) is Fail,
{
}

/// The command-line names: `-h` and `--help` ask for help; `-i`/`--input`,
/// `-o`/`--output`, `--llc` and `--cc` name the arguments that take a
/// value; nothing else is a flag or an argument.
pub proof fn law_command_line_names(s: Seq<char>, a: Argument)
    ensures
        flag_named(s) == (if s == "-h"@ || s == "--help"@ { Some(Flag::Help) } else { None }),
        argument_named(s) == (if s == "-i"@ || s == "--input"@ { Some(Argument::InputFile) }
            else if s == "-o"@ || s == "--output"@ { Some(Argument::OutputFile) }
            else if s == "--llc"@ { Some(Argument::LLC) }
            else if s == "--cc"@ { Some(Argument::CC) }
            else { None }),
        long_name_spec(a) == match a {
            Argument::InputFile => "--input"@,
            Argument::OutputFile => "--output"@,
            Argument::CC => "--cc"@,
            Argument::LLC => "--llc"@,
        },
{
}

/// How each level of diagnostic is named: in bold, `debug` in magenta,
/// `note` in cyan, `warning` in yellow and `error` in red, then the style
/// cleared.
pub proof fn law_level_names(l: Level)
    ensures
        level_text(l) == match l {
            Level::Debug => "\x1b[1m"@ + "\x1b[35m"@ + "debug"@ + "\x1b[0m"@,
            Level::Note => "\x1b[1m"@ + "\x1b[36m"@ + "note"@ + "\x1b[0m"@,
            Level::Warning => "\x1b[1m"@ + "\x1b[33m"@ + "warning"@ + "\x1b[0m"@,
            Level::Error => "\x1b[1m"@ + "\x1b[31m"@ + "error"@ + "\x1b[0m"@,
        },
{
}


/// A string written with a `b` in front is a byte string, with a `c` a C
/// string, and with the quote alone a Unicode string; nothing else opens a
/// string.
pub proof fn law_string_kinds(t: Seq<char>, p: int)
    ensures
        string_outcome(t, p) matches Outcome::Done { value: LitSpec::Text { ty, .. }, .. } ==> (
            (t[p] == 'b' && ty == StringType::Byte)
            || (t[p] == 'c' && ty == StringType::C)
            || (t[p] == '"' && ty == StringType::Unicode)),
        string_outcome(t, p) is Done ==> (t[p] == 'b' || t[p] == 'c' || t[p] == '"'),
{
}

/// The characters of a name: the underscore and letters anywhere, digits
/// anywhere but first.
pub proof fn law_name_characters(c: char, first: bool)
    ensures
        ident_char(c, first) <==> (c == '_' || char_is_alphabetic(c) || (!first && char_is_numeric(c))),
{
}

proof fn lemma_line_end_shape(t: Seq<char>, i: int)
    requires
        0 <= i <= t.len(),
    ensures
        ({
            let e = line_end(t, i);
            &&& i <= e <= t.len()
            &&& (e == t.len() && forall|k: int| i <= k < t.len() ==> t[k] != '\n')
                || (i < e && t[e - 1] == '\n' && forall|k: int| i <= k < e - 1 ==> t[k] != '\n')
        }),
    decreases t.len() - i,
{
    if i < t.len() && t[i] != '\n' {
        lemma_line_end_shape(t, i + 1);
    }
}

/// A line comment runs to the first line feed after `//`, which it takes
/// with it, or to the end of the text; no line feed comes before that.
pub proof fn law_line_comments_end_at_the_line_feed(t: Seq<char>, i: int)
    requires
        0 <= i <= t.len(),
    ensures
        ({
            let e = line_end(t, i);
            &&& i <= e <= t.len()
            &&& (e == t.len() && forall|k: int| i <= k < t.len() ==> t[k] != '\n')
                || (i < e && t[e - 1] == '\n' && forall|k: int| i <= k < e - 1 ==> t[k] != '\n')
        }),
{
    lemma_line_end_shape(t, i);
}

proof fn lemma_close_end_shape(t: Seq<char>, i: int)
    requires
        0 <= i <= t.len(),
    ensures
        close_end(t, i) matches Some(q) ==> i + 2 <= q <= t.len() && t[q - 2] == '*' && t[q - 1] == '/'
            && forall|k: int| i <= k < q - 2 ==> !(#[trigger] t[k] == '*' && t[k + 1] == '/'),
        close_end(t, i) is None ==> forall|k: int| i <= k && k + 1 < t.len() ==> !(#[trigger] t[k] == '*' && t[k + 1] == '/'),
    decreases t.len() - i,
{
    if i < t.len() {
        if i + 2 <= t.len() {
            assert(t.subrange(i, i + 2)[0] == t[i]);
            assert(t.subrange(i, i + 2)[1] == t[i + 1]);
            if t[i] == '*' && t[i + 1] == '/' {
                assert(t.subrange(i, i + 2) =~= seq!['*', '/']);
            }
        }
        lemma_close_end_shape(t, i + 1);
    }
}

/// A block comment ends just after the first `*/` that follows; without
/// one, it is unterminated.
pub proof fn law_block_comments_end_at_the_first_close(t: Seq<char>, i: int)
    requires
        0 <= i <= t.len(),
    ensures
        close_end(t, i) matches Some(q) ==> i + 2 <= q <= t.len() && t[q - 2] == '*' && t[q - 1] == '/'
            && forall|k: int| i <= k < q - 2 ==> !(#[trigger] t[k] == '*' && t[k + 1] == '/'),
        close_end(t, i) is None ==> forall|k: int| i <= k && k + 1 < t.len() ==> !(#[trigger] t[k] == '*' && t[k + 1] == '/'),
{
    lemma_close_end_shape(t, i);
}

/// `//` opens a line comment and `/*` a block comment, each skipped as
/// one item; a block comment that is not closed leaves the skipping
/// unterminated.
pub proof fn law_comments_are_skipped(t: Seq<char>, p: int)
    requires
        0 <= p,
        p + 2 <= t.len(),
        t[p] == '/',
    ensures
        t[p + 1] == '/' ==> skip_ws(t, p) == add_count(skip_ws(t, line_end(t, p + 2)), 1),
        t[p + 1] == '*' ==> skip_ws(t, p) == match close_end(t, p + 2) {
            None => Skip::Unterminated,
            Some(q) => add_count(skip_ws(t, q), 1),
        },
{
    assert(t.subrange(p, p + 2)[0] == t[p]);
    assert(t.subrange(p, p + 2)[1] == t[p + 1]);
    if t[p + 1] == '/' {
        assert(t.subrange(p, p + 2) =~= seq!['/', '/']);
        lemma_line_end_shape(t, p + 2);
    }
    if t[p + 1] == '*' {
        assert(t.subrange(p, p + 2) =~= seq!['/', '*']);
        lemma_close_end_shape(t, p + 2);
    }
}


/// The two-character operators `==`, `!=`, `**`, `&&`, `||` and `->` read
/// whole, as equality, inequality, power, logical and, logical or and
/// dereferencing member access.
pub proof fn law_two_character_operators_read_whole(t: Seq<char>, p: int)
    requires
        0 <= p,
        p + 2 <= t.len(),
    ensures
        t[p] == '=' && t[p + 1] == '=' ==> bin_lookup(t, p, 0) == Some((BinaryOperator::Equals, p + 2)),
        t[p] == '!' && t[p + 1] == '=' ==> bin_lookup(t, p, 0) == Some((BinaryOperator::NotEquals, p + 2)),
        t[p] == '*' && t[p + 1] == '*' && !(p + 3 <= t.len() && t[p + 2] == '=')
            ==> bin_lookup(t, p, 0) == Some((BinaryOperator::Exp, p + 2)),
        t[p] == '&' && t[p + 1] == '&' && !(p + 3 <= t.len() && t[p + 2] == '=')
            ==> bin_lookup(t, p, 0) == Some((BinaryOperator::LogicalAnd, p + 2)),
        t[p] == '|' && t[p + 1] == '|' && !(p + 3 <= t.len() && t[p + 2] == '=')
            ==> bin_lookup(t, p, 0) == Some((BinaryOperator::LogicalOr, p + 2)),
        t[p] == '-' && t[p + 1] == '>' ==> bin_lookup(t, p, 0) == Some((BinaryOperator::DerefDot, p + 2)),
{
    reveal_strlit("+=");
    reveal_strlit("-=");
    reveal_strlit("*=");
    reveal_strlit("/=");
    reveal_strlit("**=");
    reveal_strlit("%=");
    reveal_strlit("&&=");
    reveal_strlit("||=");
    reveal_strlit("^^=");
    reveal_strlit("&=");
    reveal_strlit("|=");
    reveal_strlit("^=");
    reveal_strlit(">>=");
    reveal_strlit(">>>=");
    reveal_strlit("<<=");
    reveal_strlit("|>=");
    reveal_strlit(".");
    reveal_strlit("->");
    reveal_strlit("+");
    reveal_strlit("-");
    reveal_strlit("**");
    reveal_strlit("*");
    reveal_strlit("/");
    reveal_strlit("%");
    reveal_strlit("==");
    reveal_strlit("!=");
    reveal_strlit(">");
    reveal_strlit(">=");
    reveal_strlit("<");
    reveal_strlit("<=");
    reveal_strlit("&&");
    reveal_strlit("||");
    reveal_with_fuel(bin_lookup, 33);
    lemma_binary_entries_known();
    let w = t.subrange(p, p + 2);
    assert(w[0] == t[p] && w[1] == t[p + 1]);
    if t[p] == '=' && t[p + 1] == '=' {
        assert(w =~= "=="@);
    }
    if t[p] == '!' && t[p + 1] == '=' {
        assert(w =~= "!="@);
    }
    if t[p] == '*' && t[p + 1] == '*' {
        assert(w =~= "**"@);
    }
    if t[p] == '&' && t[p + 1] == '&' {
        assert(w =~= "&&"@);
    }
    if t[p] == '|' && t[p + 1] == '|' {
        assert(w =~= "||"@);
    }
    if t[p] == '-' && t[p + 1] == '>' {
        assert(w =~= "->"@);
    }
    if p + 3 <= t.len() {
        let w3 = t.subrange(p, p + 3);
        assert(w3[0] == t[p] && w3[1] == t[p + 1] && w3[2] == t[p + 2]);
    }
    if p + 4 <= t.len() {
        let w4 = t.subrange(p, p + 4);
        assert(w4[0] == t[p] && w4[1] == t[p + 1]);
    }
}

proof fn lemma_binary_entries_known()
    ensures
        forall|i: int| 0 <= i < 41 ==> (#[trigger] bin_entry_spec(i)).0 == binary_text(bin_entry_spec(i).1),
{
    assert forall|i: int| 0 <= i < 41 implies (#[trigger] bin_entry_spec(i)).0 == binary_text(bin_entry_spec(i).1) by {
        lemma_binary_entries(i);
    }
}

/// The number of bytes of a character in UTF-8: one below U+0080, two
/// below U+0800, three below U+10000, four above.
pub proof fn law_utf8_lengths(c: char)
    ensures
        (c as u32) < 0x80 ==> utf8_len(c) == 1,
        0x80 <= (c as u32) < 0x800 ==> utf8_len(c) == 2,
        0x800 <= (c as u32) < 0x10000 ==> utf8_len(c) == 3,
        0x10000 <= (c as u32) ==> utf8_len(c) == 4,
{
}

/// The decimal digits are the characters `0` to `9`, in order.
pub proof fn law_digit_characters(d: nat)
    requires
        d < 10,
    ensures
        digit_char(d) as u32 == 48 + d,
{
}


proof fn lemma_numeric_scan(t: Seq<char>, i: int, base: Base, dec: bool)
    requires
        0 <= i <= t.len(),
    ensures
        ({
            let (e, d) = numeric_scan(t, i, base, dec);
            &&& i <= e <= t.len()
            &&& d == (dec || exists|k: int| i <= k < e && #[trigger] t[k] == '.')
            &&& (base != Base::Decimal ==> d == dec)
        }),
    decreases t.len() - i,
{
    if i < t.len() {
        if digit_of(base, t[i]) {
            lemma_numeric_scan(t, i + 1, base, dec);
            let (e, d) = numeric_scan(t, i + 1, base, dec);
            if exists|k: int| i <= k < e && #[trigger] t[k] == '.' {
                let k = choose|k: int| i <= k < e && #[trigger] t[k] == '.';
                assert(k != i);
                assert(i + 1 <= k < e && t[k] == '.');
            }
        } else if base == Base::Decimal && !dec && t[i] == '.' {
            lemma_numeric_scan(t, i + 1, base, true);
            let (e, d) = numeric_scan(t, i + 1, base, true);
            assert(i <= i < e && t[i] == '.');
        } else if t[i] == '_' {
            lemma_numeric_scan(t, i + 1, base, dec);
            let (e, d) = numeric_scan(t, i + 1, base, dec);
            if exists|k: int| i <= k < e && #[trigger] t[k] == '.' {
                let k = choose|k: int| i <= k < e && #[trigger] t[k] == '.';
                assert(k != i);
                assert(i + 1 <= k < e && t[k] == '.');
            }
        }
    }
}

/// A number is a float literal exactly when it is written in decimal with
/// a point; a number with a base prefix never holds a point.
pub proof fn law_floats_are_decimal_numbers_with_a_point(t: Seq<char>, p: int)
    requires
        0 <= p <= t.len(),
    ensures
        numeric_outcome(t, p) matches Outcome::Done { value: LitSpec::Number { float, text }, .. } ==>
            (float <==> text.contains('.'))
            && (numeric_prefix(t, p).0 != Base::Decimal ==> !text.contains('.')),
{
    reveal_strlit("0x");
    reveal_strlit("0b");
    reveal_strlit("0o");
    let (base, q) = numeric_prefix(t, p);
    assert(p <= q <= t.len());
    lemma_numeric_scan(t, q, base, false);
    let (e, d) = numeric_scan(t, q, base, false);
    if numeric_outcome(t, p) is Done {
        let text = t.subrange(p, e);
        assert forall|k: int| p <= k < q implies t[k] != '.' by {
            if q == p + 2 {
                let w = t.subrange(p, p + 2);
                assert(w[k - p] == t[k]);
            }
        }
        if text.contains('.') {
            let j = choose|j: int| 0 <= j < text.len() && text[j] == '.';
            assert(t[p + j] == '.');
            assert(q <= p + j < e && t[p + j] == '.');
        }
        if d {
            let k = choose|k: int| q <= k < e && #[trigger] t[k] == '.';
            assert(text[k - p] == '.');
        }
    }
}


/// A type that reads is a reference when it starts with `&`, an array when
/// it starts with `[`, and a path of names otherwise.
pub proof fn law_type_kinds(t: Seq<char>, p: int)
    requires
        0 <= p < t.len(),
    ensures
        type_outcome(t, p) matches Outcome::Done { value, .. } ==> (
            (value is Reference <==> t[p] == '&')
            && (value is Array <==> t[p] == '[')
            && (value is Named <==> (t[p] != '&' && t[p] != '['))),
{
    reveal_strlit("&");
    reveal_strlit("[");
    if p + 1 <= t.len() {
        assert(t.subrange(p, p + 1)[0] == t[p]);
        if t[p] == '&' {
            assert(t.subrange(p, p + 1) =~= "&"@);
        }
        if t[p] == '[' {
            assert(t.subrange(p, p + 1) =~= "["@);
        }
    }
}

/// `::` stands somewhere from `a` on, ending by `b`.
pub open spec fn colons_between(t: Seq<char>, a: int, b: int) -> bool {
    exists|j: int| a <= j && j + 2 <= b && #[trigger] starts_at(t, j, "::"@)
}

/// Each part of `parts` is a name read where it stands, and a `::` stands
/// between each part and the next.
pub open spec fn path_parts_ok(t: Seq<char>, parts: Seq<IdentSpec>) -> bool {
    &&& forall|k: int| 0 <= k < parts.len() ==>
        ident_outcome(t, (#[trigger] parts[k]).1) == (Outcome::Done { value: parts[k].0, end: parts[k].2 })
    &&& forall|k: int| 1 <= k < parts.len() ==> colons_between(t, parts[k - 1].2, (#[trigger] parts[k]).1)
}

proof fn lemma_path_tail(t: Seq<char>, i: int, acc: Seq<IdentSpec>)
    requires
        0 <= i <= t.len(),
        acc.len() > 0,
        acc.last().2 == i,
        path_parts_ok(t, acc),
    ensures
        qualified_tail(t, i, acc) matches Outcome::Done { value, .. } ==> path_parts_ok(t, value),
    decreases t.len() - i,
{
    reveal_strlit("::");
    lemma_skip_ws_bounds(t, i);
    if let Some(e1) = ws_end(t, i) {
        if starts_at(t, e1, "::"@) {
            lemma_skip_ws_bounds(t, e1 + 2);
            if let Some(e2) = ws_end(t, e1 + 2) {
                if let Outcome::Done { value, end } = ident_outcome(t, e2) {
                    if i < end <= t.len() {
                        let next = acc.push((value, e2, end));
                        assert(colons_between(t, i, e2));
                        assert forall|k: int| 0 <= k < next.len() implies
                            ident_outcome(t, (#[trigger] next[k]).1) == (Outcome::Done { value: next[k].0, end: next[k].2 }) by {
                            if k < acc.len() {
                                assert(next[k] == acc[k]);
                            }
                        }
                        assert forall|k: int| 1 <= k < next.len() implies colons_between(t, next[k - 1].2, (#[trigger] next[k]).1) by {
                            if k < acc.len() {
                                assert(next[k] == acc[k]);
                                assert(next[k - 1] == acc[k - 1]);
                            } else {
                                assert(next[k - 1] == acc.last());
                            }
                        }
                        lemma_path_tail(t, end, next);
                    }
                }
            }
        }
    }
}

/// A path of names reads as names one after another, each read where it
/// stands, with `::` between each two.
pub proof fn law_paths_are_names_joined_by_colons(t: Seq<char>, p: int)
    requires
        0 <= p <= t.len(),
    ensures
        qualified_outcome(t, p) matches Outcome::Done { value, .. } ==> value.len() >= 1 && path_parts_ok(t, value),
{
    if let Outcome::Done { value, end } = ident_outcome(t, p) {
        crate::make::ident::lemma_ident_outcome(t, p);
        let first = seq![(value, p, end)];
        assert(first[0] == (value, p, end));
        lemma_path_tail(t, end, first);
        lemma_path_tail_len(t, end, first);
    }
}

proof fn lemma_path_tail_len(t: Seq<char>, i: int, acc: Seq<IdentSpec>)
    requires
        0 <= i <= t.len(),
    ensures
        qualified_tail(t, i, acc) matches Outcome::Done { value, .. } ==> value.len() >= acc.len(),
    decreases t.len() - i,
{
    reveal_strlit("::");
    lemma_skip_ws_bounds(t, i);
    if let Some(e1) = ws_end(t, i) {
        if starts_at(t, e1, "::"@) {
            lemma_skip_ws_bounds(t, e1 + 2);
            if let Some(e2) = ws_end(t, e1 + 2) {
                if let Outcome::Done { value, end } = ident_outcome(t, e2) {
                    if i < end <= t.len() {
                        lemma_path_tail_len(t, end, acc.push((value, e2, end)));
                    }
                }
            }
        }
    }
}

} // verus!
