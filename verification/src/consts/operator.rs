use vstd::prelude::*;
use crate::ast::operator::{BinaryOperator, UnaryPfxOperator};

verus! {

/// How many binary operators the table holds.
pub const BIN_COUNT: usize = 41;

/// How many prefix operators the table holds.
pub const PFX_COUNT: usize = 9;

/// The binary operators by their text, in the order in which they are tried:
/// a text is taken by the first entry it begins with.
pub open spec fn bin_entry_spec(i: int) -> (Seq<char>, BinaryOperator) {
    if i == 0 { ("+="@, BinaryOperator::AddAssign) }
    else if i == 1 { ("-="@, BinaryOperator::SubAssign) }
    else if i == 2 { ("*="@, BinaryOperator::MulAssign) }
    else if i == 3 { ("/="@, BinaryOperator::DivAssign) }
    else if i == 4 { ("**="@, BinaryOperator::ExpAssign) }
    else if i == 5 { ("%="@, BinaryOperator::ModAssign) }
    else if i == 6 { ("&&="@, BinaryOperator::LogicalAndAssign) }
    else if i == 7 { ("||="@, BinaryOperator::LogicalOrAssign) }
    else if i == 8 { ("^^="@, BinaryOperator::LogicalXORAssign) }
    else if i == 9 { ("&="@, BinaryOperator::BitAndAssign) }
    else if i == 10 { ("|="@, BinaryOperator::BitOrAssign) }
    else if i == 11 { ("^="@, BinaryOperator::BitXORAssign) }
    else if i == 12 { (">>="@, BinaryOperator::ArithmeticShrAssign) }
    else if i == 13 { (">>>="@, BinaryOperator::LogicalShrAssign) }
    else if i == 14 { ("<<="@, BinaryOperator::LogicalShlAssign) }
    else if i == 15 { ("|>="@, BinaryOperator::AssignPipe) }
    else if i == 16 { ("."@, BinaryOperator::Dot) }
    else if i == 17 { ("->"@, BinaryOperator::DerefDot) }
    else if i == 18 { ("+"@, BinaryOperator::Add) }
    else if i == 19 { ("-"@, BinaryOperator::Sub) }
    else if i == 20 { ("**"@, BinaryOperator::Exp) }
    else if i == 21 { ("*"@, BinaryOperator::Mul) }
    else if i == 22 { ("/"@, BinaryOperator::Div) }
    else if i == 23 { ("%"@, BinaryOperator::Mod) }
    else if i == 24 { ("=="@, BinaryOperator::Equals) }
    else if i == 25 { ("!="@, BinaryOperator::NotEquals) }
    else if i == 26 { (">"@, BinaryOperator::Greater) }
    else if i == 27 { (">="@, BinaryOperator::GreaterThanEquals) }
    else if i == 28 { ("<"@, BinaryOperator::LessThan) }
    else if i == 29 { ("<="@, BinaryOperator::LessThanEquals) }
    else if i == 30 { ("&&"@, BinaryOperator::LogicalAnd) }
    else if i == 31 { ("||"@, BinaryOperator::LogicalOr) }
    else if i == 32 { ("^^"@, BinaryOperator::LogicalXOR) }
    else if i == 33 { ("&"@, BinaryOperator::BitAnd) }
    else if i == 34 { ("|"@, BinaryOperator::BitOr) }
    else if i == 35 { ("^"@, BinaryOperator::BitXOR) }
    else if i == 36 { (">>"@, BinaryOperator::ArithmeticShr) }
    else if i == 37 { (">>>"@, BinaryOperator::LogicalShr) }
    else if i == 38 { ("<<"@, BinaryOperator::LogicalShl) }
    else if i == 39 { ("|>"@, BinaryOperator::Pipe) }
    else { ("="@, BinaryOperator::Assign) }
}

/// The prefix operators by their text, in the order in which they are tried.
pub open spec fn pfx_entry_spec(i: int) -> (Seq<char>, UnaryPfxOperator) {
    if i == 0 { ("&mut"@, UnaryPfxOperator::MutRef) }
    else if i == 1 { ("&"@, UnaryPfxOperator::Ref) }
    else if i == 2 { ("*"@, UnaryPfxOperator::Deref) }
    else if i == 3 { ("!"@, UnaryPfxOperator::Not) }
    else if i == 4 { ("-"@, UnaryPfxOperator::Neg) }
    else if i == 5 { ("+"@, UnaryPfxOperator::NotNeg) }
    else if i == 6 { ("~"@, UnaryPfxOperator::BitInvert) }
    else if i == 7 { ("++"@, UnaryPfxOperator::PreIncrement) }
    else { ("--"@, UnaryPfxOperator::PreDecrement) }
}

/// No operator is written as the empty text.
pub proof fn lemma_operator_texts(i: int)
    ensures
        0 <= i < 41 ==> bin_entry_spec(i).0.len() >= 1,
        0 <= i < 9 ==> pfx_entry_spec(i).0.len() >= 1,
        "++"@.len() == 2,
        "--"@.len() == 2,
{
    reveal_strlit("+=");
    reveal_strlit("-=");
    reveal_strlit("*=");
    reveal_strlit("/=");
    reveal_strlit("**=");
    reveal_strlit("%=");
    reveal_strlit("&&=");
    reveal_strlit("||=");
    reveal_strlit("^^=");
    reveal_strlit("&=");
    reveal_strlit("|=");
    reveal_strlit("^=");
    reveal_strlit(">>=");
    reveal_strlit(">>>=");
    reveal_strlit("<<=");
    reveal_strlit("|>=");
    reveal_strlit(".");
    reveal_strlit("->");
    reveal_strlit("+");
    reveal_strlit("-");
    reveal_strlit("**");
    reveal_strlit("*");
    reveal_strlit("/");
    reveal_strlit("%");
    reveal_strlit("==");
    reveal_strlit("!=");
    reveal_strlit(">");
    reveal_strlit(">=");
    reveal_strlit("<");
    reveal_strlit("<=");
    reveal_strlit("&&");
    reveal_strlit("||");
    reveal_strlit("^^");
    reveal_strlit("&");
    reveal_strlit("|");
    reveal_strlit("^");
    reveal_strlit(">>");
    reveal_strlit(">>>");
    reveal_strlit("<<");
    reveal_strlit("|>");
    reveal_strlit("=");
    reveal_strlit("&mut");
    reveal_strlit("!");
    reveal_strlit("~");
    reveal_strlit("++");
    reveal_strlit("--");
}

/// The entry `i` of the binary operator table.
pub fn bin_entry(i: usize) -> (r: (&'static str, BinaryOperator))
    requires
        i < 41,
    ensures
        r.0@ == bin_entry_spec(i as int).0,
        r.1 == bin_entry_spec(i as int).1,
{
    if i == 0 { ("+=", BinaryOperator::AddAssign) }
    else if i == 1 { ("-=", BinaryOperator::SubAssign) }
    else if i == 2 { ("*=", BinaryOperator::MulAssign) }
    else if i == 3 { ("/=", BinaryOperator::DivAssign) }
    else if i == 4 { ("**=", BinaryOperator::ExpAssign) }
    else if i == 5 { ("%=", BinaryOperator::ModAssign) }
    else if i == 6 { ("&&=", BinaryOperator::LogicalAndAssign) }
    else if i == 7 { ("||=", BinaryOperator::LogicalOrAssign) }
    else if i == 8 { ("^^=", BinaryOperator::LogicalXORAssign) }
    else if i == 9 { ("&=", BinaryOperator::BitAndAssign) }
    else if i == 10 { ("|=", BinaryOperator::BitOrAssign) }
    else if i == 11 { ("^=", BinaryOperator::BitXORAssign) }
    else if i == 12 { (">>=", BinaryOperator::ArithmeticShrAssign) }
    else if i == 13 { (">>>=", BinaryOperator::LogicalShrAssign) }
    else if i == 14 { ("<<=", BinaryOperator::LogicalShlAssign) }
    else if i == 15 { ("|>=", BinaryOperator::AssignPipe) }
    else if i == 16 { (".", BinaryOperator::Dot) }
    else if i == 17 { ("->", BinaryOperator::DerefDot) }
    else if i == 18 { ("+", BinaryOperator::Add) }
    else if i == 19 { ("-", BinaryOperator::Sub) }
    else if i == 20 { ("**", BinaryOperator::Exp) }
    else if i == 21 { ("*", BinaryOperator::Mul) }
    else if i == 22 { ("/", BinaryOperator::Div) }
    else if i == 23 { ("%", BinaryOperator::Mod) }
    else if i == 24 { ("==", BinaryOperator::Equals) }
    else if i == 25 { ("!=", BinaryOperator::NotEquals) }
    else if i == 26 { (">", BinaryOperator::Greater) }
    else if i == 27 { (">=", BinaryOperator::GreaterThanEquals) }
    else if i == 28 { ("<", BinaryOperator::LessThan) }
    else if i == 29 { ("<=", BinaryOperator::LessThanEquals) }
    else if i == 30 { ("&&", BinaryOperator::LogicalAnd) }
    else if i == 31 { ("||", BinaryOperator::LogicalOr) }
    else if i == 32 { ("^^", BinaryOperator::LogicalXOR) }
    else if i == 33 { ("&", BinaryOperator::BitAnd) }
    else if i == 34 { ("|", BinaryOperator::BitOr) }
    else if i == 35 { ("^", BinaryOperator::BitXOR) }
    else if i == 36 { (">>", BinaryOperator::ArithmeticShr) }
    else if i == 37 { (">>>", BinaryOperator::LogicalShr) }
    else if i == 38 { ("<<", BinaryOperator::LogicalShl) }
    else if i == 39 { ("|>", BinaryOperator::Pipe) }
    else { ("=", BinaryOperator::Assign) }
}

/// The entry `i` of the prefix operator table.
pub fn pfx_entry(i: usize) -> (r: (&'static str, UnaryPfxOperator))
    requires
        i < 9,
    ensures
        r.0@ == pfx_entry_spec(i as int).0,
        r.1 == pfx_entry_spec(i as int).1,
{
    if i == 0 { ("&mut", UnaryPfxOperator::MutRef) }
    else if i == 1 { ("&", UnaryPfxOperator::Ref) }
    else if i == 2 { ("*", UnaryPfxOperator::Deref) }
    else if i == 3 { ("!", UnaryPfxOperator::Not) }
    else if i == 4 { ("-", UnaryPfxOperator::Neg) }
    else if i == 5 { ("+", UnaryPfxOperator::NotNeg) }
    else if i == 6 { ("~", UnaryPfxOperator::BitInvert) }
    else if i == 7 { ("++", UnaryPfxOperator::PreIncrement) }
    else { ("--", UnaryPfxOperator::PreDecrement) }
}

} // verus!
