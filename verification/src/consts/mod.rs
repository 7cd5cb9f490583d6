/// Reserved words of the language.
pub mod keyword;
/// Punctuation and literal affixes.
pub mod punctuation;
/// Opening and closing delimiters.
pub mod grouping;
/// Control characters and the letters that escape them.
pub mod ascii;
/// Operators by their text, in the order in which they are tried.
pub mod operator;
