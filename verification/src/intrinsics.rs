use vstd::prelude::*;
use vstd::string::StrSliceExecFns;
use crate::ast::ident::QualifiedAST;
use crate::ast::ty::Type;
use crate::seek_read::same_chars;

verus! {

/// The types built into the language.
#[derive(Debug, Clone, Copy, PartialEq, Eq, Structural)]
pub enum Intrinsic {
    VOID,
    BOOL,
    CHAR,
    U8,
    U16,
    U32,
    U64,
    USIZE,
    I8,
    I16,
    I32,
    I64,
    ISIZE,
}

/// How many intrinsic types there are.
pub const INTRINSIC_COUNT: usize = 13;

/// The table of intrinsic types by name, in lookup order.
pub open spec fn intrinsic_entry_spec(i: int) -> (Seq<char>, Intrinsic) {
    if i == 0 { ("void"@, Intrinsic::VOID) }
    else if i == 1 { ("bool"@, Intrinsic::BOOL) }
    else if i == 2 { ("char"@, Intrinsic::CHAR) }
    else if i == 3 { ("u8"@, Intrinsic::U8) }
    else if i == 4 { ("u16"@, Intrinsic::U16) }
    else if i == 5 { ("u32"@, Intrinsic::U32) }
    else if i == 6 { ("u64"@, Intrinsic::U64) }
    else if i == 7 { ("usize"@, Intrinsic::USIZE) }
    else if i == 8 { ("i8"@, Intrinsic::I8) }
    else if i == 9 { ("i16"@, Intrinsic::I16) }
    else if i == 10 { ("i32"@, Intrinsic::I32) }
    else if i == 11 { ("i64"@, Intrinsic::I64) }
    else { ("isize"@, Intrinsic::ISIZE) }
}

/// The name of an intrinsic type.
pub open spec fn intrinsic_name(t: Intrinsic) -> Seq<char> {
    match t {
        Intrinsic::VOID => "void"@,
        Intrinsic::BOOL => "bool"@,
        Intrinsic::CHAR => "char"@,
        Intrinsic::U8 => "u8"@,
        Intrinsic::U16 => "u16"@,
        Intrinsic::U32 => "u32"@,
        Intrinsic::U64 => "u64"@,
        Intrinsic::USIZE => "usize"@,
        Intrinsic::I8 => "i8"@,
        Intrinsic::I16 => "i16"@,
        Intrinsic::I32 => "i32"@,
        Intrinsic::I64 => "i64"@,
        Intrinsic::ISIZE => "isize"@,
    }
}

/// The first entry of the table from `i` on whose name is `s`.
pub open spec fn intrinsic_lookup(s: Seq<char>, i: int) -> Option<Intrinsic>
    decreases 13 - i,
{
    if i < 0 || i >= 13 {
        None
    } else if intrinsic_entry_spec(i).0 == s {
        Some(intrinsic_entry_spec(i).1)
    } else {
        intrinsic_lookup(s, i + 1)
    }
}

/// The intrinsic type called `s`, if any.
pub open spec fn intrinsic_named(s: Seq<char>) -> Option<Intrinsic> {
    intrinsic_lookup(s, 0)
}

fn intrinsic_entry(i: usize) -> (r: (&'static str, Intrinsic))
    requires
        i < 13,
    ensures
        r.0@ == intrinsic_entry_spec(i as int).0,
        r.1 == intrinsic_entry_spec(i as int).1,
{
    if i == 0 { ("void", Intrinsic::VOID) }
    else if i == 1 { ("bool", Intrinsic::BOOL) }
    else if i == 2 { ("char", Intrinsic::CHAR) }
    else if i == 3 { ("u8", Intrinsic::U8) }
    else if i == 4 { ("u16", Intrinsic::U16) }
    else if i == 5 { ("u32", Intrinsic::U32) }
    else if i == 6 { ("u64", Intrinsic::U64) }
    else if i == 7 { ("usize", Intrinsic::USIZE) }
    else if i == 8 { ("i8", Intrinsic::I8) }
    else if i == 9 { ("i16", Intrinsic::I16) }
    else if i == 10 { ("i32", Intrinsic::I32) }
    else if i == 11 { ("i64", Intrinsic::I64) }
    else { ("isize", Intrinsic::ISIZE) }
}

/// The intrinsic type that a one-part qualified name denotes, if any.
pub fn get_intrinsic(qual: &QualifiedAST) -> (r: Option<Type>)
    ensures
        r == (if qual.parts@.len() == 1 {
            match intrinsic_named(qual.parts@[0].text@) {
                Some(i) => Some(Type::Intrinsic(i)),
                None => None,
            }
        } else {
            None
        }),
{
    if qual.parts.len() != 1 {
        return None;
    }
    let ident = &qual.parts[0];
    let mut i: usize = 0;
    while i < INTRINSIC_COUNT
        invariant
            i <= 13,
            qual.parts@.len() == 1,
            *ident == qual.parts@[0],
            intrinsic_named(ident.text@) == intrinsic_lookup(ident.text@, i as int),
        decreases 13 - i,
    {
        let (name, variant) = intrinsic_entry(i);
        if same_chars(ident.text.as_str(), name) {
            return Some(Type::Intrinsic(variant));
        }
        i = i + 1;
    }
    None
}

impl Intrinsic {
    /// The name the type is written with.
    pub fn get_name(&self) -> (r: String)
        ensures
            r@ == intrinsic_name(*self),
    {
        let s = match self {
            Intrinsic::VOID => "void",
            Intrinsic::BOOL => "bool",
            Intrinsic::CHAR => "char",
            Intrinsic::U8 => "u8",
            Intrinsic::U16 => "u16",
            Intrinsic::U32 => "u32",
            Intrinsic::U64 => "u64",
            Intrinsic::USIZE => "usize",
            Intrinsic::I8 => "i8",
            Intrinsic::I16 => "i16",
            Intrinsic::I32 => "i32",
            Intrinsic::I64 => "i64",
            Intrinsic::ISIZE => "isize",
        };
        String::from_str(s)
    }
}

} // verus!
