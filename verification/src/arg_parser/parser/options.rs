use vstd::prelude::*;
use crate::seek_read::same_chars;

verus! {

/// A command-line flag, which holds no value.
#[derive(Debug, Clone, Copy, PartialEq, Eq, Structural)]
pub enum Flag {
    Help,
    PrintLLVM,
}

/// A command-line argument, which holds a value: given after `=` or as the
/// next argument.
#[derive(Debug, Clone, Copy, PartialEq, Eq, Structural)]
pub enum Argument {
    InputFile,
    OutputFile,
    CC,
    LLC,
}

/// Recognizing what a command-line argument stands for.
pub trait Process: Sized {
    /// What `argument` stands for, if anything.
    fn from_argument(argument: &str) -> Option<Self>;
}

/// The flag written `s`: `-h` and `--help` ask for help.
pub open spec fn flag_named(s: Seq<char>) -> Option<Flag> {
    if s == "-h"@ || s == "--help"@ { Some(Flag::Help) } else { None }
}

/// The argument written `s`.
pub open spec fn argument_named(s: Seq<char>) -> Option<Argument> {
    if s == "-i"@ || s == "--input"@ {
        Some(Argument::InputFile)
    } else if s == "-o"@ || s == "--output"@ {
        Some(Argument::OutputFile)
    } else if s == "--llc"@ {
        Some(Argument::LLC)
    } else if s == "--cc"@ {
        Some(Argument::CC)
    } else {
        None
    }
}

/// The long name of an argument.
pub open spec fn long_name_spec(a: Argument) -> Seq<char> {
    match a {
        Argument::InputFile => "--input"@,
        Argument::OutputFile => "--output"@,
        Argument::CC => "--cc"@,
        Argument::LLC => "--llc"@,
    }
}

impl Process for Flag {
    fn from_argument(argument: &str) -> (r: Option<Self>)
        ensures
            r == flag_named(argument@),
    {
        if same_chars(argument, "-h") || same_chars(argument, "--help") {
            Some(Flag::Help)
        } else {
            None
        }
    }
}

impl Process for Argument {
    fn from_argument(argument: &str) -> (r: Option<Self>)
        ensures
            r == argument_named(argument@),
    {
        if same_chars(argument, "-i") || same_chars(argument, "--input") {
            Some(Argument::InputFile)
        } else if same_chars(argument, "-o") || same_chars(argument, "--output") {
            Some(Argument::OutputFile)
        } else if same_chars(argument, "--llc") {
            Some(Argument::LLC)
        } else if same_chars(argument, "--cc") {
            Some(Argument::CC)
        } else {
            None
        }
    }
}

impl Argument {
    /// The long name of the argument, for messages.
    pub fn long_name(&self) -> (r: &'static str)
        ensures
            r@ == long_name_spec(*self),
    {
        match self {
            Argument::InputFile => "--input",
            Argument::OutputFile => "--output",
            Argument::CC => "--cc",
            Argument::LLC => "--llc",
        }
    }
}

} // verus!
