use vstd::prelude::*;
use vstd::string::StrSliceExecFns;
use crate::arg_parser::error::{ArgumentError, ArgumentErrorView};

/// The flags and arguments that are understood.
pub mod options;

use options::{Flag, Argument, Process, flag_named, argument_named, long_name_spec};

verus! {

/// What the parser expects next: a flag, an argument or the input file, or
/// the value of the argument just read.
#[derive(Debug, Clone, Copy, PartialEq, Eq, Structural)]
pub enum State {
    First,
    ArgumentFlag(Argument),
}

/// The state of command-line parsing and the values read so far.
#[derive(Debug)]
pub struct CompilerParser {
    pub state: State,
    pub help: bool,
    pub input_file: Option<String>,
    pub output_file: Option<String>,
    pub llc: Option<String>,
    pub cc: Option<String>,
    pub print_llvm: bool,
}

/// A parser's state and values, its texts taken as character sequences.
pub struct ParserView {
    pub state: State,
    pub help: bool,
    pub input_file: Option<Seq<char>>,
    pub output_file: Option<Seq<char>>,
    pub llc: Option<Seq<char>>,
    pub cc: Option<Seq<char>>,
    pub print_llvm: bool,
}

/// The characters of an optional string.
pub open spec fn opt_view(o: Option<String>) -> Option<Seq<char>> {
    match o {
        Some(s) => Some(s@),
        None => None,
    }
}

impl View for CompilerParser {
    type V = ParserView;

    open spec fn view(&self) -> ParserView {
        ParserView {
            state: self.state,
            help: self.help,
            input_file: opt_view(self.input_file),
            output_file: opt_view(self.output_file),
            llc: opt_view(self.llc),
            cc: opt_view(self.cc),
            print_llvm: self.print_llvm,
        }
    }
}

/// The value held for an argument.
pub open spec fn slot(v: ParserView, kind: Argument) -> Option<Seq<char>> {
    match kind {
        Argument::InputFile => v.input_file,
        Argument::OutputFile => v.output_file,
        Argument::CC => v.cc,
        Argument::LLC => v.llc,
    }
}

/// `v` with the value for `kind` set to `s`.
pub open spec fn with_slot(v: ParserView, kind: Argument, s: Option<Seq<char>>) -> ParserView {
    ParserView {
        input_file: if kind == Argument::InputFile { s } else { v.input_file },
        output_file: if kind == Argument::OutputFile { s } else { v.output_file },
        cc: if kind == Argument::CC { s } else { v.cc },
        llc: if kind == Argument::LLC { s } else { v.llc },
        ..v
    }
}

/// Setting the value of `kind`: refused if it was given already.
pub open spec fn set_value(v: ParserView, kind: Argument, value: Seq<char>) -> Result<ParserView, ArgumentErrorView> {
    if slot(v, kind) is Some {
        Err(ArgumentErrorView::Duplicate(long_name_spec(kind)))
    } else {
        Ok(with_slot(v, kind, Some(value)))
    }
}

/// The index of the first `=` in `s` from `i` on.
pub open spec fn eq_index(s: Seq<char>, i: int) -> Option<int>
    decreases s.len() - i,
{
    if i < 0 || i >= s.len() {
        None
    } else if s[i] == '=' {
        Some(i)
    } else {
        eq_index(s, i + 1)
    }
}

/// Reading `arg` where a flag, an argument or the input file may stand: a
/// flag is set; an argument takes the value after its first `=`, or else
/// the next argument; anything else is the input file, if there is none
/// yet, or an unknown flag.
pub open spec fn first_spec(v: ParserView, arg: Seq<char>) -> Result<ParserView, ArgumentErrorView> {
    match flag_named(arg) {
        Some(Flag::Help) => Ok(ParserView { help: true, ..v }),
        Some(Flag::PrintLLVM) => Ok(ParserView { print_llvm: true, ..v }),
        None => {
            let key = match eq_index(arg, 0) { Some(i) => arg.take(i), None => arg };
            match argument_named(key) {
                Some(kind) => match eq_index(arg, 0) {
                    Some(i) => set_value(v, kind, arg.skip(i + 1)),
                    None => Ok(ParserView { state: State::ArgumentFlag(kind), ..v }),
                },
                None => if v.input_file is None {
                    Ok(ParserView { input_file: Some(arg), ..v })
                } else {
                    Err(ArgumentErrorView::UnknownFlag(arg))
                },
            }
        },
    }
}

/// Reading the argument `arg` in the state of `v`.
pub open spec fn step(v: ParserView, arg: Seq<char>) -> Result<ParserView, ArgumentErrorView> {
    match v.state {
        State::First => first_spec(v, arg),
        State::ArgumentFlag(kind) => match set_value(v, kind, arg) {
            Ok(w) => Ok(ParserView { state: State::First, ..w }),
            Err(e) => Err(e),
        },
    }
}

/// `r` and the parser after a step are what `s` says; a refused step leaves
/// the parser as it was.
pub open spec fn stepped(s: Result<ParserView, ArgumentErrorView>, r: Result<(), ArgumentError>, old: ParserView, new: ParserView) -> bool {
    match s {
        Ok(w) => r is Ok && new == w,
        Err(e) => r matches Err(x) && x@ == e && new == old,
    }
}

/// A parser expecting a flag, an argument or the input file, with no values
/// yet.
pub open spec fn initial() -> ParserView {
    ParserView {
        state: State::First,
        help: false,
        input_file: None,
        output_file: None,
        llc: None,
        cc: None,
        print_llvm: false,
    }
}

impl CompilerParser {
    /// A parser expecting a flag, an argument or the input file, with no
    /// values yet.
    pub fn new() -> (r: Self)
        ensures
            r@ == initial(),
    {
        CompilerParser {
            state: State::First,
            help: false,
            input_file: None,
            output_file: None,
            llc: None,
            cc: None,
            print_llvm: false,
        }
    }

    /// The place where the value of `kind` is kept.
    fn string_pointer(&mut self, kind: Argument) -> (r: &mut Option<String>)
        ensures
            opt_view(*r) == slot(old(self)@, kind),
            final(self)@ == with_slot(old(self)@, kind, opt_view(*final(r))),
    {
        match kind {
            Argument::InputFile => &mut self.input_file,
            Argument::OutputFile => &mut self.output_file,
            Argument::CC => &mut self.cc,
            Argument::LLC => &mut self.llc,
        }
    }

    /// Keeps `argument` as the value of `kind`, unless it has one already.
    fn set_option_string_value(&mut self, kind: Argument, argument: String) -> (r: Result<(), ArgumentError>)
        ensures
            stepped(set_value(old(self)@, kind, argument@), r, old(self)@, final(self)@),
    {
        let option = self.string_pointer(kind);
        if option.is_some() {
            let long_name = kind.long_name();
            return Err(ArgumentError::Duplicate { long_name: String::from_str(long_name) });
        }
        *option = Some(argument);
        Ok(())
    }

    /// Reads an argument where a flag, an argument or the input file may
    /// stand.
    fn first(&mut self, argument: String) -> (r: Result<(), ArgumentError>)
        ensures
            stepped(first_spec(old(self)@, argument@), r, old(self)@, final(self)@),
    {
        if let Some(flag) = Flag::from_argument(argument.as_str()) {
            match flag {
                Flag::Help => self.help = true,
                Flag::PrintLLVM => self.print_llvm = true,
            }
            return Ok(());
        }
        let n = argument.as_str().unicode_len();
        let mut i: usize = 0;
        while i < n && argument.as_str().get_char(i) != '='
            invariant
                n == argument@.len(),
                i <= n,
                eq_index(argument@, 0) == eq_index(argument@, i as int),
            decreases n - i,
        {
            i = i + 1;
        }
        let key = argument.as_str().substring_char(0, i);
        proof { assert(key@ == (match eq_index(argument@, 0) { Some(j) => argument@.take(j), None => argument@ })); }
        if let Some(kind) = Argument::from_argument(key) {
            if i < n {
                let value = String::from_str(argument.as_str().substring_char(i + 1, n));
                proof { assert(value@ == argument@.skip(i + 1)); }
                return self.set_option_string_value(kind, value);
            }
            self.state = State::ArgumentFlag(kind);
            return Ok(());
        }
        if self.input_file.is_none() {
            self.input_file = Some(argument);
            return Ok(());
        }
        Err(ArgumentError::UnknownFlag { flag: argument })
    }

    /// Reads one argument as the state calls for: the value of the argument
    /// read before, or else a flag, an argument or the input file.
    pub fn parse_argument(&mut self, argument: String) -> (r: Result<(), ArgumentError>)
        ensures
            stepped(step(old(self)@, argument@), r, old(self)@, final(self)@),
    {
        match self.state {
            State::First => self.first(argument),
            State::ArgumentFlag(kind) => {
                self.set_option_string_value(kind, argument)?;
                self.state = State::First;
                Ok(())
            },
        }
    }
}

} // verus!
