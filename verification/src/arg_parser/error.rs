use vstd::prelude::*;

verus! {

/// What can go wrong with the command-line arguments.
#[derive(Debug)]
pub enum ArgumentError {
    /// Help was asked for: no message, but the help text, and the program
    /// stops.
    Help,
    /// An argument that could not be made sense of.
    UnknownFlag { flag: String },
    /// An argument given more than once.
    Duplicate { long_name: String },
    /// A tool that could not be found, and why.
    ExecNotFound { path: String, err: String },
    /// No input file was given.
    NoInput,
}

/// An argument error, its texts taken as character sequences.
pub enum ArgumentErrorView {
    Help,
    UnknownFlag(Seq<char>),
    Duplicate(Seq<char>),
    ExecNotFound(Seq<char>, Seq<char>),
    NoInput,
}

impl View for ArgumentError {
    type V = ArgumentErrorView;

    open spec fn view(&self) -> ArgumentErrorView {
        match self {
            ArgumentError::Help => ArgumentErrorView::Help,
            ArgumentError::UnknownFlag { flag } => ArgumentErrorView::UnknownFlag(flag@),
            ArgumentError::Duplicate { long_name } => ArgumentErrorView::Duplicate(long_name@),
            ArgumentError::ExecNotFound { path, err } => ArgumentErrorView::ExecNotFound(path@, err@),
            ArgumentError::NoInput => ArgumentErrorView::NoInput,
        }
    }
}

impl ArgumentError {
    /// Whether a message is shown for the error: for all but a request for
    /// help.
    pub fn should_print_message(&self) -> (r: bool)
        ensures
            r == !(*self is Help),
    {
        !matches!(self, ArgumentError::Help)
    }

    /// Whether the help text is shown: when help was asked for or an
    /// argument was not understood.
    pub fn should_print_help_text(&self) -> (r: bool)
        ensures
            r == (*self is Help || *self is UnknownFlag),
    {
        matches!(self, ArgumentError::Help | ArgumentError::UnknownFlag { .. })
    }
}

} // verus!
