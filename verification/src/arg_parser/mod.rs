use vstd::prelude::*;

/// Errors of the command line.
pub mod error;
/// The parser of the command line.
pub mod parser;

use error::{ArgumentError, ArgumentErrorView};
use parser::{CompilerParser, ParserView, State, step, initial};

verus! {

/// Reading the arguments `args` in turn from the state `v`, stopping at the
/// first that is refused.
pub open spec fn parse_all(v: ParserView, args: Seq<Seq<char>>) -> Result<ParserView, ArgumentErrorView>
    decreases args.len(),
{
    if args.len() == 0 {
        Ok(v)
    } else {
        match step(v, args[0]) {
            Ok(w) => parse_all(w, args.skip(1)),
            Err(e) => Err(e),
        }
    }
}

/// The texts of the strings.
pub open spec fn texts(args: Seq<String>) -> Seq<Seq<char>> {
    args.map_values(|s: String| s@)
}

/// Reads the command-line arguments, program name excluded, in turn.
pub fn parse_arguments(args: Vec<String>) -> (r: Result<CompilerParser, ArgumentError>)
    ensures
        match parse_all(initial(), texts(args@)) {
            Ok(v) => r matches Ok(p) && p@ == v,
            Err(e) => r matches Err(x) && x@ == e,
        },
{
    let mut parser = CompilerParser::new();
    let ghost all = texts(args@);
    let mut i: usize = 0;
    let n = args.len();
    proof { assert(all.skip(0) == all); }
    while i < n
        invariant
            n == args@.len(),
            i <= n,
            all == texts(args@),
            parse_all(initial(), all) == parse_all(parser@, all.skip(i as int)),
        decreases n - i,
    {
        let argument = args[i].clone();
        proof { assert(all.skip(i as int)[0] == argument@); }
        match parser.parse_argument(argument) {
            Ok(()) => {},
            Err(e) => {
                return Err(e);
            },
        }
        proof { assert(all.skip(i as int).skip(1) == all.skip(i + 1)); }
        i = i + 1;
    }
    proof { assert(all.skip(n as int) == Seq::<Seq<char>>::empty()); }
    Ok(parser)
}

} // verus!
