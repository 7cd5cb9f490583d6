use aster::arg_parser::parse_arguments;
use aster::arg_parser::error::ArgumentError;
use aster::arg_parser::parser::CompilerParser;
use aster::arg_parser::parser::options::{Flag, Argument, Process};
use aster::bufreader::meta::Metadata;

fn args(v: &[&str]) -> Vec<String> {
    v.iter().map(|s| s.to_string()).collect()
}

#[test]
fn arguments_with_values_flags_and_the_input_file() {
    let p = parse_arguments(args(&["main.src", "-o", "out", "--llc=/usr/bin/llc", "-h"])).unwrap();
    assert_eq!(p.input_file.as_deref(), Some("main.src"));
    assert_eq!(p.output_file.as_deref(), Some("out"));
    assert_eq!(p.llc.as_deref(), Some("/usr/bin/llc"));
    assert!(p.cc.is_none());
    assert!(p.help);
    assert!(!p.print_llvm);
}

#[test]
fn an_argument_given_twice_is_refused() {
    let e = parse_arguments(args(&["-o", "a", "--output=b"])).unwrap_err();
    assert!(matches!(e, ArgumentError::Duplicate { ref long_name } if long_name == "--output"));
    assert!(e.should_print_message());
    assert!(!e.should_print_help_text());
}

#[test]
fn a_second_input_is_an_unknown_flag() {
    let e = parse_arguments(args(&["a", "b"])).unwrap_err();
    assert!(matches!(e, ArgumentError::UnknownFlag { ref flag } if flag == "b"));
    assert!(e.should_print_help_text());
    assert!(!ArgumentError::Help.should_print_message());
    assert!(ArgumentError::NoInput.should_print_message());
}

#[test]
fn one_argument_at_a_time() {
    let mut p = CompilerParser::new();
    assert!(p.parse_argument(String::from("--cc")).is_ok());
    assert!(p.cc.is_none());
    assert!(p.parse_argument(String::from("clang")).is_ok());
    assert_eq!(p.cc.as_deref(), Some("clang"));
    assert!(matches!(Flag::from_argument("--help"), Some(Flag::Help)));
    assert!(Flag::from_argument("-x").is_none());
    assert!(matches!(Argument::from_argument("-i"), Some(Argument::InputFile)));
    assert_eq!(Argument::LLC.long_name(), "--llc");
}

#[test]
fn metadata_accounts_for_each_character_one_behind() {
    let mut m = Metadata::new();
    for c in ['a', '\n', ' ', 'b'] {
        m.take(c);
    }
    assert_eq!((m.line, m.column, m.whitespace, m.position), (2, 2, 1, 3));
    assert!(m.reading_whitespace);
    m.take('\u{e9}');
    m.take('x');
    assert_eq!(m.position, 6);
    assert!(!m.reading_whitespace);
}

#[test]
fn metadata_takes_the_first_character_at_any_position() {
    let mut m = Metadata::new();
    m.position = usize::MAX;
    m.take('a');
    assert_eq!(m.position, usize::MAX);
    assert_eq!(m.last_ch, Some('a'));
    m.position = usize::MAX - 1;
    m.take('b');
    assert_eq!(m.position, usize::MAX);
    assert_eq!(m.column, 2);
}
