use aster::source_reader::SourceReader;
use aster::source_reader::formatting::{start_end, line_col, format_message, Level, Message};
use aster::span::Span;

#[test]
fn lines_and_columns() {
    let src = String::from("ab\ncd");
    assert_eq!(start_end(&src, 3), (2, 4));
    assert_eq!(start_end(&src, 0), (0, 2));
    assert_eq!(line_col(&src, 4), (1, 1));
    assert_eq!(line_col(&src, 0), (0, 0));
    let empty = String::new();
    assert_eq!(start_end(&empty, 0), (0, 0));
}

#[test]
fn the_place_of_the_reader() {
    let src = String::from("let x\nfoo");
    let mut reader = SourceReader::new(&src);
    reader.seek(7).unwrap();
    assert_eq!(reader.at(), "2:0: foo\n~~~~~^ here");
}

#[test]
fn levels_are_colored() {
    assert_eq!(Level::Note.to_string(), "\x1b[1m\x1b[36mnote\x1b[0m");
    assert_eq!(Level::Debug.to_string(), "\x1b[1m\x1b[35mdebug\x1b[0m");
    assert_eq!(Level::Warning.to_string(), "\x1b[1m\x1b[33mwarning\x1b[0m");
}

#[test]
fn a_message_on_one_line() {
    let src = String::from("let x = 1;\n");
    let message = Message {
        level: Level::Error,
        msg: String::from("bad"),
        sub: String::from("here"),
        span: Span { start: 4, end: 5 },
    };
    let text = format_message(&src, message);
    assert_eq!(
        text,
        "\x1b[1m\x1b[31merror\x1b[0m: \x1b[1mbad\x1b[0m\n  |\n1 | let x = 1;\n  |     \u{2500} here\n"
    );
}

#[test]
fn a_message_over_lines() {
    let src = String::from("a\nbb\nc");
    let message = Message {
        level: Level::Warning,
        msg: String::from("m"),
        sub: String::from("s"),
        span: Span { start: 0, end: 5 },
    };
    let text = format_message(&src, message);
    let lines: Vec<&str> = text.split('\n').collect();
    assert_eq!(lines[1], "  |");
    assert_eq!(lines[2], "1 | a");
    assert!(lines[4].starts_with("2 | bb"));
    assert!(text.ends_with("\n"));
    assert!(text.contains(" s\n"));
}

#[test]
fn the_place_can_be_shown_only_where_there_is_code() {
    let empty = String::new();
    assert!(!SourceReader::new(&empty).can_show_at());
    let only_feeds = String::from("\n\n");
    assert!(!SourceReader::new(&only_feeds).can_show_at());
    let src = String::from("fn main");
    let reader = SourceReader::new(&src);
    assert!(reader.can_show_at());
    assert_eq!(reader.at(), "1:0: fn main\n~~~~~^ here");
}
