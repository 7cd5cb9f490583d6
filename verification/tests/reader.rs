use aster::source_reader::{SourceReader, SourceReaderError};
use aster::seek_read::seek::{optional_whitespace, required_whitespace, begins_with};
use aster::errors::AsterError;
use aster::ast::ident::{IdentAST, KeywordAST, QualifiedAST, FullyQualifiedAST};
use aster::ast::ty::{Literal, LiteralAST, Type, TypeAST};
use aster::intrinsics::{get_intrinsic, Intrinsic};

fn expected_what(e: &AsterError) -> String {
    match e {
        AsterError::Expected { what, .. } => what.clone(),
        _ => panic!("not an Expected error: {:?}", e),
    }
}

#[test]
fn reader_moves_and_refuses_to_leave_the_text() {
    let src = String::from("hello");
    let mut reader = SourceReader::new(&src);
    assert_eq!(reader.len(), 5);
    assert_eq!(reader.peek(2), Some("he"));
    assert_eq!(reader.read_ch().unwrap(), 'h');
    assert_eq!(reader.read(3).unwrap(), "ell");
    assert_eq!(reader.offset(), 4);
    assert_eq!(reader.remaining(), 1);
    assert!(matches!(reader.seek(2), Err(SourceReaderError::InvalidSeekRewind)));
    assert_eq!(reader.offset(), 4);
    assert!(reader.rewind(3).is_ok());
    assert_eq!(reader.offset(), 1);
    assert!(reader.rewind(2).is_err());
    assert!(reader.to(6).is_err());
    assert!(reader.to(5).is_ok());
    assert_eq!(reader.peek_ch(), None);
    assert!(reader.read_ch().is_err());
    let span = reader.span_since(2);
    assert_eq!((span.start, span.end), (2, 5));
}

#[test]
fn seek_then_rewind_returns_to_the_same_place() {
    let src = String::from("abcdef");
    let mut reader = SourceReader::new(&src);
    reader.seek(1).unwrap();
    let before = reader.offset();
    reader.seek(3).unwrap();
    reader.rewind(3).unwrap();
    assert_eq!(reader.offset(), before);
}

#[test]
fn whitespace_skips_blanks_and_comments() {
    let src = String::from("  // line\n /* block */\tx");
    let mut reader = SourceReader::new(&src);
    let n = optional_whitespace(&mut reader).unwrap();
    assert_eq!(n, 6);
    assert_eq!(reader.peek_ch(), Some('x'));
    // skipping again finds nothing more
    assert_eq!(optional_whitespace(&mut reader).unwrap(), 0);
    assert_eq!(reader.peek_ch(), Some('x'));
    let e = required_whitespace(&mut reader).unwrap_err();
    assert_eq!(expected_what(&e), "Whitespace");
}

#[test]
fn unterminated_block_comment_is_an_error() {
    let src = String::from(" /* never closed");
    let mut reader = SourceReader::new(&src);
    let e = optional_whitespace(&mut reader).unwrap_err();
    assert_eq!(expected_what(&e), "End Multiline Comment (*/)");
    assert_eq!(e.offset(), src.len());
}

#[test]
fn begins_with_moves_only_on_a_match() {
    let src = String::from("::x");
    let mut reader = SourceReader::new(&src);
    assert!(!begins_with(&mut reader, "x"));
    assert_eq!(reader.offset(), 0);
    assert!(begins_with(&mut reader, "::"));
    assert_eq!(reader.offset(), 2);
}

#[test]
fn identifiers_and_keywords() {
    let src = String::from("foo_1 bar");
    let mut reader = SourceReader::new(&src);
    let id = IdentAST::make(&mut reader).unwrap();
    assert_eq!(id.text, "foo_1");
    assert_eq!((id.span.start, id.span.end), (0, 5));

    let src = String::from("mut x");
    let mut reader = SourceReader::new(&src);
    let e = IdentAST::make(&mut reader).unwrap_err();
    assert_eq!(expected_what(&e), "Ident");

    let src = String::from("1abc ");
    let mut reader = SourceReader::new(&src);
    assert!(IdentAST::make(&mut reader).is_err());

    // a name must be followed by something that ends it
    let src = String::from("end");
    let mut reader = SourceReader::new(&src);
    let e = IdentAST::make(&mut reader).unwrap_err();
    assert_eq!(expected_what(&e), "More characters (for Ident)");

    let src = String::from("while x");
    let mut reader = SourceReader::new(&src);
    let k = KeywordAST::make(&mut reader, "while").unwrap();
    assert_eq!((k.span.start, k.span.end), (0, 5));
    let e = KeywordAST::make(&mut reader, "loop").unwrap_err();
    assert_eq!(expected_what(&e), "Keyword (loop)");
}

#[test]
fn literals() {
    let src = String::from("0x1F_a ");
    let mut reader = SourceReader::new(&src);
    let lit = LiteralAST::make(&mut reader).unwrap();
    assert!(matches!(&lit.l, Literal::IntLiteral(t) if t == "0x1F_a"));

    let src = String::from("3.25;");
    let mut reader = SourceReader::new(&src);
    let lit = LiteralAST::make(&mut reader).unwrap();
    assert!(matches!(&lit.l, Literal::FloatLiteral(t) if t == "3.25"));
    assert_eq!((lit.span.start, lit.span.end), (0, 4));

    let src = String::from("\"a\\tb\" ");
    let mut reader = SourceReader::new(&src);
    let lit = LiteralAST::make(&mut reader).unwrap();
    assert!(matches!(&lit.l, Literal::UnicodeString(t) if t == "a\tb"));

    let src = String::from("b\"xy\"");
    let mut reader = SourceReader::new(&src);
    let lit = LiteralAST::make(&mut reader).unwrap();
    assert!(matches!(&lit.l, Literal::ByteString(t) if t == "xy"));

    let src = String::from("'\\n'");
    let mut reader = SourceReader::new(&src);
    let lit = LiteralAST::make(&mut reader).unwrap();
    assert!(matches!(lit.l, Literal::Char('\n')));

    let src = String::from("b'z'");
    let mut reader = SourceReader::new(&src);
    let lit = LiteralAST::make(&mut reader).unwrap();
    assert!(matches!(lit.l, Literal::ByteChar('z')));
}

#[test]
fn literal_errors() {
    let src = String::from("\"\\x41\"");
    let mut reader = SourceReader::new(&src);
    let e = LiteralAST::make_string(&mut reader).unwrap_err();
    assert!(matches!(e, AsterError::NotImplemented { ref what, .. } if what == "hex escape"));

    let src = String::from("\"open");
    let mut reader = SourceReader::new(&src);
    let e = LiteralAST::make_string(&mut reader).unwrap_err();
    assert_eq!(expected_what(&e), "String Literal");

    let src = String::from("x");
    let mut reader = SourceReader::new(&src);
    let e = LiteralAST::make(&mut reader).unwrap_err();
    assert_eq!(expected_what(&e), "Literal");
    assert_eq!(e.offset(), 0);
}

#[test]
fn qualified_names() {
    let src = String::from("a :: b::c;");
    let mut reader = SourceReader::new(&src);
    let q = QualifiedAST::make(&mut reader).unwrap();
    assert_eq!(q.parts.len(), 3);
    assert_eq!(q.to_hashable(), "a::b::c");
    assert_eq!(reader.offset(), 9);

    let src = String::from("Vec<u8, T>::new ");
    let mut reader = SourceReader::new(&src);
    let f = FullyQualifiedAST::make(&mut reader).unwrap();
    assert_eq!(f.parts.len(), 2);
    assert_eq!(f.parts[0].generics.as_ref().unwrap().len(), 2);
    assert!(f.parts[1].generics.is_none());
}

#[test]
fn types() {
    let src = String::from("&[4] u8 ");
    let mut reader = SourceReader::new(&src);
    let ty = TypeAST::make(&mut reader).unwrap();
    match &ty.e {
        Type::ConstReferenceTo(inner) => match &inner.e {
            Type::ArrayOf(Some(len), elem) => {
                assert!(matches!(&len.l, Literal::IntLiteral(t) if t == "4"));
                assert!(matches!(elem.e, Type::Intrinsic(Intrinsic::U8)));
            },
            other => panic!("not an array: {:?}", other),
        },
        other => panic!("not a reference: {:?}", other),
    }
    assert_eq!(ty.to_hashable(), "&[4]u8");

    let src = String::from("my::Thing ");
    let mut reader = SourceReader::new(&src);
    let ty = TypeAST::make(&mut reader).unwrap();
    assert!(matches!(&ty.e, Type::Unknown(q) if q.to_hashable() == "my::Thing"));

    let src = String::from("[");
    let mut reader = SourceReader::new(&src);
    let e = TypeAST::make(&mut reader).unwrap_err();
    assert_eq!(expected_what(&e), "Closing Bracket");
}

#[test]
fn intrinsic_names_round_trip() {
    let src = String::from("isize ");
    let mut reader = SourceReader::new(&src);
    let q = QualifiedAST::make(&mut reader).unwrap();
    match get_intrinsic(&q) {
        Some(Type::Intrinsic(i)) => assert_eq!(i.get_name(), "isize"),
        other => panic!("not an intrinsic: {:?}", other),
    }
    let src = String::from("a::u8 ");
    let mut reader = SourceReader::new(&src);
    let q = QualifiedAST::make(&mut reader).unwrap();
    assert!(get_intrinsic(&q).is_none());
}

#[test]
fn a_qualified_path_splits_back_into_its_names() {
    let src = String::from("std::io::Write rest");
    let mut reader = SourceReader::new(&src);
    let q = QualifiedAST::make(&mut reader).unwrap();
    let path = q.to_hashable();
    assert_eq!(path, "std::io::Write");
    let names: Vec<&str> = q.parts.iter().map(|p| p.text.as_str()).collect();
    assert_eq!(path.split("::").collect::<Vec<_>>(), names);
}
