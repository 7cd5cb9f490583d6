use aster::source_reader::SourceReader;
use aster::errors::AsterError;
use aster::span::Span;
use aster::ast::ty::Type;
use aster::ast::ident::IdentAST;
use aster::intrinsics::Intrinsic;
use aster::ast::structure::{
    FunctionDeclAST, FunctionAST, MemberFunctionDeclAST, MemberFunctionAST, ImplAST, ImplForAST, StructAST,
    TraitAST, TypeAliasAST, ExternDeclAST, NamespaceAST, Structure,
};
use aster::make::structure::namespace::asterize;

fn expected_what(e: &AsterError) -> String {
    match e {
        AsterError::Expected { what, .. } => what.clone(),
        _ => panic!("not an Expected error: {:?}", e),
    }
}

#[test]
fn function_declarations() {
    let src = String::from("main -> u8: u8 a, u16 b {");
    let mut reader = SourceReader::new(&src);
    let d = FunctionDeclAST::make(&mut reader).unwrap();
    assert_eq!(d.ident.text, "main");
    assert!(matches!(d.ret.e, Type::Intrinsic(Intrinsic::U8)));
    assert_eq!(d.args.len(), 2);
    assert_eq!(d.args[0].0.text, "a");
    assert!(matches!(d.args[1].1.e, Type::Intrinsic(Intrinsic::U16)));
    assert_eq!((d.span.start, d.span.end), (0, 24));
    assert_eq!(reader.offset(), 24);
}

#[test]
fn a_repeated_argument_keeps_its_place_and_takes_the_new_type() {
    let src = String::from("f: u8 a, u16 a {");
    let mut reader = SourceReader::new(&src);
    let d = FunctionDeclAST::make(&mut reader).unwrap();
    assert_eq!(d.args.len(), 1);
    assert_eq!((d.args[0].0.span.start, d.args[0].0.span.end), (6, 7));
    assert!(matches!(d.args[0].1.e, Type::Intrinsic(Intrinsic::U16)));
}

#[test]
fn a_function_without_return_type_returns_void() {
    let src = String::from("f { }");
    let mut reader = SourceReader::new(&src);
    let f = FunctionAST::make(&mut reader).unwrap();
    assert!(matches!(f.decl.ret.e, Type::Intrinsic(Intrinsic::VOID)));
    assert_eq!((f.decl.ret.span.start, f.decl.ret.span.end), (0, 2));
    assert!(f.decl.args.is_empty());
    assert_eq!((f.span.start, f.span.end), (0, 5));
    assert!(f.template.is_none());
}

#[test]
fn methods_and_implementations() {
    let src = String::from("pub static f: u8 a;");
    let mut reader = SourceReader::new(&src);
    let d = MemberFunctionDeclAST::make(&mut reader).unwrap();
    assert!(d.public.is_some() && d.static_keyword.is_some() && d.mut_keyword.is_none());
    assert_eq!(d.decl.ident.text, "f");

    let src = String::from("g { 1 }");
    let mut reader = SourceReader::new(&src);
    let m = MemberFunctionAST::make(&mut reader).unwrap();
    assert!(m.body.returns_last);

    let src = String::from("impl P { f { }; }");
    let mut reader = SourceReader::new(&src);
    let i = ImplAST::make(&mut reader).unwrap();
    assert_eq!(i.methods.len(), 1);
    assert_eq!((i.span.start, i.span.end), (0, 17));

    let src = String::from("impl P: T { }");
    let mut reader = SourceReader::new(&src);
    let i = ImplForAST::make(&mut reader).unwrap();
    assert_eq!(i.trait_name.to_hashable(), "T");
    assert!(i.methods.is_empty());

    let src = String::from("impl P { f { } }");
    let mut reader = SourceReader::new(&src);
    let e = ImplAST::make(&mut reader).unwrap_err();
    assert_eq!(expected_what(&e), "Semicolon");

    let src = String::from("impl P T { }");
    let mut reader = SourceReader::new(&src);
    let e = ImplForAST::make(&mut reader).unwrap_err();
    assert_eq!(expected_what(&e), "Punctuation (\":\")");
}

#[test]
fn structs_traits_aliases_and_foreign_functions() {
    let src = String::from("struct P { u8 x, u16 y }");
    let mut reader = SourceReader::new(&src);
    let s = StructAST::make(&mut reader).unwrap();
    assert_eq!(s.ident.text, "P");
    assert_eq!(s.members.len(), 2);
    assert_eq!(s.members[1].1.text, "y");

    let src = String::from("struct P { u8 x; }");
    let mut reader = SourceReader::new(&src);
    let e = StructAST::make(&mut reader).unwrap_err();
    assert_eq!(expected_what(&e), "Close Brace");

    let src = String::from("trait T { f: u8 a; pub g; }");
    let mut reader = SourceReader::new(&src);
    let t = TraitAST::make(&mut reader).unwrap();
    assert_eq!(t.decls.len(), 2);
    assert!(t.decls[1].public.is_some());

    let src = String::from("type X := &u8;");
    let mut reader = SourceReader::new(&src);
    let a = TypeAliasAST::make(&mut reader).unwrap();
    assert_eq!(a.ident.text, "X");
    assert_eq!(a.ty.to_hashable(), "&u8");

    let src = String::from("type X = u8;");
    let mut reader = SourceReader::new(&src);
    let e = TypeAliasAST::make(&mut reader).unwrap_err();
    assert_eq!(expected_what(&e), "Punctuation (\":=\")");

    let src = String::from("extern puts: u8 c;");
    let mut reader = SourceReader::new(&src);
    let x = ExternDeclAST::make(&mut reader).unwrap();
    assert_eq!(x.ident.text, "puts");
    assert_eq!(x.args.len(), 1);
    assert!(!x.varargs);

    let src = String::from("fn puts;");
    let mut reader = SourceReader::new(&src);
    let e = ExternDeclAST::make(&mut reader).unwrap_err();
    assert!(expected_what(&e).starts_with("Keyword (\""));
}

fn function_named(text: &str, span: Span) -> Structure {
    let src = String::from(text);
    let mut reader = SourceReader::new(&src);
    let f = FunctionAST::make(&mut reader).unwrap();
    let _ = span;
    Structure::Function(f)
}

#[test]
fn insert_unique_refuses_a_taken_name() {
    let mut map: Vec<(String, Structure)> = Vec::new();
    let a = function_named("a { }", Span { start: 0, end: 5 });
    let b = function_named("b {   }", Span { start: 0, end: 7 });
    assert!(NamespaceAST::insert_unique(&mut map, String::from("x"), a).is_ok());
    let e = NamespaceAST::insert_unique(&mut map, String::from("x"), b).unwrap_err();
    match e {
        AsterError::DuplicateIdent { text, a, b } => {
            assert_eq!(text, "x");
            assert_eq!((a.start, a.end), (0, 5));
            assert_eq!((b.start, b.end), (0, 7));
        },
        other => panic!("not a duplicate: {:?}", other),
    }
    assert_eq!(map.len(), 1);
    let ns = NamespaceAST::new(IdentAST { span: Span { start: 0, end: 0 }, text: String::from("n") }, Span { start: 0, end: 0 });
    assert!(ns.map.is_empty() && ns.imports.is_empty());
}

#[test]
fn asterize_reads_functions_by_name() {
    let src = String::from("fn -> u8 { 1 }\n// one function\n");
    let mut reader = SourceReader::new(&src);
    let ns = asterize(&mut reader).unwrap();
    assert_eq!(ns.ident.text, "global");
    assert_eq!((ns.span.start, ns.span.end), (0, src.chars().count()));
    assert_eq!(ns.map.len(), 1);
    assert_eq!(ns.map[0].0, "fn");

    // a later function of the same name replaces the earlier one
    let src = String::from("fn -> u8 { 1 } fn { }");
    let mut reader = SourceReader::new(&src);
    let ns = asterize(&mut reader).unwrap();
    assert_eq!(ns.map.len(), 1);
    assert!(matches!(&ns.map[0].1, Structure::Function(f) if matches!(f.decl.ret.e, Type::Intrinsic(Intrinsic::VOID))));

    let src = String::from("struct P { }");
    let mut reader = SourceReader::new(&src);
    let e = asterize(&mut reader).unwrap_err();
    assert!(matches!(e, AsterError::Unknown { ref what, offset: 0, .. } if what == "Structure"));
}

#[test]
fn asterize_marks_a_function_whose_operators_do_not_fold() {
    let src = String::from("fn { ~x }");
    let mut reader = SourceReader::new(&src);
    assert!(asterize(&mut reader).is_err());
    assert!(reader.has_panicked());

    let src = String::from("fn { x + 1 }");
    let mut reader = SourceReader::new(&src);
    assert!(asterize(&mut reader).is_ok());
    assert!(!reader.has_panicked());
}
