use aster::source_reader::SourceReader;
use aster::errors::AsterError;
use aster::span::GetSpan;
use aster::ast::ty::{Literal, Type};
use aster::ast::operator::{BinaryOperator, UnaryPfxOperator, UnarySfxOperator, UnaryOperator};
use aster::ast::expression::{
    Expression, AtomExpression, BlockExpressionAST, BlockExpressionChild, BindingAST, ControlFlow,
    ControlFlowAST, StructInitializerAST,
};

fn parse(s: &str) -> (Expression, usize) {
    let src = String::from(s);
    let mut reader = SourceReader::new(&src);
    let e = Expression::make(&mut reader).unwrap();
    let at = reader.offset();
    (e, at)
}

fn int_value(e: &Expression) -> String {
    match e {
        Expression::Atom(a) => match &a.a {
            AtomExpression::Literal(l) => match &l.l {
                Literal::IntLiteral(t) => t.clone(),
                other => panic!("not an integer: {:?}", other),
            },
            other => panic!("not a literal: {:?}", other),
        },
        other => panic!("not an atom: {:?}", other),
    }
}

fn var_name(e: &Expression) -> String {
    match e {
        Expression::Atom(a) => match &a.a {
            AtomExpression::UnresolvedVariable(q) => q.to_hashable(),
            other => panic!("not a variable: {:?}", other),
        },
        other => panic!("not an atom: {:?}", other),
    }
}

fn binary(e: &Expression) -> (&Expression, BinaryOperator, &Expression) {
    match e {
        Expression::BinaryOperator(b) => (&b.a, b.op, &b.b),
        other => panic!("not a binary operator: {:?}", other),
    }
}

#[test]
fn multiplication_binds_tighter_than_addition() {
    let (e, at) = parse("1 + 2 * 3;");
    assert_eq!(at, 9);
    let (a, op, b) = binary(&e);
    assert_eq!(op, BinaryOperator::Add);
    assert_eq!(int_value(a), "1");
    let (c, op2, d) = binary(b);
    assert_eq!(op2, BinaryOperator::Mul);
    assert_eq!(int_value(c), "2");
    assert_eq!(int_value(d), "3");
    let span = e.span();
    assert_eq!((span.start, span.end), (0, 9));
}

#[test]
fn operators_of_one_level_associate_to_the_left() {
    let (e, _) = parse("a - b + c;");
    let (l, op, r) = binary(&e);
    assert_eq!(op, BinaryOperator::Add);
    assert_eq!(var_name(r), "c");
    let (ll, op2, lr) = binary(l);
    assert_eq!(op2, BinaryOperator::Sub);
    assert_eq!(var_name(ll), "a");
    assert_eq!(var_name(lr), "b");
}

#[test]
fn comparison_and_logic_levels() {
    let (e, _) = parse("a == 1 && b < 2;");
    let (l, op, r) = binary(&e);
    assert_eq!(op, BinaryOperator::LogicalAnd);
    assert_eq!(binary(l).1, BinaryOperator::Equals);
    assert_eq!(binary(r).1, BinaryOperator::LessThan);
    // `|` comes before `|>` in the table, so a pipe reads as `|` followed
    // by something that is no operand, and the expression ends before it
    let (e, at) = parse("x = y |> z;");
    assert_eq!(at, 5);
    let (l, op, r) = binary(&e);
    assert_eq!(op, BinaryOperator::Assign);
    assert_eq!(var_name(l), "x");
    assert_eq!(var_name(r), "y");
}

#[test]
fn calls_subscripts_casts_and_prefixes() {
    let (e, _) = parse("f(1, x);");
    match &e {
        Expression::UnaryOperator(u) => match &u.op {
            UnaryOperator::UnarySfx(UnarySfxOperator::Call { args }) => {
                assert_eq!(args.len(), 2);
                assert_eq!(int_value(&args[0]), "1");
                assert_eq!(var_name(&args[1]), "x");
                assert_eq!(var_name(&u.expr), "f");
            },
            other => panic!("not a call: {:?}", other),
        },
        other => panic!("not a unary operator: {:?}", other),
    }
    let (e, _) = parse("x[0];");
    assert!(matches!(&e, Expression::UnaryOperator(u)
        if matches!(&u.op, UnaryOperator::UnarySfx(UnarySfxOperator::Subscript { dest: false, .. }))));
    let (e, _) = parse("x as u8;");
    assert!(matches!(&e, Expression::UnaryOperator(u)
        if matches!(&u.op, UnaryOperator::UnarySfx(UnarySfxOperator::Cast { to }) if matches!(to.e, Type::Intrinsic(_)))));
    let (e, _) = parse("-a * b;");
    let (l, op, _) = binary(&e);
    assert_eq!(op, BinaryOperator::Mul);
    assert!(matches!(l, Expression::UnaryOperator(u) if matches!(u.op, UnaryOperator::UnaryPfx(UnaryPfxOperator::Neg))));
    let (e, _) = parse("&mut x;");
    assert!(matches!(&e, Expression::UnaryOperator(u) if matches!(u.op, UnaryOperator::UnaryPfx(UnaryPfxOperator::MutRef))));
    let (e, at) = parse("x++ ;");
    assert_eq!(at, 3);
    assert!(matches!(&e, Expression::UnaryOperator(u)
        if matches!(u.op, UnaryOperator::UnarySfx(UnarySfxOperator::PostIncrement))));
    // the unary node takes the span of its operand
    assert_eq!((e.span().start, e.span().end), (0, 1));
}

#[test]
fn member_access_binds_before_a_call() {
    let (e, _) = parse("a.b(1);");
    match &e {
        Expression::UnaryOperator(u) => {
            assert!(matches!(&u.op, UnaryOperator::UnarySfx(UnarySfxOperator::Call { .. })));
            assert_eq!(binary(&u.expr).1, BinaryOperator::Dot);
        },
        other => panic!("not a call: {:?}", other),
    }
}

#[test]
fn parentheses_group() {
    let (e, at) = parse("(1 + 2) * 3;");
    assert_eq!(at, 11);
    let (l, op, _) = binary(&e);
    assert_eq!(op, BinaryOperator::Mul);
    match l {
        Expression::SubExpression(s) => {
            assert_eq!((s.span.start, s.span.end), (0, 7));
            assert_eq!(binary(&s.e).1, BinaryOperator::Add);
        },
        other => panic!("not a sub expression: {:?}", other),
    }
}

#[test]
fn blocks_and_bindings() {
    let (e, at) = parse("{ mut u8 x := 1; x };");
    assert_eq!(at, 20);
    match &e {
        Expression::Block(b) => {
            assert!(b.returns_last);
            assert_eq!(b.children.len(), 2);
            match &b.children[0] {
                BlockExpressionChild::Binding(bind) => {
                    assert!(bind.mut_keyword.is_some());
                    assert!(bind.ty.is_some());
                    assert_eq!(bind.ident.text, "x");
                    assert_eq!(int_value(bind.value.as_ref().unwrap()), "1");
                },
                other => panic!("not a binding: {:?}", other),
            }
            assert!(matches!(&b.children[1], BlockExpressionChild::Expression(x) if var_name(x) == "x"));
        },
        other => panic!("not a block: {:?}", other),
    }
    let src = String::from("{ a; }");
    let mut reader = SourceReader::new(&src);
    let b = BlockExpressionAST::make(&mut reader).unwrap();
    assert!(!b.returns_last);
    assert_eq!(b.children.len(), 1);
}

#[test]
fn a_binding_without_type_needs_a_value() {
    let src = String::from("x; ");
    let mut reader = SourceReader::new(&src);
    let e = BindingAST::make(&mut reader).unwrap_err();
    assert!(matches!(e, AsterError::Expected { ref what, .. } if what == "Value expression"));
    let src = String::from("x := 2;");
    let mut reader = SourceReader::new(&src);
    let b = BindingAST::make(&mut reader).unwrap();
    assert!(b.ty.is_none() && b.value.is_some());
}

#[test]
fn control_flow() {
    let (e, _) = parse("while a { b; };");
    assert!(matches!(&e, Expression::ControlFlow(c) if matches!(c.e, ControlFlow::While(..))));
    let (e, _) = parse("loop {};");
    assert!(matches!(&e, Expression::ControlFlow(c) if matches!(c.e, ControlFlow::Loop(..))));
    let src = String::from("if 1 { } else if 0 { } else { };");
    let mut reader = SourceReader::new(&src);
    let c = ControlFlowAST::make(&mut reader).unwrap();
    match &c.e {
        ControlFlow::If(branches, last) => {
            assert_eq!(branches.len(), 2);
            assert!(last.is_some());
        },
        other => panic!("not an if: {:?}", other),
    }
    assert_eq!((c.span.start, c.span.end), (0, 31));
    // with no else, the reader stays after the last block
    let src = String::from("if 1 { } ;");
    let mut reader = SourceReader::new(&src);
    let c = ControlFlowAST::make(&mut reader).unwrap();
    assert!(matches!(&c.e, ControlFlow::If(b, None) if b.len() == 1));
    assert_eq!(reader.offset(), 8);
    // a name followed by braces reads as a struct initializer
    let (e, _) = parse("a { };");
    assert!(matches!(&e, Expression::Atom(a) if matches!(&a.a, AtomExpression::StructInitializer(s) if s.members.is_empty())));
}

#[test]
fn returns_and_struct_initializers() {
    let (e, _) = parse("return 5;");
    assert!(matches!(&e, Expression::Atom(a) if matches!(&a.a, AtomExpression::Return(Some(v)) if int_value(v) == "5")));
    let (e, at) = parse("return;");
    assert_eq!(at, 6);
    assert!(matches!(&e, Expression::Atom(a) if matches!(a.a, AtomExpression::Return(None))));
    // a name that merely starts with the keyword is a variable
    let (e, _) = parse("returned;");
    assert_eq!(var_name(&e), "returned");
    let src = String::from("P { x: 1, y: 2 };");
    let mut reader = SourceReader::new(&src);
    let s = StructInitializerAST::make(&mut reader).unwrap();
    assert_eq!(s.members.len(), 2);
    assert_eq!(s.members[1].0.text, "y");
    assert_eq!((s.span.start, s.span.end), (0, 16));
}

#[test]
fn expression_errors() {
    let src = String::from(";");
    let mut reader = SourceReader::new(&src);
    let e = Expression::make(&mut reader).unwrap_err();
    assert!(matches!(e, AsterError::Expected { ref what, offset: 0, .. } if what == "Expression"));
    let src = String::from("(1 + 2;");
    let mut reader = SourceReader::new(&src);
    let e = Expression::make(&mut reader).unwrap_err();
    assert!(matches!(e, AsterError::Expected { ref what, .. } if what == "Expression"));
    let src = String::from("f(1 2)");
    let mut reader = SourceReader::new(&src);
    let (e, at) = {
        let e = Expression::make(&mut reader).unwrap();
        (e, reader.offset())
    };
    // the call does not read, so the expression ends at the name
    assert_eq!(var_name(&e), "f");
    assert_eq!(at, 1);
}

#[test]
fn a_bit_inversion_does_not_fold_and_marks_the_reader() {
    let src = String::from("~a;");
    let mut reader = SourceReader::new(&src);
    assert!(Expression::make(&mut reader).is_err());
    assert!(reader.has_panicked());

    let src = String::from("a + b;");
    let mut reader = SourceReader::new(&src);
    assert!(Expression::make(&mut reader).is_ok());
    assert!(!reader.has_panicked());
}
