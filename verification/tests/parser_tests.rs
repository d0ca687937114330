use risk::ast::{App, Bind, BinOp, Bool, Expr, Identifier, Literal, LiteralKind, Pattern, Program,
    Span, Statement, Type, TypeAssign, TypeDecl, Variant};
use risk::error::ErrorKind;
use risk::parser::Parser;

fn span(s: usize, e: usize, i: &str) -> Span {
    Span::new(s, e, i.to_string())
}

fn ident(name: &str, s: usize, e: usize) -> Identifier {
    Identifier::new(name.to_string(), span(s, e, name))
}

fn parse_ok(content: &str) -> Program {
    let mut parser = Parser::new(content).expect("lexing failed");
    parser.parse().expect("parsing failed")
}

#[test]
fn test_empty_program() {
    assert_eq!(parse_ok(""), Program { statements: vec![] });
}

#[test]
fn test_bind() {
    assert_eq!(
        parse_ok("x = 5"),
        Program {
            statements: vec![Statement::Bind(Bind::new(
                ident("x", 0, 1),
                vec![],
                Expr::Literal(Literal::new(LiteralKind::Integer(5), span(4, 5, "5"))),
                span(0, 5, "x = 5"),
            ))],
        },
    );
}

#[test]
fn test_bind_with_params() {
    assert_eq!(
        parse_ok("f x y = 3"),
        Program {
            statements: vec![Statement::Bind(Bind::new(
                ident("f", 0, 1),
                vec![
                    Pattern::Variable(ident("x", 2, 3)),
                    Pattern::Variable(ident("y", 4, 5)),
                ],
                Expr::Literal(Literal::new(LiteralKind::Integer(3), span(8, 9, "3"))),
                span(0, 9, "f x y = 3"),
            ))],
        },
    );
}

#[test]
fn test_literal() {
    assert_eq!(
        parse_ok("a = 3"),
        Program {
            statements: vec![Statement::Bind(Bind::new(
                ident("a", 0, 1),
                vec![],
                Expr::Literal(Literal::new(LiteralKind::Integer(3), span(4, 5, "3"))),
                span(0, 5, "a = 3"),
            ))],
        },
    );

    assert_eq!(
        parse_ok("a = \"hello\""),
        Program {
            statements: vec![Statement::Bind(Bind::new(
                ident("a", 0, 1),
                vec![],
                Expr::Literal(Literal::new(
                    LiteralKind::String("hello".to_string()),
                    span(4, 11, "\"hello\""),
                )),
                span(0, 11, "a = \"hello\""),
            ))],
        },
    );

    assert_eq!(
        parse_ok("a = True"),
        Program {
            statements: vec![Statement::Bind(Bind::new(
                ident("a", 0, 1),
                vec![],
                Expr::Literal(Literal::new(LiteralKind::Bool(Bool::True), span(4, 8, "True"))),
                span(0, 8, "a = True"),
            ))],
        },
    );

    assert_eq!(
        parse_ok("a = False"),
        Program {
            statements: vec![Statement::Bind(Bind::new(
                ident("a", 0, 1),
                vec![],
                Expr::Literal(Literal::new(LiteralKind::Bool(Bool::False), span(4, 9, "False"))),
                span(0, 9, "a = False"),
            ))],
        },
    );

    // A float literal keeps its exact source text.
    assert_eq!(
        parse_ok("a = 3.14"),
        Program {
            statements: vec![Statement::Bind(Bind::new(
                ident("a", 0, 1),
                vec![],
                Expr::Literal(Literal::new(
                    LiteralKind::Float("3.14".to_string()),
                    span(4, 8, "3.14"),
                )),
                span(0, 8, "a = 3.14"),
            ))],
        },
    );
}

#[test]
fn test_app() {
    assert_eq!(
        parse_ok("a = f 3"),
        Program {
            statements: vec![Statement::Bind(Bind::new(
                ident("a", 0, 1),
                vec![],
                Expr::App(App::new(
                    ident("f", 4, 5),
                    vec![Expr::Literal(Literal::new(LiteralKind::Integer(3), span(6, 7, "3")))],
                    span(4, 7, "f 3"),
                )),
                span(0, 7, "a = f 3"),
            ))],
        },
    );
}

#[test]
fn test_list() {
    assert_eq!(
        parse_ok("a = [1, 2, 3]"),
        Program {
            statements: vec![Statement::Bind(Bind::new(
                ident("a", 0, 1),
                vec![],
                Expr::List {
                    list: vec![
                        Expr::Literal(Literal::new(LiteralKind::Integer(1), span(5, 6, "1"))),
                        Expr::Literal(Literal::new(LiteralKind::Integer(2), span(8, 9, "2"))),
                        Expr::Literal(Literal::new(LiteralKind::Integer(3), span(11, 12, "3"))),
                    ],
                    ann: span(4, 13, "[1, 2, 3]"),
                },
                span(0, 13, "a = [1, 2, 3]"),
            ))],
        },
    );
}

#[test]
fn test_let() {
    assert_eq!(
        parse_ok("a = let x = 3; in x"),
        Program {
            statements: vec![Statement::Bind(Bind::new(
                ident("a", 0, 1),
                vec![],
                Expr::Let {
                    binds: vec![Bind::new(
                        ident("x", 8, 9),
                        vec![],
                        Expr::Literal(Literal::new(LiteralKind::Integer(3), span(12, 13, "3"))),
                        span(8, 13, "x = 3"),
                    )],
                    ret: Box::new(Expr::Identifier { id: ident("x", 18, 19) }),
                    ann: span(4, 19, "let x = 3; in x"),
                },
                span(0, 19, "a = let x = 3; in x"),
            ))],
        },
    );
}

#[test]
fn test_match() {
    // Match arms are parenthesized `(pattern -> expr)` groups, so
    // pipe-separated arms are a syntax error at the first `|`.
    let mut parser = Parser::new("a = match 3 with | 3 -> 4 | 4 -> 5").unwrap();
    let err = parser.parse().unwrap_err();
    match err.kind {
        ErrorKind::UnexpectedToken { found, .. } => {
            assert_eq!(found, span(17, 18, "|"));
        },
        k => panic!("wrong error kind: {:?}", k),
    }
}

#[test]
fn test_match_paren_arms() {
    assert_eq!(
        parse_ok("a = match 3 with (3 -> 4) (4 -> 5)"),
        Program {
            statements: vec![Statement::Bind(Bind::new(
                ident("a", 0, 1),
                vec![],
                Expr::Match {
                    referral: Box::new(Expr::Literal(Literal::new(
                        LiteralKind::Integer(3),
                        span(10, 11, "3"),
                    ))),
                    cases: vec![
                        (
                            Pattern::Literal(Literal::new(
                                LiteralKind::Integer(3),
                                span(18, 19, "3"),
                            )),
                            Expr::Literal(Literal::new(LiteralKind::Integer(4), span(23, 24, "4"))),
                        ),
                        (
                            Pattern::Literal(Literal::new(
                                LiteralKind::Integer(4),
                                span(27, 28, "4"),
                            )),
                            Expr::Literal(Literal::new(LiteralKind::Integer(5), span(32, 33, "5"))),
                        ),
                    ],
                    ann: span(4, 34, "match 3 with (3 -> 4) (4 -> 5)"),
                },
                span(0, 34, "a = match 3 with (3 -> 4) (4 -> 5)"),
            ))],
        },
    );
}

#[test]
fn test_cons_pattern() {
    // `x:xs` is a right-nested cons of two binders.
    let prog = parse_ok("f x:xs = x");
    match &prog.statements[0] {
        Statement::Bind(b) => {
            assert_eq!(
                b.args,
                vec![Pattern::ListCons(
                    Box::new(Pattern::Variable(ident("x", 2, 3))),
                    Box::new(Pattern::Variable(ident("xs", 4, 6))),
                    span(2, 6, "x:xs"),
                )],
            );
        },
        s => panic!("expected a binding, got {:?}", s),
    }
}

#[test]
fn test_type_decl_pipes() {
    assert_eq!(
        parse_ok("type Pair a = Two a a | None2"),
        Program {
            statements: vec![Statement::TypeDecl(TypeDecl::new(
                ident("Pair", 5, 9),
                vec![ident("a", 10, 11)],
                vec![
                    Variant::new(
                        ident("Two", 14, 17),
                        vec![
                            Type::Generic(ident("a", 18, 19)),
                            Type::Generic(ident("a", 20, 21)),
                        ],
                        span(14, 21, "Two a a"),
                    ),
                    Variant::new(ident("None2", 24, 29), vec![], span(24, 29, "None2")),
                ],
                span(0, 29, "type Pair a = Two a a | None2"),
            ))],
        },
    );
}

#[test]
fn test_type_assign() {
    assert_eq!(
        parse_ok("f :: Integer -> Integer"),
        Program {
            statements: vec![Statement::TypeAssign(TypeAssign::new(
                ident("f", 0, 1),
                Type::Func(
                    Box::new(Type::Id(ident("Integer", 5, 12))),
                    vec![Type::Id(ident("Integer", 16, 23))],
                    span(5, 23, "Integer -> Integer"),
                ),
                span(0, 23, "f :: Integer -> Integer"),
            ))],
        },
    );
}

#[test]
fn test_binop_left_fold() {
    // `1 - 2 - 3` folds left: (1 - 2) - 3.
    let prog = parse_ok("a = 1 - 2 - 3");
    match &prog.statements[0] {
        Statement::Bind(b) => match &b.expr {
            Expr::BinOp { op, lhs, rhs, .. } => {
                assert_eq!(*op, BinOp::Sub);
                assert!(matches!(**lhs, Expr::BinOp { op: BinOp::Sub, .. }));
                assert!(matches!(
                    **rhs,
                    Expr::Literal(Literal { lit: LiteralKind::Integer(3), .. })
                ));
            },
            e => panic!("expected a subtraction, got {:?}", e),
        },
        s => panic!("expected a binding, got {:?}", s),
    }
}

#[test]
fn test_speculation_stops_cleanly() {
    // The failed third-argument attempt must leave no trace: the
    // application keeps its two arguments and the trailing `)` is reported
    // as trailing input, not swallowed.
    let mut parser = Parser::new("a = f 1 2 )").unwrap();
    let err = parser.parse().unwrap_err();
    assert!(matches!(err.kind, ErrorKind::TooMuchExpr { .. }));
}

#[test]
fn test_too_much_expr() {
    let mut parser = Parser::new("x = 5 )").unwrap();
    let err = parser.parse().unwrap_err();
    match err.kind {
        ErrorKind::TooMuchExpr { found } => assert_eq!(found, span(6, 7, ")")),
        k => panic!("wrong error kind: {:?}", k),
    }
}

#[test]
fn test_statement_error() {
    let mut parser = Parser::new("+ x").unwrap();
    let err = parser.parse().unwrap_err();
    match err.kind {
        ErrorKind::UnexpectedToken { expected, found } => {
            assert_eq!(expected, "statement");
            assert_eq!(found, span(0, 1, "+"));
        },
        k => panic!("wrong error kind: {:?}", k),
    }
}

#[test]
fn test_trailing_newline_and_two_statements() {
    let prog = parse_ok("x = 5\ny = x\n");
    assert_eq!(prog.statements.len(), 2);
}

#[test]
fn test_spans_reproduce_source() {
    // Every span of the tree carries exactly the source slice it points
    // at, even with a comment in the middle.
    let src = "x = /* k */ 5";
    let prog = parse_ok(src);
    match &prog.statements[0] {
        Statement::Bind(b) => {
            assert_eq!(&src[b.span.start..b.span.end], b.span.input);
            assert_eq!(b.span.input, "x = /* k */ 5");
            match &b.expr {
                Expr::Literal(l) => {
                    assert_eq!(&src[l.span.start..l.span.end], l.span.input);
                    assert_eq!(l.span.input, "5");
                },
                e => panic!("expected a literal, got {:?}", e),
            }
        },
        s => panic!("expected a binding, got {:?}", s),
    }
}

#[test]
fn test_if_tuple_lambda() {
    let prog = parse_ok("a = if True then (1, 2) else g \\x -> x");
    assert_eq!(prog.statements.len(), 1);
    match &prog.statements[0] {
        Statement::Bind(b) => match &b.expr {
            Expr::Condition { cond, then_branch, els, .. } => {
                assert!(matches!(
                    **cond,
                    Expr::Literal(Literal { lit: LiteralKind::Bool(Bool::True), .. })
                ));
                assert!(matches!(**then_branch, Expr::Tuple { .. }));
                assert!(matches!(**els, Expr::App(..)));
            },
            e => panic!("expected a condition, got {:?}", e),
        },
        s => panic!("expected a binding, got {:?}", s),
    }
}

#[test]
fn test_annotation_expr() {
    assert_eq!(
        parse_ok("a = 5 :: Integer"),
        Program {
            statements: vec![Statement::Bind(Bind::new(
                ident("a", 0, 1),
                vec![],
                Expr::Ann {
                    expr: Box::new(Expr::Literal(Literal::new(
                        LiteralKind::Integer(5),
                        span(4, 5, "5"),
                    ))),
                    ty: Type::Id(ident("Integer", 9, 16)),
                    ann: span(4, 16, "5 :: Integer"),
                },
                span(0, 16, "a = 5 :: Integer"),
            ))],
        },
    );
}
