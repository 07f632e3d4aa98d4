use miniscript::ast::{BinaryOp, Body, Comparison, Expr, Path, Span, Spanned, Statement, UnaryOp, Value};
use miniscript::parsing::ast_parser::{
    ast_parser, strip_comments, Construct, ParseError, ParseErrorKind,
};
use miniscript::parsing::parser::lexer;

fn parse(source: &str) -> Result<Body, Vec<ParseError>> {
    ast_parser(&strip_comments(lexer(source).unwrap()))
}

fn span(start: usize, end: usize) -> Span {
    Span { start, end }
}

fn num(text: &str, start: usize, end: usize) -> Spanned<Expr> {
    (Expr::Value(Value::Num(text.to_string())), span(start, end))
}

fn var(name: &str, start: usize, end: usize) -> Spanned<Expr> {
    (Expr::Path(Path::AnyScope(name.to_string())), span(start, end))
}

fn binary(lhs: Spanned<Expr>, op: BinaryOp, rhs: Spanned<Expr>) -> Spanned<Expr> {
    let whole = span(lhs.1.start, rhs.1.end);
    (Expr::Binary(Box::new(lhs), op, Box::new(rhs)), whole)
}

fn only_expression(source: &str) -> Spanned<Expr> {
    let mut body = parse(source).unwrap();
    assert_eq!(body.len(), 1);
    match body.remove(0).0 {
        Statement::Expression(expr) => expr,
        other => panic!("not an expression: {other:?}"),
    }
}

#[test]
fn multiplication_binds_stronger_than_addition() {
    assert_eq!(
        only_expression("1 + 2 * 3"),
        binary(
            num("1", 0, 1),
            BinaryOp::Add,
            binary(num("2", 4, 5), BinaryOp::Mul, num("3", 8, 9))
        )
    );
    assert_eq!(
        only_expression("1 * 2 + 3"),
        binary(
            binary(num("1", 0, 1), BinaryOp::Mul, num("2", 4, 5)),
            BinaryOp::Add,
            num("3", 8, 9)
        )
    );
}

#[test]
fn binary_operators_associate_to_the_left() {
    assert_eq!(
        only_expression("8 - 4 - 2"),
        binary(
            binary(num("8", 0, 1), BinaryOp::Sub, num("4", 4, 5)),
            BinaryOp::Sub,
            num("2", 8, 9)
        )
    );
    assert_eq!(
        only_expression("2 ^ 3 ^ 2"),
        binary(
            binary(num("2", 0, 1), BinaryOp::Pow, num("3", 4, 5)),
            BinaryOp::Pow,
            num("2", 8, 9)
        )
    );
}

#[test]
fn or_binds_weakest_then_and() {
    assert_eq!(
        only_expression("a or b and c"),
        binary(
            var("a", 0, 1),
            BinaryOp::Or,
            binary(var("b", 5, 6), BinaryOp::And, var("c", 11, 12))
        )
    );
}

#[test]
fn comparisons_chain_at_one_level() {
    let chain = only_expression("a < b == c + 1");
    assert_eq!(
        chain,
        (
            Expr::Comparison(
                Box::new(var("a", 0, 1)),
                vec![
                    (Comparison::Lt, var("b", 4, 5)),
                    (
                        Comparison::Eq,
                        binary(var("c", 9, 10), BinaryOp::Add, num("1", 13, 14))
                    ),
                ]
            ),
            span(0, 14)
        )
    );
    // `not` binds weaker than a comparison, `and` weaker than `not`.
    assert_eq!(
        only_expression("not a == b"),
        (
            Expr::Unary(
                UnaryOp::Not,
                Box::new((
                    Expr::Comparison(
                        Box::new(var("a", 4, 5)),
                        vec![(Comparison::Eq, var("b", 9, 10))]
                    ),
                    span(4, 10)
                ))
            ),
            span(0, 10)
        )
    );
}

#[test]
fn unary_minus_binds_stronger_than_multiplication_and_weaker_than_power() {
    assert_eq!(
        only_expression("- a * b"),
        binary(
            (Expr::Unary(UnaryOp::Neg, Box::new(var("a", 2, 3))), span(0, 3)),
            BinaryOp::Mul,
            var("b", 6, 7)
        )
    );
    assert_eq!(
        only_expression("- a ^ b"),
        (
            Expr::Unary(
                UnaryOp::Neg,
                Box::new(binary(var("a", 2, 3), BinaryOp::Pow, var("b", 6, 7)))
            ),
            span(0, 7)
        )
    );
    assert_eq!(
        only_expression("(new @f)"),
        (
            Expr::Unary(
                UnaryOp::New,
                Box::new((
                    Expr::Unary(UnaryOp::AddressOf, Box::new(var("f", 6, 7))),
                    span(5, 7)
                ))
            ),
            span(0, 8)
        )
    );
}

#[test]
fn parentheses_group() {
    assert_eq!(
        only_expression("(1 + 2) * 3"),
        binary(
            (
                Expr::Binary(
                    Box::new(num("1", 1, 2)),
                    BinaryOp::Add,
                    Box::new(num("2", 5, 6))
                ),
                span(0, 7)
            ),
            BinaryOp::Mul,
            num("3", 10, 11)
        )
    );
}

#[test]
fn postfix_forms_take_what_stands_before_them() {
    assert_eq!(
        only_expression("a.b[1](2, c)"),
        (
            Expr::Call(
                Box::new((
                    Expr::ExprIndex(
                        Box::new((
                            Expr::Index(Box::new(var("a", 0, 1)), "b".to_string()),
                            span(0, 3)
                        )),
                        Box::new(num("1", 4, 5))
                    ),
                    span(0, 6)
                )),
                vec![num("2", 7, 8), var("c", 10, 11)]
            ),
            span(0, 12)
        )
    );
}

#[test]
fn literals_lists_and_maps() {
    assert_eq!(only_expression("(null)"), (Expr::Value(Value::Null), span(0, 6)));
    assert_eq!(only_expression("(true)"), (Expr::Value(Value::Boolean(true)), span(0, 6)));
    assert_eq!(only_expression("(false)"), (Expr::Value(Value::Boolean(false)), span(0, 7)));
    assert_eq!(
        only_expression("(\"a\"\"b\")"),
        (Expr::Value(Value::String("a\"\"b".to_string())), span(0, 8))
    );
    assert_eq!(
        only_expression("[1, x]"),
        (Expr::List(vec![num("1", 1, 2), var("x", 4, 5)]), span(0, 6))
    );
    assert_eq!(only_expression("[]"), (Expr::List(vec![]), span(0, 2)));
    assert_eq!(
        only_expression("({\"k\": 1, b: 2})"),
        (
            Expr::MapLiteral(vec![
                (
                    (Expr::Value(Value::String("k".to_string())), span(2, 5)),
                    num("1", 7, 8)
                ),
                (var("b", 10, 11), num("2", 13, 14)),
            ]),
            span(0, 16)
        )
    );
}

#[test]
fn a_call_needs_no_parentheses_at_the_start_of_a_statement() {
    let body = parse("print 1 + 2").unwrap();
    assert_eq!(
        body,
        vec![(
            Statement::Expression((
                Expr::Call(
                    Box::new(var("print", 0, 5)),
                    vec![binary(num("1", 6, 7), BinaryOp::Add, num("2", 10, 11))]
                ),
                span(0, 11)
            )),
            span(0, 11)
        )]
    );
    let body = parse("f x, -1").unwrap();
    assert_eq!(
        body,
        vec![(
            Statement::Expression((
                Expr::Call(Box::new(var("f", 0, 1)), vec![var("x", 2, 3), num("-1", 5, 7)]),
                span(0, 7)
            )),
            span(0, 7)
        )]
    );
}

#[test]
fn assignment_takes_targets_only() {
    let body = parse("x = 5").unwrap();
    assert_eq!(
        body,
        vec![(Statement::Assignment(var("x", 0, 1), num("5", 4, 5)), span(0, 5))]
    );
    assert!(matches!(parse("a.b = 1").unwrap()[0].0, Statement::Assignment(_, _)));
    assert!(matches!(parse("a[0] = 1").unwrap()[0].0, Statement::Assignment(_, _)));
    assert_eq!(
        parse("1 + 2 = 3"),
        Err(vec![ParseError {
            kind: ParseErrorKind::InvalidAssignmentTarget,
            span: span(0, 5),
            contexts: vec![],
        }])
    );
    assert!(var("x", 0, 1).0.is_valid_assignment_target());
    assert!(!num("1", 0, 1).0.is_valid_assignment_target());
    assert!(num("1", 0, 1).0.is_constant());
    assert!(!var("x", 0, 1).0.is_constant());
}

#[test]
fn statements_are_parted_by_line_breaks_and_semicolons() {
    let body = parse("\n\nx = 1; y = 2\n\nprint x // done\n").unwrap();
    assert_eq!(body.len(), 3);
    assert!(matches!(body[0].0, Statement::Assignment(_, _)));
    assert!(matches!(body[1].0, Statement::Assignment(_, _)));
    assert!(matches!(body[2].0, Statement::Expression(_)));
    assert_eq!(parse("").unwrap(), vec![]);
    assert_eq!(
        parse("x = 1 y = 2"),
        Err(vec![ParseError {
            kind: ParseErrorKind::ExpectedEndOfStatement,
            span: span(6, 7),
            contexts: vec![],
        }])
    );
}

#[test]
fn conditionals_chain_their_branches() {
    let body = parse("if a then\n  x = 1\nelse if b then\n  x = 2\nelse\n  x = 3\nend").unwrap();
    assert_eq!(body.len(), 1);
    let Statement::If(branches, otherwise) = &body[0].0 else {
        panic!("not a conditional")
    };
    assert_eq!(branches.len(), 2);
    assert_eq!(branches[0].0, (var("a", 3, 4), span(0, 9)));
    assert_eq!(branches[0].1.len(), 1);
    assert_eq!(branches[1].0, (var("b", 26, 27), span(23, 32)));
    assert_eq!(otherwise.as_ref().unwrap().len(), 1);
    assert_eq!(body[0].1, span(0, 57));

    let body = parse("if false then print 1 else print 2 end").unwrap();
    let Statement::If(branches, otherwise) = &body[0].0 else {
        panic!("not a conditional")
    };
    assert_eq!(branches.len(), 1);
    assert!(otherwise.is_some());

    let body = parse("if a then end").unwrap();
    assert_eq!(
        body,
        vec![(
            Statement::If(vec![((var("a", 3, 4), span(0, 9)), vec![])], None),
            span(0, 13)
        )]
    );
}

#[test]
fn loops_and_jumps() {
    let body = parse("while x < 3\n  x = x + 1\nend").unwrap();
    let Statement::While(condition, inner) = &body[0].0 else {
        panic!("not a loop")
    };
    assert_eq!(condition.1, span(0, 11));
    assert_eq!(inner.len(), 1);

    let body = parse("for i in items\n  break\n  continue\nend").unwrap();
    let Statement::For(name, items, inner) = &body[0].0 else {
        panic!("not a loop")
    };
    assert_eq!(name, &("i".to_string(), span(4, 5)));
    assert_eq!(items, &var("items", 9, 14));
    assert_eq!(inner[0].0, Statement::Break);
    assert_eq!(inner[1].0, Statement::Continue);

    assert_eq!(parse("return").unwrap(), vec![(Statement::Return(None), span(0, 6))]);
    assert_eq!(
        parse("return 1").unwrap(),
        vec![(Statement::Return(Some(num("1", 7, 8))), span(0, 8))]
    );
}

#[test]
fn functions_have_parameters_and_a_body() {
    let expr = only_expression("(function(a, b = 2)\n  return a\nend)");
    let Expr::FunctionDefinition(parameters, body) = &expr.0 else {
        panic!("not a function")
    };
    assert_eq!(parameters.len(), 2);
    assert_eq!(parameters[0].name, ("a".to_string(), span(10, 11)));
    assert_eq!(parameters[0].default_value, None);
    assert_eq!(parameters[1].name, ("b".to_string(), span(13, 14)));
    assert_eq!(parameters[1].default_value, Some(num("2", 17, 18)));
    assert_eq!(body.len(), 1);
}

#[test]
fn diagnostics_name_the_constructs_around_them() {
    assert_eq!(
        parse("if a print 5"),
        Err(vec![ParseError {
            kind: ParseErrorKind::ExpectedThen,
            span: span(5, 10),
            contexts: vec![(Construct::If, span(0, 2))],
        }])
    );
    assert_eq!(
        parse("while x\n  print (1 + \nend"),
        Err(vec![
            ParseError {
                kind: ParseErrorKind::ExpectedExpression,
                span: span(21, 22),
                contexts: vec![(Construct::Call, span(16, 17))],
            },
        ])
    );
    assert_eq!(
        parse("x = (1 + "),
        Err(vec![ParseError {
            kind: ParseErrorKind::ExpectedExpression,
            span: span(8, 8),
            contexts: vec![(Construct::Parentheses, span(4, 5))],
        }])
    );
    assert_eq!(
        parse("x = [1, 2"),
        Err(vec![ParseError {
            kind: ParseErrorKind::ExpectedClosingSquare,
            span: span(9, 9),
            contexts: vec![(Construct::List, span(4, 5))],
        }])
    );
    assert_eq!(ParseErrorKind::ExpectedThen.reason(), "expected 'then'");
    assert_eq!(Construct::If.label(), "while parsing this if statement");
}

#[test]
fn every_diagnostic_is_collected() {
    let errors = parse("x = \ny = 2\nz = )\nend\nw ++").unwrap_err();
    let kinds: Vec<ParseErrorKind> = errors.iter().map(|error| error.kind).collect();
    assert_eq!(
        kinds,
        vec![
            ParseErrorKind::ExpectedExpression,
            ParseErrorKind::ExpectedExpression,
            ParseErrorKind::UnexpectedClosing,
            ParseErrorKind::UnsupportedOperator,
        ]
    );
    assert_eq!(errors[0].span, span(4, 5));
    assert_eq!(errors[1].span, span(15, 16));
    assert_eq!(errors[2].span, span(17, 20));
    assert_eq!(errors[3].span, span(23, 25));
    assert_eq!(parse("a % b").unwrap_err()[0].kind, ParseErrorKind::UnsupportedOperator);
    assert_eq!(parse("a += 1").unwrap_err()[0].kind, ParseErrorKind::UnsupportedOperator);
}
