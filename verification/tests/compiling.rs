use miniscript::ast::{Expr, Path, Span, Statement, Value, AST};
use miniscript::compile;
use miniscript::errors::{InternalError, MsErrorType};
use miniscript::parsing::ast_parser::{ast_parser, strip_comments};
use miniscript::parsing::parser::lexer;
use miniscript::vm::chunk::{
    can_evaluate_to_function, compile_body, compile_expressions, compile_path, pretty_print,
};
use miniscript::vm::context::FunctionCompilationContext;
use miniscript::vm::effects::can_have_side_effects;
use miniscript::vm::op_code::{BytecodeError, ConstantIndex, OpCode};
use miniscript::vm::register::{Register, StackIndex};

fn code(source: &str) -> Vec<String> {
    let chunk = compile("<eval>", source).unwrap();
    chunk.code().iter().map(|op| op.pretty_print()).collect()
}

fn tree(source: &str) -> Vec<(Statement, Span)> {
    ast_parser(&strip_comments(lexer(source).unwrap())).unwrap()
}

fn expression(source: &str) -> Expr {
    match tree(&format!("({source})")).remove(0).0 {
        Statement::Expression(expr) => expr.0,
        other => panic!("not an expression: {other:?}"),
    }
}

#[test]
fn a_statement_without_side_effects_yields_no_code() {
    assert_eq!(code("1 + 2"), vec!["return"]);
    assert_eq!(code("null"), vec!["return"]);
    assert_eq!(code("1 < 2 < 3"), vec!["return"]);
    assert_eq!(code("[1, 2]\n1"), vec!["return"]);
    assert_eq!(code(""), vec!["return"]);
}

#[test]
fn side_effects_follow_the_shape_of_an_expression() {
    let ctx = FunctionCompilationContext::new();
    let can = |source: &str, map: bool| can_have_side_effects(&expression(source), &ctx, map);
    assert!(!can("1", false));
    assert!(!can("\"s\"", false));
    assert!(can("x", false));
    assert!(can("f(1)", false));
    assert!(can("a.b", false));
    assert!(can("a[1]", false));
    assert!(!can("1 + 2 * 3", false));
    assert!(can("1 + x", false));
    assert!(can("1 < 2 == x", false));
    assert!(!can("[1, [2]]", false));
    assert!(can("[1, [x]]", false));
    assert!(can("{1: x}", false));
    assert!(!can("{1: 2}", false));
    assert!(!can("function() x end", false));
    assert!(can("- x", false));
    assert!(!can("@x", false));
    assert!(can("@x", true));
    assert!(can("@a.b[1]", false));
    assert!(can_have_side_effects(&Expr::Error, &ctx, false));
}

#[test]
fn reading_a_local_that_holds_no_function_has_no_side_effect() {
    let mut ctx = FunctionCompilationContext::new();
    compile_body(&tree("a = 1\nb = print(2)"), &mut ctx).unwrap();
    let can = |source: &str, map: bool| can_have_side_effects(&expression(source), &ctx, map);
    // `a` holds a number, `b` may hold a function, `c` is unknown.
    assert!(!can("a", false));
    assert!(can("b", false));
    assert!(can("c", false));
    assert!(!can("a + 1", false));
    assert!(!can("1 < a == a", false));
    assert!(!can("[a, {a: a}]", false));
    assert!(!can("-a", false));
    assert!(can("a + b", false));
    assert!(can("[a, c]", false));
    assert!(can("a.x", false));
    assert!(can("a(1)", false));
    // A map of locals may run code on every access.
    assert!(can("a", true));
    // A statement that only reads such locals yields no code.
    assert_eq!(code("x = 5\nx + 1"), vec!["$0 = 5", "return"]);
    assert_eq!(code("x = 5\nx"), vec!["$0 = 5", "return"]);
    assert_eq!(code("x = 5\n1 < x < 3"), vec!["$0 = 5", "return"]);
    assert_eq!(compile("<eval>", "x = 5\nx").unwrap().stack_size(), 1);
    // That holds of statements made of what the compiler cannot lower, too.
    assert_eq!(code("x = 5\n-x"), vec!["$0 = 5", "return"]);
    assert_eq!(code("x = 5\n[x, {x: 1}]"), vec!["$0 = 5", "return"]);
    assert_eq!(code("if 1 then\n x = 5\n not x\nend"), vec![
        "$0 = 1",
        "if not $0 goto 3",
        "$0 = 5",
        "return",
    ]);
    // Where the variable may hold a function, such a statement is refused.
    for source in ["-y", "x = print(1)\n-x", "while 1\n [y]\nend", "if 1 then\nelse\n -y\nend"] {
        let errors = compile("<eval>", source).unwrap_err();
        assert_eq!(
            errors[0].error_type,
            MsErrorType::Internal(InternalError::NotImplemented),
            "{source}"
        );
    }
    let mut ctx = FunctionCompilationContext::new();
    assert_eq!(
        compile_body(&tree("x = 5\n-y\nx = 6"), &mut ctx),
        Err(InternalError::NotImplemented)
    );
    // One that reads what may be a function is compiled.
    assert_eq!(
        code("x = print(1)\nx + 1"),
        vec!["$0 = 1", "$0 = print $0", "$1 = $0()", "$2 = 1", "$1 = $1 + $2", "return"]
    );
}

#[test]
fn a_number_is_not_called_and_what_may_be_a_function_is() {
    // `x` holds a number: reading it yields its register and no call.
    assert_eq!(code("x = 5\nprint x"), vec!["$0 = 5", "$1 = $0", "$1 = print $1", "return"]);
    assert_eq!(code("x = 5\nx"), vec!["$0 = 5", "return"]);
    assert_eq!(code("x = 5\ny = x + 1"), vec!["$0 = 5", "$1 = 1", "$1 = $0 + $1", "return"]);
    // The result of a call may be a function: reading `x` calls it.
    assert_eq!(
        code("x = print(1)\nx"),
        vec!["$0 = 1", "$0 = print $0", "$1 = $0()", "return"]
    );
    assert_eq!(
        code("x = print(1)\ny = x"),
        vec!["$0 = 1", "$0 = print $0", "$1 = $0()", "return"]
    );
    // A name that is no local is looked up and called.
    assert_eq!(code("print y"), vec!["$0 = y", "$0 = $0()", "$0 = print $0", "return"]);
    assert_eq!(code("y"), vec!["$0 = y", "$0 = $0()", "return"]);
}

#[test]
fn what_may_be_a_function_follows_the_shape_of_the_value() {
    let mut ctx = FunctionCompilationContext::new();
    compile_body(&tree("a = 1\nb = print(2)"), &mut ctx).unwrap();
    assert!(!ctx.can_be_function("a"));
    assert!(ctx.can_be_function("b"));
    assert!(ctx.can_be_function("unknown"));
    assert!(!can_evaluate_to_function(&expression("1"), &ctx));
    assert!(!can_evaluate_to_function(&expression("a"), &ctx));
    assert!(can_evaluate_to_function(&expression("b"), &ctx));
    assert!(can_evaluate_to_function(&expression("function() end"), &ctx));
    assert!(can_evaluate_to_function(&expression("f(1)"), &ctx));
    assert!(can_evaluate_to_function(&expression("a.b"), &ctx));
    assert!(!can_evaluate_to_function(&expression("a + b"), &ctx));
    assert!(!can_evaluate_to_function(&expression("a < b"), &ctx));
    assert!(!can_evaluate_to_function(&expression("-a"), &ctx));
    assert!(can_evaluate_to_function(&expression("-b"), &ctx));
    assert!(!can_evaluate_to_function(&expression("[b]"), &ctx));
    assert_eq!(ctx.local_register("a"), Some(StackIndex(0)));
    assert_eq!(ctx.local_register("b"), Some(StackIndex(1)));
    assert_eq!(ctx.local_register("c"), None);
}

#[test]
fn the_least_free_register_is_taken_first() {
    let mut ctx = FunctionCompilationContext::new();
    let a = ctx.get_register();
    let b = ctx.get_register();
    let c = ctx.get_register();
    assert_eq!((a, b, c), (StackIndex(0), StackIndex(1), StackIndex(2)));
    ctx.release_register(c);
    ctx.release_register(a);
    ctx.release_register(a);
    assert_eq!(ctx.get_register(), StackIndex(0));
    assert_eq!(ctx.get_register(), StackIndex(2));
    assert_eq!(ctx.get_register(), StackIndex(3));
    ctx.new_local("x", b);
    assert!(!ctx.release_if_unused(b));
    assert!(ctx.release_if_unused(a));
    assert_eq!(ctx.take_back_register(a), a);
    assert_eq!(ctx.actualize(Some(StackIndex(1))), StackIndex(1));
    assert_eq!(ctx.actualize_and_release_if_unused(Some(b)), (b, false));
    assert_eq!(ctx.actualize_and_release_if_unused(Some(a)), (a, true));
    assert_eq!(ctx.actualize(None), a);
    ctx.set_can_be_function("x", false);
    assert!(!ctx.can_be_function("x"));
    ctx.set_can_be_function("y", false);
    assert!(ctx.can_be_function("y"));
}

#[test]
fn reserved_places_are_filled_in_once_their_target_is_known() {
    let mut ctx = FunctionCompilationContext::new();
    let r = ctx.get_register();
    ctx.emit(OpCode::SetNull(r), Span { start: 0, end: 1 });
    let reserved = ctx.emit_reserve(Span { start: 2, end: 3 });
    assert_eq!(reserved.0, 1);
    ctx.emit(OpCode::SetNull(r), Span { start: 4, end: 5 });
    ctx.mark_assignment_span();
    assert_eq!(ctx.ops_length(), 3);
    ctx.patch(reserved, OpCode::Jump(3));
    ctx.patch_assignment_spans(3, Span { start: 7, end: 9 });
    ctx.clear_assignment_spans();
    assert_eq!(ctx.get_or_create_constant_index("a"), ConstantIndex(0));
    assert_eq!(ctx.get_or_create_constant_index("b"), ConstantIndex(1));
    assert_eq!(ctx.get_or_create_constant_index("a"), ConstantIndex(0));
    assert_eq!(ConstantIndex(4).raw(), 4);
    ctx.emit(OpCode::Return(None), Span { start: 0, end: 0 });
    let chunk = ctx.into_chunk();
    assert_eq!(
        chunk.code(),
        &vec![OpCode::SetNull(r), OpCode::Jump(3), OpCode::SetNull(r), OpCode::Return(None)]
    );
    assert_eq!(
        chunk.spans(),
        &vec![
            Span { start: 0, end: 1 },
            Span { start: 2, end: 3 },
            Span { start: 7, end: 9 },
            Span { start: 0, end: 0 },
        ]
    );
    assert_eq!(chunk.get_constant(&ConstantIndex(1)), "b");
    assert_eq!(chunk.stack_size(), 1);
}

#[test]
fn and_and_or_jump_over_their_right_operand() {
    assert_eq!(
        code("print a and b"),
        vec![
            "$0 = a",
            "$0 = $0()",
            "if not $0 goto 7",
            "$1 = b",
            "$1 = $1()",
            "$0 = $0 fuzzy_and $1",
            "goto 8",
            "$0 = 0",
            "$0 = print $0",
            "return",
        ]
    );
    assert_eq!(
        code("x = 1 or 2"),
        vec![
            "$0 = 1",
            "if abs($0) >= 1 goto 5",
            "$1 = 2",
            "$0 = $0 fuzzy_or $1",
            "goto 6",
            "$0 = 1",
            "return",
        ]
    );
}

#[test]
fn conditionals_jump_past_what_is_not_taken() {
    assert_eq!(
        code("if false then print 1 else print 2 end"),
        vec![
            "$0 = 0",
            "if not $0 goto 5",
            "$0 = 1",
            "$0 = print $0",
            "goto 7",
            "$0 = 2",
            "$0 = print $0",
            "return",
        ]
    );
    assert_eq!(
        code("if a == 1 then\n b = 1\nelse if a == 2 then\n b = 2\nend"),
        vec![
            "$0 = a",
            "$0 = $0()",
            "$1 = 1",
            "$0 = $0 == $1",
            "if not $0 goto 7",
            "$0 = 1",
            "goto 13",
            "$1 = a",
            "$1 = $1()",
            "$2 = 2",
            "$1 = $1 == $2",
            "if not $1 goto 13",
            "$0 = 2",
            "return",
        ]
    );
}

#[test]
fn while_jumps_back_to_its_condition() {
    assert_eq!(
        code("i = 0\nwhile i < 3\n i = i + 1\nend"),
        vec![
            "$0 = 0",
            "$1 = 3",
            "$1 = $0 < $1",
            "if not $1 goto 7",
            "$1 = 1",
            "$0 = $0 + $1",
            "goto 1",
            "return",
        ]
    );
}

#[test]
fn an_assignment_gives_its_span_to_what_writes_the_result() {
    let source = "total = 1 + 2";
    let chunk = compile("<eval>", source).unwrap();
    assert_eq!(
        chunk.spans(),
        &vec![
            Span { start: 8, end: 9 },
            Span { start: 12, end: 13 },
            Span { start: 0, end: 13 },
            Span { start: 0, end: 0 },
        ]
    );
    let listing = pretty_print(&chunk, source);
    assert_eq!(
        listing,
        [
            "0: $0 = 1        |  1",
            "1: $1 = 2        |  2",
            "2: $0 = $0 + $1  |  total = 1 + 2",
            "3: return        |  ",
        ]
        .join("\n")
    );
    let source = "x = a and 1";
    let chunk = compile("<eval>", source).unwrap();
    let spans = chunk.spans();
    assert_eq!(spans[4], Span { start: 0, end: 11 });
    assert_eq!(spans[6], Span { start: 0, end: 11 });
}

#[test]
fn every_line_of_a_listing_ends_with_the_source_of_its_span() {
    let source = "h\u{e9} = 1\nwhile h\u{e9} < 10\n h\u{e9} = h\u{e9} * 2 // twice\nend\nprint h\u{e9}";
    let chunk = compile("<eval>", source).unwrap();
    let listing = pretty_print(&chunk, source);
    let lines: Vec<&str> = listing.split('\n').collect();
    assert_eq!(lines.len(), chunk.code().len());
    for (line, span) in lines.iter().zip(chunk.spans()) {
        let excerpt = &source[span.start..span.end];
        assert!(line.ends_with(&format!("  |  {excerpt}")), "{line:?} / {excerpt:?}");
    }
    assert!(lines[lines.len() - 2].ends_with("  |  print h\u{e9}"));
    // Ten lines and more: the indices are aligned to the right.
    let source = "print 1 == 2 > 1 < 3";
    let listing = pretty_print(&compile("<eval>", source).unwrap(), source);
    assert!(listing.starts_with(" 0: "));
    assert!(listing.contains("\n12: return"));
}

#[test]
fn string_constants_are_pooled_once() {
    let chunk = compile("<eval>", "print \"a\"\nprint \"b\"\nprint \"a\"").unwrap();
    let sets: Vec<&OpCode<String>> = chunk
        .code()
        .iter()
        .filter(|op| matches!(op, OpCode::SetString(_, _)))
        .collect();
    assert_eq!(
        sets,
        vec![
            &OpCode::SetString(StackIndex(0), ConstantIndex(0)),
            &OpCode::SetString(StackIndex(0), ConstantIndex(1)),
            &OpCode::SetString(StackIndex(0), ConstantIndex(0)),
        ]
    );
    assert_eq!(chunk.get_constant(&ConstantIndex(0)), "a");
    assert_eq!(chunk.get_constant(&ConstantIndex(1)), "b");
}

#[test]
fn what_the_compiler_does_not_implement_is_refused() {
    for source in [
        "x = [1, 2]",
        "x = {1: 2}",
        "x = function() end",
        "x = -y",
        "x = not y",
        "x = a.b",
        "x = a[1]",
        "a.b = 1",
        "a[1] = 1",
        "x = f(1)",
        "print(1, 2)",
        "print()",
        "f 1",
        "for i in x\nend",
        "break",
        "continue",
        "return",
        "return 1",
        "while f(1)\nend",
        "if 1 then\n break\nend",
    ] {
        let errors = compile("name", source).unwrap_err();
        assert_eq!(errors.len(), 1, "{source}");
        assert_eq!(errors[0].src_id, "name");
        assert_eq!(
            errors[0].error_type,
            MsErrorType::Internal(InternalError::NotImplemented),
            "{source}"
        );
        assert_eq!(errors[0].code(), 0);
    }
    let tree = AST::from_body(tree("x = [1]")).unwrap();
    assert_eq!(tree.body().len(), 1);
    assert_eq!(
        miniscript::vm::chunk::compile(tree).unwrap_err(),
        InternalError::NotImplemented
    );
    let tree = AST::from_body_unchecked(tree_of_one());
    assert_eq!(miniscript::vm::chunk::compile(tree).unwrap().code().len(), 2);
}

fn tree_of_one() -> Vec<(Statement, Span)> {
    let at = Span { start: 0, end: 1 };
    vec![(
        Statement::Assignment(
            (Expr::Path(Path::AnyScope("x".to_string())), at),
            (Expr::Value(Value::Boolean(true)), at),
        ),
        at,
    )]
}

#[test]
fn expressions_compile_into_a_given_register() {
    let mut ctx = FunctionCompilationContext::new();
    let target = ctx.get_register();
    let at = Span { start: 0, end: 1 };
    let one = (Expr::Value(Value::Num("1".to_string())), at);
    assert_eq!(compile_expressions(&one, Some(target), &mut ctx, false), target);
    assert_eq!(compile_expressions(&one, None, &mut ctx, false), StackIndex(1));
    ctx.new_local("x", target);
    ctx.set_can_be_function("x", false);
    let x = Path::AnyScope("x".to_string());
    assert_eq!(compile_path(&x, at, None, &mut ctx, false), target);
    assert_eq!(compile_path(&x, at, Some(StackIndex(1)), &mut ctx, true), StackIndex(1));
    ctx.set_can_be_function("x", true);
    assert_eq!(compile_path(&x, at, Some(StackIndex(1)), &mut ctx, false), StackIndex(1));
    assert_eq!(compile_path(&x, at, None, &mut ctx, true), target);
    ctx.emit(OpCode::Return(None), at);
    let chunk = ctx.into_chunk();
    let lines: Vec<String> = chunk.code().iter().map(|op| op.pretty_print()).collect();
    assert_eq!(lines, vec!["$0 = 1", "$1 = 1", "$1 = $0", "$1 = $0()", "return"]);
}

#[test]
fn instructions_list_themselves() {
    let r = |i| StackIndex(i);
    let lines = [
        (OpCode::Return(None), "return"),
        (OpCode::Return(Some(r(3))), "return $3"),
        (OpCode::SetNumber(r(0), "1.50".to_string()), "$0 = 1.50"),
        (OpCode::SetNull(r(12)), "$12 = null"),
        (OpCode::SetString(r(1), ConstantIndex(7)), "$1 = \"7\""),
        (OpCode::ReadVariable(r(1), "name".to_string()), "$1 = name"),
        (OpCode::Call0 { function: r(1), output: r(2) }, "$2 = $1()"),
        (OpCode::Call1 { function: r(1), output: r(2), arg: r(3) }, "2 = $1( $3 )"),
        (OpCode::Call { function: r(1), output: r(2), argument_count: 3 }, "$2 = $1( #3 )"),
        (OpCode::Add { output: r(0), lhs: r(1), rhs: r(2) }, "$0 = $1 + $2"),
        (OpCode::Subtract { output: r(0), lhs: r(1), rhs: r(2) }, "$0 = $1 - $2"),
        (OpCode::Multiply { output: r(0), lhs: r(1), rhs: r(2) }, "$0 = $1 * $2"),
        (OpCode::Divide { output: r(0), lhs: r(1), rhs: r(2) }, "$0 = $1 / $2"),
        (OpCode::Pow { output: r(0), lhs: r(1), rhs: r(2) }, "$0 = $1 ^ $2"),
        (OpCode::FuzzyOr { output: r(0), lhs: r(1), rhs: r(2) }, "$0 = $1 fuzzy_or $2"),
        (OpCode::FuzzyAnd { output: r(0), lhs: r(1), rhs: r(2) }, "$0 = $1 fuzzy_and $2"),
        (OpCode::And { output: r(0), lhs: r(1), rhs: r(2) }, "$0 = $1 and $2"),
        (OpCode::Equals { output: r(0), lhs: r(1), rhs: r(2) }, "$0 = $1 == $2"),
        (OpCode::NotEquals { output: r(0), lhs: r(1), rhs: r(2) }, "$0 = $1 != $2"),
        (OpCode::GreaterThan { output: r(0), lhs: r(1), rhs: r(2) }, "$0 = $1 > $2"),
        (OpCode::LessThan { output: r(0), lhs: r(1), rhs: r(2) }, "$0 = $1 < $2"),
        (OpCode::GreaterOrEquals { output: r(0), lhs: r(1), rhs: r(2) }, "$0 = $1 >= $2"),
        (OpCode::LessOrEquals { output: r(0), lhs: r(1), rhs: r(2) }, "$0 = $1 <= $2"),
        (OpCode::JumpIfFalse(r(4), 10), "if not $4 goto 10"),
        (OpCode::JumpIfTrue(r(4), 0), "if $4 goto 0"),
        (OpCode::JumpIfAbsOneOrGreater(r(4), 205), "if abs($4) >= 1 goto 205"),
        (OpCode::Jump(18446744073709551615), "goto 18446744073709551615"),
        (OpCode::Copy { source: r(1), output: r(2) }, "$2 = $1"),
        (OpCode::Print { value: r(1), output: r(2) }, "$2 = print $1"),
        (OpCode::Error(BytecodeError::Message("no".to_string())), "throw \"no\""),
        (OpCode::Error(BytecodeError::Register(r(9))), "throw $9"),
        (OpCode::Error(BytecodeError::UnpatchedOpCode), "FATAL! unpatched OpCode"),
    ];
    for (op, line) in lines {
        assert_eq!(op.pretty_print(), line);
    }
    assert_eq!(BytecodeError::<String>::UnpatchedOpCode.pretty_print(), "FATAL! unpatched OpCode");
    assert_eq!(StackIndex(3).with_offset(4), Register(7));
}
