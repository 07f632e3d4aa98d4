use miniscript::ast::Span;
use miniscript::errors::{
    CompileError, InternalError, MsError, MsErrorType, RuntimeError, CODE_COMPILE, CODE_INTERNAL,
    CODE_RUNTIME,
};
use miniscript::parsing::ast_parser::{Construct, ParseError, ParseErrorKind};
use miniscript::parsing::parser::{LexError, LexErrorKind};
use miniscript::text::{chars_of, decimal_chars, same_text, string_of};
use miniscript::value::{abs_clamp_01, less, less_or_same, negate, same, Value};
use miniscript::vm::op_code::NumericOp;

fn n(value: f64) -> Value {
    Value::Number(value.to_bits())
}

fn f(value: Value) -> f64 {
    f64::from_bits(value.as_f64())
}

const SAMPLES: [f64; 17] = [
    0.0,
    -0.0,
    1.0,
    -1.0,
    0.5,
    -0.5,
    0.25,
    2.0,
    -2.0,
    1e300,
    -1e300,
    5e-324,
    -5e-324,
    f64::INFINITY,
    f64::NEG_INFINITY,
    f64::NAN,
    f64::MAX,
];

#[test]
fn order_on_bits_is_the_order_of_numbers() {
    for a in SAMPLES {
        for b in SAMPLES {
            assert_eq!(less(a.to_bits(), b.to_bits()), a < b, "{a} < {b}");
            assert_eq!(less_or_same(a.to_bits(), b.to_bits()), a <= b, "{a} <= {b}");
            assert_eq!(same(a.to_bits(), b.to_bits()), a == b, "{a} == {b}");
            assert_eq!(f(n(a).lt(&n(b))), if a < b { 1.0 } else { 0.0 });
            assert_eq!(f(n(a).lte(&n(b))), if a <= b { 1.0 } else { 0.0 });
            assert_eq!(f(n(a).gt(&n(b))), if a > b { 1.0 } else { 0.0 });
            assert_eq!(f(n(a).gte(&n(b))), if a >= b { 1.0 } else { 0.0 });
            assert_eq!(n(a) == n(b), a == b);
        }
        assert_eq!(negate(a.to_bits()), (-a).to_bits());
        assert_eq!(n(a).neg().as_f64(), (-a).to_bits());
        assert_eq!(n(a).as_bool(), a > 0.0);
    }
    let negative_nan = negate(f64::NAN.to_bits());
    assert!(!less(negative_nan, 0.0f64.to_bits()));
    assert!(!same(negative_nan, negative_nan));
}

fn clamp(value: f64) -> f64 {
    f64::from_bits(abs_clamp_01(value.to_bits()))
}

#[test]
fn clamping_folds_into_the_unit_interval() {
    assert_eq!(clamp(0.25), 0.25);
    assert_eq!(clamp(-0.25), 0.25);
    assert_eq!(clamp(1.0), 1.0);
    assert_eq!(clamp(1.5), 1.0);
    assert_eq!(clamp(-7.0), 1.0);
    assert_eq!(clamp(0.0), 0.0);
    assert_eq!(clamp(-0.0).to_bits(), (-0.0f64).to_bits());
    assert_eq!(clamp(f64::INFINITY), 1.0);
    assert_eq!(clamp(f64::NEG_INFINITY), 1.0);
    // What is no number is folded to 1.
    assert_eq!(clamp(f64::NAN), 1.0);
    assert_eq!(clamp(-f64::NAN), 1.0);
    for a in SAMPLES {
        assert!((0.0..=1.0).contains(&clamp(a)), "{a}");
    }
}

#[test]
fn fuzzy_operators_clamp_what_the_host_computed() {
    let (a, b) = (0.5f64, 0.5f64);
    assert_eq!(f(Value::fuzzy_and((a * b).to_bits())), 0.25);
    assert_eq!(f(Value::fuzzy_or((a + b - a * b).to_bits())), 0.75);
    assert_eq!(f(NumericOp::FuzzyAnd.settle((a * b).to_bits())), 0.25);
    assert_eq!(f(NumericOp::FuzzyOr.settle((a + b - a * b).to_bits())), 0.75);
    assert_eq!(f(NumericOp::FuzzyAnd.settle((-3.0f64).to_bits())), 1.0);
    // Operands so large that the host's sum is no number: the result is 1.
    let (a, b) = (1.7e308f64, 1.7e308f64);
    assert!((a + b - a * b).is_nan());
    assert_eq!(f(Value::fuzzy_or((a + b - a * b).to_bits())), 1.0);
    assert_eq!(f(NumericOp::FuzzyOr.settle((a + b - a * b).to_bits())), 1.0);
    assert_eq!(f(Value::fuzzy_and((a * b).to_bits())), 1.0);
    assert_eq!(f(NumericOp::FuzzyOr.settle((-0.5f64).to_bits())), 0.5);
    assert_eq!(f(NumericOp::Add.settle((-3.0f64).to_bits())), -3.0);
    assert_eq!(f(NumericOp::Subtract.settle(7.5f64.to_bits())), 7.5);
    assert_eq!(f(NumericOp::Multiply.settle(7.5f64.to_bits())), 7.5);
    assert_eq!(f(NumericOp::Divide.settle(7.5f64.to_bits())), 7.5);
    assert_eq!(f(NumericOp::Pow.settle(7.5f64.to_bits())), 7.5);
}

#[test]
fn null_is_equal_to_nothing_and_counts_as_zero() {
    assert!(!(Value::Null == Value::Null));
    assert!(!(Value::Null == n(0.0)));
    assert!(!(n(0.0) == Value::Null));
    assert!(n(0.0) == n(-0.0));
    assert_eq!(Value::Null.as_f64(), 0.0f64.to_bits());
    assert_eq!(Value::Null.as_f64_checked(), None);
    assert_eq!(n(2.5).as_f64_checked(), Some(2.5f64.to_bits()));
    assert_eq!(Value::Null.as_probability_number(), 0.0f64.to_bits());
    assert_eq!(n(0.3).as_probability_number(), 0.3f64.to_bits());
    assert!(!Value::Null.as_bool());
    assert_eq!(Value::Null.neg().as_f64(), (-0.0f64).to_bits());
    assert_eq!(f(Value::Null.lt(&n(1.0))), 1.0);
    assert_eq!(f(n(-1.0).gte(&Value::Null)), 0.0);
    assert_eq!(f(Value::from_bool(true)), 1.0);
    assert_eq!(f(Value::from_bool(false)), 0.0);
    assert_eq!(f(n(2.0).and(&n(0.1))), 1.0);
    assert_eq!(f(n(2.0).and(&Value::Null)), 0.0);
    assert_eq!(f(n(-2.0).or(&Value::Null)), 0.0);
    assert_eq!(f(n(-2.0).or(&n(0.1))), 1.0);
}

#[test]
fn the_code_of_an_error_tells_its_family() {
    assert_eq!((CODE_INTERNAL, CODE_RUNTIME, CODE_COMPILE), (0, 1000, 2000));
    let internal = InternalError::NotImplemented;
    let unpatched = InternalError::UnpatchedOpCode(12);
    let runtime = RuntimeError::Custom(Value::Null);
    let compile = CompileError::from_compilation(
        "broken".to_string(),
        Span { start: 1, end: 2 },
        vec![("here".to_string(), Span { start: 0, end: 4 })],
    );
    assert_eq!((internal.raw_code(), internal.code()), (0, 0));
    assert_eq!((unpatched.raw_code(), unpatched.code()), (1, 1));
    assert_eq!((runtime.raw_code(), runtime.code()), (0, 1000));
    assert_eq!((compile.raw_code(), compile.code()), (0, 2000));
    assert_eq!(internal.message(), "Operation not implemented");
    assert_eq!(unpatched.message(), "OpCode at 12 is unpatched");
    assert_eq!(compile.message(), "Parsing error: broken");
    assert_eq!(
        compile,
        CompileError::Compilation(
            "broken".to_string(),
            Span { start: 1, end: 2 },
            vec![("here".to_string(), Span { start: 0, end: 4 })]
        )
    );
    let of = |error_type| MsError { src_id: "a".to_string(), error_type };
    assert_eq!(of(MsErrorType::Internal(unpatched)).code(), 1);
    assert_eq!(of(MsErrorType::Runtime(runtime)).code(), 1000);
    assert_eq!(of(MsErrorType::Compile(compile)).code(), 2000);
    assert_eq!(MsErrorType::Internal(internal).code(), 0);
}

#[test]
fn diagnostics_become_compile_errors() {
    let lex = LexError { span: Span { start: 3, end: 4 }, kind: LexErrorKind::UnexpectedCharacter };
    assert_eq!(
        CompileError::from_lex(&lex),
        CompileError::Compilation("unexpected character".to_string(), Span { start: 3, end: 4 }, vec![])
    );
    let parse = ParseError {
        kind: ParseErrorKind::ExpectedEnd,
        span: Span { start: 9, end: 9 },
        contexts: vec![
            (Construct::While, Span { start: 4, end: 9 }),
            (Construct::Function, Span { start: 0, end: 8 }),
        ],
    };
    assert_eq!(
        CompileError::from_parse(&parse),
        CompileError::Compilation(
            "expected 'end'".to_string(),
            Span { start: 9, end: 9 },
            vec![
                ("while parsing this while loop".to_string(), Span { start: 4, end: 9 }),
                ("while parsing this function".to_string(), Span { start: 0, end: 8 }),
            ]
        )
    );
    let errors = miniscript::compile("file", "x = $\ny = 1 ~ 2").unwrap_err();
    assert_eq!(errors.len(), 2);
    assert_eq!(errors[0].src_id, "file");
    assert_eq!(errors[1].code(), 2000);
    assert_eq!(
        errors[1].error_type,
        MsErrorType::Compile(CompileError::Compilation(
            "unexpected character".to_string(),
            Span { start: 12, end: 13 },
            vec![]
        ))
    );
}

#[test]
fn text_helpers() {
    let digits = |n: usize| decimal_chars(n).into_iter().collect::<String>();
    assert_eq!(digits(0), "0");
    assert_eq!(digits(9), "9");
    assert_eq!(digits(10), "10");
    assert_eq!(digits(1234567890), "1234567890");
    assert_eq!(digits(usize::MAX), usize::MAX.to_string());
    assert_eq!(chars_of("a\u{e9}"), vec!['a', '\u{e9}']);
    assert_eq!(string_of(&chars_of("hello"), 1, 3), "el");
    assert_eq!(string_of(&chars_of("hello"), 2, 2), "");
    assert!(same_text("abc", "abc"));
    assert!(!same_text("abc", "abd"));
    assert!(!same_text("abc", "ab"));
    assert!(same_text("", ""));
}
