use miniscript::ast::Span;
use miniscript::parsing::parser::{ident, lexer, Keyword, LexError, LexErrorKind, Token};

fn kinds(source: &str) -> Vec<Token<String>> {
    lexer(source).unwrap().into_iter().map(|(token, _)| token).collect()
}

fn number(text: &str) -> Token<String> {
    Token::Number(text.to_string())
}

fn name(text: &str) -> Token<String> {
    Token::Identifier(text.to_string())
}

#[test]
fn lexes_numbers_as_raw_text() {
    assert_eq!(kinds("1"), vec![number("1")]);
    assert_eq!(kinds("-1"), vec![number("-1")]);
    assert_eq!(kinds("12.50"), vec![number("12.50")]);
    assert_eq!(kinds("1."), vec![number("1.")]);
    assert_eq!(kinds("1e5"), vec![number("1e5")]);
    assert_eq!(kinds("1.5E-3"), vec![number("1.5E-3")]);
    assert_eq!(kinds("2e+10"), vec![number("2e+10")]);
}

#[test]
fn exponent_needs_digits() {
    assert_eq!(kinds("1e"), vec![number("1"), name("e")]);
    assert_eq!(kinds("1e+"), vec![number("1"), name("e"), Token::OpPlus]);
    assert_eq!(kinds(".5"), vec![Token::Dot, number("5")]);
}

#[test]
fn lone_minus_is_an_operator() {
    assert_eq!(kinds("-"), vec![Token::OpMinus]);
    assert_eq!(kinds("- 1"), vec![Token::OpMinus, number("1")]);
    assert_eq!(kinds("-x"), vec![Token::OpMinus, name("x")]);
    assert_eq!(kinds("a - b"), vec![name("a"), Token::OpMinus, name("b")]);
    assert_eq!(kinds("--1"), vec![Token::OpDecrement, number("1")]);
    assert_eq!(kinds("-=1"), vec![Token::OpAssignMinus, number("1")]);
    assert_eq!(kinds("a -1"), vec![name("a"), number("-1")]);
}

#[test]
fn lexes_strings_with_doubled_quotes() {
    assert_eq!(kinds("\"hello\""), vec![Token::String("hello".to_string())]);
    assert_eq!(kinds("\"\""), vec![Token::String(String::new())]);
    assert_eq!(
        kinds("\"say \"\"hi\"\"\""),
        vec![Token::String("say \"\"hi\"\"".to_string())]
    );
    assert_eq!(kinds("\"a\\n\""), vec![Token::String("a\\n".to_string())]);
}

#[test]
fn lexes_keywords_and_identifiers() {
    assert_eq!(
        kinds("if then else end while for in break continue return"),
        vec![
            Token::Keyword(Keyword::If),
            Token::Keyword(Keyword::Then),
            Token::Keyword(Keyword::Else),
            Token::Keyword(Keyword::End),
            Token::Keyword(Keyword::While),
            Token::Keyword(Keyword::For),
            Token::Keyword(Keyword::In),
            Token::Keyword(Keyword::Break),
            Token::Keyword(Keyword::Continue),
            Token::Keyword(Keyword::Return),
        ]
    );
    assert_eq!(
        kinds("function isa new null and or not true false repeat"),
        vec![
            Token::Keyword(Keyword::Function),
            Token::Keyword(Keyword::Isa),
            Token::Keyword(Keyword::New),
            Token::Keyword(Keyword::Null),
            Token::Keyword(Keyword::And),
            Token::Keyword(Keyword::Or),
            Token::Keyword(Keyword::Not),
            Token::Keyword(Keyword::True),
            Token::Keyword(Keyword::False),
            Token::Keyword(Keyword::Repeat),
        ]
    );
    assert_eq!(kinds("IF iff _x x1 end_"), vec![
        name("IF"),
        name("iff"),
        name("_x"),
        name("x1"),
        name("end_"),
    ]);
    assert_eq!(Keyword::While.token(), Token::Keyword(Keyword::While));
}

#[test]
fn identifiers_take_code_points_above_the_falloff() {
    assert_eq!(kinds("h\u{e9}llo"), vec![name("h\u{e9}llo")]);
    assert_eq!(kinds("\u{4e16}\u{754c} = 1"), vec![
        name("\u{4e16}\u{754c}"),
        Token::OpAssign,
        number("1"),
    ]);
    // U+00A0 is white space between tokens and a letter inside a name.
    assert_eq!(kinds("a \u{a0}b"), vec![name("a"), name("b")]);
    assert_eq!(kinds("a\u{a0}b"), vec![name("a\u{a0}b")]);
    let chars: Vec<char> = "ab1 c".chars().collect();
    assert_eq!(ident(&chars, 0), Some(3));
    assert_eq!(ident(&chars, 2), None);
    assert_eq!(ident(&chars, 3), None);
    assert_eq!(ident(&chars, 4), Some(5));
    assert_eq!(ident(&chars, 9), None);
}

#[test]
fn lexes_operators_longest_first() {
    assert_eq!(
        kinds("== != >= <= += -= *= /= %= ^= ++ --"),
        vec![
            Token::OpEqual,
            Token::OpNotEqual,
            Token::OpGreatEqual,
            Token::OpLessEqual,
            Token::OpAssignPlus,
            Token::OpAssignMinus,
            Token::OpAssignTimes,
            Token::OpAssignDivide,
            Token::OpAssignMod,
            Token::OpAssignPower,
            Token::OpIncrement,
            Token::OpDecrement,
        ]
    );
    assert_eq!(
        kinds("+ - * / % ^ = < > ( ) [ ] { } @ , . :"),
        vec![
            Token::OpPlus,
            Token::OpMinus,
            Token::OpTimes,
            Token::OpDivide,
            Token::OpMod,
            Token::OpPower,
            Token::OpAssign,
            Token::OpLesser,
            Token::OpGreater,
            Token::LParen,
            Token::RParen,
            Token::LSquare,
            Token::RSquare,
            Token::LCurly,
            Token::RCurly,
            Token::AddressOf,
            Token::Comma,
            Token::Dot,
            Token::Colon,
        ]
    );
    assert_eq!(kinds("a<=b"), vec![name("a"), Token::OpLessEqual, name("b")]);
}

#[test]
fn comments_are_kept_and_line_breaks_differ_from_semicolons() {
    assert_eq!(
        kinds("x // the rest\ny;z"),
        vec![
            name("x"),
            Token::Comment(" the rest".to_string()),
            Token::EOL,
            name("y"),
            Token::Semicolon,
            name("z"),
        ]
    );
    assert_eq!(kinds("a / b"), vec![name("a"), Token::OpDivide, name("b")]);
    assert_eq!(kinds(" \t\r x \t"), vec![name("x")]);
    assert_eq!(kinds(""), vec![]);
}

#[test]
fn spans_are_byte_ranges() {
    let tokens = lexer("ab \u{e9}\u{4e16} \"s\" // c").unwrap();
    assert_eq!(
        tokens,
        vec![
            (name("ab"), Span { start: 0, end: 2 }),
            (name("\u{e9}\u{4e16}"), Span { start: 3, end: 8 }),
            (Token::String("s".to_string()), Span { start: 9, end: 12 }),
            (Token::Comment(" c".to_string()), Span { start: 13, end: 17 }),
        ]
    );
    assert_eq!(Span::new(3, 8), Span { start: 3, end: 8 });
    assert_eq!(Span::empty(), Span { start: 0, end: 0 });
}

#[test]
fn reports_every_character_that_starts_no_token() {
    assert_eq!(
        lexer("a ? b # c"),
        Err(vec![
            LexError { span: Span { start: 2, end: 3 }, kind: LexErrorKind::UnexpectedCharacter },
            LexError { span: Span { start: 6, end: 7 }, kind: LexErrorKind::UnexpectedCharacter },
        ])
    );
    assert_eq!(
        lexer("x = \"open"),
        Err(vec![LexError {
            span: Span { start: 4, end: 5 },
            kind: LexErrorKind::UnterminatedString,
        }])
    );
    assert_eq!(
        lexer("!"),
        Err(vec![LexError {
            span: Span { start: 0, end: 1 },
            kind: LexErrorKind::UnexpectedCharacter,
        }])
    );
    assert_eq!(LexErrorKind::UnexpectedCharacter.reason(), "unexpected character");
    assert_eq!(LexErrorKind::UnterminatedString.reason(), "unterminated string literal");
}
