//! The parser: from tokens to the syntax tree.
//!
//! The grammar is written down as spec functions over the tokens; the parser
//! is proved to compute exactly what they say. Binding strength, from the
//! weakest: `or`, `and`, `not` and `isa`, the comparison chain, `+ -`,
//! `* /`, unary `-`, `new`, `@`, `^`, then indexing and calls.

use crate::ast::{
    BinaryOp, Body, Comparison, Expr, FunctionArgument, Path, Span, Spanned, Statement, UnaryOp,
    Value,
};
use crate::parsing::parser::{tokens_view, Keyword, Token};
use crate::parsing::tree::{
    argument_view, arguments_view, body_view, branches_view, expr_view, links_view, nodes_view,
    pairs_view, statement_view, ArgumentView, ExprView, Node, StatementView, Step, ValueView,
};
use vstd::prelude::*;

verus! {

broadcast use vstd::std_specs::vec::group_vec_axioms;

/// What the parser found wrong.
#[derive(Debug, Clone, Copy, PartialEq, Eq, Structural)]
pub enum ParseErrorKind {
    /// An expression has to start here.
    ExpectedExpression,
    /// `then` has to follow the condition of an `if`.
    ExpectedThen,
    /// `end` has to close this construct.
    ExpectedEnd,
    /// `in` has to follow the variable of a `for`.
    ExpectedIn,
    /// A name has to stand here.
    ExpectedIdentifier,
    /// `)` has to close this.
    ExpectedClosingParen,
    /// `]` has to close this.
    ExpectedClosingSquare,
    /// `}` has to close this.
    ExpectedClosingCurly,
    /// `:` has to part a key from its value.
    ExpectedColon,
    /// The statement is over, and something else than a line terminator
    /// follows.
    ExpectedEndOfStatement,
    /// Only a variable or an indexing can be assigned to.
    InvalidAssignmentTarget,
    /// The language does not have this operator.
    UnsupportedOperator,
    /// `end` or `else` closes nothing here.
    UnexpectedClosing,
}

/// The constructs that the parser names in a diagnostic.
#[derive(Debug, Clone, Copy, PartialEq, Eq, Structural)]
pub enum Construct {
    If,
    While,
    For,
    Function,
    List,
    MapLiteral,
    Call,
    Parentheses,
    Index,
}

/// What is wrong and where, and the constructs that were being read there,
/// innermost first.
#[derive(Debug, PartialEq)]
pub struct ParseError {
    pub kind: ParseErrorKind,
    pub span: Span,
    pub contexts: Vec<(Construct, Span)>,
}

/// A diagnostic as contracts see it.
pub struct ParseErrorView {
    pub kind: ParseErrorKind,
    pub span: Span,
    pub contexts: Seq<(Construct, Span)>,
}

impl View for ParseError {
    type V = ParseErrorView;

    open spec fn view(&self) -> ParseErrorView {
        ParseErrorView { kind: self.kind, span: self.span, contexts: self.contexts@ }
    }
}

impl ParseErrorView {
    /// The diagnostic with one more construct around it.
    pub open spec fn within(self, construct: Construct, span: Span) -> ParseErrorView {
        ParseErrorView { contexts: self.contexts.push((construct, span)), ..self }
    }
}

impl ParseErrorKind {
    /// The wording of the diagnostic.
    pub open spec fn spec_reason(self) -> Seq<char> {
        match self {
            ParseErrorKind::ExpectedExpression => "expected an expression"@,
            ParseErrorKind::ExpectedThen => "expected 'then'"@,
            ParseErrorKind::ExpectedEnd => "expected 'end'"@,
            ParseErrorKind::ExpectedIn => "expected 'in'"@,
            ParseErrorKind::ExpectedIdentifier => "expected an identifier"@,
            ParseErrorKind::ExpectedClosingParen => "expected ')'"@,
            ParseErrorKind::ExpectedClosingSquare => "expected ']'"@,
            ParseErrorKind::ExpectedClosingCurly => "expected '}'"@,
            ParseErrorKind::ExpectedColon => "expected ':'"@,
            ParseErrorKind::ExpectedEndOfStatement => "expected the end of the statement"@,
            ParseErrorKind::InvalidAssignmentTarget => "invalid assignment target"@,
            ParseErrorKind::UnsupportedOperator => "unsupported operator"@,
            ParseErrorKind::UnexpectedClosing => "nothing to close here"@,
        }
    }

    /// The wording of the diagnostic.
    pub fn reason(self) -> (text: String)
        ensures
            text@ == self.spec_reason(),
    {
        match self {
            ParseErrorKind::ExpectedExpression => "expected an expression".to_owned(),
            ParseErrorKind::ExpectedThen => "expected 'then'".to_owned(),
            ParseErrorKind::ExpectedEnd => "expected 'end'".to_owned(),
            ParseErrorKind::ExpectedIn => "expected 'in'".to_owned(),
            ParseErrorKind::ExpectedIdentifier => "expected an identifier".to_owned(),
            ParseErrorKind::ExpectedClosingParen => "expected ')'".to_owned(),
            ParseErrorKind::ExpectedClosingSquare => "expected ']'".to_owned(),
            ParseErrorKind::ExpectedClosingCurly => "expected '}'".to_owned(),
            ParseErrorKind::ExpectedColon => "expected ':'".to_owned(),
            ParseErrorKind::ExpectedEndOfStatement => "expected the end of the statement".to_owned(),
            ParseErrorKind::InvalidAssignmentTarget => "invalid assignment target".to_owned(),
            ParseErrorKind::UnsupportedOperator => "unsupported operator".to_owned(),
            ParseErrorKind::UnexpectedClosing => "nothing to close here".to_owned(),
        }
    }
}

impl Construct {
    /// The wording of the construct in a diagnostic.
    pub open spec fn spec_label(self) -> Seq<char> {
        match self {
            Construct::If => "while parsing this if statement"@,
            Construct::While => "while parsing this while loop"@,
            Construct::For => "while parsing this for loop"@,
            Construct::Function => "while parsing this function"@,
            Construct::List => "while parsing this list"@,
            Construct::MapLiteral => "while parsing this map"@,
            Construct::Call => "while parsing this call"@,
            Construct::Parentheses => "while parsing this parenthesized expression"@,
            Construct::Index => "while parsing this index"@,
        }
    }

    /// The wording of the construct in a diagnostic.
    pub fn label(self) -> (text: String)
        ensures
            text@ == self.spec_label(),
    {
        match self {
            Construct::If => "while parsing this if statement".to_owned(),
            Construct::While => "while parsing this while loop".to_owned(),
            Construct::For => "while parsing this for loop".to_owned(),
            Construct::Function => "while parsing this function".to_owned(),
            Construct::List => "while parsing this list".to_owned(),
            Construct::MapLiteral => "while parsing this map".to_owned(),
            Construct::Call => "while parsing this call".to_owned(),
            Construct::Parentheses => "while parsing this parenthesized expression".to_owned(),
            Construct::Index => "while parsing this index".to_owned(),
        }
    }
}

/// The tokens as the grammar reads them.
pub type Tokens = Seq<(Token<Seq<char>>, Span)>;

/// The levels of binding strength, from the weakest: `or`
pub const LEVEL_OR: u8 = 0;

/// `and`
pub const LEVEL_AND: u8 = 1;

/// `not` and `isa`
pub const LEVEL_NOT: u8 = 2;

/// The comparison chain
pub const LEVEL_COMPARISON: u8 = 3;

/// `+` and `-`
pub const LEVEL_ADDITIVE: u8 = 4;

/// `*` and `/`
pub const LEVEL_MULTIPLICATIVE: u8 = 5;

/// Unary `-`
pub const LEVEL_NEGATION: u8 = 6;

/// `new`
pub const LEVEL_NEW: u8 = 7;

/// `@`
pub const LEVEL_ADDRESS_OF: u8 = 8;

/// `^`
pub const LEVEL_POWER: u8 = 9;

/// Indexing and calls
pub const LEVEL_POSTFIX: u8 = 10;

/// Operands
pub const LEVEL_ATOM: u8 = 11;

/// How many tokens stand at or after `pos`.
pub open spec fn remaining(tokens: Tokens, pos: int) -> nat {
    if 0 <= pos <= tokens.len() {
        (tokens.len() - pos) as nat
    } else if pos < 0 {
        tokens.len() + 1
    } else {
        0
    }
}

/// The span of the token at `pos`, or the empty span at the end of the last
/// token where the tokens end before `pos`.
pub open spec fn span_at(tokens: Tokens, pos: int) -> Span {
    if 0 <= pos < tokens.len() {
        tokens[pos].1
    } else if tokens.len() > 0 {
        Span { start: tokens[tokens.len() - 1].1.end, end: tokens[tokens.len() - 1].1.end }
    } else {
        Span { start: 0, end: 0 }
    }
}

/// Whether the token at `pos` is `token`.
pub open spec fn is_at(tokens: Tokens, pos: int, token: Token<Seq<char>>) -> bool {
    0 <= pos < tokens.len() && tokens[pos].0 == token
}

/// A diagnostic at the token at `pos`.
pub open spec fn error_at(tokens: Tokens, pos: int, kind: ParseErrorKind) -> ParseErrorView {
    ParseErrorView { kind, span: span_at(tokens, pos), contexts: Seq::empty() }
}

/// The binary operator that a token is at a level of binding strength.
pub open spec fn binary_operator(token: Token<Seq<char>>, level: u8) -> Option<BinaryOp> {
    if level == LEVEL_OR && token == Token::<Seq<char>>::Keyword(Keyword::Or) {
        Some(BinaryOp::Or)
    } else if level == LEVEL_AND && token == Token::<Seq<char>>::Keyword(Keyword::And) {
        Some(BinaryOp::And)
    } else if level == LEVEL_ADDITIVE && token == Token::<Seq<char>>::OpPlus {
        Some(BinaryOp::Add)
    } else if level == LEVEL_ADDITIVE && token == Token::<Seq<char>>::OpMinus {
        Some(BinaryOp::Sub)
    } else if level == LEVEL_MULTIPLICATIVE && token == Token::<Seq<char>>::OpTimes {
        Some(BinaryOp::Mul)
    } else if level == LEVEL_MULTIPLICATIVE && token == Token::<Seq<char>>::OpDivide {
        Some(BinaryOp::Div)
    } else if level == LEVEL_POWER && token == Token::<Seq<char>>::OpPower {
        Some(BinaryOp::Pow)
    } else {
        None
    }
}

/// The prefix operator that a token is at a level of binding strength.
pub open spec fn unary_operator(token: Token<Seq<char>>, level: u8) -> Option<UnaryOp> {
    if level == LEVEL_NOT && token == Token::<Seq<char>>::Keyword(Keyword::Not) {
        Some(UnaryOp::Not)
    } else if level == LEVEL_NOT && token == Token::<Seq<char>>::Keyword(Keyword::Isa) {
        Some(UnaryOp::Isa)
    } else if level == LEVEL_NEGATION && token == Token::<Seq<char>>::OpMinus {
        Some(UnaryOp::Neg)
    } else if level == LEVEL_NEW && token == Token::<Seq<char>>::Keyword(Keyword::New) {
        Some(UnaryOp::New)
    } else if level == LEVEL_ADDRESS_OF && token == Token::<Seq<char>>::AddressOf {
        Some(UnaryOp::AddressOf)
    } else {
        None
    }
}

/// The comparison that a token is.
pub open spec fn comparison_operator(token: Token<Seq<char>>) -> Option<Comparison> {
    match token {
        Token::OpEqual => Some(Comparison::Eq),
        Token::OpNotEqual => Some(Comparison::NotEq),
        Token::OpGreater => Some(Comparison::Gt),
        Token::OpLesser => Some(Comparison::Lt),
        Token::OpGreatEqual => Some(Comparison::GtEq),
        Token::OpLessEqual => Some(Comparison::LtEq),
        _ => None,
    }
}

/// Whether a token is an operator that the language does not have.
pub open spec fn is_unsupported(token: Token<Seq<char>>) -> bool {
    match token {
        Token::OpMod
        | Token::OpAssignPlus
        | Token::OpAssignMinus
        | Token::OpAssignTimes
        | Token::OpAssignDivide
        | Token::OpAssignMod
        | Token::OpAssignPower
        | Token::OpIncrement
        | Token::OpDecrement => true,
        _ => false,
    }
}

/// Whether a token ends a statement: a line break or `;`.
pub open spec fn is_terminator(token: Token<Seq<char>>) -> bool {
    token == Token::<Seq<char>>::EOL || token == Token::<Seq<char>>::Semicolon
}

/// Whether a token closes a body: `end` or `else`.
pub open spec fn is_closer(token: Token<Seq<char>>) -> bool {
    token == Token::<Seq<char>>::Keyword(Keyword::End) || token == Token::<Seq<char>>::Keyword(
        Keyword::Else,
    )
}

/// Whether the argument of a call without parentheses can start with this
/// token.
pub open spec fn starts_argument(token: Token<Seq<char>>) -> bool {
    match token {
        Token::Number(_) | Token::String(_) | Token::Identifier(_) => true,
        Token::Keyword(keyword) => keyword == Keyword::Null || keyword == Keyword::True || keyword
            == Keyword::False || keyword == Keyword::Not || keyword == Keyword::Isa || keyword
            == Keyword::New || keyword == Keyword::Function,
        Token::LCurly | Token::AddressOf => true,
        _ => false,
    }
}

/// The span from the start of one span to the end of another.
pub open spec fn join(from: Span, to: Span) -> Span {
    Span { start: from.start, end: to.end }
}

/// What parsing a body gives: its statements, the diagnostics, and the place
/// of the token that closed it.
pub struct BodyView {
    pub steps: Seq<Step>,
    pub errors: Seq<ParseErrorView>,
    pub end: int,
}

/// What parsing one statement gives: the statement, or an error node where
/// it could not be read; the diagnostics; the place after it; and whether it
/// could be read.
pub struct StepView {
    pub step: Step,
    pub errors: Seq<ParseErrorView>,
    pub end: int,
    pub failed: bool,
}

/// The expression of binding strength `level` or stronger that starts at
/// `pos`, and the place after it.
pub open spec fn expr_at(tokens: Tokens, pos: int, level: u8) -> Result<(Node, int), ParseErrorView>
    decreases remaining(tokens, pos), 20 - level, 1int,
{
    if pos < 0 || level > LEVEL_ATOM {
        Err(error_at(tokens, pos, ParseErrorKind::ExpectedExpression))
    } else if level == LEVEL_ATOM {
        atom_at(tokens, pos)
    } else if level == LEVEL_POSTFIX {
        match expr_at(tokens, pos, LEVEL_ATOM) {
            Ok((node, end)) => if end >= pos {
                postfix_rest(tokens, node, end)
            } else {
                Ok((node, end))
            },
            Err(error) => Err(error),
        }
    } else if level == LEVEL_COMPARISON {
        match expr_at(tokens, pos, LEVEL_ADDITIVE) {
            Ok((node, end)) => if end >= pos {
                comparison_rest(tokens, node, Seq::empty(), end)
            } else {
                Ok((node, end))
            },
            Err(error) => Err(error),
        }
    } else if level == LEVEL_NOT || level == LEVEL_NEGATION || level == LEVEL_NEW || level
        == LEVEL_ADDRESS_OF {
        if pos < tokens.len() && unary_operator(tokens[pos].0, level) is Some {
            match expr_at(tokens, pos + 1, level) {
                Ok((node, end)) => Ok(
                    (
                        (
                            ExprView::Unary(unary_operator(tokens[pos].0, level)->0, Box::new(node)),
                            join(tokens[pos].1, node.1),
                        ),
                        end,
                    ),
                ),
                Err(error) => Err(error),
            }
        } else {
            expr_at(tokens, pos, (level + 1) as u8)
        }
    } else {
        match expr_at(tokens, pos, (level + 1) as u8) {
            Ok((node, end)) => if end >= pos {
                binary_rest(tokens, node, end, level)
            } else {
                Ok((node, end))
            },
            Err(error) => Err(error),
        }
    }
}

/// What follows a left operand at a level of binary operators: as long as an
/// operator of the level follows, it takes what was read as its left operand.
pub open spec fn binary_rest(tokens: Tokens, lhs: Node, pos: int, level: u8) -> Result<
    (Node, int),
    ParseErrorView,
>
    decreases remaining(tokens, pos), 0int, 0int,
{
    if 0 <= pos < tokens.len() && level < LEVEL_ATOM && binary_operator(tokens[pos].0, level)
        is Some {
        match expr_at(tokens, pos + 1, (level + 1) as u8) {
            Ok((rhs, end)) => if end > pos {
                binary_rest(
                    tokens,
                    (
                        ExprView::Binary(
                            Box::new(lhs),
                            binary_operator(tokens[pos].0, level)->0,
                            Box::new(rhs),
                        ),
                        join(lhs.1, rhs.1),
                    ),
                    end,
                    level,
                )
            } else {
                Err(error_at(tokens, pos, ParseErrorKind::ExpectedExpression))
            },
            Err(error) => Err(error),
        }
    } else {
        Ok((lhs, pos))
    }
}

/// What follows the left operand of a comparison chain: every comparison
/// that follows adds a link. Without a link the operand is the expression.
pub open spec fn comparison_rest(
    tokens: Tokens,
    lhs: Node,
    chain: Seq<(Comparison, Node)>,
    pos: int,
) -> Result<(Node, int), ParseErrorView>
    decreases remaining(tokens, pos), 0int, 0int,
{
    if 0 <= pos < tokens.len() && comparison_operator(tokens[pos].0) is Some {
        match expr_at(tokens, pos + 1, LEVEL_ADDITIVE) {
            Ok((rhs, end)) => if end > pos {
                comparison_rest(
                    tokens,
                    lhs,
                    chain.push((comparison_operator(tokens[pos].0)->0, rhs)),
                    end,
                )
            } else {
                Err(error_at(tokens, pos, ParseErrorKind::ExpectedExpression))
            },
            Err(error) => Err(error),
        }
    } else if chain.len() == 0 {
        Ok((lhs, pos))
    } else {
        Ok(
            (
                (ExprView::Comparison(Box::new(lhs), chain), join(lhs.1, chain[chain.len() - 1].1.1)),
                pos,
            ),
        )
    }
}

/// What follows an operand: `.name`, `[key]` and `(arguments)`, each of
/// which takes what was read as its base.
pub open spec fn postfix_rest(tokens: Tokens, base: Node, pos: int) -> Result<
    (Node, int),
    ParseErrorView,
>
    decreases remaining(tokens, pos), 0int, 0int,
{
    if pos < 0 || pos >= tokens.len() {
        Ok((base, pos))
    } else if tokens[pos].0 == Token::<Seq<char>>::Dot {
        if pos + 1 < tokens.len() && tokens[pos + 1].0 is Identifier {
            postfix_rest(
                tokens,
                (
                    ExprView::Index(Box::new(base), tokens[pos + 1].0->Identifier_0),
                    join(base.1, tokens[pos + 1].1),
                ),
                pos + 2,
            )
        } else {
            Err(error_at(tokens, pos + 1, ParseErrorKind::ExpectedIdentifier))
        }
    } else if tokens[pos].0 == Token::<Seq<char>>::LSquare {
        match expr_at(tokens, pos + 1, LEVEL_OR) {
            Ok((key, end)) => if end > pos && is_at(tokens, end, Token::RSquare) {
                postfix_rest(
                    tokens,
                    (
                        ExprView::ExprIndex(Box::new(base), Box::new(key)),
                        join(base.1, tokens[end].1),
                    ),
                    end + 1,
                )
            } else {
                Err(
                    error_at(tokens, end, ParseErrorKind::ExpectedClosingSquare).within(
                        Construct::Index,
                        tokens[pos].1,
                    ),
                )
            },
            Err(error) => Err(error.within(Construct::Index, tokens[pos].1)),
        }
    } else if tokens[pos].0 == Token::<Seq<char>>::LParen {
        match items_at(tokens, pos + 1, Seq::empty(), Token::RParen) {
            Ok((arguments, end)) => if end > pos && is_at(tokens, end, Token::RParen) {
                postfix_rest(
                    tokens,
                    (ExprView::Call(Box::new(base), arguments), join(base.1, tokens[end].1)),
                    end + 1,
                )
            } else {
                Err(
                    error_at(tokens, end, ParseErrorKind::ExpectedClosingParen).within(
                        Construct::Call,
                        tokens[pos].1,
                    ),
                )
            },
            Err(error) => Err(error.within(Construct::Call, tokens[pos].1)),
        }
    } else {
        Ok((base, pos))
    }
}

/// The expressions, parted by commas, that stand before the token `closing`,
/// added to `items`; and the place of the token after them.
pub open spec fn items_at(tokens: Tokens, pos: int, items: Seq<Node>, closing: Token<Seq<char>>) -> Result<
    (Seq<Node>, int),
    ParseErrorView,
>
    decreases remaining(tokens, pos), 30int, 0int,
{
    if pos < 0 {
        Ok((items, pos))
    } else if items.len() == 0 && is_at(tokens, pos, closing) {
        Ok((items, pos))
    } else {
        match expr_at(tokens, pos, LEVEL_OR) {
            Ok((item, end)) => if end > pos && is_at(tokens, end, Token::Comma) {
                items_at(tokens, end + 1, items.push(item), closing)
            } else {
                Ok((items.push(item), end))
            },
            Err(error) => Err(error),
        }
    }
}

/// The `key: value` pairs, parted by commas, that stand before `}`, added to
/// `pairs`; and the place of the token after them.
pub open spec fn pairs_at(tokens: Tokens, pos: int, pairs: Seq<(Node, Node)>) -> Result<
    (Seq<(Node, Node)>, int),
    ParseErrorView,
>
    decreases remaining(tokens, pos), 30int, 0int,
{
    if pos < 0 {
        Ok((pairs, pos))
    } else if pairs.len() == 0 && is_at(tokens, pos, Token::RCurly) {
        Ok((pairs, pos))
    } else {
        match expr_at(tokens, pos, LEVEL_OR) {
            Ok((key, colon)) => if colon > pos && is_at(tokens, colon, Token::Colon) {
                match expr_at(tokens, colon + 1, LEVEL_OR) {
                    Ok((value, end)) => if end > colon && is_at(tokens, end, Token::Comma) {
                        pairs_at(tokens, end + 1, pairs.push((key, value)))
                    } else {
                        Ok((pairs.push((key, value)), end))
                    },
                    Err(error) => Err(error),
                }
            } else {
                Err(error_at(tokens, colon, ParseErrorKind::ExpectedColon))
            },
            Err(error) => Err(error),
        }
    }
}

/// The parameters of a function, parted by commas, that stand before `)`,
/// added to `parameters`; and the place of the token after them. A parameter
/// is a name, with `= value` where it has a default.
pub open spec fn parameters_at(tokens: Tokens, pos: int, parameters: Seq<ArgumentView>) -> Result<
    (Seq<ArgumentView>, int),
    ParseErrorView,
>
    decreases remaining(tokens, pos), 30int, 0int,
{
    if pos < 0 {
        Ok((parameters, pos))
    } else if parameters.len() == 0 && is_at(tokens, pos, Token::RParen) {
        Ok((parameters, pos))
    } else if pos < tokens.len() && tokens[pos].0 is Identifier {
        let name = (tokens[pos].0->Identifier_0, tokens[pos].1);
        if is_at(tokens, pos + 1, Token::OpAssign) {
            match expr_at(tokens, pos + 2, LEVEL_OR) {
                Ok((value, end)) => if end > pos && is_at(tokens, end, Token::Comma) {
                    parameters_at(
                        tokens,
                        end + 1,
                        parameters.push(ArgumentView { name, default_value: Some(value) }),
                    )
                } else {
                    Ok((parameters.push(ArgumentView { name, default_value: Some(value) }), end))
                },
                Err(error) => Err(error),
            }
        } else if is_at(tokens, pos + 1, Token::Comma) {
            parameters_at(
                tokens,
                pos + 2,
                parameters.push(ArgumentView { name, default_value: None }),
            )
        } else {
            Ok((parameters.push(ArgumentView { name, default_value: None }), pos + 1))
        }
    } else {
        Err(error_at(tokens, pos, ParseErrorKind::ExpectedIdentifier))
    }
}

/// The operand that starts at `pos`: a literal, a name, an expression in
/// parentheses, a list, a map or a function.
pub open spec fn atom_at(tokens: Tokens, pos: int) -> Result<(Node, int), ParseErrorView>
    decreases remaining(tokens, pos), 5int, 0int,
{
    if pos < 0 || pos >= tokens.len() {
        Err(error_at(tokens, pos, ParseErrorKind::ExpectedExpression))
    } else {
        let span = tokens[pos].1;
        match tokens[pos].0 {
            Token::Number(text) => Ok(((ExprView::Value(ValueView::Num(text)), span), pos + 1)),
            Token::String(text) => Ok(((ExprView::Value(ValueView::String(text)), span), pos + 1)),
            Token::Identifier(name) => Ok(((ExprView::Path(name), span), pos + 1)),
            Token::Keyword(Keyword::Null) => Ok(
                ((ExprView::Value(ValueView::Null), span), pos + 1),
            ),
            Token::Keyword(Keyword::True) => Ok(
                ((ExprView::Value(ValueView::Boolean(true)), span), pos + 1),
            ),
            Token::Keyword(Keyword::False) => Ok(
                ((ExprView::Value(ValueView::Boolean(false)), span), pos + 1),
            ),
            Token::LParen => match expr_at(tokens, pos + 1, LEVEL_OR) {
                Ok((inner, end)) => if end > pos && is_at(tokens, end, Token::RParen) {
                    Ok(((inner.0, join(span, tokens[end].1)), end + 1))
                } else {
                    Err(
                        error_at(tokens, end, ParseErrorKind::ExpectedClosingParen).within(
                            Construct::Parentheses,
                            span,
                        ),
                    )
                },
                Err(error) => Err(error.within(Construct::Parentheses, span)),
            },
            Token::LSquare => match items_at(tokens, pos + 1, Seq::empty(), Token::RSquare) {
                Ok((items, end)) => if end > pos && is_at(tokens, end, Token::RSquare) {
                    Ok(((ExprView::List(items), join(span, tokens[end].1)), end + 1))
                } else {
                    Err(
                        error_at(tokens, end, ParseErrorKind::ExpectedClosingSquare).within(
                            Construct::List,
                            span,
                        ),
                    )
                },
                Err(error) => Err(error.within(Construct::List, span)),
            },
            Token::LCurly => match pairs_at(tokens, pos + 1, Seq::empty()) {
                Ok((pairs, end)) => if end > pos && is_at(tokens, end, Token::RCurly) {
                    Ok(((ExprView::MapLiteral(pairs), join(span, tokens[end].1)), end + 1))
                } else {
                    Err(
                        error_at(tokens, end, ParseErrorKind::ExpectedClosingCurly).within(
                            Construct::MapLiteral,
                            span,
                        ),
                    )
                },
                Err(error) => Err(error.within(Construct::MapLiteral, span)),
            },
            Token::Keyword(Keyword::Function) => function_at(tokens, pos),
            token => if is_unsupported(token) {
                Err(error_at(tokens, pos, ParseErrorKind::UnsupportedOperator))
            } else {
                Err(error_at(tokens, pos, ParseErrorKind::ExpectedExpression))
            },
        }
    }
}

/// The function that starts with the `function` at `pos`: its parameters in
/// parentheses, its body, and `end`. A body that holds a diagnostic gives
/// its first diagnostic.
pub open spec fn function_at(tokens: Tokens, pos: int) -> Result<(Node, int), ParseErrorView>
    decreases remaining(tokens, pos), 4int, 0int,
{
    if pos < 0 || pos >= tokens.len() {
        Err(error_at(tokens, pos, ParseErrorKind::ExpectedExpression))
    } else {
        let span = tokens[pos].1;
        let listed = if is_at(tokens, pos + 1, Token::LParen) {
            match parameters_at(tokens, pos + 2, Seq::empty()) {
                Ok((parameters, end)) => if end > pos && is_at(tokens, end, Token::RParen) {
                    Ok((parameters, end + 1))
                } else {
                    Err(error_at(tokens, end, ParseErrorKind::ExpectedClosingParen))
                },
                Err(error) => Err(error),
            }
        } else {
            Ok((Seq::empty(), pos + 1))
        };
        match listed {
            Ok((parameters, start)) => if start > pos {
                let body = body_at(tokens, start);
                if body.errors.len() > 0 {
                    Err(body.errors[0].within(Construct::Function, span))
                } else if body.end >= start && is_at(tokens, body.end, Token::Keyword(Keyword::End)) {
                    Ok(
                        (
                            (
                                ExprView::FunctionDefinition(parameters, body.steps),
                                join(span, tokens[body.end].1),
                            ),
                            body.end + 1,
                        ),
                    )
                } else {
                    Err(
                        error_at(tokens, body.end, ParseErrorKind::ExpectedEnd).within(
                            Construct::Function,
                            span,
                        ),
                    )
                }
            } else {
                Err(error_at(tokens, pos, ParseErrorKind::ExpectedExpression))
            },
            Err(error) => Err(error.within(Construct::Function, span)),
        }
    }
}

/// The statements from `pos` up to the token that closes the body: `end`,
/// `else`, or the end of the tokens. Line terminators between statements are
/// dropped. Where a statement cannot be read, its diagnostic is kept, an
/// error node stands for it, and reading goes on after the next line
/// terminator.
pub open spec fn body_at(tokens: Tokens, pos: int) -> BodyView
    decreases remaining(tokens, pos), 35int, 0int,
{
    if pos < 0 || pos >= tokens.len() || is_closer(tokens[pos].0) {
        BodyView { steps: Seq::empty(), errors: Seq::empty(), end: pos }
    } else if is_terminator(tokens[pos].0) {
        body_at(tokens, pos + 1)
    } else {
        let one = statement_at(tokens, pos);
        let next = if one.failed {
            recover(tokens, one.end)
        } else {
            one.end
        };
        if next > pos {
            let rest = body_at(tokens, next);
            BodyView {
                steps: seq![one.step] + rest.steps,
                errors: one.errors + rest.errors,
                end: rest.end,
            }
        } else {
            let rest = body_at(tokens, pos + 1);
            BodyView {
                steps: seq![one.step] + rest.steps,
                errors: one.errors + rest.errors,
                end: rest.end,
            }
        }
    }
}

/// The place of the next line terminator at or after `pos`, or the end of
/// the tokens.
pub open spec fn recover(tokens: Tokens, pos: int) -> int
    decreases remaining(tokens, pos),
{
    if pos < 0 || pos >= tokens.len() || is_terminator(tokens[pos].0) {
        pos
    } else {
        recover(tokens, pos + 1)
    }
}

/// A statement that could not be read.
pub open spec fn failed_at(
    tokens: Tokens,
    pos: int,
    errors: Seq<ParseErrorView>,
    error: ParseErrorView,
    end: int,
) -> StepView {
    StepView {
        step: (StatementView::Error, span_at(tokens, pos)),
        errors: errors.push(error),
        end: if end > pos {
            end
        } else {
            pos
        },
        failed: true,
    }
}

/// The place at which a diagnostic was found: where its span starts among
/// the tokens from `pos` on, or `pos`.
pub open spec fn place_of(tokens: Tokens, pos: int, error: ParseErrorView) -> int
    decreases remaining(tokens, pos),
{
    if pos < 0 || pos >= tokens.len() {
        pos
    } else if tokens[pos].1.start >= error.span.start {
        pos
    } else {
        place_of(tokens, pos + 1, error)
    }
}

/// A statement that was read and ends before `end`, if a line terminator, a
/// closing keyword or nothing follows it.
pub open spec fn finished(tokens: Tokens, pos: int, step: Step, errors: Seq<ParseErrorView>, end: int) -> StepView {
    if end >= tokens.len() || end < 0 || is_terminator(tokens[end].0) || is_closer(tokens[end].0) {
        StepView { step, errors, end, failed: false }
    } else {
        failed_at(
            tokens,
            pos,
            errors,
            error_at(tokens, end, ParseErrorKind::ExpectedEndOfStatement),
            end,
        )
    }
}

/// The statement that starts at `pos`.
pub open spec fn statement_at(tokens: Tokens, pos: int) -> StepView
    decreases remaining(tokens, pos), 34int, 0int,
{
    if pos < 0 || pos >= tokens.len() {
        failed_at(
            tokens,
            pos,
            Seq::empty(),
            error_at(tokens, pos, ParseErrorKind::ExpectedExpression),
            pos,
        )
    } else {
        let span = tokens[pos].1;
        match tokens[pos].0 {
            Token::Keyword(Keyword::If) => conditional_at(
                tokens,
                pos,
                Seq::empty(),
                Seq::empty(),
                span,
            ),
            Token::Keyword(Keyword::While) => while_at(tokens, pos),
            Token::Keyword(Keyword::For) => for_at(tokens, pos),
            Token::Keyword(Keyword::Break) => finished(
                tokens,
                pos,
                (StatementView::Break, span),
                Seq::empty(),
                pos + 1,
            ),
            Token::Keyword(Keyword::Continue) => finished(
                tokens,
                pos,
                (StatementView::Continue, span),
                Seq::empty(),
                pos + 1,
            ),
            Token::Keyword(Keyword::Return) => return_at(tokens, pos),
            _ => simple_at(tokens, pos),
        }
    }
}

/// The loop whose `while` stands at `pos`: a condition, a body, and `end`.
pub open spec fn while_at(tokens: Tokens, pos: int) -> StepView
    decreases remaining(tokens, pos), 33int, 0int,
{
    if pos < 0 || pos >= tokens.len() {
        failed_at(
            tokens,
            pos,
            Seq::empty(),
            error_at(tokens, pos, ParseErrorKind::ExpectedExpression),
            pos,
        )
    } else {
        let span = tokens[pos].1;
        match expr_at(tokens, pos + 1, LEVEL_OR) {
            Ok((condition, start)) => if start > pos {
                let body = body_at(tokens, start);
                if body.end >= start && is_at(tokens, body.end, Token::Keyword(Keyword::End)) {
                    finished(
                        tokens,
                        pos,
                        (
                            StatementView::While((condition, join(span, condition.1)), body.steps),
                            join(span, tokens[body.end].1),
                        ),
                        body.errors,
                        body.end + 1,
                    )
                } else {
                    failed_at(
                        tokens,
                        pos,
                        body.errors,
                        error_at(tokens, body.end, ParseErrorKind::ExpectedEnd).within(
                            Construct::While,
                            span,
                        ),
                        body.end,
                    )
                }
            } else {
                failed_at(
                    tokens,
                    pos,
                    Seq::empty(),
                    error_at(tokens, pos, ParseErrorKind::ExpectedExpression),
                    pos,
                )
            },
            Err(error) => failed_at(
                tokens,
                pos,
                Seq::empty(),
                error.within(Construct::While, span),
                place_of(tokens, pos, error),
            ),
        }
    }
}

/// The loop whose `for` stands at `pos`: a name, `in`, the items, a body,
/// and `end`.
pub open spec fn for_at(tokens: Tokens, pos: int) -> StepView
    decreases remaining(tokens, pos), 33int, 0int,
{
    if pos < 0 || pos >= tokens.len() {
        failed_at(
            tokens,
            pos,
            Seq::empty(),
            error_at(tokens, pos, ParseErrorKind::ExpectedExpression),
            pos,
        )
    } else if !(pos + 1 < tokens.len() && tokens[pos + 1].0 is Identifier) {
        failed_at(
            tokens,
            pos,
            Seq::empty(),
            error_at(tokens, pos + 1, ParseErrorKind::ExpectedIdentifier).within(
                Construct::For,
                tokens[pos].1,
            ),
            pos + 1,
        )
    } else if !is_at(tokens, pos + 2, Token::Keyword(Keyword::In)) {
        failed_at(
            tokens,
            pos,
            Seq::empty(),
            error_at(tokens, pos + 2, ParseErrorKind::ExpectedIn).within(
                Construct::For,
                tokens[pos].1,
            ),
            pos + 2,
        )
    } else {
        let span = tokens[pos].1;
        match expr_at(tokens, pos + 3, LEVEL_OR) {
            Ok((items, start)) => if start > pos {
                let body = body_at(tokens, start);
                if body.end >= start && is_at(tokens, body.end, Token::Keyword(Keyword::End)) {
                    finished(
                        tokens,
                        pos,
                        (
                            StatementView::For(
                                (tokens[pos + 1].0->Identifier_0, tokens[pos + 1].1),
                                items,
                                body.steps,
                            ),
                            join(span, tokens[body.end].1),
                        ),
                        body.errors,
                        body.end + 1,
                    )
                } else {
                    failed_at(
                        tokens,
                        pos,
                        body.errors,
                        error_at(tokens, body.end, ParseErrorKind::ExpectedEnd).within(
                            Construct::For,
                            span,
                        ),
                        body.end,
                    )
                }
            } else {
                failed_at(
                    tokens,
                    pos,
                    Seq::empty(),
                    error_at(tokens, pos, ParseErrorKind::ExpectedExpression),
                    pos,
                )
            },
            Err(error) => failed_at(
                tokens,
                pos,
                Seq::empty(),
                error.within(Construct::For, span),
                place_of(tokens, pos, error),
            ),
        }
    }
}

/// The statement whose `return` stands at `pos`, with the value that
/// follows on the line, if one does.
pub open spec fn return_at(tokens: Tokens, pos: int) -> StepView
    decreases remaining(tokens, pos), 33int, 0int,
{
    if pos < 0 || pos >= tokens.len() {
        failed_at(
            tokens,
            pos,
            Seq::empty(),
            error_at(tokens, pos, ParseErrorKind::ExpectedExpression),
            pos,
        )
    } else if pos + 1 >= tokens.len() || is_terminator(tokens[pos + 1].0) || is_closer(
        tokens[pos + 1].0,
    ) {
        finished(tokens, pos, (StatementView::Return(None), tokens[pos].1), Seq::empty(), pos + 1)
    } else {
        match expr_at(tokens, pos + 1, LEVEL_OR) {
            Ok((value, end)) => finished(
                tokens,
                pos,
                (StatementView::Return(Some(value)), join(tokens[pos].1, value.1)),
                Seq::empty(),
                end,
            ),
            Err(error) => failed_at(
                tokens,
                pos,
                Seq::empty(),
                error,
                place_of(tokens, pos, error),
            ),
        }
    }
}

/// The assignment, call or expression that starts at `pos`.
///
/// An expression followed by `=` and an expression is an assignment, if it
/// can be assigned to. An expression followed by what can start an argument
/// is called with the arguments that follow, parted by commas. Any other
/// expression is a statement of its own.
pub open spec fn simple_at(tokens: Tokens, pos: int) -> StepView
    decreases remaining(tokens, pos), 33int, 0int,
{
    match expr_at(tokens, pos, LEVEL_OR) {
        Ok((first, end)) => if end <= pos {
            failed_at(
                tokens,
                pos,
                Seq::empty(),
                error_at(tokens, pos, ParseErrorKind::ExpectedExpression),
                pos,
            )
        } else if is_at(tokens, end, Token::OpAssign) {
            assignment_at(tokens, pos, first, end)
        } else if end < tokens.len() && is_unsupported(tokens[end].0) {
            failed_at(
                tokens,
                pos,
                Seq::empty(),
                error_at(tokens, end, ParseErrorKind::UnsupportedOperator),
                end,
            )
        } else if end < tokens.len() && starts_argument(tokens[end].0) {
            command_at(tokens, pos, first, end)
        } else {
            finished(tokens, pos, (StatementView::Expression(first), first.1), Seq::empty(), end)
        },
        Err(error) => failed_at(tokens, pos, Seq::empty(), error, place_of(tokens, pos, error)),
    }
}

/// The assignment that starts at `pos` with the target `first`, whose `=`
/// stands at `end`.
pub open spec fn assignment_at(tokens: Tokens, pos: int, first: Node, end: int) -> StepView
    decreases remaining(tokens, pos), 32int, 0int,
{
    if end < pos || pos < 0 {
        failed_at(
            tokens,
            pos,
            Seq::empty(),
            error_at(tokens, pos, ParseErrorKind::ExpectedExpression),
            pos,
        )
    } else if !(first.0 is Path || first.0 is Index || first.0 is ExprIndex) {
        failed_at(
            tokens,
            pos,
            Seq::empty(),
            ParseErrorView {
                kind: ParseErrorKind::InvalidAssignmentTarget,
                span: first.1,
                contexts: Seq::empty(),
            },
            end,
        )
    } else {
        match expr_at(tokens, end + 1, LEVEL_OR) {
            Ok((value, after)) => finished(
                tokens,
                pos,
                (StatementView::Assignment(first, value), join(first.1, value.1)),
                Seq::empty(),
                after,
            ),
            Err(error) => failed_at(
                tokens,
                pos,
                Seq::empty(),
                error,
                place_of(tokens, pos, error),
            ),
        }
    }
}

/// The call without parentheses that starts at `pos` with the callee
/// `first`, whose arguments start at `end`.
pub open spec fn command_at(tokens: Tokens, pos: int, first: Node, end: int) -> StepView
    decreases remaining(tokens, pos), 32int, 0int,
{
    if end <= pos || pos < 0 {
        failed_at(
            tokens,
            pos,
            Seq::empty(),
            error_at(tokens, pos, ParseErrorKind::ExpectedExpression),
            pos,
        )
    } else {
        match items_at(tokens, end, Seq::empty(), Token::EOL) {
            Ok((arguments, after)) => if arguments.len() > 0 {
                finished(
                    tokens,
                    pos,
                    (
                        StatementView::Expression(
                            (
                                ExprView::Call(Box::new(first), arguments),
                                join(first.1, arguments[arguments.len() - 1].1),
                            ),
                        ),
                        join(first.1, arguments[arguments.len() - 1].1),
                    ),
                    Seq::empty(),
                    after,
                )
            } else {
                finished(
                    tokens,
                    pos,
                    (StatementView::Expression(first), first.1),
                    Seq::empty(),
                    after,
                )
            },
            Err(error) => failed_at(
                tokens,
                pos,
                Seq::empty(),
                error.within(Construct::Call, first.1),
                place_of(tokens, pos, error),
            ),
        }
    }
}

/// The conditional whose `if` stands at `pos`, with the branches read so
/// far. `start` is the span of the first `if`.
///
/// A branch is `if`, a condition, `then` and a body. After the body `else`
/// and `if` start the next branch, `else` alone starts the last body, and
/// `end` closes the conditional.
pub open spec fn conditional_at(
    tokens: Tokens,
    pos: int,
    branches: Seq<((Node, Span), Seq<Step>)>,
    errors: Seq<ParseErrorView>,
    start: Span,
) -> StepView
    decreases remaining(tokens, pos), 33int, 0int,
{
    if pos < 0 || pos >= tokens.len() {
        failed_at(
            tokens,
            pos,
            errors,
            error_at(tokens, pos, ParseErrorKind::ExpectedExpression),
            pos,
        )
    } else {
        match expr_at(tokens, pos + 1, LEVEL_OR) {
            Ok((condition, then)) => if then > pos && is_at(
                tokens,
                then,
                Token::Keyword(Keyword::Then),
            ) {
                let body = body_at(tokens, then + 1);
                let all = branches.push(
                    ((condition, join(tokens[pos].1, tokens[then].1)), body.steps),
                );
                let found = errors + body.errors;
                if body.end <= then {
                    failed_at(
                        tokens,
                        pos,
                        found,
                        error_at(tokens, body.end, ParseErrorKind::ExpectedEnd).within(
                            Construct::If,
                            start,
                        ),
                        body.end,
                    )
                } else if is_at(tokens, body.end, Token::Keyword(Keyword::End)) {
                    finished(
                        tokens,
                        pos,
                        (StatementView::If(all, None), join(start, tokens[body.end].1)),
                        found,
                        body.end + 1,
                    )
                } else if is_at(tokens, body.end, Token::Keyword(Keyword::Else)) {
                    if is_at(tokens, body.end + 1, Token::Keyword(Keyword::If)) {
                        conditional_at(tokens, body.end + 1, all, found, start)
                    } else {
                        let last = body_at(tokens, body.end + 1);
                        if last.end > body.end && is_at(
                            tokens,
                            last.end,
                            Token::Keyword(Keyword::End),
                        ) {
                            finished(
                                tokens,
                                pos,
                                (
                                    StatementView::If(all, Some(last.steps)),
                                    join(start, tokens[last.end].1),
                                ),
                                found + last.errors,
                                last.end + 1,
                            )
                        } else {
                            failed_at(
                                tokens,
                                pos,
                                found + last.errors,
                                error_at(tokens, last.end, ParseErrorKind::ExpectedEnd).within(
                                    Construct::If,
                                    start,
                                ),
                                last.end,
                            )
                        }
                    }
                } else {
                    failed_at(
                        tokens,
                        pos,
                        found,
                        error_at(tokens, body.end, ParseErrorKind::ExpectedEnd).within(
                            Construct::If,
                            start,
                        ),
                        body.end,
                    )
                }
            } else {
                failed_at(
                    tokens,
                    pos,
                    errors,
                    error_at(tokens, then, ParseErrorKind::ExpectedThen).within(
                        Construct::If,
                        start,
                    ),
                    then,
                )
            },
            Err(error) => failed_at(
                tokens,
                pos,
                errors,
                error.within(Construct::If, start),
                place_of(tokens, pos, error),
            ),
        }
    }
}

/// What parsing a whole program gives. A closing keyword that closes nothing
/// is a diagnostic, and reading goes on after it.
pub open spec fn program_at(tokens: Tokens, pos: int) -> BodyView
    decreases remaining(tokens, pos), 40int, 0int,
{
    let body = body_at(tokens, pos);
    if 0 <= pos <= body.end < tokens.len() {
        let rest = program_at(tokens, body.end + 1);
        BodyView {
            steps: body.steps + rest.steps,
            errors: body.errors.push(
                error_at(tokens, body.end, ParseErrorKind::UnexpectedClosing),
            ) + rest.errors,
            end: rest.end,
        }
    } else {
        body
    }
}

/// The statements and the diagnostics of a whole program.
pub open spec fn parsed(tokens: Tokens) -> BodyView {
    program_at(tokens, 0)
}

/// Whether a token goes on with the expression that stands before it: a
/// binary operator, a comparison, or the start of an indexing or a call.
pub open spec fn continues(token: Token<Seq<char>>) -> bool {
    ||| exists|level: u8| binary_operator(token, level) is Some
    ||| comparison_operator(token) is Some
    ||| token == Token::<Seq<char>>::Dot
    ||| token == Token::<Seq<char>>::LSquare
    ||| token == Token::<Seq<char>>::LParen
}

/// An operand that no operator stands before and that nothing goes on with
/// is the whole expression, whatever binding strength is asked for.
pub proof fn operand_alone(tokens: Tokens, pos: int, level: u8, node: Node)
    requires
        0 <= pos < tokens.len(),
        level <= LEVEL_ATOM,
        atom_at(tokens, pos) == Ok::<(Node, int), ParseErrorView>((node, pos + 1)),
        forall|l: u8| unary_operator(tokens[pos].0, l) is None,
        pos + 1 < tokens.len() ==> !continues(tokens[pos + 1].0),
    ensures
        expr_at(tokens, pos, level) == Ok::<(Node, int), ParseErrorView>((node, pos + 1)),
    decreases LEVEL_ATOM - level,
{
    if level < LEVEL_ATOM {
        operand_alone(tokens, pos, (level + 1) as u8, node);
        operand_alone(tokens, pos, LEVEL_ATOM, node);
        if pos + 1 < tokens.len() {
            let next = tokens[pos + 1].0;
            assert(binary_operator(next, level) is None);
        }
        assert(unary_operator(tokens[pos].0, level) is None);
        assert(binary_rest(tokens, node, pos + 1, level) == Ok::<(Node, int), ParseErrorView>(
            (node, pos + 1),
        ));
        assert(comparison_rest(tokens, node, Seq::empty(), pos + 1) == Ok::<
            (Node, int),
            ParseErrorView,
        >((node, pos + 1)));
        assert(postfix_rest(tokens, node, pos + 1) == Ok::<(Node, int), ParseErrorView>(
            (node, pos + 1),
        ));
    }
}

/// The tokens of `print` and a number parse to one statement: the call of
/// `print` with the number as its one argument, the number carrying the
/// text of its token.
pub proof fn print_of_a_number_parses(tokens: Tokens, text: Seq<char>)
    requires
        tokens.len() == 2,
        tokens[0].0 == Token::<Seq<char>>::Identifier("print"@),
        tokens[1].0 == Token::<Seq<char>>::Number(text),
    ensures
        parsed(tokens).errors.len() == 0,
        parsed(tokens).steps == seq![
            (
                StatementView::Expression(
                    (
                        ExprView::Call(
                            Box::new((ExprView::Path("print"@), tokens[0].1)),
                            seq![(ExprView::Value(ValueView::Num(text)), tokens[1].1)],
                        ),
                        join(tokens[0].1, tokens[1].1),
                    ),
                ),
                join(tokens[0].1, tokens[1].1),
            ),
        ],
{
    let callee: Node = (ExprView::Path("print"@), tokens[0].1);
    let number: Node = (ExprView::Value(ValueView::Num(text)), tokens[1].1);
    assert(!continues(tokens[1].0));
    operand_alone(tokens, 0, LEVEL_OR, callee);
    operand_alone(tokens, 1, LEVEL_OR, number);
    let listed = items_at(tokens, 1, Seq::empty(), Token::EOL);
    assert(listed == Ok::<(Seq<Node>, int), ParseErrorView>((Seq::empty().push(number), 2)));
    let arguments = Seq::<Node>::empty().push(number);
    assert(arguments =~= seq![number]);
    let whole = join(tokens[0].1, tokens[1].1);
    let step: Step = (
        StatementView::Expression((ExprView::Call(Box::new(callee), arguments), whole)),
        whole,
    );
    assert(command_at(tokens, 0, callee, 1) == finished(tokens, 0, step, Seq::empty(), 2));
    assert(simple_at(tokens, 0) == command_at(tokens, 0, callee, 1));
    assert(statement_at(tokens, 0) == simple_at(tokens, 0));
    let one = statement_at(tokens, 0);
    assert(one == StepView { step, errors: Seq::empty(), end: 2, failed: false });
    let rest = body_at(tokens, 2);
    assert(rest.steps =~= Seq::empty() && rest.errors =~= Seq::empty() && rest.end == 2);
    let body = body_at(tokens, 0);
    assert(body.steps =~= seq![step]);
    assert(body.errors =~= Seq::empty());
    assert(body.end == 2);
    assert(parsed(tokens) == body);
}

/// An expression with its span as contracts see it.
pub open spec fn node_view(node: Spanned<Expr>) -> Node {
    (expr_view(node.0), node.1)
}

/// The result of parsing an expression as contracts see it.
pub open spec fn node_result(result: Result<(Spanned<Expr>, usize), ParseError>) -> Result<
    (Node, int),
    ParseErrorView,
> {
    match result {
        Ok((node, end)) => Ok((node_view(node), end as int)),
        Err(error) => Err(error@),
    }
}

/// The diagnostics as contracts see them.
pub open spec fn errors_view(errors: Seq<ParseError>) -> Seq<ParseErrorView> {
    Seq::new(errors.len(), |i: int| errors[i]@)
}

/// A vector without elements is seen as a sequence without elements.
proof fn empty_views()
    ensures
        nodes_view(Seq::empty()) == Seq::<Node>::empty(),
        links_view(Seq::empty()) == Seq::<(Comparison, Node)>::empty(),
        pairs_view(Seq::empty()) == Seq::<(Node, Node)>::empty(),
        arguments_view(Seq::empty()) == Seq::<ArgumentView>::empty(),
        branches_view(Seq::empty()) == Seq::<((Node, Span), Seq<Step>)>::empty(),
        body_view(Seq::empty()) == Seq::<Step>::empty(),
        errors_view(Seq::empty()) == Seq::<ParseErrorView>::empty(),
{
    assert(nodes_view(Seq::empty()) =~= Seq::<Node>::empty());
    assert(links_view(Seq::empty()) =~= Seq::<(Comparison, Node)>::empty());
    assert(pairs_view(Seq::empty()) =~= Seq::<(Node, Node)>::empty());
    assert(arguments_view(Seq::empty()) =~= Seq::<ArgumentView>::empty());
    assert(branches_view(Seq::empty()) =~= Seq::<((Node, Span), Seq<Step>)>::empty());
    assert(body_view(Seq::empty()) =~= Seq::<Step>::empty());
    assert(errors_view(Seq::empty()) =~= Seq::<ParseErrorView>::empty());
}

impl ParseError {
    /// The diagnostic with one more construct around it.
    pub fn within(self, construct: Construct, span: Span) -> (error: ParseError)
        ensures
            error@ == self@.within(construct, span),
    {
        let mut contexts = self.contexts;
        contexts.push((construct, span));
        ParseError { kind: self.kind, span: self.span, contexts }
    }
}

fn span_here(tokens: &Vec<(Token<String>, Span)>, pos: usize) -> (span: Span)
    ensures
        span == span_at(tokens_view(tokens@), pos as int),
{
    let n = tokens.len();
    if pos < n {
        tokens[pos].1
    } else if n > 0 {
        Span { start: tokens[n - 1].1.end, end: tokens[n - 1].1.end }
    } else {
        Span { start: 0, end: 0 }
    }
}

fn error_here(tokens: &Vec<(Token<String>, Span)>, pos: usize, kind: ParseErrorKind) -> (error:
    ParseError)
    ensures
        error@ == error_at(tokens_view(tokens@), pos as int, kind),
{
    ParseError { kind, span: span_here(tokens, pos), contexts: Vec::new() }
}

fn binary_of(token: &Token<String>, level: u8) -> (op: Option<BinaryOp>)
    ensures
        op == binary_operator(token@, level),
{
    match token {
        Token::Keyword(keyword) => {
            if level == LEVEL_OR && matches!(keyword, Keyword::Or) {
                Some(BinaryOp::Or)
            } else if level == LEVEL_AND && matches!(keyword, Keyword::And) {
                Some(BinaryOp::And)
            } else {
                None
            }
        },
        Token::OpPlus => if level == LEVEL_ADDITIVE {
            Some(BinaryOp::Add)
        } else {
            None
        },
        Token::OpMinus => if level == LEVEL_ADDITIVE {
            Some(BinaryOp::Sub)
        } else {
            None
        },
        Token::OpTimes => if level == LEVEL_MULTIPLICATIVE {
            Some(BinaryOp::Mul)
        } else {
            None
        },
        Token::OpDivide => if level == LEVEL_MULTIPLICATIVE {
            Some(BinaryOp::Div)
        } else {
            None
        },
        Token::OpPower => if level == LEVEL_POWER {
            Some(BinaryOp::Pow)
        } else {
            None
        },
        _ => None,
    }
}

fn unary_of(token: &Token<String>, level: u8) -> (op: Option<UnaryOp>)
    ensures
        op == unary_operator(token@, level),
{
    match token {
        Token::Keyword(keyword) => {
            if level == LEVEL_NOT && matches!(keyword, Keyword::Not) {
                Some(UnaryOp::Not)
            } else if level == LEVEL_NOT && matches!(keyword, Keyword::Isa) {
                Some(UnaryOp::Isa)
            } else if level == LEVEL_NEW && matches!(keyword, Keyword::New) {
                Some(UnaryOp::New)
            } else {
                None
            }
        },
        Token::OpMinus => if level == LEVEL_NEGATION {
            Some(UnaryOp::Neg)
        } else {
            None
        },
        Token::AddressOf => if level == LEVEL_ADDRESS_OF {
            Some(UnaryOp::AddressOf)
        } else {
            None
        },
        _ => None,
    }
}

fn comparison_of(token: &Token<String>) -> (op: Option<Comparison>)
    ensures
        op == comparison_operator(token@),
{
    match token {
        Token::OpEqual => Some(Comparison::Eq),
        Token::OpNotEqual => Some(Comparison::NotEq),
        Token::OpGreater => Some(Comparison::Gt),
        Token::OpLesser => Some(Comparison::Lt),
        Token::OpGreatEqual => Some(Comparison::GtEq),
        Token::OpLessEqual => Some(Comparison::LtEq),
        _ => None,
    }
}

fn unsupported(token: &Token<String>) -> (r: bool)
    ensures
        r == is_unsupported(token@),
{
    matches!(
        token,
        Token::OpMod | Token::OpAssignPlus | Token::OpAssignMinus | Token::OpAssignTimes
            | Token::OpAssignDivide | Token::OpAssignMod | Token::OpAssignPower
            | Token::OpIncrement | Token::OpDecrement
    )
}

fn terminator(token: &Token<String>) -> (r: bool)
    ensures
        r == is_terminator(token@),
{
    matches!(token, Token::EOL | Token::Semicolon)
}

fn closer(token: &Token<String>) -> (r: bool)
    ensures
        r == is_closer(token@),
{
    matches!(token, Token::Keyword(Keyword::End) | Token::Keyword(Keyword::Else))
}

fn argument_start(token: &Token<String>) -> (r: bool)
    ensures
        r == starts_argument(token@),
{
    match token {
        Token::Number(_) | Token::String(_) | Token::Identifier(_) => true,
        Token::Keyword(keyword) => matches!(
            keyword,
            Keyword::Null | Keyword::True | Keyword::False | Keyword::Not | Keyword::Isa
                | Keyword::New | Keyword::Function
        ),
        Token::LCurly | Token::AddressOf => true,
        _ => false,
    }
}

fn keyword_at(tokens: &Vec<(Token<String>, Span)>, pos: usize, keyword: Keyword) -> (r: bool)
    ensures
        r == is_at(tokens_view(tokens@), pos as int, Token::Keyword(keyword)),
{
    if pos >= tokens.len() {
        return false;
    }
    match &tokens[pos].0 {
        Token::Keyword(found) => *found == keyword,
        _ => false,
    }
}

/// The tokens that close a list of expressions.
#[derive(Debug, Clone, Copy, PartialEq, Eq, Structural)]
pub enum Closing {
    /// `)`
    Paren,
    /// `]`
    Square,
    /// A line break
    Line,
}

impl Closing {
    /// The token that closes.
    pub open spec fn token(self) -> Token<Seq<char>> {
        match self {
            Closing::Paren => Token::RParen,
            Closing::Square => Token::RSquare,
            Closing::Line => Token::EOL,
        }
    }
}

fn closing_at(tokens: &Vec<(Token<String>, Span)>, pos: usize, closing: Closing) -> (r: bool)
    ensures
        r == is_at(tokens_view(tokens@), pos as int, closing.token()),
{
    if pos >= tokens.len() {
        return false;
    }
    match closing {
        Closing::Paren => matches!(tokens[pos].0, Token::RParen),
        Closing::Square => matches!(tokens[pos].0, Token::RSquare),
        Closing::Line => matches!(tokens[pos].0, Token::EOL),
    }
}

fn comma_at(tokens: &Vec<(Token<String>, Span)>, pos: usize) -> (r: bool)
    ensures
        r == is_at(tokens_view(tokens@), pos as int, Token::Comma),
{
    pos < tokens.len() && matches!(tokens[pos].0, Token::Comma)
}

fn colon_at(tokens: &Vec<(Token<String>, Span)>, pos: usize) -> (r: bool)
    ensures
        r == is_at(tokens_view(tokens@), pos as int, Token::Colon),
{
    pos < tokens.len() && matches!(tokens[pos].0, Token::Colon)
}

fn assign_at(tokens: &Vec<(Token<String>, Span)>, pos: usize) -> (r: bool)
    ensures
        r == is_at(tokens_view(tokens@), pos as int, Token::OpAssign),
{
    pos < tokens.len() && matches!(tokens[pos].0, Token::OpAssign)
}

fn curly_at(tokens: &Vec<(Token<String>, Span)>, pos: usize) -> (r: bool)
    ensures
        r == is_at(tokens_view(tokens@), pos as int, Token::RCurly),
{
    pos < tokens.len() && matches!(tokens[pos].0, Token::RCurly)
}

fn paren_at(tokens: &Vec<(Token<String>, Span)>, pos: usize) -> (r: bool)
    ensures
        r == is_at(tokens_view(tokens@), pos as int, Token::LParen),
{
    pos < tokens.len() && matches!(tokens[pos].0, Token::LParen)
}

/// The expression of binding strength `level` or stronger that starts at
/// `pos`, and the place after it.
#[verifier::rlimit(50)]
pub fn parse_expr(tokens: &Vec<(Token<String>, Span)>, pos: usize, level: u8) -> (result: Result<
    (Spanned<Expr>, usize),
    ParseError,
>)
    ensures
        node_result(result) == expr_at(tokens_view(tokens@), pos as int, level),
        result matches Ok((_, end)) ==> pos < end <= tokens@.len(),
    decreases remaining(tokens_view(tokens@), pos as int), 20 - level, 1int,
{
    let total = tokens.len();
    proof {
        empty_views();
    }
    if level > LEVEL_ATOM {
        return Err(error_here(tokens, pos, ParseErrorKind::ExpectedExpression));
    }
    if level == LEVEL_ATOM {
        return parse_atom(tokens, pos);
    }
    if level == LEVEL_POSTFIX {
        return match parse_expr(tokens, pos, LEVEL_ATOM) {
            Ok((node, end)) => parse_postfix(tokens, node, end),
            Err(error) => Err(error),
        };
    }
    if level == LEVEL_COMPARISON {
        return match parse_expr(tokens, pos, LEVEL_ADDITIVE) {
            Ok((node, end)) => parse_comparisons(tokens, node, Vec::new(), end),
            Err(error) => Err(error),
        };
    }
    if level == LEVEL_NOT || level == LEVEL_NEGATION || level == LEVEL_NEW || level
        == LEVEL_ADDRESS_OF {
        let op = if pos < total {
            unary_of(&tokens[pos].0, level)
        } else {
            None
        };
        return match op {
            Some(op) => match parse_expr(tokens, pos + 1, level) {
                Ok((node, end)) => {
                    let span = Span { start: tokens[pos].1.start, end: node.1.end };
                    Ok(((Expr::Unary(op, Box::new(node)), span), end))
                },
                Err(error) => Err(error),
            },
            None => parse_expr(tokens, pos, level + 1),
        };
    }
    match parse_expr(tokens, pos, level + 1) {
        Ok((node, end)) => parse_binary(tokens, node, end, level),
        Err(error) => Err(error),
    }
}

/// What follows a left operand at a level of binary operators.
#[verifier::rlimit(50)]
pub fn parse_binary(
    tokens: &Vec<(Token<String>, Span)>,
    lhs: Spanned<Expr>,
    pos: usize,
    level: u8,
) -> (result: Result<(Spanned<Expr>, usize), ParseError>)
    requires
        pos <= tokens@.len(),
    ensures
        node_result(result) == binary_rest(
            tokens_view(tokens@),
            node_view(lhs),
            pos as int,
            level,
        ),
        result matches Ok((_, end)) ==> pos <= end <= tokens@.len(),
    decreases remaining(tokens_view(tokens@), pos as int), 0int, 0int,
{
    let total = tokens.len();
    proof {
        empty_views();
    }
    let op = if pos < tokens.len() && level < LEVEL_ATOM {
        binary_of(&tokens[pos].0, level)
    } else {
        None
    };
    match op {
        Some(op) => match parse_expr(tokens, pos + 1, level + 1) {
            Ok((rhs, end)) => {
                let span = Span { start: lhs.1.start, end: rhs.1.end };
                parse_binary(
                    tokens,
                    (Expr::Binary(Box::new(lhs), op, Box::new(rhs)), span),
                    end,
                    level,
                )
            },
            Err(error) => Err(error),
        },
        None => Ok((lhs, pos)),
    }
}

/// What follows the left operand of a comparison chain.
#[verifier::rlimit(50)]
pub fn parse_comparisons(
    tokens: &Vec<(Token<String>, Span)>,
    lhs: Spanned<Expr>,
    chain: Vec<(Comparison, Spanned<Expr>)>,
    pos: usize,
) -> (result: Result<(Spanned<Expr>, usize), ParseError>)
    requires
        pos <= tokens@.len(),
    ensures
        node_result(result) == comparison_rest(
            tokens_view(tokens@),
            node_view(lhs),
            links_view(chain@),
            pos as int,
        ),
        result matches Ok((_, end)) ==> pos <= end <= tokens@.len(),
    decreases remaining(tokens_view(tokens@), pos as int), 0int, 0int,
{
    let total = tokens.len();
    proof {
        empty_views();
    }
    let op = if pos < tokens.len() {
        comparison_of(&tokens[pos].0)
    } else {
        None
    };
    match op {
        Some(op) => match parse_expr(tokens, pos + 1, LEVEL_ADDITIVE) {
            Ok((rhs, end)) => {
                let mut chain = chain;
                proof {
                    assert(links_view(chain@.push((op, rhs))) =~= links_view(chain@).push(
                        (op, node_view(rhs)),
                    ));
                }
                chain.push((op, rhs));
                parse_comparisons(tokens, lhs, chain, end)
            },
            Err(error) => Err(error),
        },
        None => {
            if chain.len() == 0 {
                Ok((lhs, pos))
            } else {
                let span = Span { start: lhs.1.start, end: chain[chain.len() - 1].1.1.end };
                Ok(((Expr::Comparison(Box::new(lhs), chain), span), pos))
            }
        },
    }
}

/// What follows an operand: `.name`, `[key]` and `(arguments)`.
#[verifier::rlimit(50)]
pub fn parse_postfix(tokens: &Vec<(Token<String>, Span)>, base: Spanned<Expr>, pos: usize) -> (result:
    Result<(Spanned<Expr>, usize), ParseError>)
    requires
        pos <= tokens@.len(),
    ensures
        node_result(result) == postfix_rest(tokens_view(tokens@), node_view(base), pos as int),
        result matches Ok((_, end)) ==> pos <= end <= tokens@.len(),
    decreases remaining(tokens_view(tokens@), pos as int), 0int, 0int,
{
    let total = tokens.len();
    proof {
        empty_views();
    }
    if pos >= total {
        return Ok((base, pos));
    }
    let here = tokens[pos].1;
    match &tokens[pos].0 {
        Token::Dot => {
            if pos + 1 < total {
                if let Token::Identifier(name) = &tokens[pos + 1].0 {
                    let span = Span { start: base.1.start, end: tokens[pos + 1].1.end };
                    return parse_postfix(
                        tokens,
                        (Expr::Index(Box::new(base), name.clone()), span),
                        pos + 2,
                    );
                }
            }
            Err(error_here(tokens, pos + 1, ParseErrorKind::ExpectedIdentifier))
        },
        Token::LSquare => match parse_expr(tokens, pos + 1, LEVEL_OR) {
            Ok((key, end)) => {
                if closing_at(tokens, end, Closing::Square) {
                    let span = Span { start: base.1.start, end: tokens[end].1.end };
                    parse_postfix(
                        tokens,
                        (Expr::ExprIndex(Box::new(base), Box::new(key)), span),
                        end + 1,
                    )
                } else {
                    Err(
                        error_here(tokens, end, ParseErrorKind::ExpectedClosingSquare).within(
                            Construct::Index,
                            here,
                        ),
                    )
                }
            },
            Err(error) => Err(error.within(Construct::Index, here)),
        },
        Token::LParen => match parse_items(tokens, pos + 1, Vec::new(), Closing::Paren) {
            Ok((arguments, end)) => {
                if closing_at(tokens, end, Closing::Paren) {
                    let span = Span { start: base.1.start, end: tokens[end].1.end };
                    parse_postfix(tokens, (Expr::Call(Box::new(base), arguments), span), end + 1)
                } else {
                    Err(
                        error_here(tokens, end, ParseErrorKind::ExpectedClosingParen).within(
                            Construct::Call,
                            here,
                        ),
                    )
                }
            },
            Err(error) => Err(error.within(Construct::Call, here)),
        },
        _ => Ok((base, pos)),
    }
}

/// The result of parsing a list of expressions as contracts see it.
pub open spec fn items_result(result: Result<(Vec<Spanned<Expr>>, usize), ParseError>) -> Result<
    (Seq<Node>, int),
    ParseErrorView,
> {
    match result {
        Ok((items, end)) => Ok((nodes_view(items@), end as int)),
        Err(error) => Err(error@),
    }
}

/// The expressions, parted by commas, that stand before the closing token,
/// added to `items`; and the place of the token after them.
#[verifier::rlimit(50)]
pub fn parse_items(
    tokens: &Vec<(Token<String>, Span)>,
    pos: usize,
    items: Vec<Spanned<Expr>>,
    closing: Closing,
) -> (result: Result<(Vec<Spanned<Expr>>, usize), ParseError>)
    requires
        pos <= tokens@.len(),
    ensures
        items_result(result) == items_at(
            tokens_view(tokens@),
            pos as int,
            nodes_view(items@),
            closing.token(),
        ),
        result matches Ok((_, end)) ==> pos <= end <= tokens@.len(),
        result matches Ok((found, end)) ==> (found@.len() > items@.len() ==> pos < end),
    decreases remaining(tokens_view(tokens@), pos as int), 30int, 0int,
{
    let total = tokens.len();
    proof {
        empty_views();
    }
    if items.len() == 0 && closing_at(tokens, pos, closing) {
        return Ok((items, pos));
    }
    match parse_expr(tokens, pos, LEVEL_OR) {
        Ok((item, end)) => {
            let mut items = items;
            proof {
                assert(nodes_view(items@.push(item)) =~= nodes_view(items@).push(node_view(item)));
            }
            items.push(item);
            if comma_at(tokens, end) {
                parse_items(tokens, end + 1, items, closing)
            } else {
                Ok((items, end))
            }
        },
        Err(error) => Err(error),
    }
}

/// The result of parsing the pairs of a map as contracts see it.
pub open spec fn pairs_result(
    result: Result<(Vec<(Spanned<Expr>, Spanned<Expr>)>, usize), ParseError>,
) -> Result<(Seq<(Node, Node)>, int), ParseErrorView> {
    match result {
        Ok((pairs, end)) => Ok((pairs_view(pairs@), end as int)),
        Err(error) => Err(error@),
    }
}

/// The `key: value` pairs, parted by commas, that stand before `}`, added to
/// `pairs`; and the place of the token after them.
#[verifier::rlimit(50)]
pub fn parse_pairs(
    tokens: &Vec<(Token<String>, Span)>,
    pos: usize,
    pairs: Vec<(Spanned<Expr>, Spanned<Expr>)>,
) -> (result: Result<(Vec<(Spanned<Expr>, Spanned<Expr>)>, usize), ParseError>)
    requires
        pos <= tokens@.len(),
    ensures
        pairs_result(result) == pairs_at(tokens_view(tokens@), pos as int, pairs_view(pairs@)),
        result matches Ok((_, end)) ==> pos <= end <= tokens@.len(),
    decreases remaining(tokens_view(tokens@), pos as int), 30int, 0int,
{
    let total = tokens.len();
    proof {
        empty_views();
    }
    if pairs.len() == 0 && curly_at(tokens, pos) {
        return Ok((pairs, pos));
    }
    match parse_expr(tokens, pos, LEVEL_OR) {
        Ok((key, colon)) => {
            if !colon_at(tokens, colon) {
                return Err(error_here(tokens, colon, ParseErrorKind::ExpectedColon));
            }
            match parse_expr(tokens, colon + 1, LEVEL_OR) {
                Ok((value, end)) => {
                    let mut pairs = pairs;
                    proof {
                        assert(pairs_view(pairs@.push((key, value))) =~= pairs_view(pairs@).push(
                            (node_view(key), node_view(value)),
                        ));
                    }
                    pairs.push((key, value));
                    if comma_at(tokens, end) {
                        parse_pairs(tokens, end + 1, pairs)
                    } else {
                        Ok((pairs, end))
                    }
                },
                Err(error) => Err(error),
            }
        },
        Err(error) => Err(error),
    }
}

/// The result of parsing parameters as contracts see it.
pub open spec fn parameters_result(result: Result<(Vec<FunctionArgument>, usize), ParseError>) -> Result<
    (Seq<ArgumentView>, int),
    ParseErrorView,
> {
    match result {
        Ok((parameters, end)) => Ok((arguments_view(parameters@), end as int)),
        Err(error) => Err(error@),
    }
}

/// The parameters of a function, parted by commas, that stand before `)`,
/// added to `parameters`; and the place of the token after them.
#[verifier::rlimit(50)]
pub fn parse_parameters(
    tokens: &Vec<(Token<String>, Span)>,
    pos: usize,
    parameters: Vec<FunctionArgument>,
) -> (result: Result<(Vec<FunctionArgument>, usize), ParseError>)
    requires
        pos <= tokens@.len(),
    ensures
        parameters_result(result) == parameters_at(
            tokens_view(tokens@),
            pos as int,
            arguments_view(parameters@),
        ),
        result matches Ok((_, end)) ==> pos <= end <= tokens@.len(),
    decreases remaining(tokens_view(tokens@), pos as int), 30int, 0int,
{
    let total = tokens.len();
    proof {
        empty_views();
    }
    if parameters.len() == 0 && closing_at(tokens, pos, Closing::Paren) {
        return Ok((parameters, pos));
    }
    if pos < total {
        if let Token::Identifier(text) = &tokens[pos].0 {
            let name = (text.clone(), tokens[pos].1);
            let mut parameters = parameters;
            if assign_at(tokens, pos + 1) {
                return match parse_expr(tokens, pos + 2, LEVEL_OR) {
                    Ok((value, end)) => {
                        let parameter = FunctionArgument { name, default_value: Some(value) };
                        proof {
                            assert(arguments_view(parameters@.push(parameter)) =~= arguments_view(
                                parameters@,
                            ).push(argument_view(parameter)));
                        }
                        parameters.push(parameter);
                        if comma_at(tokens, end) {
                            parse_parameters(tokens, end + 1, parameters)
                        } else {
                            Ok((parameters, end))
                        }
                    },
                    Err(error) => Err(error),
                };
            }
            let parameter = FunctionArgument { name, default_value: None };
            proof {
                assert(arguments_view(parameters@.push(parameter)) =~= arguments_view(
                    parameters@,
                ).push(argument_view(parameter)));
            }
            parameters.push(parameter);
            if comma_at(tokens, pos + 1) {
                return parse_parameters(tokens, pos + 2, parameters);
            }
            return Ok((parameters, pos + 1));
        }
    }
    Err(error_here(tokens, pos, ParseErrorKind::ExpectedIdentifier))
}

/// The operand that starts at `pos`.
#[verifier::rlimit(50)]
pub fn parse_atom(tokens: &Vec<(Token<String>, Span)>, pos: usize) -> (result: Result<
    (Spanned<Expr>, usize),
    ParseError,
>)
    ensures
        node_result(result) == atom_at(tokens_view(tokens@), pos as int),
        result matches Ok((_, end)) ==> pos < end <= tokens@.len(),
    decreases remaining(tokens_view(tokens@), pos as int), 5int, 0int,
{
    let total = tokens.len();
    proof {
        empty_views();
    }
    if pos >= total {
        return Err(error_here(tokens, pos, ParseErrorKind::ExpectedExpression));
    }
    let span = tokens[pos].1;
    match &tokens[pos].0 {
        Token::Number(text) => Ok(((Expr::Value(Value::Num(text.clone())), span), pos + 1)),
        Token::String(text) => Ok(((Expr::Value(Value::String(text.clone())), span), pos + 1)),
        Token::Identifier(name) => Ok(((Expr::Path(Path::AnyScope(name.clone())), span), pos + 1)),
        Token::Keyword(keyword) => match keyword {
            Keyword::Null => Ok(((Expr::Value(Value::Null), span), pos + 1)),
            Keyword::True => Ok(((Expr::Value(Value::Boolean(true)), span), pos + 1)),
            Keyword::False => Ok(((Expr::Value(Value::Boolean(false)), span), pos + 1)),
            Keyword::Function => parse_function(tokens, pos),
            _ => Err(error_here(tokens, pos, ParseErrorKind::ExpectedExpression)),
        },
        Token::LParen => match parse_expr(tokens, pos + 1, LEVEL_OR) {
            Ok((inner, end)) => {
                if closing_at(tokens, end, Closing::Paren) {
                    Ok(((inner.0, Span { start: span.start, end: tokens[end].1.end }), end + 1))
                } else {
                    Err(
                        error_here(tokens, end, ParseErrorKind::ExpectedClosingParen).within(
                            Construct::Parentheses,
                            span,
                        ),
                    )
                }
            },
            Err(error) => Err(error.within(Construct::Parentheses, span)),
        },
        Token::LSquare => match parse_items(tokens, pos + 1, Vec::new(), Closing::Square) {
            Ok((items, end)) => {
                if closing_at(tokens, end, Closing::Square) {
                    Ok(
                        (
                            (Expr::List(items), Span { start: span.start, end: tokens[end].1.end }),
                            end + 1,
                        ),
                    )
                } else {
                    Err(
                        error_here(tokens, end, ParseErrorKind::ExpectedClosingSquare).within(
                            Construct::List,
                            span,
                        ),
                    )
                }
            },
            Err(error) => Err(error.within(Construct::List, span)),
        },
        Token::LCurly => match parse_pairs(tokens, pos + 1, Vec::new()) {
            Ok((pairs, end)) => {
                if curly_at(tokens, end) {
                    Ok(
                        (
                            (
                                Expr::MapLiteral(pairs),
                                Span { start: span.start, end: tokens[end].1.end },
                            ),
                            end + 1,
                        ),
                    )
                } else {
                    Err(
                        error_here(tokens, end, ParseErrorKind::ExpectedClosingCurly).within(
                            Construct::MapLiteral,
                            span,
                        ),
                    )
                }
            },
            Err(error) => Err(error.within(Construct::MapLiteral, span)),
        },
        token => {
            if unsupported(token) {
                Err(error_here(tokens, pos, ParseErrorKind::UnsupportedOperator))
            } else {
                Err(error_here(tokens, pos, ParseErrorKind::ExpectedExpression))
            }
        },
    }
}

/// The function that starts with the `function` at `pos`.
#[verifier::rlimit(50)]
pub fn parse_function(tokens: &Vec<(Token<String>, Span)>, pos: usize) -> (result: Result<
    (Spanned<Expr>, usize),
    ParseError,
>)
    requires
        pos < tokens@.len(),
    ensures
        node_result(result) == function_at(tokens_view(tokens@), pos as int),
        result matches Ok((_, end)) ==> pos < end <= tokens@.len(),
    decreases remaining(tokens_view(tokens@), pos as int), 4int, 0int,
{
    let total = tokens.len();
    proof {
        empty_views();
    }
    let span = tokens[pos].1;
    let listed = if paren_at(tokens, pos + 1) {
        match parse_parameters(tokens, pos + 2, Vec::new()) {
            Ok((parameters, end)) => {
                if closing_at(tokens, end, Closing::Paren) {
                    Ok((parameters, end + 1))
                } else {
                    Err(error_here(tokens, end, ParseErrorKind::ExpectedClosingParen))
                }
            },
            Err(error) => Err(error),
        }
    } else {
        Ok((Vec::new(), pos + 1))
    };
    match listed {
        Ok((parameters, start)) => {
            let body = parse_body(tokens, start);
            let mut errors = body.errors;
            if errors.len() > 0 {
                let first = errors.swap_remove(0);
                return Err(first.within(Construct::Function, span));
            }
            if keyword_at(tokens, body.end, Keyword::End) {
                Ok(
                    (
                        (
                            Expr::FunctionDefinition(parameters, body.steps),
                            Span { start: span.start, end: tokens[body.end].1.end },
                        ),
                        body.end + 1,
                    ),
                )
            } else {
                Err(
                    error_here(tokens, body.end, ParseErrorKind::ExpectedEnd).within(
                        Construct::Function,
                        span,
                    ),
                )
            }
        },
        Err(error) => Err(error.within(Construct::Function, span)),
    }
}

/// What parsing a body gives.
pub struct ParsedBody {
    /// The statements, with an error node for each that could not be read
    pub steps: Body,
    /// The diagnostics, in the order of the text
    pub errors: Vec<ParseError>,
    /// The place of the token that closed the body
    pub end: usize,
}

impl View for ParsedBody {
    type V = BodyView;

    open spec fn view(&self) -> BodyView {
        BodyView {
            steps: body_view(self.steps@),
            errors: errors_view(self.errors@),
            end: self.end as int,
        }
    }
}

/// What parsing one statement gives.
pub struct ParsedStep {
    /// The statement, or an error node
    pub step: Spanned<Statement>,
    /// The diagnostics
    pub errors: Vec<ParseError>,
    /// The place after the statement, or the place of the failure
    pub end: usize,
    /// Whether the statement could not be read
    pub failed: bool,
}

impl View for ParsedStep {
    type V = StepView;

    open spec fn view(&self) -> StepView {
        StepView {
            step: (statement_view(self.step.0), self.step.1),
            errors: errors_view(self.errors@),
            end: self.end as int,
            failed: self.failed,
        }
    }
}

fn find_recovery(tokens: &Vec<(Token<String>, Span)>, pos: usize) -> (next: usize)
    requires
        pos <= tokens@.len(),
    ensures
        next == recover(tokens_view(tokens@), pos as int),
        pos <= next <= tokens@.len(),
        pos < tokens@.len() && !is_terminator(tokens_view(tokens@)[pos as int].0) ==> pos < next,
{
    let mut i: usize = pos;
    while i < tokens.len() && !terminator(&tokens[i].0)
        invariant
            pos <= i <= tokens@.len(),
            recover(tokens_view(tokens@), i as int) == recover(tokens_view(tokens@), pos as int),
            pos < tokens@.len() && !is_terminator(tokens_view(tokens@)[pos as int].0) && i == pos
                ==> i < tokens@.len() && !is_terminator(tokens_view(tokens@)[i as int].0),
        decreases tokens@.len() - i,
    {
        i += 1;
    }
    i
}

fn find_place(tokens: &Vec<(Token<String>, Span)>, pos: usize, error: &ParseError) -> (place: usize)
    requires
        pos <= tokens@.len(),
    ensures
        place == place_of(tokens_view(tokens@), pos as int, error@),
        pos <= place <= tokens@.len(),
{
    let mut i: usize = pos;
    while i < tokens.len() && tokens[i].1.start < error.span.start
        invariant
            pos <= i <= tokens@.len(),
            place_of(tokens_view(tokens@), i as int, error@) == place_of(
                tokens_view(tokens@),
                pos as int,
                error@,
            ),
        decreases tokens@.len() - i,
    {
        i += 1;
    }
    i
}

fn fail(
    tokens: &Vec<(Token<String>, Span)>,
    pos: usize,
    errors: Vec<ParseError>,
    error: ParseError,
    end: usize,
) -> (out: ParsedStep)
    ensures
        out@ == failed_at(
            tokens_view(tokens@),
            pos as int,
            errors_view(errors@),
            error@,
            end as int,
        ),
        out.failed,
        out.end >= pos,
        out.end == (if end > pos {
            end
        } else {
            pos
        }),
{
    let mut errors = errors;
    proof {
        assert(errors_view(errors@.push(error)) =~= errors_view(errors@).push(error@));
    }
    errors.push(error);
    ParsedStep {
        step: (Statement::Error, span_here(tokens, pos)),
        errors,
        end: if end > pos {
            end
        } else {
            pos
        },
        failed: true,
    }
}

fn finish(
    tokens: &Vec<(Token<String>, Span)>,
    pos: usize,
    step: Spanned<Statement>,
    errors: Vec<ParseError>,
    end: usize,
) -> (out: ParsedStep)
    ensures
        out@ == finished(
            tokens_view(tokens@),
            pos as int,
            (statement_view(step.0), step.1),
            errors_view(errors@),
            end as int,
        ),
        out.end >= pos || out.end == end,
        !out.failed ==> out.end == end,
        out.failed ==> out.end == (if end > pos {
            end
        } else {
            pos
        }),
{
    if end >= tokens.len() || terminator(&tokens[end].0) || closer(&tokens[end].0) {
        ParsedStep { step, errors, end, failed: false }
    } else {
        let error = error_here(tokens, end, ParseErrorKind::ExpectedEndOfStatement);
        fail(tokens, pos, errors, error, end)
    }
}

fn join_errors(mut first: Vec<ParseError>, mut second: Vec<ParseError>) -> (all: Vec<ParseError>)
    ensures
        errors_view(all@) == errors_view(first@) + errors_view(second@),
{
    proof {
        assert(errors_view(first@ + second@) =~= errors_view(first@) + errors_view(second@));
    }
    first.append(&mut second);
    first
}

/// The statements from `pos` up to the token that closes the body.
#[verifier::rlimit(50)]
pub fn parse_body(tokens: &Vec<(Token<String>, Span)>, pos: usize) -> (body: ParsedBody)
    requires
        pos <= tokens@.len(),
    ensures
        body@ == body_at(tokens_view(tokens@), pos as int),
        pos <= body.end <= tokens@.len(),
    decreases remaining(tokens_view(tokens@), pos as int), 35int, 0int,
{
    let total = tokens.len();
    proof {
        empty_views();
    }
    if pos >= total || closer(&tokens[pos].0) {
        let body = ParsedBody { steps: Vec::new(), errors: Vec::new(), end: pos };
        proof {
            assert(body@.steps =~= Seq::empty());
            assert(body@.errors =~= Seq::empty());
        }
        return body;
    }
    if terminator(&tokens[pos].0) {
        return parse_body(tokens, pos + 1);
    }
    let one = parse_statement(tokens, pos);
    let next = if one.failed {
        find_recovery(tokens, one.end)
    } else {
        one.end
    };
    let rest = if next > pos {
        parse_body(tokens, next)
    } else {
        parse_body(tokens, pos + 1)
    };
    let mut steps: Body = Vec::new();
    steps.push(one.step);
    let mut tail = rest.steps;
    proof {
        assert(body_view(steps@ + tail@) =~= seq![(statement_view(one.step.0), one.step.1)]
            + body_view(tail@));
    }
    steps.append(&mut tail);
    ParsedBody { steps, errors: join_errors(one.errors, rest.errors), end: rest.end }
}

/// The statement that starts at `pos`.
#[verifier::rlimit(50)]
pub fn parse_statement(tokens: &Vec<(Token<String>, Span)>, pos: usize) -> (out: ParsedStep)
    requires
        pos < tokens@.len(),
    ensures
        out@ == statement_at(tokens_view(tokens@), pos as int),
        pos <= out.end <= tokens@.len(),
        !out.failed ==> pos < out.end,
    decreases remaining(tokens_view(tokens@), pos as int), 34int, 0int,
{
    let total = tokens.len();
    proof {
        empty_views();
    }
    let span = tokens[pos].1;
    match &tokens[pos].0 {
        Token::Keyword(keyword) => match keyword {
            Keyword::If => parse_conditional(tokens, pos, Vec::new(), Vec::new(), span),
            Keyword::While => parse_while(tokens, pos),
            Keyword::For => parse_for(tokens, pos),
            Keyword::Break => finish(tokens, pos, (Statement::Break, span), Vec::new(), pos + 1),
            Keyword::Continue => finish(
                tokens,
                pos,
                (Statement::Continue, span),
                Vec::new(),
                pos + 1,
            ),
            Keyword::Return => parse_return(tokens, pos),
            _ => parse_simple(tokens, pos),
        },
        _ => parse_simple(tokens, pos),
    }
}

/// The loop whose `while` stands at `pos`.
#[verifier::rlimit(50)]
pub fn parse_while(tokens: &Vec<(Token<String>, Span)>, pos: usize) -> (out: ParsedStep)
    requires
        pos < tokens@.len(),
    ensures
        out@ == while_at(tokens_view(tokens@), pos as int),
        pos <= out.end <= tokens@.len(),
        !out.failed ==> pos < out.end,
    decreases remaining(tokens_view(tokens@), pos as int), 33int, 0int,
{
    let total = tokens.len();
    proof {
        empty_views();
    }
    let span = tokens[pos].1;
    match parse_expr(tokens, pos + 1, LEVEL_OR) {
        Ok((condition, start)) => {
            let body = parse_body(tokens, start);
            if keyword_at(tokens, body.end, Keyword::End) {
                let outer = Span { start: span.start, end: condition.1.end };
                let whole = Span { start: span.start, end: tokens[body.end].1.end };
                finish(
                    tokens,
                    pos,
                    (Statement::While((condition, outer), body.steps), whole),
                    body.errors,
                    body.end + 1,
                )
            } else {
                let error = error_here(tokens, body.end, ParseErrorKind::ExpectedEnd).within(
                    Construct::While,
                    span,
                );
                fail(tokens, pos, body.errors, error, body.end)
            }
        },
        Err(error) => {
            let place = find_place(tokens, pos, &error);
            fail(tokens, pos, Vec::new(), error.within(Construct::While, span), place)
        },
    }
}

/// The loop whose `for` stands at `pos`.
#[verifier::rlimit(50)]
pub fn parse_for(tokens: &Vec<(Token<String>, Span)>, pos: usize) -> (out: ParsedStep)
    requires
        pos < tokens@.len(),
    ensures
        out@ == for_at(tokens_view(tokens@), pos as int),
        pos <= out.end <= tokens@.len(),
        !out.failed ==> pos < out.end,
    decreases remaining(tokens_view(tokens@), pos as int), 33int, 0int,
{
    let total = tokens.len();
    proof {
        empty_views();
    }
    let span = tokens[pos].1;
    if pos + 1 < total {
        if let Token::Identifier(name) = &tokens[pos + 1].0 {
            if !keyword_at(tokens, pos + 2, Keyword::In) {
                let error = error_here(tokens, pos + 2, ParseErrorKind::ExpectedIn).within(
                    Construct::For,
                    span,
                );
                return fail(tokens, pos, Vec::new(), error, pos + 2);
            }
            return match parse_expr(tokens, pos + 3, LEVEL_OR) {
                Ok((items, start)) => {
                    let body = parse_body(tokens, start);
                    if keyword_at(tokens, body.end, Keyword::End) {
                        let whole = Span { start: span.start, end: tokens[body.end].1.end };
                        finish(
                            tokens,
                            pos,
                            (
                                Statement::For((name.clone(), tokens[pos + 1].1), items, body.steps),
                                whole,
                            ),
                            body.errors,
                            body.end + 1,
                        )
                    } else {
                        let error = error_here(
                            tokens,
                            body.end,
                            ParseErrorKind::ExpectedEnd,
                        ).within(Construct::For, span);
                        fail(tokens, pos, body.errors, error, body.end)
                    }
                },
                Err(error) => {
                    let place = find_place(tokens, pos, &error);
                    fail(tokens, pos, Vec::new(), error.within(Construct::For, span), place)
                },
            };
        }
    }
    let error = error_here(tokens, pos + 1, ParseErrorKind::ExpectedIdentifier).within(
        Construct::For,
        span,
    );
    fail(tokens, pos, Vec::new(), error, pos + 1)
}

/// The statement whose `return` stands at `pos`.
#[verifier::rlimit(50)]
pub fn parse_return(tokens: &Vec<(Token<String>, Span)>, pos: usize) -> (out: ParsedStep)
    requires
        pos < tokens@.len(),
    ensures
        out@ == return_at(tokens_view(tokens@), pos as int),
        pos <= out.end <= tokens@.len(),
        !out.failed ==> pos < out.end,
    decreases remaining(tokens_view(tokens@), pos as int), 33int, 0int,
{
    let total = tokens.len();
    proof {
        empty_views();
    }
    let span = tokens[pos].1;
    if pos + 1 >= total || terminator(&tokens[pos + 1].0) || closer(&tokens[pos + 1].0) {
        finish(tokens, pos, (Statement::Return(None), span), Vec::new(), pos + 1)
    } else {
        match parse_expr(tokens, pos + 1, LEVEL_OR) {
            Ok((value, end)) => {
                let whole = Span { start: span.start, end: value.1.end };
                finish(tokens, pos, (Statement::Return(Some(value)), whole), Vec::new(), end)
            },
            Err(error) => {
                let place = find_place(tokens, pos, &error);
                fail(tokens, pos, Vec::new(), error, place)
            },
        }
    }
}

/// The assignment, call or expression that starts at `pos`.
#[verifier::rlimit(50)]
pub fn parse_simple(tokens: &Vec<(Token<String>, Span)>, pos: usize) -> (out: ParsedStep)
    requires
        pos < tokens@.len(),
    ensures
        out@ == simple_at(tokens_view(tokens@), pos as int),
        pos <= out.end <= tokens@.len(),
        !out.failed ==> pos < out.end,
    decreases remaining(tokens_view(tokens@), pos as int), 33int, 0int,
{
    let total = tokens.len();
    proof {
        empty_views();
    }
    match parse_expr(tokens, pos, LEVEL_OR) {
        Ok((first, end)) => {
            if assign_at(tokens, end) {
                parse_assignment(tokens, pos, first, end)
            } else if end < total && unsupported(&tokens[end].0) {
                let error = error_here(tokens, end, ParseErrorKind::UnsupportedOperator);
                fail(tokens, pos, Vec::new(), error, end)
            } else if end < total && argument_start(&tokens[end].0) {
                parse_command(tokens, pos, first, end)
            } else {
                let whole = first.1;
                finish(tokens, pos, (Statement::Expression(first), whole), Vec::new(), end)
            }
        },
        Err(error) => {
            let place = find_place(tokens, pos, &error);
            fail(tokens, pos, Vec::new(), error, place)
        },
    }
}

/// An expression is seen as what it is.
proof fn kind_is_kept(expr: Expr)
    ensures
        expr_view(expr) is Path == expr is Path,
        expr_view(expr) is Index == expr is Index,
        expr_view(expr) is ExprIndex == expr is ExprIndex,
{
}

/// The assignment that starts at `pos` with the target `first`, whose `=`
/// stands at `end`.
#[verifier::rlimit(50)]
pub fn parse_assignment(
    tokens: &Vec<(Token<String>, Span)>,
    pos: usize,
    first: Spanned<Expr>,
    end: usize,
) -> (out: ParsedStep)
    requires
        pos < end < tokens@.len(),
    ensures
        out@ == assignment_at(tokens_view(tokens@), pos as int, node_view(first), end as int),
        pos <= out.end <= tokens@.len(),
        !out.failed ==> pos < out.end,
    decreases remaining(tokens_view(tokens@), pos as int), 32int, 0int,
{
    let total = tokens.len();
    proof {
        empty_views();
    }
    proof {
        kind_is_kept(first.0);
    }
    let ghost target = node_view(first);
    if !first.0.is_valid_assignment_target() {
        let error = ParseError {
            kind: ParseErrorKind::InvalidAssignmentTarget,
            span: first.1,
            contexts: Vec::new(),
        };
        return fail(tokens, pos, Vec::new(), error, end);
    }
    match parse_expr(tokens, end + 1, LEVEL_OR) {
        Ok((value, after)) => {
            let whole = Span { start: first.1.start, end: value.1.end };
            let ghost assigned = node_view(value);
            let step = (Statement::Assignment(first, value), whole);
            proof {
                assert(statement_view(step.0) == StatementView::Assignment(target, assigned));
            }
            finish(tokens, pos, step, Vec::new(), after)
        },
        Err(error) => {
            let place = find_place(tokens, pos, &error);
            fail(tokens, pos, Vec::new(), error, place)
        },
    }
}

/// The call without parentheses that starts at `pos` with the callee
/// `first`, whose arguments start at `end`.
#[verifier::rlimit(50)]
pub fn parse_command(
    tokens: &Vec<(Token<String>, Span)>,
    pos: usize,
    first: Spanned<Expr>,
    end: usize,
) -> (out: ParsedStep)
    requires
        pos < end <= tokens@.len(),
    ensures
        out@ == command_at(tokens_view(tokens@), pos as int, node_view(first), end as int),
        pos <= out.end <= tokens@.len(),
        !out.failed ==> pos < out.end,
    decreases remaining(tokens_view(tokens@), pos as int), 32int, 0int,
{
    let total = tokens.len();
    proof {
        empty_views();
    }
    let callee_span = first.1;
    let ghost callee = node_view(first);
    match parse_items(tokens, end, Vec::new(), Closing::Line) {
        Ok((arguments, after)) => {
            if arguments.len() > 0 {
                let whole = Span {
                    start: first.1.start,
                    end: arguments[arguments.len() - 1].1.end,
                };
                let ghost listed = nodes_view(arguments@);
                let call = Expr::Call(Box::new(first), arguments);
                proof {
                    assert(expr_view(call) == ExprView::Call(Box::new(callee), listed));
                    assert(whole == join(callee.1, listed[listed.len() - 1].1));
                }
                let step = (Statement::Expression((call, whole)), whole);
                proof {
                    assert(statement_view(step.0) == StatementView::Expression(
                        (ExprView::Call(Box::new(callee), listed), whole),
                    ));
                }
                finish(tokens, pos, step, Vec::new(), after)
            } else {
                let whole = first.1;
                finish(tokens, pos, (Statement::Expression(first), whole), Vec::new(), after)
            }
        },
        Err(error) => {
            let place = find_place(tokens, pos, &error);
            fail(tokens, pos, Vec::new(), error.within(Construct::Call, callee_span), place)
        },
    }
}

/// The conditional whose `if` stands at `pos`, with the branches read so
/// far. `start` is the span of the first `if`.
#[verifier::rlimit(50)]
pub fn parse_conditional(
    tokens: &Vec<(Token<String>, Span)>,
    pos: usize,
    branches: Vec<(Spanned<Spanned<Expr>>, Body)>,
    errors: Vec<ParseError>,
    start: Span,
) -> (out: ParsedStep)
    requires
        pos < tokens@.len(),
    ensures
        out@ == conditional_at(
            tokens_view(tokens@),
            pos as int,
            branches_view(branches@),
            errors_view(errors@),
            start,
        ),
        pos <= out.end <= tokens@.len(),
        !out.failed ==> pos < out.end,
    decreases remaining(tokens_view(tokens@), pos as int), 33int, 0int,
{
    let total = tokens.len();
    proof {
        empty_views();
    }
    match parse_expr(tokens, pos + 1, LEVEL_OR) {
        Ok((condition, then)) => {
            if !keyword_at(tokens, then, Keyword::Then) {
                let error = error_here(tokens, then, ParseErrorKind::ExpectedThen).within(
                    Construct::If,
                    start,
                );
                return fail(tokens, pos, errors, error, then);
            }
            let body = parse_body(tokens, then + 1);
            let outer = Span { start: tokens[pos].1.start, end: tokens[then].1.end };
            let mut all = branches;
            let branch = ((condition, outer), body.steps);
            proof {
                assert(branches_view(all@.push(branch)) =~= branches_view(all@).push(
                    ((node_view(condition), outer), body_view(body.steps@)),
                ));
            }
            all.push(branch);
            let found = join_errors(errors, body.errors);
            let closed = body.end;
            if keyword_at(tokens, closed, Keyword::End) {
                let whole = Span { start: start.start, end: tokens[closed].1.end };
                finish(tokens, pos, (Statement::If(all, None), whole), found, closed + 1)
            } else if keyword_at(tokens, closed, Keyword::Else) {
                if keyword_at(tokens, closed + 1, Keyword::If) {
                    parse_conditional(tokens, closed + 1, all, found, start)
                } else {
                    let last = parse_body(tokens, closed + 1);
                    if keyword_at(tokens, last.end, Keyword::End) {
                        let whole = Span { start: start.start, end: tokens[last.end].1.end };
                        finish(
                            tokens,
                            pos,
                            (Statement::If(all, Some(last.steps)), whole),
                            join_errors(found, last.errors),
                            last.end + 1,
                        )
                    } else {
                        let error = error_here(tokens, last.end, ParseErrorKind::ExpectedEnd).within(
                            Construct::If,
                            start,
                        );
                        fail(tokens, pos, join_errors(found, last.errors), error, last.end)
                    }
                }
            } else {
                let error = error_here(tokens, closed, ParseErrorKind::ExpectedEnd).within(
                    Construct::If,
                    start,
                );
                fail(tokens, pos, found, error, closed)
            }
        },
        Err(error) => {
            let place = find_place(tokens, pos, &error);
            fail(tokens, pos, errors, error.within(Construct::If, start), place)
        },
    }
}

/// What parsing a whole program gives, from `pos` on.
#[verifier::rlimit(50)]
pub fn parse_program(tokens: &Vec<(Token<String>, Span)>, pos: usize) -> (body: ParsedBody)
    requires
        pos <= tokens@.len(),
    ensures
        body@ == program_at(tokens_view(tokens@), pos as int),
    decreases remaining(tokens_view(tokens@), pos as int), 40int, 0int,
{
    let total = tokens.len();
    proof {
        empty_views();
    }
    let body = parse_body(tokens, pos);
    if body.end < tokens.len() {
        let rest = parse_program(tokens, body.end + 1);
        let mut steps = body.steps;
        let mut tail = rest.steps;
        proof {
            assert(body_view(steps@ + tail@) =~= body_view(steps@) + body_view(tail@));
        }
        steps.append(&mut tail);
        let mut errors = body.errors;
        let error = error_here(tokens, body.end, ParseErrorKind::UnexpectedClosing);
        proof {
            assert(errors_view(errors@.push(error)) =~= errors_view(errors@).push(error@));
        }
        errors.push(error);
        ParsedBody { steps, errors: join_errors(errors, rest.errors), end: rest.end }
    } else {
        body
    }
}

/// Parses the tokens of a program. Comments have to be taken out before.
///
/// Gives the statements where the tokens are a program, and otherwise every
/// diagnostic, in the order of the text.
pub fn ast_parser(tokens: &Vec<(Token<String>, Span)>) -> (result: Result<Body, Vec<ParseError>>)
    ensures
        match result {
            Ok(body) => parsed(tokens_view(tokens@)).errors.len() == 0 && body_view(body@)
                == parsed(tokens_view(tokens@)).steps,
            Err(errors) => errors@.len() > 0 && errors_view(errors@) == parsed(
                tokens_view(tokens@),
            ).errors,
        },
{
    let body = parse_program(tokens, 0);
    if body.errors.len() == 0 {
        Ok(body.steps)
    } else {
        Err(body.errors)
    }
}

/// The first `n` tokens without the comments.
pub open spec fn without_comments(tokens: Tokens, n: int) -> Tokens
    decreases n,
{
    if n <= 0 || n > tokens.len() {
        Seq::empty()
    } else if tokens[n - 1].0 is Comment {
        without_comments(tokens, n - 1)
    } else {
        without_comments(tokens, n - 1).push(tokens[n - 1])
    }
}

/// The tokens without the comments, in their order.
pub fn strip_comments(tokens: Vec<(Token<String>, Span)>) -> (stripped: Vec<(Token<String>, Span)>)
    ensures
        tokens_view(stripped@) == without_comments(tokens_view(tokens@), tokens@.len() as int),
{
    let ghost all = tokens_view(tokens@);
    let mut tokens = tokens;
    let n = tokens.len();
    let mut rest: Vec<(Token<String>, Span)> = Vec::new();
    while tokens.len() > 0
        invariant
            n == all.len(),
            tokens@.len() + rest@.len() == n,
            forall|j: int| 0 <= j < tokens@.len() ==> tokens_view(tokens@)[j] == all[j],
            forall|j: int| 0 <= j < rest@.len() ==> tokens_view(rest@)[j] == all[n - 1 - j],
        decreases tokens@.len(),
    {
        let ghost before = tokens_view(tokens@);
        let ghost taken = tokens_view(rest@);
        let last = tokens.pop().unwrap();
        proof {
            assert((last.0@, last.1) == before[before.len() - 1]);
            assert(tokens_view(rest@.push(last)) =~= taken.push((last.0@, last.1)));
            assert forall|j: int| 0 <= j < tokens@.len() implies tokens_view(tokens@)[j]
                == all[j] by {
                assert(tokens_view(tokens@)[j] == before[j]);
            }
        }
        rest.push(last);
    }
    let mut stripped: Vec<(Token<String>, Span)> = Vec::new();
    while rest.len() > 0
        invariant
            n == all.len(),
            rest@.len() <= n,
            forall|j: int| 0 <= j < rest@.len() ==> tokens_view(rest@)[j] == all[n - 1 - j],
            tokens_view(stripped@) == without_comments(all, n - rest@.len()),
        decreases rest@.len(),
    {
        let ghost before = tokens_view(rest@);
        let ghost done = n - rest@.len();
        let token = rest.pop().unwrap();
        proof {
            assert((token.0@, token.1) == before[before.len() - 1]);
            assert((token.0@, token.1) == all[done]);
            assert forall|j: int| 0 <= j < rest@.len() implies tokens_view(rest@)[j] == all[n - 1
                - j] by {
                assert(tokens_view(rest@)[j] == before[j]);
            }
        }
        if !matches!(token.0, Token::Comment(_)) {
            proof {
                assert(tokens_view(stripped@.push(token)) =~= tokens_view(stripped@).push(
                    (token.0@, token.1),
                ));
            }
            stripped.push(token);
        }
    }
    stripped
}

} // verus!
