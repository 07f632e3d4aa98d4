//! The syntax tree that the parser builds and the compiler reads.

use crate::errors::MsError;
use vstd::prelude::*;

verus! {

/// The syntax tree of a program.
pub struct AST(Body);

impl AST {
    /// The statements of the program.
    pub closed spec fn statements(&self) -> Body {
        self.0
    }

    /// The statements of the program.
    pub fn body(&self) -> (body: &Body)
        ensures
            *body == self.statements(),
    {
        &self.0
    }

    /// The tree of a program that consists of `body`.
    pub fn from_body(body: Body) -> (tree: Result<AST, MsError>)
        ensures
            tree is Ok,
            tree->Ok_0.statements() == body,
    {
        Ok(AST(body))
    }

    /// The tree of a program that consists of `body`.
    pub fn from_body_unchecked(body: Body) -> (tree: AST)
        ensures
            tree.statements() == body,
    {
        AST(body)
    }

    /// The statements of the program, by value.
    pub fn into_body(self) -> (body: Body)
        ensures
            body == self.statements(),
    {
        self.0
    }
}

/// A syntax tree as the parser made it, which may hold error nodes.
pub struct DirtyAST(pub Body);

/// A half-open byte range `start..end` into the source text.
#[derive(Debug, Clone, Copy, PartialEq, Eq, Structural)]
pub struct Span {
    pub start: usize,
    pub end: usize,
}

impl Span {
    /// The span `start..end`.
    pub fn new(start: usize, end: usize) -> (span: Span)
        ensures
            span == (Span { start, end }),
    {
        Span { start, end }
    }

    /// The empty span at the start of the text, carried by instructions that
    /// stand for no source of their own.
    pub fn empty() -> (span: Span)
        ensures
            span == (Span { start: 0, end: 0 }),
    {
        Span { start: 0, end: 0 }
    }
}

/// A value together with the span of the text that it came from.
pub type Spanned<T> = (T, Span);

/// A sequence of statements.
pub type Body = Vec<Spanned<Statement>>;

/// A statement.
#[derive(Debug, PartialEq)]
pub enum Statement {
    /// `target = value`
    Assignment(Spanned<Expr>, Spanned<Expr>),
    /// An expression evaluated for its effects.
    Expression(Spanned<Expr>),
    /// The conditions of an `if` / `else if` chain with their bodies, and the
    /// body of the final `else`.
    If(Vec<(Spanned<Spanned<Expr>>, Body)>, Option<Body>),
    /// `while condition body end`
    While(Spanned<Spanned<Expr>>, Body),
    /// `for name in items body end`
    For(Spanned<String>, Spanned<Expr>, Body),
    Break,
    Continue,
    Return(Option<Spanned<Expr>>),
    /// Left where a statement could not be parsed.
    Error,
}

/// An expression.
#[derive(Debug, PartialEq)]
pub enum Expr {
    /// Literal value
    Value(Value),
    /// The value of a variable
    Path(Path),
    /// List literal
    List(Vec<Spanned<Expr>>),
    /// Map literal, as (key, value) pairs
    MapLiteral(Vec<(Spanned<Expr>, Spanned<Expr>)>),
    /// Function definition, as (arguments, body)
    FunctionDefinition(Vec<FunctionArgument>, Body),
    /// A left operand followed by (comparator, operand) links
    Comparison(Box<Spanned<Expr>>, Vec<(Comparison, Spanned<Expr>)>),
    /// Binary expression
    Binary(Box<Spanned<Expr>>, BinaryOp, Box<Spanned<Expr>>),
    /// Unary expression
    Unary(UnaryOp, Box<Spanned<Expr>>),
    /// Call of a callee with arguments
    Call(Box<Spanned<Expr>>, Vec<Spanned<Expr>>),
    /// Indexing by a computed key: `base[key]`
    ExprIndex(Box<Spanned<Expr>>, Box<Spanned<Expr>>),
    /// Indexing by a field name: `base.name`
    Index(Box<Spanned<Expr>>, String),
    /// Left where an expression could not be parsed.
    Error,
}

impl Expr {
    /// Whether an assignment may have this expression on its left.
    pub fn is_valid_assignment_target(&self) -> (valid: bool)
        ensures
            valid == (*self is Path || *self is Index || *self is ExprIndex),
    {
        match self {
            Expr::Path(_) => true,
            Expr::Index(_, _) => true,
            Expr::ExprIndex(_, _) => true,
            _ => false,
        }
    }

    /// Whether this expression is a literal.
    pub fn is_constant(&self) -> (constant: bool)
        ensures
            constant == (*self is Value),
    {
        match self {
            Expr::Value(_) => true,
            _ => false,
        }
    }
}

/// A literal as it is written in the source.
#[derive(Debug, Clone, PartialEq)]
pub enum Value {
    /// Null literal
    Null,
    /// Numeric literal, as the text of the number
    Num(String),
    /// String literal, as the text between the quotes
    String(String),
    /// Boolean literal
    Boolean(bool),
}

/// The binary operators, from lowest to highest precedence.
#[derive(Copy, Clone, Debug, PartialEq, Eq, Structural)]
pub enum BinaryOp {
    Or,
    And,
    Add,
    Sub,
    Mul,
    Div,
    Pow,
}

/// The comparison operators. All of them share one precedence.
#[derive(Copy, Clone, Debug, PartialEq, Eq, Structural)]
pub enum Comparison {
    Eq,
    NotEq,
    Gt,
    Lt,
    GtEq,
    LtEq,
}

/// The unary operators, from lowest to highest precedence.
#[derive(Copy, Clone, Debug, PartialEq, Eq, Structural)]
pub enum UnaryOp {
    Not,
    Isa,
    Neg,
    New,
    AddressOf,
    Error,
}

/// A parameter of a function, with the value it takes where none is given.
#[derive(Debug, PartialEq)]
pub struct FunctionArgument {
    pub name: Spanned<String>,
    pub default_value: Option<Spanned<Expr>>,
}

/// The way to a variable.
#[derive(Debug, Clone, PartialEq)]
pub enum Path {
    /// A variable that may live in any visible scope
    AnyScope(String),
}

} // verus!
