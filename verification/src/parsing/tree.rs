//! The syntax tree as contracts see it: sequences in place of
//! vectors, and the characters of a text in place of a string.

use crate::ast::{
    BinaryOp, Comparison, Expr, FunctionArgument, Path, Span, Spanned, Statement, UnaryOp, Value,
};
use vstd::prelude::*;

verus! {

broadcast use vstd::std_specs::vec::group_vec_axioms;

/// An expression with its span.
pub type Node = (ExprView, Span);

/// A statement with its span.
pub type Step = (StatementView, Span);

/// A literal.
pub enum ValueView {
    Null,
    Num(Seq<char>),
    String(Seq<char>),
    Boolean(bool),
}

/// A parameter of a function.
pub struct ArgumentView {
    pub name: (Seq<char>, Span),
    pub default_value: Option<Node>,
}

/// An expression.
pub enum ExprView {
    Value(ValueView),
    Path(Seq<char>),
    List(Seq<Node>),
    MapLiteral(Seq<(Node, Node)>),
    FunctionDefinition(Seq<ArgumentView>, Seq<Step>),
    Comparison(Box<Node>, Seq<(Comparison, Node)>),
    Binary(Box<Node>, BinaryOp, Box<Node>),
    Unary(UnaryOp, Box<Node>),
    Call(Box<Node>, Seq<Node>),
    ExprIndex(Box<Node>, Box<Node>),
    Index(Box<Node>, Seq<char>),
    Error,
}

/// A statement.
pub enum StatementView {
    Assignment(Node, Node),
    Expression(Node),
    If(Seq<((Node, Span), Seq<Step>)>, Option<Seq<Step>>),
    While((Node, Span), Seq<Step>),
    For((Seq<char>, Span), Node, Seq<Step>),
    Break,
    Continue,
    Return(Option<Node>),
    Error,
}

/// A literal as contracts see it.
pub open spec fn value_view(value: Value) -> ValueView {
    match value {
        Value::Null => ValueView::Null,
        Value::Num(text) => ValueView::Num(text@),
        Value::String(text) => ValueView::String(text@),
        Value::Boolean(b) => ValueView::Boolean(b),
    }
}

/// An expression as contracts see it.
pub open spec fn expr_view(expr: Expr) -> ExprView
    decreases expr,
{
    match expr {
        Expr::Value(value) => ExprView::Value(value_view(value)),
        Expr::Path(Path::AnyScope(name)) => ExprView::Path(name@),
        Expr::List(items) => ExprView::List(nodes_view(items@)),
        Expr::MapLiteral(pairs) => ExprView::MapLiteral(pairs_view(pairs@)),
        Expr::FunctionDefinition(arguments, body) => ExprView::FunctionDefinition(
            arguments_view(arguments@),
            body_view(body@),
        ),
        Expr::Comparison(lhs, chain) => ExprView::Comparison(
            Box::new((expr_view(lhs.0), lhs.1)),
            links_view(chain@),
        ),
        Expr::Binary(lhs, op, rhs) => ExprView::Binary(
            Box::new((expr_view(lhs.0), lhs.1)),
            op,
            Box::new((expr_view(rhs.0), rhs.1)),
        ),
        Expr::Unary(op, inner) => ExprView::Unary(op, Box::new((expr_view(inner.0), inner.1))),
        Expr::Call(callee, arguments) => ExprView::Call(
            Box::new((expr_view(callee.0), callee.1)),
            nodes_view(arguments@),
        ),
        Expr::ExprIndex(base, key) => ExprView::ExprIndex(
            Box::new((expr_view(base.0), base.1)),
            Box::new((expr_view(key.0), key.1)),
        ),
        Expr::Index(base, name) => ExprView::Index(Box::new((expr_view(base.0), base.1)), name@),
        Expr::Error => ExprView::Error,
    }
}

/// Expressions as contracts see them.
pub open spec fn nodes_view(items: Seq<Spanned<Expr>>) -> Seq<Node>
    decreases items,
{
    Seq::new(
        items.len(),
        |i: int|
            if 0 <= i < items.len() {
                (expr_view(items[i].0), items[i].1)
            } else {
                (ExprView::Error, Span { start: 0, end: 0 })
            },
    )
}

/// The pairs of a map as contracts see them.
pub open spec fn pairs_view(pairs: Seq<(Spanned<Expr>, Spanned<Expr>)>) -> Seq<(Node, Node)>
    decreases pairs,
{
    Seq::new(
        pairs.len(),
        |i: int|
            if 0 <= i < pairs.len() {
                (
                    (expr_view(pairs[i].0.0), pairs[i].0.1),
                    (expr_view(pairs[i].1.0), pairs[i].1.1),
                )
            } else {
                (
                    (ExprView::Error, Span { start: 0, end: 0 }),
                    (ExprView::Error, Span { start: 0, end: 0 }),
                )
            },
    )
}

/// The links of a comparison chain as contracts see them.
pub open spec fn links_view(chain: Seq<(Comparison, Spanned<Expr>)>) -> Seq<(Comparison, Node)>
    decreases chain,
{
    Seq::new(
        chain.len(),
        |i: int|
            if 0 <= i < chain.len() {
                (chain[i].0, (expr_view(chain[i].1.0), chain[i].1.1))
            } else {
                (Comparison::Eq, (ExprView::Error, Span { start: 0, end: 0 }))
            },
    )
}

/// A parameter as contracts see it.
pub open spec fn argument_view(argument: FunctionArgument) -> ArgumentView
    decreases argument,
{
    ArgumentView {
        name: (argument.name.0@, argument.name.1),
        default_value: match argument.default_value {
            Some(value) => Some((expr_view(value.0), value.1)),
            None => None,
        },
    }
}

/// Parameters as contracts see them.
pub open spec fn arguments_view(arguments: Seq<FunctionArgument>) -> Seq<ArgumentView>
    decreases arguments,
{
    Seq::new(
        arguments.len(),
        |i: int|
            if 0 <= i < arguments.len() {
                argument_view(arguments[i])
            } else {
                ArgumentView { name: (Seq::empty(), Span { start: 0, end: 0 }), default_value: None }
            },
    )
}

/// A statement as contracts see it.
pub open spec fn statement_view(statement: Statement) -> StatementView
    decreases statement,
{
    match statement {
        Statement::Assignment(lhs, rhs) => StatementView::Assignment(
            (expr_view(lhs.0), lhs.1),
            (expr_view(rhs.0), rhs.1),
        ),
        Statement::Expression(expr) => StatementView::Expression((expr_view(expr.0), expr.1)),
        Statement::If(branches, otherwise) => StatementView::If(
            branches_view(branches@),
            match otherwise {
                Some(body) => Some(body_view(body@)),
                None => None,
            },
        ),
        Statement::While(condition, body) => StatementView::While(
            ((expr_view(condition.0.0), condition.0.1), condition.1),
            body_view(body@),
        ),
        Statement::For(name, items, body) => StatementView::For(
            (name.0@, name.1),
            (expr_view(items.0), items.1),
            body_view(body@),
        ),
        Statement::Break => StatementView::Break,
        Statement::Continue => StatementView::Continue,
        Statement::Return(value) => StatementView::Return(
            match value {
                Some(value) => Some((expr_view(value.0), value.1)),
                None => None,
            },
        ),
        Statement::Error => StatementView::Error,
    }
}

/// A body as contracts see it.
pub open spec fn body_view(body: Seq<Spanned<Statement>>) -> Seq<Step>
    decreases body,
{
    Seq::new(
        body.len(),
        |i: int|
            if 0 <= i < body.len() {
                (statement_view(body[i].0), body[i].1)
            } else {
                (StatementView::Error, Span { start: 0, end: 0 })
            },
    )
}

/// The branches of a conditional as contracts see them.
pub open spec fn branches_view(branches: Seq<(Spanned<Spanned<Expr>>, Vec<Spanned<Statement>>)>) -> Seq<
    ((Node, Span), Seq<Step>),
>
    decreases branches,
{
    Seq::new(
        branches.len(),
        |i: int|
            if 0 <= i < branches.len() {
                (
                    ((expr_view(branches[i].0.0.0), branches[i].0.0.1), branches[i].0.1),
                    body_view(branches[i].1@),
                )
            } else {
                (((ExprView::Error, Span { start: 0, end: 0 }), Span { start: 0, end: 0 }), Seq::empty())
            },
    )
}

} // verus!
