//! What compiling yields, as mathematics: the instructions that each
//! construct of the language is lowered to, and the registers it takes.

use crate::ast::{BinaryOp, Body, Comparison, Expr, Path, Span, Spanned, Statement, Value};
use crate::errors::MsErrorType;
use crate::value::{number_le, number_lt, Value as RunValue};
use crate::vm::effects::side_effects;
use crate::vm::model::Model;
use crate::vm::op_code::{stepped, Effect, OpCode};
use crate::vm::register::StackIndex;
use vstd::prelude::*;

verus! {

broadcast use vstd::std_specs::vec::group_vec_axioms;

/// Whether `expr` is the name `print`.
pub open spec fn is_print(expr: Expr) -> bool {
    expr matches Expr::Path(Path::AnyScope(name)) && name@ == "print"@
}

/// Whether the compiler can lower `expr`: literals, variables, comparison
/// chains, binary operations, and `print` with one argument.
pub open spec fn supported(expr: Expr) -> bool
    decreases expr,
{
    match expr {
        Expr::Value(_) => true,
        Expr::Path(_) => true,
        Expr::Comparison(lhs, chain) => supported(lhs.0) && links_supported(
            chain@,
            chain@.len() as int,
        ),
        Expr::Binary(lhs, _, rhs) => supported(lhs.0) && supported(rhs.0),
        Expr::Call(callee, args) => is_print(callee.0) && args@.len() == 1 && supported(args@[0].0),
        _ => false,
    }
}

/// Whether the operands of the first `n` links can be lowered.
pub open spec fn links_supported(chain: Seq<(Comparison, Spanned<Expr>)>, n: int) -> bool
    decreases chain, n,
{
    if n <= 0 || n > chain.len() {
        true
    } else {
        links_supported(chain, n - 1) && supported(chain[n - 1].1.0)
    }
}

/// An upper bound on the new registers that lowering `expr` takes. It is
/// positive, and greater than the bound of every part of `expr`.
pub open spec fn weight(expr: Expr) -> nat
    decreases expr,
{
    match expr {
        Expr::Comparison(lhs, chain) => 3 + weight(lhs.0) + links_weight(
            chain@,
            chain@.len() as int,
        ),
        Expr::Binary(lhs, _, rhs) => 2 + weight(lhs.0) + weight(rhs.0),
        Expr::Call(callee, args) => if args@.len() >= 1 {
            2 + weight(args@[0].0)
        } else {
            1
        },
        _ => 1,
    }
}

/// The bound for the first `n` links of a chain.
pub open spec fn links_weight(chain: Seq<(Comparison, Spanned<Expr>)>, n: int) -> nat
    decreases chain, n,
{
    if n <= 0 || n > chain.len() {
        0
    } else {
        links_weight(chain, n - 1) + weight(chain[n - 1].1.0) + 1
    }
}

/// Whether `statement` has a shape that the compiler can lower: an
/// expression, an assignment of what can be lowered to a variable, a
/// conditional or a `while` loop whose conditions can be lowered and whose
/// bodies have such shapes. Whether an expression statement can be lowered
/// depends on what is known of the locals where it stands: see
/// `statement_ok`.
pub open spec fn statement_supported(statement: Statement) -> bool
    decreases statement,
{
    match statement {
        Statement::Expression(_) => true,
        Statement::Assignment(lhs, rhs) => lhs.0 is Path && supported(rhs.0),
        Statement::If(branches, otherwise) => branches_supported(
            branches@,
            branches@.len() as int,
        ) && (match otherwise {
            Some(body) => body_supported(body@, body@.len() as int),
            None => true,
        }),
        Statement::While(condition, body) => supported(condition.0.0) && body_supported(
            body@,
            body@.len() as int,
        ),
        _ => false,
    }
}

/// Whether the first `n` statements can be lowered.
pub open spec fn body_supported(body: Seq<Spanned<Statement>>, n: int) -> bool
    decreases body, n,
{
    if n <= 0 || n > body.len() {
        true
    } else {
        body_supported(body, n - 1) && statement_supported(body[n - 1].0)
    }
}

/// Whether the first `n` branches of a conditional can be lowered.
pub open spec fn branches_supported(branches: Seq<(Spanned<Spanned<Expr>>, Body)>, n: int) -> bool
    decreases branches, n,
{
    if n <= 0 || n > branches.len() {
        true
    } else {
        branches_supported(branches, n - 1) && supported(branches[n - 1].0.0.0) && body_supported(
            branches[n - 1].1@,
            branches[n - 1].1@.len() as int,
        )
    }
}

/// An upper bound on the new registers that lowering `statement` takes.
pub open spec fn statement_weight(statement: Statement) -> nat
    decreases statement,
{
    match statement {
        Statement::Expression(expr) => if supported(expr.0) {
            1 + weight(expr.0)
        } else {
            1
        },
        Statement::Assignment(_, rhs) => 2 + weight(rhs.0),
        Statement::If(branches, otherwise) => 2 + branches_weight(branches@, 0) + (match otherwise {
            Some(body) => body_weight(body@, body@.len() as int),
            None => 0,
        }),
        Statement::While(condition, body) => 1 + weight(condition.0.0) + body_weight(
            body@,
            body@.len() as int,
        ),
        _ => 1,
    }
}

/// The bound for the first `n` statements.
pub open spec fn body_weight(body: Seq<Spanned<Statement>>, n: int) -> nat
    decreases body, n,
{
    if n <= 0 || n > body.len() {
        0
    } else {
        body_weight(body, n - 1) + statement_weight(body[n - 1].0) + 1
    }
}

/// The bound for the branches of a conditional from `from` on.
pub open spec fn branches_weight(branches: Seq<(Spanned<Spanned<Expr>>, Body)>, from: int) -> nat
    decreases branches, branches.len() - from,
{
    if from < 0 || from >= branches.len() {
        0
    } else {
        1 + weight(branches[from].0.0.0) + body_weight(
            branches[from].1@,
            branches[from].1@.len() as int,
        ) + branches_weight(branches, from + 1)
    }
}

/// The bound for more links is no less.
pub proof fn links_weight_grows(chain: Seq<(Comparison, Spanned<Expr>)>, n: int, m: int)
    requires
        0 <= n <= m <= chain.len(),
    ensures
        links_weight(chain, n) <= links_weight(chain, m),
    decreases m - n,
{
    if n < m {
        links_weight_grows(chain, n, m - 1);
    }
}

/// The bound for more statements is no less.
pub proof fn body_weight_grows(body: Seq<Spanned<Statement>>, n: int, m: int)
    requires
        0 <= n <= m <= body.len(),
    ensures
        body_weight(body, n) <= body_weight(body, m),
    decreases m - n,
{
    if n < m {
        body_weight_grows(body, n, m - 1);
    }
}

/// The text of the number that stands for a truth value.
pub open spec fn truth_text(b: bool) -> Seq<char> {
    if b {
        "1"@
    } else {
        "0"@
    }
}

/// The instruction that compares two registers.
pub open spec fn comparison(
    comp: Comparison,
    lhs: StackIndex,
    rhs: StackIndex,
    output: StackIndex,
) -> OpCode<Seq<char>> {
    match comp {
        Comparison::Eq => OpCode::Equals { lhs, rhs, output },
        Comparison::NotEq => OpCode::NotEquals { lhs, rhs, output },
        Comparison::Gt => OpCode::GreaterThan { lhs, rhs, output },
        Comparison::Lt => OpCode::LessThan { lhs, rhs, output },
        Comparison::GtEq => OpCode::GreaterOrEquals { lhs, rhs, output },
        Comparison::LtEq => OpCode::LessOrEquals { lhs, rhs, output },
    }
}

/// The instruction of an arithmetic operator.
pub open spec fn arithmetic(
    op: BinaryOp,
    output: StackIndex,
    lhs: StackIndex,
    rhs: StackIndex,
) -> OpCode<Seq<char>> {
    match op {
        BinaryOp::Add => OpCode::Add { output, lhs, rhs },
        BinaryOp::Sub => OpCode::Subtract { output, lhs, rhs },
        BinaryOp::Mul => OpCode::Multiply { output, lhs, rhs },
        BinaryOp::Div => OpCode::Divide { output, lhs, rhs },
        BinaryOp::Pow => OpCode::Pow { output, lhs, rhs },
        BinaryOp::Or => OpCode::FuzzyOr { output, lhs, rhs },
        BinaryOp::And => OpCode::FuzzyAnd { output, lhs, rhs },
    }
}

/// Lowering a literal: one instruction that sets the target register.
pub open spec fn literal(m: Model, value: Value, span: Span, register: Option<StackIndex>) -> (
    Model,
    StackIndex,
) {
    let (m, r) = m.actualize(register);
    match value {
        Value::Null => (m.emit(OpCode::SetNull(r), span), r),
        Value::Num(text) => (m.emit(OpCode::SetNumber(r, text@), span), r),
        Value::Boolean(b) => (m.emit(OpCode::SetNumber(r, truth_text(b)), span), r),
        Value::String(text) => {
            let (m, index) = m.constant_index(text@);
            (m.emit(OpCode::SetString(r, index), span), r)
        },
    }
}

/// Lowering a variable.
///
/// Where the variable cannot hold a function, or a call is suppressed, it is
/// read: a local without a target yields its own register and no
/// instruction, a local with a target is copied, any other name is looked up.
/// Otherwise it is read and called without arguments.
pub open spec fn path(
    m: Model,
    name: Seq<char>,
    span: Span,
    register: Option<StackIndex>,
    suppress_call: bool,
) -> (Model, StackIndex) {
    if suppress_call || !m.can_be_function(name) {
        match (m.local_register(name), register) {
            (Some(index), None) => (m, index),
            (Some(index), Some(output)) => (
                m.emit(OpCode::Copy { source: index, output }, span),
                output,
            ),
            (None, _) => {
                let (m, r) = m.actualize(register);
                (m.emit(OpCode::ReadVariable(r, name), span), r)
            },
        }
    } else {
        let (m, r) = m.actualize(register);
        let (m, input) = match m.local_register(name) {
            Some(index) => (m, index),
            None => (m.emit(OpCode::ReadVariable(r, name), span), r),
        };
        (m.emit(OpCode::Call0 { function: input, output: r }, span), r)
    }
}

/// Reading a local that cannot hold a function calls nothing: without a
/// target it yields the register of the local and no instruction, and with a
/// target it is copied.
pub proof fn plain_local_is_not_called(
    m: Model,
    name: Seq<char>,
    span: Span,
    output: StackIndex,
    suppress_call: bool,
)
    requires
        m.locals.contains_key(name),
        !m.locals[name].can_be_function,
    ensures
        path(m, name, span, None, suppress_call) == (m, m.locals[name].register),
        path(m, name, span, Some(output), suppress_call) == (
            m.emit(OpCode::Copy { source: m.locals[name].register, output }, span),
            output,
        ),
{
}

/// Reading a local that may hold a function, where no call is suppressed,
/// emits one instruction and no other: the call of the local's register
/// without arguments into the target, or into a register that is handed out
/// where no target is given. The instruction carries the span of the read.
pub proof fn callable_local_is_called(m: Model, name: Seq<char>, span: Span, output: StackIndex)
    requires
        m.locals.contains_key(name),
        m.locals[name].can_be_function,
    ensures
        path(m, name, span, Some(output), false) == (
            m.emit(OpCode::Call0 { function: m.locals[name].register, output }, span),
            output,
        ),
        path(m, name, span, None, false) == (
            m.get_register().0.emit(
                OpCode::Call0 {
                    function: m.locals[name].register,
                    output: m.get_register().1,
                },
                span,
            ),
            m.get_register().1,
        ),
{
    assert(m.get_register().0.locals == m.locals) by {
        reveal(Model::get_register);
    }
}

/// Lowering an expression into `register`, or into a register of the
/// compiler's choice where none is given. Gives the register that holds the
/// value.
#[verifier::opaque]
pub open spec fn expression(
    m: Model,
    expr: Expr,
    span: Span,
    register: Option<StackIndex>,
    suppress_call: bool,
) -> (Model, StackIndex)
    decreases weight(expr), 1int,
{
    let m = m.clear_assignment_spans();
    match expr {
        Expr::Value(value) => literal(m, value, span, register),
        Expr::Path(Path::AnyScope(name)) => path(m, name@, span, register, suppress_call),
        Expr::Comparison(lhs, chain) => comparison_chain(m, *lhs, chain@, span, register),
        Expr::Binary(lhs, op, rhs) => binary_op(m, *lhs, op, *rhs, span, register),
        Expr::Call(callee, args) => if args@.len() >= 1 {
            function_call(m, args@[0], span, register)
        } else {
            (m, StackIndex(0))
        },
        _ => (m, StackIndex(0)),
    }
}

/// Lowering `print argument`: the argument is lowered into the target
/// register, which `Print` then reads and overwrites.
#[verifier::opaque]
pub open spec fn function_call(
    m: Model,
    argument: Spanned<Expr>,
    span: Span,
    register: Option<StackIndex>,
) -> (Model, StackIndex)
    decreases weight(argument.0) + 1, 0int,
{
    let (m, r) = m.actualize(register);
    let (m, arg) = expression(m, argument.0, argument.1, Some(r), false);
    (m.emit(OpCode::Print { value: arg, output: r }, span), r)
}

/// Lowering an arithmetic operation: both operands, then the instruction.
/// `and` and `or` are lowered by `binary_logic`.
#[verifier::opaque]
pub open spec fn binary_op(
    m: Model,
    lhs: Spanned<Expr>,
    op: BinaryOp,
    rhs: Spanned<Expr>,
    span: Span,
    register: Option<StackIndex>,
) -> (Model, StackIndex)
    decreases weight(lhs.0) + weight(rhs.0) + 1, 1int,
{
    if op == BinaryOp::Or || op == BinaryOp::And {
        binary_logic(m, lhs, rhs, op == BinaryOp::And, span, register)
    } else {
        let (m, output, released) = m.actualize_and_release_if_unused(register);
        let (m, l) = expression(m, lhs.0, lhs.1, None, false);
        let (m, r) = expression(m, rhs.0, rhs.1, None, false);
        let m = m.emit(arithmetic(op, output, l, r), span);
        let m = m.release_if_unused(l).0;
        let m = m.release_if_unused(r).0;
        let m = if released {
            m.take_back_register(output)
        } else {
            m
        };
        (m, output)
    }
}

/// Lowering `and` and `or` with a short circuit.
///
/// The left operand is computed; a conditional jump leaves out the right
/// operand where the left one decides (`and`: it does not count as true;
/// `or`: it is one or more). Else the right operand is computed and the
/// fuzzy operator combines the two, and a jump leaves out the instruction
/// that sets the decided result (`0` for `and`, `1` for `or`). Both paths
/// leave the result in the same register.
#[verifier::opaque]
pub open spec fn binary_logic(
    m: Model,
    lhs: Spanned<Expr>,
    rhs: Spanned<Expr>,
    is_and: bool,
    span: Span,
    register: Option<StackIndex>,
) -> (Model, StackIndex)
    decreases weight(lhs.0) + weight(rhs.0) + 1, 0int,
{
    let (m, register, released) = m.actualize_and_release_if_unused(register);
    let (m, l) = expression(m, lhs.0, lhs.1, None, false);
    let (m, jump) = m.emit_reserve(span);
    let (m, r) = expression(m, rhs.0, rhs.1, None, false);
    let m = if is_and {
        m.emit(OpCode::FuzzyAnd { output: register, lhs: l, rhs: r }, span)
    } else {
        m.emit(OpCode::FuzzyOr { output: register, lhs: l, rhs: r }, span)
    };
    let m = m.mark_assignment_span();
    let (m, jump_out) = m.emit_reserve(Span { start: 0, end: 0 });
    let m = if is_and {
        m.patch(jump, OpCode::JumpIfFalse(l, m.ops_length())).emit(
            OpCode::SetNumber(register, "0"@),
            span,
        )
    } else {
        m.patch(jump, OpCode::JumpIfAbsOneOrGreater(l, m.ops_length())).emit(
            OpCode::SetNumber(register, "1"@),
            span,
        )
    };
    let m = m.mark_assignment_span();
    let m = m.patch(jump_out, OpCode::Jump(m.ops_length()));
    let m = m.release_if_unused(l).0;
    let m = m.release_if_unused(r).0;
    let m = if released {
        m.take_back_register(register)
    } else {
        m
    };
    (m, register)
}

/// Lowering a comparison chain `lhs op operand op operand ...`.
///
/// One link is lowered to its comparison. Any other number of links is
/// lowered to an accumulator that starts as `1`; each link in turn is
/// compared into a scratch register and combined into the accumulator with
/// `And`, the right operand of a link being the left operand of the next, so
/// that every operand is computed once.
#[verifier::opaque]
pub open spec fn comparison_chain(
    m: Model,
    lhs: Spanned<Expr>,
    chain: Seq<(Comparison, Spanned<Expr>)>,
    span: Span,
    register: Option<StackIndex>,
) -> (Model, StackIndex)
    decreases weight(lhs.0) + links_weight(chain, chain.len() as int) + 2, 0int,
{
    let (m, register, released) = m.actualize_and_release_if_unused(register);
    let m = if chain.len() == 1 {
        let (m, l) = expression(m, lhs.0, lhs.1, None, false);
        let (m, r) = expression(m, chain[0].1.0, chain[0].1.1, None, false);
        let m = m.emit(comparison(chain[0].0, l, r, register), span);
        let m = m.release_if_unused(l).0;
        m.release_if_unused(r).0
    } else {
        let (m, accumulator) = m.get_register();
        let m = m.emit(OpCode::SetNumber(accumulator, "1"@), Span { start: 0, end: 0 });
        let (m, first) = expression(m, lhs.0, lhs.1, None, false);
        let (m, last) = links(m, lhs.1, chain, chain.len() as int, accumulator, first);
        let m = m.release_if_unused(last).0;
        let m = m.release_if_unused(accumulator).0;
        if register != accumulator {
            m.emit(OpCode::Copy { source: accumulator, output: register }, span)
        } else {
            m
        }
    };
    let m = if released {
        m.take_back_register(register)
    } else {
        m
    };
    (m, register)
}

/// The state after the first `n` links of a chain are lowered, and the
/// register that holds the right operand of the last of them (`first` where
/// `n` is 0).
#[verifier::opaque]
pub open spec fn links(
    m: Model,
    lhs_span: Span,
    chain: Seq<(Comparison, Spanned<Expr>)>,
    n: int,
    accumulator: StackIndex,
    first: StackIndex,
) -> (Model, StackIndex)
    decreases links_weight(chain, n), 2int,
{
    if n <= 0 || n > chain.len() {
        (m, first)
    } else {
        let (m, lhs_register) = links(m, lhs_span, chain, n - 1, accumulator, first);
        let previous = if n == 1 {
            lhs_span
        } else {
            chain[n - 2].1.1
        };
        let rhs = chain[n - 1].1;
        let (m, rhs_register) = expression(m, rhs.0, rhs.1, None, false);
        let m = m.release_if_unused(lhs_register).0;
        let (m, scratch) = m.get_register();
        let m = m.emit(
            comparison(chain[n - 1].0, lhs_register, rhs_register, scratch),
            Span { start: previous.start, end: rhs.1.end },
        );
        let m = m.emit(
            OpCode::And { lhs: accumulator, rhs: scratch, output: accumulator },
            Span { start: lhs_span.start, end: rhs.1.end },
        );
        let m = m.release_if_unused(scratch).0;
        let m = m.release_if_unused(lhs_register).0;
        (m, rhs_register)
    }
}

/// Every operand of a chain is lowered once, in the order of the text, and
/// a comparison reads the registers of its two operands.
///
/// After the links before it, link `n` lowers its right operand, once. Two
/// instructions follow: the comparison, which reads the register that the
/// link before left (the left operand of the chain for the first link) and
/// the register of the operand just lowered; and the `And` that takes the
/// outcome into the accumulator. The link leaves the register of its right
/// operand, which the next link reads as its left operand.
pub proof fn each_link_is_lowered_once(
    m: Model,
    lhs_span: Span,
    chain: Seq<(Comparison, Spanned<Expr>)>,
    n: int,
    accumulator: StackIndex,
    first: StackIndex,
)
    requires
        0 < n <= chain.len(),
    ensures
        links(m, lhs_span, chain, 0, accumulator, first) == (m, first),
        ({
            let (head, lhs_register) = links(m, lhs_span, chain, n - 1, accumulator, first);
            let (lowered, rhs_register) = expression(
                head,
                chain[n - 1].1.0,
                chain[n - 1].1.1,
                None,
                false,
            );
            let scratch = lowered.release_if_unused(lhs_register).0.get_register().1;
            &&& links(m, lhs_span, chain, n, accumulator, first).1 == rhs_register
            &&& links(m, lhs_span, chain, n, accumulator, first).0.code == lowered.code.push(
                comparison(chain[n - 1].0, lhs_register, rhs_register, scratch),
            ).push(OpCode::And { lhs: accumulator, rhs: scratch, output: accumulator })
        }),
{
    reveal(expression);
    reveal(function_call);
    reveal(binary_op);
    reveal(binary_logic);
    reveal(comparison_chain);
    reveal(links);
    reveal(Model::get_register);
    let (head, lhs_register) = links(m, lhs_span, chain, n - 1, accumulator, first);
    let rhs = chain[n - 1].1;
    let (lowered, rhs_register) = expression(head, rhs.0, rhs.1, None, false);
    let released = lowered.release_if_unused(lhs_register).0;
    let (taken, scratch) = released.get_register();
    assert(released.code == lowered.code);
    assert(taken.code == released.code);
}

/// Whether a comparison holds between two values. `Null` counts as `0.0`
/// in ordering, and equals nothing.
pub open spec fn compares(comp: Comparison, lhs: RunValue, rhs: RunValue) -> bool {
    match comp {
        Comparison::Eq => lhs.equals(rhs),
        Comparison::NotEq => !lhs.equals(rhs),
        Comparison::Gt => number_lt(rhs.bits(), lhs.bits()),
        Comparison::Lt => number_lt(lhs.bits(), rhs.bits()),
        Comparison::GtEq => number_le(rhs.bits(), lhs.bits()),
        Comparison::LtEq => number_le(lhs.bits(), rhs.bits()),
    }
}

/// Running the two instructions of a link: the accumulator then counts as
/// true exactly if it did before and the comparison holds between the two
/// operands, and it holds `1.0` or `0.0`. No register but the accumulator and
/// the scratch register changes, and the run goes on behind the two
/// instructions.
pub proof fn link_is_folded_in(
    comp: Comparison,
    lhs: StackIndex,
    rhs: StackIndex,
    scratch: StackIndex,
    accumulator: StackIndex,
    cursor: usize,
    stack: Seq<RunValue>,
)
    requires
        lhs.0 < stack.len(),
        rhs.0 < stack.len(),
        scratch.0 < stack.len(),
        accumulator.0 < stack.len(),
        scratch != accumulator,
        cursor + 2 <= usize::MAX,
    ensures
        ({
            let compared = stepped(comparison(comp, lhs, rhs, scratch), cursor, stack);
            let folded = stepped(
                OpCode::And { lhs: accumulator, rhs: scratch, output: accumulator },
                compared.cursor,
                compared.stack,
            );
            &&& compared.result == Ok::<Effect<Seq<char>>, MsErrorType>(Effect::Done)
            &&& folded.result == Ok::<Effect<Seq<char>>, MsErrorType>(Effect::Done)
            &&& folded.cursor == cursor + 2
            &&& folded.stack[accumulator.0 as int] == RunValue::of_bool(
                stack[accumulator.0 as int].truth() && compares(
                    comp,
                    stack[lhs.0 as int],
                    stack[rhs.0 as int],
                ),
            )
            &&& folded.stack[accumulator.0 as int].truth() == (stack[accumulator.0 as int].truth()
                && compares(comp, stack[lhs.0 as int], stack[rhs.0 as int]))
            &&& forall|i: int|
                0 <= i < stack.len() && i != scratch.0 && i != accumulator.0 ==> folded.stack[i]
                    == stack[i]
        }),
{
}

/// Whether the value of `expr` may be a function, as far as the compiler can
/// tell from its shape and from what it knows of the locals.
pub open spec fn may_be_function(m: Model, expr: Expr) -> bool
    decreases expr,
{
    match expr {
        Expr::Value(_) => false,
        Expr::Path(Path::AnyScope(name)) => m.can_be_function(name@),
        Expr::List(_) => false,
        Expr::MapLiteral(_) => false,
        Expr::FunctionDefinition(_, _) => true,
        Expr::Comparison(_, _) => false,
        Expr::Binary(_, _, _) => false,
        Expr::Unary(_, rhs) => may_be_function(m, rhs.0),
        Expr::Call(_, _) => true,
        Expr::ExprIndex(_, _) => true,
        Expr::Index(_, _) => true,
        Expr::Error => true,
    }
}

/// Lowering `name = rhs`.
///
/// A name that is no local yet gets a register and becomes a local. The
/// right side is lowered into the register of the local. The instructions
/// that write the result take the span of the assignment, and the local is
/// known to hold a function or not by the shape of the right side.
pub open spec fn assignment(m: Model, name: Seq<char>, rhs: Spanned<Expr>, span: Span) -> Model {
    let (m, lhs, is_new) = match m.local_register(name) {
        Some(register) => (m, register, false),
        None => {
            let (m, register) = m.get_register();
            (m, register, true)
        },
    };
    let ops_length = m.ops_length();
    let m = expression(m, rhs.0, rhs.1, Some(lhs), false).0;
    let m = m.patch_assignment_spans(ops_length, span);
    let m = if is_new {
        m.new_local(name, lhs)
    } else {
        m
    };
    m.set_can_be_function(name, may_be_function(m, rhs.0))
}

/// Lowering one statement.
#[verifier::opaque]
pub open spec fn statement(m: Model, statement: Statement, span: Span) -> Model
    decreases statement_weight(statement), 1int,
{
    match statement {
        Statement::Expression(expr) => if !side_effects(expr.0, m, false) {
            m
        } else {
            let (m, r) = expression(m, expr.0, expr.1, None, false);
            m.release_if_unused(r).0
        },
        Statement::Assignment(lhs, rhs) => match lhs.0 {
            Expr::Path(Path::AnyScope(name)) => assignment(m, name@, rhs, span),
            _ => m,
        },
        Statement::If(branches, otherwise) => conditional(m, branches@, 0, otherwise).0,
        Statement::While(condition, body) => while_loop(m, condition, body@),
        _ => m,
    }
}

/// The state after the first `n` statements are lowered.
#[verifier::opaque]
pub open spec fn statements(m: Model, body: Seq<Spanned<Statement>>, n: int) -> Model
    decreases body_weight(body, n), 2int,
{
    if n <= 0 || n > body.len() {
        m
    } else {
        statement(statements(m, body, n - 1), body[n - 1].0, body[n - 1].1)
    }
}

/// The bound for the body of an `else`.
pub open spec fn otherwise_weight(otherwise: Option<Body>) -> nat {
    match otherwise {
        Some(body) => body_weight(body@, body@.len() as int),
        None => 0,
    }
}

/// Lowering the branches of a conditional from `from` on, and the `else`.
/// Gives the index of the instruction that follows the conditional.
///
/// A branch is its condition, a jump past the branch taken if the condition
/// fails, the body, and, unless the branch is the last thing in the
/// conditional, a jump to the end of the conditional.
#[verifier::opaque]
pub open spec fn conditional(
    m: Model,
    branches: Seq<(Spanned<Spanned<Expr>>, Body)>,
    from: int,
    otherwise: Option<Body>,
) -> (Model, usize)
    decreases branches_weight(branches, from) + otherwise_weight(otherwise) + 1, 0int,
{
    if 0 <= from < branches.len() {
        let branch = branches[from];
        let (m, condition_register) = expression(m, branch.0.0.0, branch.0.0.1, None, false);
        let m = m.release_if_unused(condition_register).0;
        let (m, reserve) = m.emit_reserve(branch.0.1);
        let m = statements(m, branch.1@, branch.1@.len() as int);
        let (m, end_jump) = if branches.len() - from > 1 || otherwise is Some {
            let (m, id) = m.emit_reserve(Span { start: 0, end: 0 });
            (m, Some(id))
        } else {
            (m, None)
        };
        let next = m.ops_length();
        let (m, end) = conditional(m, branches, from + 1, otherwise);
        let m = m.patch(reserve, OpCode::JumpIfFalse(condition_register, next));
        let m = match end_jump {
            Some(id) => m.patch(id, OpCode::Jump(end)),
            None => m,
        };
        (m, m.ops_length())
    } else {
        let m = match otherwise {
            Some(body) => statements(m, body@, body@.len() as int),
            None => m,
        };
        (m, m.ops_length())
    }
}

/// Lowering `while condition body end`: the condition, a jump past the loop
/// taken if the condition fails, the body, and a jump back to the condition.
#[verifier::opaque]
pub open spec fn while_loop(
    m: Model,
    condition: Spanned<Spanned<Expr>>,
    body: Seq<Spanned<Statement>>,
) -> Model
    decreases body_weight(body, body.len() as int) + 1, 0int,
{
    let start = m.ops_length();
    let (m, condition_register) = expression(m, condition.0.0, condition.0.1, None, false);
    let (m, jump) = m.emit_reserve(condition.1);
    let m = m.release_if_unused(condition_register).0;
    let m = statements(m, body, body.len() as int);
    let m = m.emit(OpCode::Jump(start), Span { start: 0, end: 0 });
    m.patch(jump, OpCode::JumpIfFalse(condition_register, m.ops_length()))
}

/// The state after a whole program is lowered: its statements, then the
/// instruction that ends the run.
pub open spec fn program(body: Seq<Spanned<Statement>>) -> Model {
    statements(Model::start(), body, body.len() as int).emit(
        OpCode::Return(None),
        Span { start: 0, end: 0 },
    )
}

/// A program can be compiled if each of its statements can be lowered and
/// the registers that this may take can be counted in a `usize`.
pub open spec fn compilable(body: Seq<Spanned<Statement>>) -> bool {
    &&& body_supported(body, body.len() as int)
    &&& body_weight(body, body.len() as int) <= usize::MAX
    &&& statements_ok(Model::start(), body, body.len() as int)
}

/// Whether the expression statements of `statement` can be lowered where
/// they stand, the compiler being in the state `m` before the statement. An
/// expression statement can be lowered if it can have no side effects with
/// what is known of the locals there, in which case it yields no code, or if
/// its expression can be lowered.
#[verifier::opaque]
pub open spec fn statement_ok(m: Model, statement: Statement) -> bool
    decreases statement_weight(statement), 1int,
{
    match statement {
        Statement::Expression(expr) => !side_effects(expr.0, m, false) || supported(expr.0),
        Statement::If(branches, otherwise) => conditional_ok(m, branches@, 0, otherwise),
        Statement::While(condition, body) => while_ok(m, condition, body@),
        _ => true,
    }
}

/// Whether the expression statements of the first `n` statements can be
/// lowered where they stand.
#[verifier::opaque]
pub open spec fn statements_ok(m: Model, body: Seq<Spanned<Statement>>, n: int) -> bool
    decreases body_weight(body, n), 2int,
{
    if n <= 0 || n > body.len() {
        true
    } else {
        statements_ok(m, body, n - 1) && statement_ok(statements(m, body, n - 1), body[n - 1].0)
    }
}

/// The state in which the body of the branch `from` is lowered.
pub open spec fn before_branch(m: Model, branches: Seq<(Spanned<Spanned<Expr>>, Body)>, from: int) -> Model {
    let branch = branches[from];
    let (m, condition_register) = expression(m, branch.0.0.0, branch.0.0.1, None, false);
    m.release_if_unused(condition_register).0.emit_reserve(branch.0.1).0
}

/// The state in which the branches after the branch `from` are lowered.
pub open spec fn after_branch(
    m: Model,
    branches: Seq<(Spanned<Spanned<Expr>>, Body)>,
    from: int,
    otherwise: Option<Body>,
) -> Model {
    let branch = branches[from];
    let lowered = statements(before_branch(m, branches, from), branch.1@, branch.1@.len() as int);
    if branches.len() - from > 1 || otherwise is Some {
        lowered.emit_reserve(Span { start: 0, end: 0 }).0
    } else {
        lowered
    }
}

/// Whether the expression statements in the branches from `from` on, and in
/// the `else`, can be lowered where they stand.
#[verifier::opaque]
pub open spec fn conditional_ok(
    m: Model,
    branches: Seq<(Spanned<Spanned<Expr>>, Body)>,
    from: int,
    otherwise: Option<Body>,
) -> bool
    decreases branches_weight(branches, from) + otherwise_weight(otherwise) + 1, 0int,
{
    if 0 <= from < branches.len() {
        statements_ok(
            before_branch(m, branches, from),
            branches[from].1@,
            branches[from].1@.len() as int,
        ) && conditional_ok(after_branch(m, branches, from, otherwise), branches, from + 1, otherwise)
    } else {
        match otherwise {
            Some(body) => statements_ok(m, body@, body@.len() as int),
            None => true,
        }
    }
}

/// The index of the instruction that leaves a `while` loop: it follows the
/// instructions of the condition.
pub open spec fn loop_exit(m: Model, condition: Spanned<Spanned<Expr>>) -> int {
    expression(m, condition.0.0, condition.0.1, None, false).0.code.len() as int
}

/// The register that holds the condition of a `while` loop when the loop is
/// left or gone on with.
pub open spec fn loop_condition(m: Model, condition: Spanned<Spanned<Expr>>) -> StackIndex {
    expression(m, condition.0.0, condition.0.1, None, false).1
}

/// The state in which the body of a `while` loop is lowered.
pub open spec fn before_loop_body(m: Model, condition: Spanned<Spanned<Expr>>) -> Model {
    let (m, condition_register) = expression(m, condition.0.0, condition.0.1, None, false);
    m.emit_reserve(condition.1).0.release_if_unused(condition_register).0
}

/// Whether the expression statements in the body of a `while` loop can be
/// lowered where they stand.
#[verifier::opaque]
pub open spec fn while_ok(
    m: Model,
    condition: Spanned<Spanned<Expr>>,
    body: Seq<Spanned<Statement>>,
) -> bool
    decreases body_weight(body, body.len() as int) + 1, 0int,
{
    statements_ok(before_loop_body(m, condition), body, body.len() as int)
}

/// Whether a statement is `print`, called with the one argument that is the
/// number literal `text`.
pub open spec fn prints_literal(statement: Statement, text: Seq<char>) -> bool {
    match statement {
        Statement::Expression(expr) => match expr.0 {
            Expr::Call(callee, args) => is_print(callee.0) && args@.len() == 1 && (
            match args@[0].0 {
                Expr::Value(Value::Num(literal)) => literal@ == text,
                _ => false,
            }),
            _ => false,
        },
        _ => false,
    }
}

/// A program that prints a number literal is lowered to three instructions:
/// the first register is set to the number that the literal writes, it is
/// printed, and the run ends. The text of the literal is handed on as it is
/// written.
pub proof fn print_of_a_literal(body: Seq<Spanned<Statement>>, text: Seq<char>)
    requires
        body.len() == 1,
        prints_literal(body[0].0, text),
    ensures
        compilable(body),
        program(body).code == seq![
            OpCode::SetNumber(StackIndex(0), text),
            OpCode::Print { value: StackIndex(0), output: StackIndex(0) },
            OpCode::Return(None),
        ],
        program(body).next_register == 1,
{
    reveal(expression);
    reveal(function_call);
    reveal(binary_op);
    reveal(binary_logic);
    reveal(comparison_chain);
    reveal(links);
    reveal(statement);
    reveal(statements);
    reveal(conditional);
    reveal(while_loop);
    reveal(Model::get_register);
    reveal(crate::vm::model::holds);
    let expr = body[0].0->Expression_0;
    let args = expr.0->Call_1;
    let argument = args@[0];
    let start = Model::start();
    assert(statements(start, body, 0) == start);
    assert(statements(start, body, 1) == statement(start, body[0].0, body[0].1));
    assert(side_effects(expr.0, start, false));
    let cleared = start.clear_assignment_spans();
    assert(expression(start, expr.0, expr.1, None, false) == function_call(
        cleared,
        argument,
        expr.1,
        None,
    ));
    assert(!exists|r: usize| cleared.free.contains(r));
    let (taken, target) = cleared.actualize(None);
    assert(target == StackIndex(0));
    assert(taken.next_register == 1);
    let lowered = expression(taken, argument.0, argument.1, Some(target), false);
    assert(lowered == literal(
        taken.clear_assignment_spans(),
        argument.0->Value_0,
        argument.1,
        Some(target),
    ));
    let printed = lowered.0.emit(OpCode::Print { value: lowered.1, output: target }, expr.1);
    assert(function_call(cleared, argument, expr.1, None) == (printed, target));
    assert(!printed.bound(0));
    let done = printed.release_if_unused(target).0;
    assert(statement(start, body[0].0, body[0].1) == done);
    assert(program(body).code =~= seq![
        OpCode::SetNumber(StackIndex(0), text),
        OpCode::Print { value: StackIndex(0), output: StackIndex(0) },
        OpCode::Return(None),
    ]);
    assert(supported(argument.0));
    assert(supported(expr.0));
    assert(statement_supported(body[0].0));
    reveal(statement_ok);
    reveal(statements_ok);
    reveal(conditional_ok);
    reveal(while_ok);
    assert(statements_ok(start, body, 0));
    assert(statement_ok(start, body[0].0));
    assert(statements_ok(start, body, 1));
    assert(body_supported(body, 0));
    assert(body_supported(body, 1));
    assert(weight(argument.0) == 1);
    assert(weight(expr.0) == 3);
    assert(statement_weight(body[0].0) == 4);
    assert(body_weight(body, 0) == 0);
    assert(body_weight(body, 1) == 5);
}

/// Whether two statements are the assignment of the number literal `text`
/// to the variable `name`, and then the bare variable `name`.
pub open spec fn assigns_then_reads(
    first: Statement,
    second: Statement,
    name: Seq<char>,
    text: Seq<char>,
) -> bool {
    &&& match first {
        Statement::Assignment(lhs, rhs) => (match lhs.0 {
            Expr::Path(Path::AnyScope(target)) => target@ == name,
            _ => false,
        }) && (match rhs.0 {
            Expr::Value(Value::Num(literal)) => literal@ == text,
            _ => false,
        }),
        _ => false,
    }
    &&& match second {
        Statement::Expression(expr) => match expr.0 {
            Expr::Path(Path::AnyScope(read)) => read@ == name,
            _ => false,
        },
        _ => false,
    }
}

/// A variable that was assigned a number is not called when it is read: the
/// program that assigns a number literal to a variable and then names the
/// variable as a statement is lowered to the instruction that sets the
/// first register, and the end of the run. The read yields no code, one
/// register is taken, and every register is accounted for.
pub proof fn number_is_not_called(body: Seq<Spanned<Statement>>, name: Seq<char>, text: Seq<char>)
    requires
        body.len() == 2,
        assigns_then_reads(body[0].0, body[1].0, name, text),
    ensures
        compilable(body),
        program(body).code == seq![OpCode::SetNumber(StackIndex(0), text), OpCode::Return(None)],
        program(body).next_register == 1,
        program(body).no_trash(),
        !program(body).can_be_function(name),
{
    reveal(expression);
    reveal(function_call);
    reveal(binary_op);
    reveal(binary_logic);
    reveal(comparison_chain);
    reveal(links);
    reveal(statement);
    reveal(statements);
    reveal(conditional);
    reveal(while_loop);
    reveal(statement_ok);
    reveal(statements_ok);
    reveal(conditional_ok);
    reveal(while_ok);
    reveal(Model::get_register);
    reveal(crate::vm::model::holds);
    let start = Model::start();
    let rhs = body[0].0->Assignment_1;
    let read = body[1].0->Expression_0;
    assert(statements(start, body, 0) == start);
    assert(!exists|r: usize| start.free.contains(r));
    let (taken, target) = start.get_register();
    assert(target == StackIndex(0) && taken.next_register == 1);
    let lowered = expression(taken, rhs.0, rhs.1, Some(target), false);
    assert(lowered == literal(taken.clear_assignment_spans(), rhs.0->Value_0, rhs.1, Some(target)));
    assert(lowered.0.code =~= seq![OpCode::SetNumber(StackIndex(0), text)]);
    let spanned = lowered.0.patch_assignment_spans(taken.ops_length(), body[0].1);
    let declared = spanned.new_local(name, target);
    assert(!may_be_function(declared, rhs.0));
    let assigned = declared.set_can_be_function(name, false);
    assert(assignment(start, name, rhs, body[0].1) == assigned);
    assert(statement(start, body[0].0, body[0].1) == assigned);
    assert(statements(start, body, 1) == assigned);
    assert(assigned.locals.contains_key(name));
    assert(!assigned.can_be_function(name));
    assert(!side_effects(read.0, assigned, false));
    assert(statement(assigned, body[1].0, body[1].1) == assigned);
    assert(statements(start, body, 2) == assigned);
    assert(program(body).code =~= seq![
        OpCode::SetNumber(StackIndex(0), text),
        OpCode::Return(None),
    ]);
    assert(assigned.locals[name].register.0 == 0);
    assert(assigned.bound(0));
    assert(supported(rhs.0));
    assert(statement_supported(body[0].0));
    assert(statement_supported(body[1].0));
    assert(body_supported(body, 0));
    assert(body_supported(body, 1));
    assert(body_supported(body, 2));
    assert(weight(rhs.0) == 1);
    assert(statement_weight(body[0].0) == 3);
    assert(weight(read.0) == 1);
    assert(statement_weight(body[1].0) == 2);
    assert(body_weight(body, 0) == 0);
    assert(body_weight(body, 1) == 4);
    assert(body_weight(body, 2) == 7);
    assert(statements_ok(start, body, 0));
    assert(statement_ok(start, body[0].0));
    assert(statements_ok(start, body, 1));
    assert(statement_ok(assigned, body[1].0));
    assert(statements_ok(start, body, 2));
}

} // verus!
