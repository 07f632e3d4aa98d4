//! The instructions and what one step of each does.

use crate::errors::{InternalError, MsErrorType, RuntimeError};
use crate::text::{decimal, push_decimal, push_text};
use crate::value::{clamped, less_or_same, number_le, ONE, Value};
use crate::vm::Vm;
use crate::vm::register::StackIndex;
use vstd::prelude::*;

verus! {

/// The index of a string in the constant pool of a chunk.
#[derive(Debug, Copy, Clone, PartialEq, Eq, Structural)]
pub struct ConstantIndex(pub usize);

impl ConstantIndex {
    /// The index as a number.
    pub fn raw(&self) -> (index: usize)
        ensures
            index == self.0,
    {
        self.0
    }
}

/// One instruction. As a rule the first operand is the register that the
/// instruction writes. `S` is the type of the text that an instruction
/// carries: `String` in compiled code, `Seq<char>` in contracts.
#[derive(Debug, Clone, PartialEq)]
#[non_exhaustive]
pub enum OpCode<S> {
    /// Ends the run, with the value of a register if one is named
    Return(Option<StackIndex>),
    /// Gives a register the number that the text writes
    SetNumber(StackIndex, S),
    /// Gives a register the value `Null`
    SetNull(StackIndex),
    /// Gives a register the string at an index of the constant pool
    SetString(StackIndex, ConstantIndex),
    /// Looks a name up in all visible scopes and gives a register its value
    ReadVariable(StackIndex, S),
    /// Calls a function without arguments
    Call0 { function: StackIndex, output: StackIndex },
    /// Calls a function with one argument
    Call1 { function: StackIndex, output: StackIndex, arg: StackIndex },
    /// Calls a function with many arguments
    Call { function: StackIndex, output: StackIndex, argument_count: u8 },
    Add { output: StackIndex, lhs: StackIndex, rhs: StackIndex },
    Subtract { output: StackIndex, lhs: StackIndex, rhs: StackIndex },
    Multiply { output: StackIndex, lhs: StackIndex, rhs: StackIndex },
    Divide { output: StackIndex, lhs: StackIndex, rhs: StackIndex },
    Pow { output: StackIndex, lhs: StackIndex, rhs: StackIndex },
    FuzzyOr { output: StackIndex, lhs: StackIndex, rhs: StackIndex },
    FuzzyAnd { output: StackIndex, lhs: StackIndex, rhs: StackIndex },
    And { output: StackIndex, lhs: StackIndex, rhs: StackIndex },
    Equals { output: StackIndex, lhs: StackIndex, rhs: StackIndex },
    NotEquals { output: StackIndex, lhs: StackIndex, rhs: StackIndex },
    GreaterThan { output: StackIndex, lhs: StackIndex, rhs: StackIndex },
    LessThan { output: StackIndex, lhs: StackIndex, rhs: StackIndex },
    GreaterOrEquals { output: StackIndex, lhs: StackIndex, rhs: StackIndex },
    LessOrEquals { output: StackIndex, lhs: StackIndex, rhs: StackIndex },
    /// Goes to the target if the register does not count as true
    JumpIfFalse(StackIndex, usize),
    /// Goes to the target if the register counts as true
    JumpIfTrue(StackIndex, usize),
    /// Goes to the target if the register holds one or more
    JumpIfAbsOneOrGreater(StackIndex, usize),
    /// Goes to the target
    Jump(usize),
    /// Copies the value of one register to another
    Copy { source: StackIndex, output: StackIndex },
    /// Prints the value of a register and gives the output register `Null`
    Print { value: StackIndex, output: StackIndex },
    /// Raises an error
    Error(BytecodeError<S>),
}

/// What an `Error` instruction raises.
#[derive(Debug, Clone, PartialEq)]
pub enum BytecodeError<S> {
    /// A fixed message
    Message(S),
    /// The value of a register
    Register(StackIndex),
    /// The instruction was reserved and never filled in.
    UnpatchedOpCode,
}

impl View for BytecodeError<String> {
    type V = BytecodeError<Seq<char>>;

    open spec fn view(&self) -> BytecodeError<Seq<char>> {
        match *self {
            BytecodeError::Message(text) => BytecodeError::Message(text@),
            BytecodeError::Register(index) => BytecodeError::Register(index),
            BytecodeError::UnpatchedOpCode => BytecodeError::UnpatchedOpCode,
        }
    }
}

impl View for OpCode<String> {
    type V = OpCode<Seq<char>>;

    open spec fn view(&self) -> OpCode<Seq<char>> {
        match *self {
            OpCode::Return(value) => OpCode::Return(value),
            OpCode::SetNumber(to, text) => OpCode::SetNumber(to, text@),
            OpCode::SetNull(to) => OpCode::SetNull(to),
            OpCode::SetString(to, index) => OpCode::SetString(to, index),
            OpCode::ReadVariable(to, name) => OpCode::ReadVariable(to, name@),
            OpCode::Call0 { function, output } => OpCode::Call0 { function, output },
            OpCode::Call1 { function, output, arg } => OpCode::Call1 { function, output, arg },
            OpCode::Call { function, output, argument_count } => OpCode::Call {
                function,
                output,
                argument_count,
            },
            OpCode::Add { output, lhs, rhs } => OpCode::Add { output, lhs, rhs },
            OpCode::Subtract { output, lhs, rhs } => OpCode::Subtract { output, lhs, rhs },
            OpCode::Multiply { output, lhs, rhs } => OpCode::Multiply { output, lhs, rhs },
            OpCode::Divide { output, lhs, rhs } => OpCode::Divide { output, lhs, rhs },
            OpCode::Pow { output, lhs, rhs } => OpCode::Pow { output, lhs, rhs },
            OpCode::FuzzyOr { output, lhs, rhs } => OpCode::FuzzyOr { output, lhs, rhs },
            OpCode::FuzzyAnd { output, lhs, rhs } => OpCode::FuzzyAnd { output, lhs, rhs },
            OpCode::And { output, lhs, rhs } => OpCode::And { output, lhs, rhs },
            OpCode::Equals { output, lhs, rhs } => OpCode::Equals { output, lhs, rhs },
            OpCode::NotEquals { output, lhs, rhs } => OpCode::NotEquals { output, lhs, rhs },
            OpCode::GreaterThan { output, lhs, rhs } => OpCode::GreaterThan { output, lhs, rhs },
            OpCode::LessThan { output, lhs, rhs } => OpCode::LessThan { output, lhs, rhs },
            OpCode::GreaterOrEquals { output, lhs, rhs } => OpCode::GreaterOrEquals {
                output,
                lhs,
                rhs,
            },
            OpCode::LessOrEquals { output, lhs, rhs } => OpCode::LessOrEquals { output, lhs, rhs },
            OpCode::JumpIfFalse(condition, target) => OpCode::JumpIfFalse(condition, target),
            OpCode::JumpIfTrue(condition, target) => OpCode::JumpIfTrue(condition, target),
            OpCode::JumpIfAbsOneOrGreater(condition, target) => OpCode::JumpIfAbsOneOrGreater(
                condition,
                target,
            ),
            OpCode::Jump(target) => OpCode::Jump(target),
            OpCode::Copy { source, output } => OpCode::Copy { source, output },
            OpCode::Print { value, output } => OpCode::Print { value, output },
            OpCode::Error(error) => OpCode::Error(error@),
        }
    }
}

/// The computations on numbers that the host carries out.
#[derive(Debug, Clone, Copy, PartialEq, Eq, Structural)]
pub enum NumericOp {
    /// `lhs + rhs`
    Add,
    /// `lhs - rhs`
    Subtract,
    /// `lhs * rhs`
    Multiply,
    /// `lhs / rhs`
    Divide,
    /// `lhs` to the power of `rhs`
    Pow,
    /// The probabilistic sum `lhs + rhs - lhs * rhs`, which `settle` folds
    /// into `[0, 1]`
    FuzzyOr,
    /// The product `lhs * rhs`, which `settle` folds into `[0, 1]`
    FuzzyAnd,
}

impl NumericOp {
    /// The value that the instruction writes, given what the host computed:
    /// the result as it is, and for the fuzzy operators the result folded
    /// into `[0, 1]`.
    pub open spec fn settled(self, computed: u64) -> Value {
        match self {
            NumericOp::FuzzyOr | NumericOp::FuzzyAnd => Value::Number(clamped(computed)),
            _ => Value::Number(computed),
        }
    }

    /// The value that the instruction writes, given what the host computed.
    pub fn settle(self, computed: u64) -> (value: Value)
        ensures
            value == self.settled(computed),
            self is FuzzyOr || self is FuzzyAnd ==> number_le(crate::value::ZERO, value.bits())
                && number_le(value.bits(), ONE),
    {
        match self {
            NumericOp::FuzzyOr => Value::fuzzy_or(computed),
            NumericOp::FuzzyAnd => Value::fuzzy_and(computed),
            _ => Value::Number(computed),
        }
    }
}

/// What a step leaves for the host to do before the next step.
#[derive(Debug, Clone, PartialEq)]
pub enum Effect<S> {
    /// Nothing.
    Done,
    /// Write the textual form of the value to standard output.
    Print(Value),
    /// Read the number that `literal` writes and give it to `output`.
    Number { output: StackIndex, literal: S },
    /// Compute `op` on the two numbers and give `output` what `settle` makes
    /// of the result.
    Compute { output: StackIndex, op: NumericOp, lhs: u64, rhs: u64 },
}

impl View for Effect<String> {
    type V = Effect<Seq<char>>;

    open spec fn view(&self) -> Effect<Seq<char>> {
        match *self {
            Effect::Done => Effect::Done,
            Effect::Print(value) => Effect::Print(value),
            Effect::Number { output, literal } => Effect::Number { output, literal: literal@ },
            Effect::Compute { output, op, lhs, rhs } => Effect::Compute { output, op, lhs, rhs },
        }
    }
}

/// The state after a step and what the step gave back.
pub struct Stepped {
    pub cursor: usize,
    pub stack: Seq<Value>,
    pub result: Result<Effect<Seq<char>>, MsErrorType>,
}

impl<S> OpCode<S> {
    /// Whether every register that the instruction names is below `limit`.
    pub open spec fn fits(&self, limit: int) -> bool {
        match *self {
            OpCode::Return(value) => match value {
                Some(index) => index.0 < limit,
                None => true,
            },
            OpCode::SetNumber(to, _) => to.0 < limit,
            OpCode::SetNull(to) => to.0 < limit,
            OpCode::SetString(to, _) => to.0 < limit,
            OpCode::ReadVariable(to, _) => to.0 < limit,
            OpCode::Call0 { function, output } => function.0 < limit && output.0 < limit,
            OpCode::Call1 { function, output, arg } => function.0 < limit && output.0 < limit
                && arg.0 < limit,
            OpCode::Call { function, output, argument_count } => function.0 < limit && output.0
                < limit,
            OpCode::Add { output, lhs, rhs }
            | OpCode::Subtract { output, lhs, rhs }
            | OpCode::Multiply { output, lhs, rhs }
            | OpCode::Divide { output, lhs, rhs }
            | OpCode::Pow { output, lhs, rhs }
            | OpCode::FuzzyOr { output, lhs, rhs }
            | OpCode::FuzzyAnd { output, lhs, rhs }
            | OpCode::And { output, lhs, rhs }
            | OpCode::Equals { output, lhs, rhs }
            | OpCode::NotEquals { output, lhs, rhs }
            | OpCode::GreaterThan { output, lhs, rhs }
            | OpCode::LessThan { output, lhs, rhs }
            | OpCode::GreaterOrEquals { output, lhs, rhs }
            | OpCode::LessOrEquals { output, lhs, rhs } => output.0 < limit && lhs.0 < limit
                && rhs.0 < limit,
            OpCode::JumpIfFalse(condition, _) => condition.0 < limit,
            OpCode::JumpIfTrue(condition, _) => condition.0 < limit,
            OpCode::JumpIfAbsOneOrGreater(condition, _) => condition.0 < limit,
            OpCode::Jump(_) => true,
            OpCode::Copy { source, output } => source.0 < limit && output.0 < limit,
            OpCode::Print { value, output } => value.0 < limit && output.0 < limit,
            OpCode::Error(error) => match error {
                BytecodeError::Register(index) => index.0 < limit,
                _ => true,
            },
        }
    }

    /// Whether this instruction is a reserved place that was never filled in.
    pub open spec fn is_unpatched(&self) -> bool {
        *self matches OpCode::Error(BytecodeError::UnpatchedOpCode)
    }
}

/// The state after a step that went on to the next instruction and wrote
/// `value` to the register `to`.
pub open spec fn wrote(cursor: usize, stack: Seq<Value>, to: StackIndex, value: Value) -> Stepped {
    Stepped {
        cursor: (cursor + 1) as usize,
        stack: stack.update(to.0 as int, value),
        result: Ok(Effect::Done),
    }
}

/// The state after a step that changed no register and went to `target`.
pub open spec fn went(target: usize, stack: Seq<Value>) -> Stepped {
    Stepped { cursor: target, stack, result: Ok(Effect::Done) }
}

/// The state after a step that left `effect` for the host.
pub open spec fn asked(cursor: usize, stack: Seq<Value>, effect: Effect<Seq<char>>) -> Stepped {
    Stepped { cursor: (cursor + 1) as usize, stack, result: Ok(effect) }
}

/// The state after a step that failed: the run halts at the instruction
/// that failed. The cursor stays on it and no register changes.
pub open spec fn failed(cursor: usize, stack: Seq<Value>, error: MsErrorType) -> Stepped {
    Stepped { cursor, stack, result: Err(error) }
}

/// The state after a step that asks the host for `op` on two registers.
pub open spec fn computes(
    cursor: usize,
    stack: Seq<Value>,
    op: NumericOp,
    output: StackIndex,
    lhs: StackIndex,
    rhs: StackIndex,
) -> Stepped {
    asked(
        cursor,
        stack,
        Effect::Compute {
            output,
            op,
            lhs: stack[lhs.0 as int].bits(),
            rhs: stack[rhs.0 as int].bits(),
        },
    )
}

/// What one step of `op` does to a machine whose next instruction is at
/// `cursor` and whose registers hold `stack`.
///
/// The cursor moves on by one unless the instruction jumps or fails. An
/// operand that is `Null` counts as `0.0` in arithmetic and in ordering;
/// comparisons give `1.0` or `0.0`. Instructions that the machine does not
/// implement, and `Return` with a value, fail with `NotImplemented`. A step
/// that fails leaves the machine as it was, with the cursor on the
/// instruction that failed.
pub open spec fn stepped(op: OpCode<Seq<char>>, cursor: usize, stack: Seq<Value>) -> Stepped {
    let next = (cursor + 1) as usize;
    let unimplemented = failed(
        cursor,
        stack,
        MsErrorType::Internal(InternalError::NotImplemented),
    );
    match op {
        OpCode::Return(None) => went(next, stack),
        OpCode::Return(Some(_)) => unimplemented,
        OpCode::SetNumber(to, text) => asked(
            cursor,
            stack,
            Effect::Number { output: to, literal: text },
        ),
        OpCode::SetNull(to) => wrote(cursor, stack, to, Value::Null),
        OpCode::SetString(_, _) => unimplemented,
        OpCode::ReadVariable(_, _) => unimplemented,
        OpCode::Call0 { function, output } => wrote(cursor, stack, output, stack[function.0 as int]),
        OpCode::Call1 { .. } => unimplemented,
        OpCode::Call { .. } => unimplemented,
        OpCode::Add { output, lhs, rhs } => computes(cursor, stack, NumericOp::Add, output, lhs, rhs),
        OpCode::Subtract { output, lhs, rhs } => computes(
            cursor,
            stack,
            NumericOp::Subtract,
            output,
            lhs,
            rhs,
        ),
        OpCode::Multiply { output, lhs, rhs } => computes(
            cursor,
            stack,
            NumericOp::Multiply,
            output,
            lhs,
            rhs,
        ),
        OpCode::Divide { output, lhs, rhs } => computes(
            cursor,
            stack,
            NumericOp::Divide,
            output,
            lhs,
            rhs,
        ),
        OpCode::Pow { output, lhs, rhs } => computes(cursor, stack, NumericOp::Pow, output, lhs, rhs),
        OpCode::FuzzyOr { output, lhs, rhs } => computes(
            cursor,
            stack,
            NumericOp::FuzzyOr,
            output,
            lhs,
            rhs,
        ),
        OpCode::FuzzyAnd { output, lhs, rhs } => computes(
            cursor,
            stack,
            NumericOp::FuzzyAnd,
            output,
            lhs,
            rhs,
        ),
        OpCode::And { output, lhs, rhs } => wrote(
            cursor,
            stack,
            output,
            Value::of_bool(stack[lhs.0 as int].truth() && stack[rhs.0 as int].truth()),
        ),
        OpCode::Equals { output, lhs, rhs } => wrote(
            cursor,
            stack,
            output,
            Value::of_bool(stack[lhs.0 as int].equals(stack[rhs.0 as int])),
        ),
        OpCode::NotEquals { output, lhs, rhs } => wrote(
            cursor,
            stack,
            output,
            Value::of_bool(!stack[lhs.0 as int].equals(stack[rhs.0 as int])),
        ),
        OpCode::GreaterThan { output, lhs, rhs } => wrote(
            cursor,
            stack,
            output,
            Value::of_bool(
                crate::value::number_lt(stack[rhs.0 as int].bits(), stack[lhs.0 as int].bits()),
            ),
        ),
        OpCode::LessThan { output, lhs, rhs } => wrote(
            cursor,
            stack,
            output,
            Value::of_bool(
                crate::value::number_lt(stack[lhs.0 as int].bits(), stack[rhs.0 as int].bits()),
            ),
        ),
        OpCode::GreaterOrEquals { output, lhs, rhs } => wrote(
            cursor,
            stack,
            output,
            Value::of_bool(number_le(stack[rhs.0 as int].bits(), stack[lhs.0 as int].bits())),
        ),
        OpCode::LessOrEquals { output, lhs, rhs } => wrote(
            cursor,
            stack,
            output,
            Value::of_bool(number_le(stack[lhs.0 as int].bits(), stack[rhs.0 as int].bits())),
        ),
        OpCode::JumpIfFalse(condition, target) => went(
            if !stack[condition.0 as int].truth() {
                target
            } else {
                next
            },
            stack,
        ),
        OpCode::JumpIfTrue(condition, target) => went(
            if stack[condition.0 as int].truth() {
                target
            } else {
                next
            },
            stack,
        ),
        OpCode::JumpIfAbsOneOrGreater(condition, target) => went(
            if number_le(ONE, stack[condition.0 as int].bits()) {
                target
            } else {
                next
            },
            stack,
        ),
        OpCode::Jump(target) => went(target, stack),
        OpCode::Copy { source, output } => wrote(cursor, stack, output, stack[source.0 as int]),
        OpCode::Print { value, output } => Stepped {
            cursor: next,
            stack: stack.update(output.0 as int, Value::Null),
            result: Ok(Effect::Print(stack[value.0 as int])),
        },
        OpCode::Error(error) => failed(cursor, stack, raised(error, cursor, stack)),
    }
}

/// A conditional jump whose condition does not count as true goes to its
/// target and changes no register; one whose condition counts as true goes
/// on with the next instruction.
pub proof fn jump_if_false_follows_the_condition(
    condition: StackIndex,
    target: usize,
    cursor: usize,
    stack: Seq<Value>,
)
    ensures
        stepped(OpCode::JumpIfFalse(condition, target), cursor, stack) == went(
            if stack[condition.0 as int].truth() {
                (cursor + 1) as usize
            } else {
                target
            },
            stack,
        ),
{
}

/// A step that fails changes nothing: the cursor still names the
/// instruction that failed, and the registers hold what they held.
pub proof fn failure_halts(op: OpCode<Seq<char>>, cursor: usize, stack: Seq<Value>)
    requires
        stepped(op, cursor, stack).result is Err,
    ensures
        stepped(op, cursor, stack).cursor == cursor,
        stepped(op, cursor, stack).stack == stack,
{
}

/// The error that an `Error` instruction at index `id` raises.
pub open spec fn raised(error: BytecodeError<Seq<char>>, id: usize, stack: Seq<Value>) -> MsErrorType {
    match error {
        BytecodeError::Message(_) => MsErrorType::Internal(InternalError::NotImplemented),
        BytecodeError::Register(index) => MsErrorType::Runtime(
            RuntimeError::Custom(stack[index.0 as int]),
        ),
        BytecodeError::UnpatchedOpCode => MsErrorType::Internal(InternalError::UnpatchedOpCode(id)),
    }
}

/// Running the three instructions that print a number literal: the first
/// asks the host for the number that the literal writes, the second prints
/// what the host gave and leaves `Null` in the register, and the third ends
/// the run with the cursor behind the last instruction.
pub proof fn literal_is_printed(text: Seq<char>, stack: Seq<Value>, read: Value)
    requires
        stack.len() >= 1,
    ensures
        stepped(OpCode::SetNumber(StackIndex(0), text), 0, stack) == asked(
            0,
            stack,
            Effect::Number { output: StackIndex(0), literal: text },
        ),
        stepped(
            OpCode::Print { value: StackIndex(0), output: StackIndex(0) },
            1,
            stack.update(0, read),
        ) == (Stepped {
            cursor: 2,
            stack: stack.update(0, Value::Null),
            result: Ok(Effect::Print(read)),
        }),
        stepped(OpCode::Return(None), 2, stack.update(0, Value::Null)) == went(
            3,
            stack.update(0, Value::Null),
        ),
{
    assert(stack.update(0, read).update(0, Value::Null) =~= stack.update(0, Value::Null));
}

/// `prefix` followed by the name of a register: `$` and its number.
pub open spec fn with_register(prefix: Seq<char>, index: StackIndex) -> Seq<char> {
    prefix + "$"@ + decimal(index.0 as nat)
}

/// The line `$output = $lhs symbol $rhs`, `symbol` holding its own blanks.
pub open spec fn binary_line(
    output: StackIndex,
    lhs: StackIndex,
    symbol: Seq<char>,
    rhs: StackIndex,
) -> Seq<char> {
    with_register(
        with_register(with_register(Seq::empty(), output) + " = "@, lhs) + symbol,
        rhs,
    )
}

/// The line that lists what an `Error` instruction raises.
pub open spec fn error_line(error: BytecodeError<Seq<char>>) -> Seq<char> {
    match error {
        BytecodeError::Message(text) => "throw \""@ + text + "\""@,
        BytecodeError::Register(index) => with_register("throw "@, index),
        BytecodeError::UnpatchedOpCode => "FATAL! unpatched OpCode"@,
    }
}

/// The line that lists an instruction.
pub open spec fn line(op: OpCode<Seq<char>>) -> Seq<char> {
    match op {
        OpCode::Return(None) => "return"@,
        OpCode::Return(Some(index)) => with_register("return "@, index),
        OpCode::SetNumber(to, text) => with_register(Seq::empty(), to) + " = "@ + text,
        OpCode::SetNull(to) => with_register(Seq::empty(), to) + " = null"@,
        OpCode::SetString(to, index) => with_register(Seq::empty(), to) + " = \""@ + decimal(
            index.0 as nat,
        ) + "\""@,
        OpCode::ReadVariable(to, name) => with_register(Seq::empty(), to) + " = "@ + name,
        OpCode::Call0 { function, output } => with_register(
            with_register(Seq::empty(), output) + " = "@,
            function,
        ) + "()"@,
        OpCode::Call1 { function, output, arg } => with_register(
            with_register(decimal(output.0 as nat) + " = "@, function) + "( "@,
            arg,
        ) + " )"@,
        OpCode::Call { function, output, argument_count } => with_register(
            with_register(Seq::empty(), output) + " = "@,
            function,
        ) + "( #"@ + decimal(argument_count as nat) + " )"@,
        OpCode::Add { output, lhs, rhs } => binary_line(output, lhs, " + "@, rhs),
        OpCode::Subtract { output, lhs, rhs } => binary_line(output, lhs, " - "@, rhs),
        OpCode::Multiply { output, lhs, rhs } => binary_line(output, lhs, " * "@, rhs),
        OpCode::Divide { output, lhs, rhs } => binary_line(output, lhs, " / "@, rhs),
        OpCode::Pow { output, lhs, rhs } => binary_line(output, lhs, " ^ "@, rhs),
        OpCode::FuzzyOr { output, lhs, rhs } => binary_line(output, lhs, " fuzzy_or "@, rhs),
        OpCode::FuzzyAnd { output, lhs, rhs } => binary_line(output, lhs, " fuzzy_and "@, rhs),
        OpCode::And { output, lhs, rhs } => binary_line(output, lhs, " and "@, rhs),
        OpCode::Equals { output, lhs, rhs } => binary_line(output, lhs, " == "@, rhs),
        OpCode::NotEquals { output, lhs, rhs } => binary_line(output, lhs, " != "@, rhs),
        OpCode::GreaterThan { output, lhs, rhs } => binary_line(output, lhs, " > "@, rhs),
        OpCode::LessThan { output, lhs, rhs } => binary_line(output, lhs, " < "@, rhs),
        OpCode::GreaterOrEquals { output, lhs, rhs } => binary_line(output, lhs, " >= "@, rhs),
        OpCode::LessOrEquals { output, lhs, rhs } => binary_line(output, lhs, " <= "@, rhs),
        OpCode::JumpIfFalse(condition, target) => with_register("if not "@, condition) + " goto "@
            + decimal(target as nat),
        OpCode::JumpIfTrue(condition, target) => with_register("if "@, condition) + " goto "@
            + decimal(target as nat),
        OpCode::JumpIfAbsOneOrGreater(condition, target) => with_register("if abs("@, condition)
            + ") >= 1 goto "@ + decimal(target as nat),
        OpCode::Jump(target) => "goto "@ + decimal(target as nat),
        OpCode::Copy { source, output } => with_register(
            with_register(Seq::empty(), output) + " = "@,
            source,
        ),
        OpCode::Print { value, output } => with_register(
            with_register(Seq::empty(), output) + " = print "@,
            value,
        ),
        OpCode::Error(error) => error_line(error),
    }
}

fn push_register(s: &mut String, index: &StackIndex)
    ensures
        final(s)@ == with_register(old(s)@, *index),
{
    push_text(s, "$");
    push_decimal(s, index.0);
}

fn binary(output: &StackIndex, lhs: &StackIndex, symbol: &str, rhs: &StackIndex) -> (text: String)
    ensures
        text@ == binary_line(*output, *lhs, symbol@, *rhs),
{
    let mut text = String::new();
    push_register(&mut text, output);
    push_text(&mut text, " = ");
    push_register(&mut text, lhs);
    push_text(&mut text, symbol);
    push_register(&mut text, rhs);
    text
}

impl BytecodeError<String> {
    /// The error that this instruction raises when it runs at index `id`.
    pub fn error(&self, id: usize, vm: &Vm) -> (error: MsErrorType)
        requires
            *self matches BytecodeError::Register(index) ==> index.0 < vm.stack@.len(),
        ensures
            error == raised(self@, id, vm.stack@),
    {
        match self {
            BytecodeError::Message(_) => MsErrorType::Internal(InternalError::NotImplemented),
            BytecodeError::Register(index) => MsErrorType::Runtime(
                RuntimeError::Custom(vm.get(index)),
            ),
            BytecodeError::UnpatchedOpCode => MsErrorType::Internal(
                InternalError::UnpatchedOpCode(id),
            ),
        }
    }

    /// The line that lists this instruction.
    pub fn pretty_print(&self) -> (text: String)
        ensures
            text@ == error_line(self@),
    {
        match self {
            BytecodeError::Message(message) => {
                let mut text = "throw \"".to_owned();
                push_text(&mut text, message.as_str());
                push_text(&mut text, "\"");
                text
            },
            BytecodeError::Register(index) => {
                let mut text = "throw ".to_owned();
                push_register(&mut text, index);
                text
            },
            BytecodeError::UnpatchedOpCode => "FATAL! unpatched OpCode".to_owned(),
        }
    }
}

impl OpCode<String> {
    /// Whether every register that the instruction names is below `limit`.
    pub fn fits_in(&self, limit: usize) -> (fits: bool)
        ensures
            fits == self.fits(limit as int),
    {
        match self {
            OpCode::Return(value) => match value {
                Some(index) => index.0 < limit,
                None => true,
            },
            OpCode::SetNumber(to, _) => to.0 < limit,
            OpCode::SetNull(to) => to.0 < limit,
            OpCode::SetString(to, _) => to.0 < limit,
            OpCode::ReadVariable(to, _) => to.0 < limit,
            OpCode::Call0 { function, output } => function.0 < limit && output.0 < limit,
            OpCode::Call1 { function, output, arg } => function.0 < limit && output.0 < limit
                && arg.0 < limit,
            OpCode::Call { function, output, argument_count } => function.0 < limit && output.0
                < limit,
            OpCode::Add { output, lhs, rhs }
            | OpCode::Subtract { output, lhs, rhs }
            | OpCode::Multiply { output, lhs, rhs }
            | OpCode::Divide { output, lhs, rhs }
            | OpCode::Pow { output, lhs, rhs }
            | OpCode::FuzzyOr { output, lhs, rhs }
            | OpCode::FuzzyAnd { output, lhs, rhs }
            | OpCode::And { output, lhs, rhs }
            | OpCode::Equals { output, lhs, rhs }
            | OpCode::NotEquals { output, lhs, rhs }
            | OpCode::GreaterThan { output, lhs, rhs }
            | OpCode::LessThan { output, lhs, rhs }
            | OpCode::GreaterOrEquals { output, lhs, rhs }
            | OpCode::LessOrEquals { output, lhs, rhs } => output.0 < limit && lhs.0 < limit
                && rhs.0 < limit,
            OpCode::JumpIfFalse(condition, _) => condition.0 < limit,
            OpCode::JumpIfTrue(condition, _) => condition.0 < limit,
            OpCode::JumpIfAbsOneOrGreater(condition, _) => condition.0 < limit,
            OpCode::Jump(_) => true,
            OpCode::Copy { source, output } => source.0 < limit && output.0 < limit,
            OpCode::Print { value, output } => value.0 < limit && output.0 < limit,
            OpCode::Error(error) => match error {
                BytecodeError::Register(index) => index.0 < limit,
                _ => true,
            },
        }
    }

    /// Carries out this instruction on `vm`, whose cursor points at it: moves
    /// the cursor, writes the register that the instruction writes, and says
    /// what is left for the host to do.
    pub fn step(&self, vm: &mut Vm) -> (result: Result<Effect<String>, MsErrorType>)
        requires
            self.fits(old(vm).stack@.len() as int),
            old(vm).cursor < usize::MAX,
        ensures
            final(vm).cursor == stepped(self@, old(vm).cursor, old(vm).stack@).cursor,
            final(vm).stack@ == stepped(self@, old(vm).cursor, old(vm).stack@).stack,
            match result {
                Ok(effect) => stepped(self@, old(vm).cursor, old(vm).stack@).result == Ok::<
                    Effect<Seq<char>>,
                    MsErrorType,
                >(effect@),
                Err(error) => stepped(self@, old(vm).cursor, old(vm).stack@).result == Err::<
                    Effect<Seq<char>>,
                    MsErrorType,
                >(error),
            },
            result is Err ==> final(vm).cursor == old(vm).cursor,
            result is Err ==> final(vm).stack@ == old(vm).stack@,
    {
        let id = vm.cursor;
        vm.cursor = vm.cursor + 1;
        let result = match self {
            OpCode::Return(value) => {
                if value.is_none() {
                    return Ok(Effect::Done);
                }
                Err(MsErrorType::Internal(InternalError::NotImplemented))
            },
            OpCode::SetNumber(to, text) => Ok(Effect::Number { output: *to, literal: text.clone() }),
            OpCode::SetNull(to) => {
                vm.set(to, Value::Null);
                Ok(Effect::Done)
            },
            OpCode::SetString(_, _) => Err(MsErrorType::Internal(InternalError::NotImplemented)),
            OpCode::ReadVariable(_, _) => Err(MsErrorType::Internal(InternalError::NotImplemented)),
            OpCode::Call0 { output, function } => {
                let callee = vm.get(function);
                vm.set(output, callee);
                Ok(Effect::Done)
            },
            OpCode::Call1 { .. } => Err(MsErrorType::Internal(InternalError::NotImplemented)),
            OpCode::Call { .. } => Err(MsErrorType::Internal(InternalError::NotImplemented)),
            OpCode::Add { lhs, rhs, output } => Ok(compute(vm, NumericOp::Add, output, lhs, rhs)),
            OpCode::Subtract { lhs, rhs, output } => Ok(
                compute(vm, NumericOp::Subtract, output, lhs, rhs),
            ),
            OpCode::Multiply { lhs, rhs, output } => Ok(
                compute(vm, NumericOp::Multiply, output, lhs, rhs),
            ),
            OpCode::Divide { lhs, rhs, output } => Ok(
                compute(vm, NumericOp::Divide, output, lhs, rhs),
            ),
            OpCode::Pow { lhs, rhs, output } => Ok(compute(vm, NumericOp::Pow, output, lhs, rhs)),
            OpCode::FuzzyOr { lhs, rhs, output } => Ok(
                compute(vm, NumericOp::FuzzyOr, output, lhs, rhs),
            ),
            OpCode::FuzzyAnd { lhs, rhs, output } => Ok(
                compute(vm, NumericOp::FuzzyAnd, output, lhs, rhs),
            ),
            OpCode::And { lhs, rhs, output } => {
                let value = vm.get(lhs).and(&vm.get(rhs));
                vm.set(output, value);
                Ok(Effect::Done)
            },
            OpCode::Equals { lhs, rhs, output } => {
                let value = Value::from_bool(vm.get(lhs) == vm.get(rhs));
                vm.set(output, value);
                Ok(Effect::Done)
            },
            OpCode::NotEquals { lhs, rhs, output } => {
                let value = Value::from_bool(!(vm.get(lhs) == vm.get(rhs)));
                vm.set(output, value);
                Ok(Effect::Done)
            },
            OpCode::GreaterThan { lhs, rhs, output } => {
                let value = vm.get(lhs).gt(&vm.get(rhs));
                vm.set(output, value);
                Ok(Effect::Done)
            },
            OpCode::LessThan { lhs, rhs, output } => {
                let value = vm.get(lhs).lt(&vm.get(rhs));
                vm.set(output, value);
                Ok(Effect::Done)
            },
            OpCode::GreaterOrEquals { lhs, rhs, output } => {
                let value = vm.get(lhs).gte(&vm.get(rhs));
                vm.set(output, value);
                Ok(Effect::Done)
            },
            OpCode::LessOrEquals { lhs, rhs, output } => {
                let value = vm.get(lhs).lte(&vm.get(rhs));
                vm.set(output, value);
                Ok(Effect::Done)
            },
            OpCode::Copy { source, output } => {
                let value = vm.get(source);
                vm.set(output, value);
                Ok(Effect::Done)
            },
            OpCode::JumpIfFalse(condition, target) => {
                if !vm.get(condition).as_bool() {
                    vm.cursor = *target;
                }
                Ok(Effect::Done)
            },
            OpCode::JumpIfTrue(condition, target) => {
                if vm.get(condition).as_bool() {
                    vm.cursor = *target;
                }
                Ok(Effect::Done)
            },
            OpCode::JumpIfAbsOneOrGreater(condition, target) => {
                if less_or_same(ONE, vm.get(condition).as_f64()) {
                    vm.cursor = *target;
                }
                Ok(Effect::Done)
            },
            OpCode::Jump(target) => {
                vm.cursor = *target;
                Ok(Effect::Done)
            },
            OpCode::Print { output, value } => {
                let printed = vm.get(value);
                vm.set(output, Value::Null);
                Ok(Effect::Print(printed))
            },
            OpCode::Error(error) => Err(error.error(id, vm)),
        };
        if result.is_err() {
            // The run halts at the instruction that failed.
            vm.cursor = id;
        }
        result
    }

    /// The line that lists this instruction.
    pub fn pretty_print(&self) -> (text: String)
        ensures
            text@ == line(self@),
    {
        match self {
            OpCode::Return(index) => match index {
                None => "return".to_owned(),
                Some(index) => {
                    let mut text = "return ".to_owned();
                    push_register(&mut text, index);
                    text
                },
            },
            OpCode::SetNumber(to, number) => {
                let mut text = String::new();
                push_register(&mut text, to);
                push_text(&mut text, " = ");
                push_text(&mut text, number.as_str());
                text
            },
            OpCode::SetNull(to) => {
                let mut text = String::new();
                push_register(&mut text, to);
                push_text(&mut text, " = null");
                text
            },
            OpCode::SetString(to, index) => {
                let mut text = String::new();
                push_register(&mut text, to);
                push_text(&mut text, " = \"");
                push_decimal(&mut text, index.raw());
                push_text(&mut text, "\"");
                text
            },
            OpCode::ReadVariable(to, name) => {
                let mut text = String::new();
                push_register(&mut text, to);
                push_text(&mut text, " = ");
                push_text(&mut text, name.as_str());
                text
            },
            OpCode::Call0 { output, function } => {
                let mut text = String::new();
                push_register(&mut text, output);
                push_text(&mut text, " = ");
                push_register(&mut text, function);
                push_text(&mut text, "()");
                text
            },
            OpCode::Call1 { output, function, arg } => {
                let mut text = String::new();
                push_decimal(&mut text, output.0);
                assert(text@ == decimal(output.0 as nat));
                push_text(&mut text, " = ");
                push_register(&mut text, function);
                push_text(&mut text, "( ");
                push_register(&mut text, arg);
                push_text(&mut text, " )");
                text
            },
            OpCode::Call { output, function, argument_count } => {
                let mut text = String::new();
                push_register(&mut text, output);
                push_text(&mut text, " = ");
                push_register(&mut text, function);
                push_text(&mut text, "( #");
                push_decimal(&mut text, *argument_count as usize);
                push_text(&mut text, " )");
                text
            },
            OpCode::Add { output, lhs, rhs } => binary(output, lhs, " + ", rhs),
            OpCode::Subtract { output, lhs, rhs } => binary(output, lhs, " - ", rhs),
            OpCode::Multiply { output, lhs, rhs } => binary(output, lhs, " * ", rhs),
            OpCode::Divide { output, lhs, rhs } => binary(output, lhs, " / ", rhs),
            OpCode::Pow { output, lhs, rhs } => binary(output, lhs, " ^ ", rhs),
            OpCode::FuzzyOr { output, lhs, rhs } => binary(output, lhs, " fuzzy_or ", rhs),
            OpCode::FuzzyAnd { output, lhs, rhs } => binary(output, lhs, " fuzzy_and ", rhs),
            OpCode::And { output, lhs, rhs } => binary(output, lhs, " and ", rhs),
            OpCode::Equals { output, lhs, rhs } => binary(output, lhs, " == ", rhs),
            OpCode::NotEquals { output, lhs, rhs } => binary(output, lhs, " != ", rhs),
            OpCode::GreaterThan { output, lhs, rhs } => binary(output, lhs, " > ", rhs),
            OpCode::LessThan { output, lhs, rhs } => binary(output, lhs, " < ", rhs),
            OpCode::GreaterOrEquals { output, lhs, rhs } => binary(output, lhs, " >= ", rhs),
            OpCode::LessOrEquals { output, lhs, rhs } => binary(output, lhs, " <= ", rhs),
            OpCode::Copy { source, output } => {
                let mut text = String::new();
                push_register(&mut text, output);
                push_text(&mut text, " = ");
                push_register(&mut text, source);
                text
            },
            OpCode::JumpIfFalse(condition, target) => {
                let mut text = "if not ".to_owned();
                push_register(&mut text, condition);
                push_text(&mut text, " goto ");
                push_decimal(&mut text, *target);
                text
            },
            OpCode::JumpIfTrue(condition, target) => {
                let mut text = "if ".to_owned();
                push_register(&mut text, condition);
                push_text(&mut text, " goto ");
                push_decimal(&mut text, *target);
                text
            },
            OpCode::JumpIfAbsOneOrGreater(condition, target) => {
                let mut text = "if abs(".to_owned();
                push_register(&mut text, condition);
                push_text(&mut text, ") >= 1 goto ");
                push_decimal(&mut text, *target);
                text
            },
            OpCode::Jump(target) => {
                let mut text = "goto ".to_owned();
                push_decimal(&mut text, *target);
                text
            },
            OpCode::Print { output, value } => {
                let mut text = String::new();
                push_register(&mut text, output);
                push_text(&mut text, " = print ");
                push_register(&mut text, value);
                text
            },
            OpCode::Error(error) => error.pretty_print(),
        }
    }
}

/// The request to the host for `op` on the numbers of two registers.
fn compute(vm: &Vm, op: NumericOp, output: &StackIndex, lhs: &StackIndex, rhs: &StackIndex) -> (effect:
    Effect<String>)
    requires
        lhs.0 < vm.stack@.len(),
        rhs.0 < vm.stack@.len(),
    ensures
        effect@ == (Effect::<Seq<char>>::Compute {
            output: *output,
            op,
            lhs: vm.stack@[lhs.0 as int].bits(),
            rhs: vm.stack@[rhs.0 as int].bits(),
        }),
{
    Effect::Compute { output: *output, op, lhs: vm.get(lhs).as_f64(), rhs: vm.get(rhs).as_f64() }
}

} // verus!
