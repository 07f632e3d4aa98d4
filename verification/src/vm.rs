//! The bytecode, its compiler and the stepping rules of the interpreter.

pub mod chunk;
pub mod context;
pub mod effects;
pub mod ledger;
pub mod lowering;
pub mod model;
pub mod op_code;
pub mod register;

use crate::errors::MsErrorType;
use crate::value::Value;
use crate::vm::chunk::Chunk;
use crate::vm::op_code::{stepped, Effect};
use crate::vm::register::StackIndex;
use vstd::prelude::*;

verus! {

/// The state of a run: the index of the next instruction and the values of
/// the registers.
#[derive(Debug)]
pub struct Vm {
    pub cursor: usize,
    pub stack: Vec<Value>,
}

impl Vm {
    /// A machine at the first instruction, with `stack_size` registers that
    /// all hold `Null`.
    pub fn new(stack_size: usize) -> (vm: Vm)
        ensures
            vm.cursor == 0,
            vm.stack@ == Seq::new(stack_size as nat, |i: int| Value::Null),
    {
        let mut stack: Vec<Value> = Vec::new();
        let mut i: usize = 0;
        while i < stack_size
            invariant
                i <= stack_size,
                stack@ == Seq::new(i as nat, |j: int| Value::Null),
            decreases stack_size - i,
        {
            stack.push(Value::Null);
            i += 1;
            assert(stack@ == Seq::new(i as nat, |j: int| Value::Null));
        }
        Vm { cursor: 0, stack }
    }

    /// The place in the stack at which the running frame starts.
    #[inline(always)]
    pub fn stack_offset(&self) -> (offset: usize)
        ensures
            offset == 0,
    {
        0
    }

    /// The value of a register.
    pub fn get(&self, index: &StackIndex) -> (value: Value)
        requires
            index.0 < self.stack@.len(),
        ensures
            value == self.stack@[index.0 as int],
    {
        let register = index.with_offset(self.stack_offset());
        self.stack[register.0]
    }

    /// Gives a register a value.
    pub fn set(&mut self, index: &StackIndex, value: Value)
        requires
            index.0 < old(self).stack@.len(),
        ensures
            final(self).cursor == old(self).cursor,
            final(self).stack@ == old(self).stack@.update(index.0 as int, value),
    {
        let register = index.with_offset(self.stack_offset());
        self.stack.set(register.0, value);
    }

    /// Gives a register the value that the host computed for an effect. Says
    /// whether the machine has that register; if it has not, nothing changes.
    pub fn supply(&mut self, output: StackIndex, value: Value) -> (stored: bool)
        ensures
            stored == (output.0 < old(self).stack@.len()),
            final(self).cursor == old(self).cursor,
            final(self).stack@ == (if stored {
                old(self).stack@.update(output.0 as int, value)
            } else {
                old(self).stack@
            }),
    {
        if output.0 < self.stack.len() {
            self.set(&output, value);
            true
        } else {
            false
        }
    }
}

/// Runs a program one instruction at a time. The host drives it: it calls
/// `step` until the program has ended or failed, and after each step does
/// what the effect asks for.
#[derive(Debug, Clone, Copy)]
pub struct DefaultRunner;

impl DefaultRunner {
    /// Carries out the instruction at the cursor. Gives `None`, and changes
    /// nothing, where the cursor is past the last instruction: the program
    /// has ended. Where the instruction fails, the run halts at it: the
    /// machine is as it was, and the cursor names the instruction that
    /// failed and its span.
    pub fn step(&self, chunk: &Chunk, vm: &mut Vm) -> (result: Option<
        Result<Effect<String>, MsErrorType>,
    >)
        requires
            old(vm).stack@.len() >= chunk@.stack_size,
        ensures
            old(vm).cursor >= chunk@.code.len() ==> result is None && *final(vm) == *old(vm),
            old(vm).cursor < chunk@.code.len() ==> result is Some && ({
                let expected = stepped(
                    chunk@.code[old(vm).cursor as int],
                    old(vm).cursor,
                    old(vm).stack@,
                );
                &&& final(vm).cursor == expected.cursor
                &&& final(vm).stack@ == expected.stack
                &&& match result->Some_0 {
                    Ok(effect) => expected.result == Ok::<Effect<Seq<char>>, MsErrorType>(effect@),
                    Err(error) => expected.result == Err::<Effect<Seq<char>>, MsErrorType>(error),
                }
            }),
            result matches Some(Err(_)) ==> final(vm).cursor == old(vm).cursor,
            result matches Some(Err(_)) ==> final(vm).stack@ == old(vm).stack@,
            result matches Some(Err(_)) ==> old(vm).cursor < chunk@.spans.len(),
    {
        let code = chunk.code();
        if vm.cursor >= code.len() {
            return None;
        }
        let op = &code[vm.cursor];
        proof {
            assert(chunk@.code[vm.cursor as int] == op@);
            crate::vm::model::fits_grows(*op, chunk@.stack_size as int, vm.stack@.len() as int);
        }
        Some(op.step(vm))
    }
}

} // verus!
