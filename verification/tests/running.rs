use miniscript::compile;
use miniscript::errors::{InternalError, MsErrorType, RuntimeError};
use miniscript::value::Value;
use miniscript::vm::chunk::Chunk;
use miniscript::vm::op_code::{BytecodeError, Effect, NumericOp, OpCode};
use miniscript::vm::register::StackIndex;
use miniscript::vm::{DefaultRunner, Vm};

fn show(value: Value) -> String {
    match value {
        Value::Null => "null".to_string(),
        Value::Number(bits) => format!("{}", f64::from_bits(bits)),
    }
}

fn computed(op: NumericOp, lhs: u64, rhs: u64) -> u64 {
    let a = f64::from_bits(lhs);
    let b = f64::from_bits(rhs);
    let result = match op {
        NumericOp::Add => a + b,
        NumericOp::Subtract => a - b,
        NumericOp::Multiply => a * b,
        NumericOp::Divide => a / b,
        NumericOp::Pow => a.powf(b),
        NumericOp::FuzzyOr => a + b - a * b,
        NumericOp::FuzzyAnd => a * b,
    };
    result.to_bits()
}

/// Drives the machine as a host does, and gives what the program printed.
fn run(chunk: &Chunk) -> Result<Vec<String>, MsErrorType> {
    let mut vm = Vm::new(chunk.stack_size());
    let mut printed = Vec::new();
    let mut steps = 0;
    loop {
        let effect = match DefaultRunner.step(chunk, &mut vm) {
            None => return Ok(printed),
            Some(result) => result?,
        };
        match effect {
            Effect::Done => {}
            Effect::Print(value) => printed.push(show(value)),
            Effect::Number { output, literal } => {
                let number: f64 = literal.parse().unwrap();
                assert!(vm.supply(output, Value::Number(number.to_bits())));
            }
            Effect::Compute { output, op, lhs, rhs } => {
                assert!(vm.supply(output, op.settle(computed(op, lhs, rhs))));
            }
        }
        steps += 1;
        assert!(steps < 100_000, "the program does not end");
    }
}

fn output(source: &str) -> Vec<String> {
    run(&compile("<eval>", source).unwrap()).unwrap()
}

#[test]
fn prints_number_literals_as_numbers() {
    assert_eq!(output("print 1"), vec!["1"]);
    assert_eq!(output("print 12.50"), vec!["12.5"]);
    assert_eq!(output("print -3"), vec!["-3"]);
    assert_eq!(output("print 1e3"), vec!["1000"]);
    assert_eq!(output("print 2.5E-1"), vec!["0.25"]);
    assert_eq!(output("print 0.1"), vec!["0.1"]);
    assert_eq!(output("print null"), vec!["null"]);
    assert_eq!(output("print true\nprint false"), vec!["1", "0"]);
}

#[test]
fn arithmetic_follows_the_host() {
    assert_eq!(output("print 1 + 2"), vec!["3"]);
    assert_eq!(output("print 7 - 10"), vec!["-3"]);
    assert_eq!(output("print 2 * 3 + 4"), vec!["10"]);
    assert_eq!(output("print 2 + 3 * 4"), vec!["14"]);
    assert_eq!(output("print ((2 + 3) * 4)"), vec!["20"]);
    assert_eq!(output("x = (2 + 3) * 4\nprint x"), vec!["20"]);
    assert_eq!(output("print 1 / 4"), vec!["0.25"]);
    assert_eq!(output("print 1 / 0"), vec!["inf"]);
    assert_eq!(output("print 2 ^ 10"), vec!["1024"]);
    assert_eq!(output("print 8 - 4 - 2"), vec!["2"]);
}

#[test]
fn null_counts_as_zero_in_arithmetic() {
    assert_eq!(output("print null + 5"), vec!["5"]);
    assert_eq!(output("print 5 + null"), vec!["5"]);
    assert_eq!(output("print null * 5"), vec!["0"]);
    assert_eq!(output("print null < 1"), vec!["1"]);
}

#[test]
fn comparisons_give_one_or_zero() {
    assert_eq!(output("print 1 == 2"), vec!["0"]);
    assert_eq!(output("print 2 == 2"), vec!["1"]);
    assert_eq!(output("print 1 != 2"), vec!["1"]);
    assert_eq!(output("print 1 < 2"), vec!["1"]);
    assert_eq!(output("print 2 <= 2"), vec!["1"]);
    assert_eq!(output("print 1 > 2"), vec!["0"]);
    assert_eq!(output("print 2 >= 3"), vec!["0"]);
    assert_eq!(output("print null == null"), vec!["0"]);
    assert_eq!(output("print null != null"), vec!["1"]);
}

#[test]
fn chained_comparison_is_the_conjunction_of_its_links() {
    assert_eq!(output("print 1 == 2 > 1 < 3"), vec!["0"]);
    assert_eq!(output("print 1 < 2 < 3"), vec!["1"]);
    assert_eq!(output("print 1 < 2 > 3"), vec!["0"]);
    assert_eq!(output("print 3 > 2 > 1 == 1"), vec!["1"]);
    assert_eq!(output("x = 2\nprint 1 < x <= 2 != 3"), vec!["1"]);
}

#[test]
fn and_and_or_are_fuzzy() {
    assert_eq!(output("print 0.5 and 0.5"), vec!["0.25"]);
    assert_eq!(output("print 0.5 or 0.5"), vec!["0.75"]);
    assert_eq!(output("print 1 and 1"), vec!["1"]);
    assert_eq!(output("print 1 or 0"), vec!["1"]);
    assert_eq!(output("print 0 or 0"), vec!["0"]);
    // The left operand decides where it can: the right one is left out.
    assert_eq!(output("print 0 and 0.5"), vec!["0"]);
    assert_eq!(output("print 1 or 0.5"), vec!["1"]);
    assert_eq!(output("print 2 and 3"), vec!["1"]);
    assert_eq!(output("print 0.5 and 3"), vec!["1"]);
}

#[test]
fn conditional_takes_the_first_branch_that_holds() {
    assert_eq!(output("if false then print 1 else print 2 end"), vec!["2"]);
    assert_eq!(output("if true then print 1 else print 2 end"), vec!["1"]);
    assert_eq!(output("if 0 then print 1 end\nprint 9"), vec!["9"]);
    let chain = "if x == 1 then\n print 10\nelse if x == 2 then\n print 20\nelse\n print 30\nend";
    assert_eq!(output(&format!("x = 1\n{chain}")), vec!["10"]);
    assert_eq!(output(&format!("x = 2\n{chain}")), vec!["20"]);
    assert_eq!(output(&format!("x = 3\n{chain}")), vec!["30"]);
}

#[test]
fn while_loop_runs_as_long_as_its_condition_holds() {
    assert_eq!(output("while false\n print 1\nend\nprint 2"), vec!["2"]);
    assert_eq!(
        output("i = 0\nwhile i < 3\n print i\n i = i + 1\nend\nprint 99"),
        vec!["0", "1", "2", "99"]
    );
    assert_eq!(
        output("i = 3; total = 0\nwhile i\n total = total + i; i = i - 1\nend\nprint total"),
        vec!["6"]
    );
}

#[test]
fn locals_keep_their_values() {
    assert_eq!(output("x = 5\nprint x"), vec!["5"]);
    assert_eq!(output("x = 5\ny = x\nx = 7\nprint y\nprint x"), vec!["5", "7"]);
    assert_eq!(output("x = 2\nx = x * x + x\nprint x"), vec!["6"]);
    assert_eq!(output("x = 1 < 2 < 3\nprint x"), vec!["1"]);
}

#[test]
fn a_failed_run_halts_at_the_failing_instruction() {
    let source = "print 1\nprint \"text\"\nprint 2";
    let chunk = compile("<eval>", source).unwrap();
    let mut vm = Vm::new(chunk.stack_size());
    let mut printed = 0;
    let failed = loop {
        match DefaultRunner.step(&chunk, &mut vm) {
            None => panic!("the run ended"),
            Some(Err(error)) => break error,
            Some(Ok(Effect::Print(_))) => printed += 1,
            Some(Ok(Effect::Number { output, .. })) => {
                assert!(vm.supply(output, Value::Number(1.0f64.to_bits())));
            }
            Some(Ok(_)) => {}
        }
    };
    assert_eq!(failed, MsErrorType::Internal(InternalError::NotImplemented));
    // What ran before stays, nothing runs after, and the cursor names the
    // instruction that failed.
    assert_eq!(printed, 1);
    assert!(matches!(chunk.code()[vm.cursor], OpCode::SetString(_, _)));
    let span = chunk.spans()[vm.cursor];
    assert_eq!(&source[span.start..span.end], "\"text\"");
    let again = DefaultRunner.step(&chunk, &mut vm);
    assert_eq!(again, Some(Err(MsErrorType::Internal(InternalError::NotImplemented))));
}

#[test]
fn what_the_machine_does_not_implement_fails() {
    assert_eq!(
        run(&compile("<eval>", "print \"text\"").unwrap()),
        Err(MsErrorType::Internal(InternalError::NotImplemented))
    );
    assert_eq!(
        run(&compile("<eval>", "print y").unwrap()),
        Err(MsErrorType::Internal(InternalError::NotImplemented))
    );
}

fn stepped(op: OpCode<String>, stack: Vec<Value>) -> (Vm, Result<Effect<String>, MsErrorType>) {
    let mut vm = Vm { cursor: 4, stack };
    assert!(op.fits_in(vm.stack.len()));
    let result = op.step(&mut vm);
    (vm, result)
}

fn number(value: f64) -> Value {
    Value::Number(value.to_bits())
}

fn bits(values: &[Value]) -> Vec<Option<u64>> {
    values.iter().map(|value| value.as_f64_checked()).collect()
}

#[test]
fn jumps_set_the_cursor() {
    let r = |i| StackIndex(i);
    let stack = vec![number(0.0), number(1.0), number(0.5), Value::Null];
    assert_eq!(stepped(OpCode::Jump(9), stack.clone()).0.cursor, 9);
    assert_eq!(stepped(OpCode::JumpIfFalse(r(0), 9), stack.clone()).0.cursor, 9);
    assert_eq!(stepped(OpCode::JumpIfFalse(r(2), 9), stack.clone()).0.cursor, 5);
    assert_eq!(stepped(OpCode::JumpIfFalse(r(3), 9), stack.clone()).0.cursor, 9);
    assert_eq!(stepped(OpCode::JumpIfTrue(r(1), 9), stack.clone()).0.cursor, 9);
    assert_eq!(stepped(OpCode::JumpIfTrue(r(0), 9), stack.clone()).0.cursor, 5);
    assert_eq!(stepped(OpCode::JumpIfAbsOneOrGreater(r(1), 9), stack.clone()).0.cursor, 9);
    assert_eq!(stepped(OpCode::JumpIfAbsOneOrGreater(r(2), 9), stack.clone()).0.cursor, 5);
    assert_eq!(stepped(OpCode::JumpIfAbsOneOrGreater(r(3), 9), stack.clone()).0.cursor, 5);
    assert_eq!(stepped(OpCode::Return(None), stack.clone()).0.cursor, 5);
}

#[test]
fn instructions_write_their_first_operand() {
    let r = |i| StackIndex(i);
    let stack = vec![number(3.0), number(4.0), Value::Null];
    let (vm, result) = stepped(OpCode::Copy { source: r(1), output: r(2) }, stack.clone());
    assert_eq!(result, Ok(Effect::Done));
    assert_eq!(bits(&vm.stack), bits(&[number(3.0), number(4.0), number(4.0)]));
    let (vm, _) = stepped(OpCode::SetNull(r(0)), stack.clone());
    assert_eq!(bits(&vm.stack), bits(&[Value::Null, number(4.0), Value::Null]));
    let (vm, _) = stepped(OpCode::Call0 { function: r(0), output: r(2) }, stack.clone());
    assert_eq!(bits(&vm.stack), bits(&[number(3.0), number(4.0), number(3.0)]));
    let (vm, result) = stepped(OpCode::Print { value: r(1), output: r(0) }, stack.clone());
    assert_eq!(bits(&vm.stack), bits(&[Value::Null, number(4.0), Value::Null]));
    assert!(matches!(result, Ok(Effect::Print(Value::Number(n))) if n == 4.0f64.to_bits()));
    let (vm, result) = stepped(OpCode::SetNumber(r(2), "1.5".to_string()), stack.clone());
    assert_eq!(bits(&vm.stack), bits(&stack));
    assert_eq!(result, Ok(Effect::Number { output: r(2), literal: "1.5".to_string() }));
    let (vm, result) = stepped(
        OpCode::Divide { output: r(2), lhs: r(0), rhs: r(2) },
        stack.clone(),
    );
    assert_eq!(bits(&vm.stack), bits(&stack));
    assert_eq!(
        result,
        Ok(Effect::Compute {
            output: r(2),
            op: NumericOp::Divide,
            lhs: 3.0f64.to_bits(),
            rhs: 0.0f64.to_bits(),
        })
    );
    let (vm, _) = stepped(OpCode::LessThan { output: r(2), lhs: r(0), rhs: r(1) }, stack.clone());
    assert_eq!(bits(&vm.stack), bits(&[number(3.0), number(4.0), number(1.0)]));
    let (vm, _) = stepped(OpCode::And { output: r(0), lhs: r(0), rhs: r(2) }, stack.clone());
    assert_eq!(bits(&vm.stack), bits(&[number(0.0), number(4.0), Value::Null]));
}

#[test]
fn error_instructions_raise() {
    let r = |i| StackIndex(i);
    let stack = vec![number(3.0)];
    let (vm, result) = stepped(OpCode::Error(BytecodeError::UnpatchedOpCode), stack.clone());
    assert_eq!(result, Err(MsErrorType::Internal(InternalError::UnpatchedOpCode(4))));
    // The run halts at the instruction that failed.
    assert_eq!(vm.cursor, 4);
    assert_eq!(bits(&vm.stack), bits(&stack));
    let (_, result) = stepped(OpCode::Error(BytecodeError::Register(r(0))), stack.clone());
    assert!(matches!(
        result,
        Err(MsErrorType::Runtime(RuntimeError::Custom(Value::Number(n)))) if n == 3.0f64.to_bits()
    ));
    let (_, result) = stepped(
        OpCode::Error(BytecodeError::Message("no".to_string())),
        stack.clone(),
    );
    assert_eq!(result, Err(MsErrorType::Internal(InternalError::NotImplemented)));
    let (vm, result) = stepped(OpCode::Return(Some(r(0))), stack.clone());
    assert_eq!(result, Err(MsErrorType::Internal(InternalError::NotImplemented)));
    assert_eq!(vm.cursor, 4);
    assert!(!OpCode::<String>::Return(Some(r(1))).fits_in(1));
    assert!(!OpCode::<String>::Add { output: r(0), lhs: r(0), rhs: r(1) }.fits_in(1));
}

#[test]
fn the_machine_starts_with_null_registers() {
    let mut vm = Vm::new(3);
    assert_eq!(vm.cursor, 0);
    assert_eq!(vm.stack_offset(), 0);
    assert_eq!(bits(&vm.stack), vec![None, None, None]);
    assert!(vm.supply(StackIndex(2), number(1.0)));
    assert!(!vm.supply(StackIndex(3), number(1.0)));
    assert_eq!(bits(&vm.stack), vec![None, None, Some(1.0f64.to_bits())]);
    vm.set(&StackIndex(0), number(2.0));
    assert_eq!(vm.get(&StackIndex(0)).as_f64(), 2.0f64.to_bits());
    let chunk = compile("<eval>", "1 + 2").unwrap();
    let mut vm = Vm::new(chunk.stack_size());
    assert_eq!(DefaultRunner.step(&chunk, &mut vm), Some(Ok(Effect::Done)));
    assert_eq!(vm.cursor, 1);
    assert_eq!(DefaultRunner.step(&chunk, &mut vm), None);
    assert_eq!(vm.cursor, 1);
}
