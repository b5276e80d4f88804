use num_bigint::BigInt;
use zkdsl::ast::BinaryOperator;
use zkdsl::ir::{Block, BlockExit, Constant, Instruction, JumpArg, Operand, Program};
use zkdsl::vm::{ExecTrace, VMError, Value, VM};

fn num(i: i64) -> Value {
    Value::Num { value: BigInt::from(i) }
}

fn cnum(i: i64) -> Operand {
    Operand::Constant(Constant::Num { value: BigInt::from(i) })
}

fn cunit() -> Operand {
    Operand::Constant(Constant::Unit)
}

fn vm_for(program: Program, data: Vec<Value>) -> VM {
    VM { ip: 0, program, data, address: Vec::new() }
}

fn run(program: Program, data: Vec<Value>) -> (VM, ExecTrace, Result<Value, VMError>) {
    let mut vm = vm_for(program, data);
    let (trace, result) = vm.execute(100);
    (vm, trace, result)
}

#[test]
fn single_binop_block_returns_five() {
    let program = Program {
        blocks: vec![Block {
            params: 0,
            instructions: vec![Instruction::BinOp {
                op: BinaryOperator::Plus,
                lhs: cnum(2),
                rhs: cnum(3),
            }],
            exit: BlockExit::Return { value: Operand::StackValue(0) },
        }],
    };
    let (_, trace, result) = run(program, Vec::new());
    assert_eq!(result, Ok(num(5)));
    assert_eq!(trace.log.len(), 2);
}

#[test]
fn conditional_on_unit_fails_with_void_value() {
    let program = Program {
        blocks: vec![
            Block {
                params: 0,
                instructions: Vec::new(),
                exit: BlockExit::ConditionalJump {
                    condition: cunit(),
                    arg_then: JumpArg { target: 1, args: Vec::new() },
                    arg_else: JumpArg { target: 1, args: Vec::new() },
                },
            },
            Block {
                params: 0,
                instructions: Vec::new(),
                exit: BlockExit::Return { value: cunit() },
            },
        ],
    };
    let (_, trace, result) = run(program, Vec::new());
    assert_eq!(result, Err(VMError::VoidValue));
    // the trace is truncated at the failing exit: no step was recorded
    assert_eq!(trace.log.len(), 0);
}

#[test]
fn conditional_picks_then_and_else_branches() {
    let build = |condition: Operand| Program {
        blocks: vec![
            Block {
                params: 0,
                instructions: Vec::new(),
                exit: BlockExit::ConditionalJump {
                    condition,
                    arg_then: JumpArg { target: 1, args: Vec::new() },
                    arg_else: JumpArg { target: 2, args: Vec::new() },
                },
            },
            Block {
                params: 0,
                instructions: Vec::new(),
                exit: BlockExit::Return { value: cnum(10) },
            },
            Block {
                params: 0,
                instructions: Vec::new(),
                exit: BlockExit::Return { value: cnum(20) },
            },
        ],
    };
    let (_, _, result) = run(build(cnum(7)), Vec::new());
    assert_eq!(result, Ok(num(10)));
    let (_, _, result) = run(build(cnum(0)), Vec::new());
    assert_eq!(result, Ok(num(20)));
}

#[test]
fn dup_duplicates_the_top_of_the_stack() {
    let program = Program {
        blocks: vec![Block {
            params: 0,
            instructions: vec![Instruction::Dup],
            exit: BlockExit::Return { value: cunit() },
        }],
    };
    let (vm, _, result) = run(program, vec![num(1), num(2)]);
    assert_eq!(result, Ok(Value::Unit));
    // top-first the stack reads [2, 2, 1]; the vector holds the top last
    assert_eq!(vm.data, vec![num(1), num(2), num(2)]);
}

#[test]
fn swap_exchanges_the_top_two_entries() {
    let program = Program {
        blocks: vec![Block {
            params: 0,
            instructions: vec![Instruction::Swap],
            exit: BlockExit::Return { value: cunit() },
        }],
    };
    let (vm, _, result) = run(program, vec![num(1), num(2)]);
    assert_eq!(result, Ok(Value::Unit));
    assert_eq!(vm.data, vec![num(2), num(1)]);
}

#[test]
fn dup_then_swap_keeps_the_duplicated_top() {
    let program = Program {
        blocks: vec![Block {
            params: 0,
            instructions: vec![Instruction::Dup, Instruction::Swap],
            exit: BlockExit::Return { value: cunit() },
        }],
    };
    let (vm, trace, result) = run(program, vec![num(1), num(2)]);
    assert_eq!(result, Ok(Value::Unit));
    assert_eq!(vm.data, vec![num(1), num(2), num(2)]);
    assert_eq!(trace.log.len(), 3);
}

#[test]
fn jump_arguments_cross_the_block_boundary() {
    let program = Program {
        blocks: vec![
            Block {
                params: 0,
                instructions: Vec::new(),
                exit: BlockExit::Jump { arg: JumpArg { target: 1, args: vec![cnum(7)] } },
            },
            Block {
                params: 1,
                instructions: Vec::new(),
                exit: BlockExit::Return { value: Operand::StackValue(0) },
            },
        ],
    };
    let (_, trace, result) = run(program, Vec::new());
    assert_eq!(result, Ok(num(7)));
    // one step for the jump, one for the return
    assert_eq!(trace.log.len(), 2);
}

#[test]
fn reaching_unreachable_is_a_fatal_error() {
    let program = Program {
        blocks: vec![Block {
            params: 0,
            instructions: Vec::new(),
            exit: BlockExit::Unreachable,
        }],
    };
    let (_, trace, result) = run(program, Vec::new());
    assert_eq!(result, Err(VMError::UnreachableExecuted));
    assert_eq!(trace.log.len(), 0);
}

#[test]
fn dup_on_an_empty_stack_underflows() {
    let program = Program {
        blocks: vec![Block {
            params: 0,
            instructions: vec![Instruction::Dup],
            exit: BlockExit::Return { value: cunit() },
        }],
    };
    let (_, trace, result) = run(program, Vec::new());
    assert_eq!(result, Err(VMError::StackUnderflow));
    assert_eq!(trace.log.len(), 0);
}

#[test]
fn two_runs_yield_identical_traces_and_results() {
    let build = || Program {
        blocks: vec![
            Block {
                params: 0,
                instructions: vec![Instruction::BinOp {
                    op: BinaryOperator::Multiply,
                    lhs: cnum(6),
                    rhs: cnum(7),
                }],
                exit: BlockExit::Jump { arg: JumpArg { target: 1, args: vec![cnum(1)] } },
            },
            Block {
                params: 1,
                instructions: vec![Instruction::Swap],
                exit: BlockExit::Return { value: Operand::StackValue(0) },
            },
        ],
    };
    let (vm1, trace1, result1) = run(build(), Vec::new());
    let (vm2, trace2, result2) = run(build(), Vec::new());
    assert_eq!(result1, Ok(num(42)));
    assert_eq!(result1, result2);
    assert_eq!(trace1, trace2);
    assert_eq!(vm1.data, vm2.data);
}

#[test]
fn step_budget_cuts_off_a_cyclic_program() {
    let program = Program {
        blocks: vec![Block {
            params: 0,
            instructions: Vec::new(),
            exit: BlockExit::Jump { arg: JumpArg { target: 0, args: Vec::new() } },
        }],
    };
    let mut vm = vm_for(program, Vec::new());
    let (trace, result) = vm.execute(5);
    assert_eq!(result, Err(VMError::StepLimitExceeded));
    assert_eq!(trace.log.len(), 5);
}

#[test]
fn net_stack_depth_follows_produced_minus_consumed() {
    // each constant binop grows the depth by one; the closing binop consumes
    // its two stack operands and produces one value, shrinking it by one
    let program = Program {
        blocks: vec![Block {
            params: 0,
            instructions: vec![
                Instruction::BinOp { op: BinaryOperator::Plus, lhs: cnum(1), rhs: cnum(0) },
                Instruction::BinOp { op: BinaryOperator::Plus, lhs: cnum(2), rhs: cnum(0) },
                Instruction::BinOp {
                    op: BinaryOperator::Plus,
                    lhs: Operand::StackValue(0),
                    rhs: Operand::StackValue(0),
                },
            ],
            exit: BlockExit::Return { value: cunit() },
        }],
    };
    let (vm, _, result) = run(program, Vec::new());
    assert_eq!(result, Ok(Value::Unit));
    assert_eq!(vm.data, vec![num(3)]);

    // Nop leaves the depth alone; Dup grows it by one
    let program = Program {
        blocks: vec![Block {
            params: 0,
            instructions: vec![Instruction::Nop, Instruction::Dup],
            exit: BlockExit::Return { value: cunit() },
        }],
    };
    let (vm, _, _) = run(program, vec![num(4)]);
    assert_eq!(vm.data.len(), 2);
}

#[test]
fn register_operands_read_as_unit() {
    let program = Program {
        blocks: vec![Block {
            params: 0,
            instructions: Vec::new(),
            exit: BlockExit::Return {
                value: Operand::Register(zkdsl::ir::Register::Zero),
            },
        }],
    };
    let (_, _, result) = run(program, Vec::new());
    assert_eq!(result, Ok(Value::Unit));
}

#[test]
fn get_num_and_is_true_follow_the_value_model() {
    assert_eq!(num(3).get_num(), Ok(BigInt::from(3)));
    assert_eq!(Value::Unit.get_num(), Err(VMError::VoidValue));
    assert_eq!(num(3).is_true(), Ok(true));
    assert_eq!(num(0).is_true(), Ok(false));
    assert_eq!(num(-1).is_true(), Ok(true));
    assert_eq!(Value::Unit.is_true(), Err(VMError::VoidValue));
}

#[test]
fn concat_trace_appends_and_empties_the_other() {
    let program = Program {
        blocks: vec![Block {
            params: 0,
            instructions: vec![Instruction::Nop],
            exit: BlockExit::Return { value: cunit() },
        }],
    };
    let (_, first, _) = run(program, Vec::new());
    let mut combined = ExecTrace::new();
    assert_eq!(combined.log.len(), 0);
    let mut tail = first.clone();
    combined.concat_trace(&mut tail);
    assert_eq!(tail.log.len(), 0);
    assert_eq!(combined, first);
}
