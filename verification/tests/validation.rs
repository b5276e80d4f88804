use num_bigint::BigInt;
use zkdsl::ast::BinaryOperator;
use zkdsl::ir::{
    validate, Block, BlockExit, Constant, Instruction, IrError, JumpArg, Operand, Program,
};
use zkdsl::vm::{VMError, VM};

fn cnum(i: i64) -> Operand {
    Operand::Constant(Constant::Num { value: BigInt::from(i) })
}

fn cunit() -> Operand {
    Operand::Constant(Constant::Unit)
}

fn arity_mismatch_program() -> Program {
    // block 0 jumps to block 1 with two arguments; block 1 declares one
    Program {
        blocks: vec![
            Block {
                params: 0,
                instructions: Vec::new(),
                exit: BlockExit::Jump {
                    arg: JumpArg { target: 1, args: vec![cnum(1), cnum(2)] },
                },
            },
            Block {
                params: 1,
                instructions: Vec::new(),
                exit: BlockExit::Return { value: Operand::StackValue(0) },
            },
        ],
    }
}

#[test]
fn jump_arity_mismatch_is_rejected_before_execution() {
    let program = arity_mismatch_program();
    assert_eq!(validate(&program), Err(IrError::JumpArityMismatch));
    let mut vm = VM { ip: 0, program, data: Vec::new(), address: Vec::new() };
    let (trace, result) = vm.execute(100);
    assert_eq!(
        result,
        Err(VMError::InvalidProgram { error: IrError::JumpArityMismatch })
    );
    // rejected before any step ran
    assert_eq!(trace.log.len(), 0);
}

#[test]
fn conditional_arm_arity_mismatch_is_rejected() {
    let program = Program {
        blocks: vec![
            Block {
                params: 0,
                instructions: Vec::new(),
                exit: BlockExit::ConditionalJump {
                    condition: cnum(1),
                    arg_then: JumpArg { target: 1, args: Vec::new() },
                    arg_else: JumpArg { target: 1, args: vec![cnum(5)] },
                },
            },
            Block {
                params: 0,
                instructions: Vec::new(),
                exit: BlockExit::Return { value: cunit() },
            },
        ],
    };
    assert_eq!(validate(&program), Err(IrError::JumpArityMismatch));
}

#[test]
fn out_of_range_jump_target_is_rejected() {
    let program = Program {
        blocks: vec![Block {
            params: 0,
            instructions: Vec::new(),
            exit: BlockExit::Jump { arg: JumpArg { target: 99, args: Vec::new() } },
        }],
    };
    assert_eq!(validate(&program), Err(IrError::InvalidJumpTarget));
}

#[test]
fn empty_program_has_no_entry_block() {
    let program = Program { blocks: Vec::new() };
    assert_eq!(validate(&program), Err(IrError::InvalidJumpTarget));
}

#[test]
fn entry_block_must_take_no_parameters() {
    let program = Program {
        blocks: vec![Block {
            params: 1,
            instructions: Vec::new(),
            exit: BlockExit::Return { value: Operand::StackValue(0) },
        }],
    };
    assert_eq!(validate(&program), Err(IrError::JumpArityMismatch));
}

#[test]
fn stack_slot_deeper_than_guaranteed_is_rejected() {
    let program = Program {
        blocks: vec![Block {
            params: 0,
            instructions: vec![Instruction::BinOp {
                op: BinaryOperator::Plus,
                lhs: Operand::StackValue(0),
                rhs: Operand::StackValue(0),
            }],
            exit: BlockExit::Return { value: cunit() },
        }],
    };
    assert_eq!(validate(&program), Err(IrError::StackIndexOutOfRange));
}

#[test]
fn a_well_formed_program_validates() {
    let program = Program {
        blocks: vec![
            Block {
                params: 0,
                instructions: vec![Instruction::BinOp {
                    op: BinaryOperator::Plus,
                    lhs: cnum(2),
                    rhs: cnum(3),
                }],
                exit: BlockExit::Jump {
                    arg: JumpArg { target: 1, args: vec![Operand::StackValue(0)] },
                },
            },
            Block {
                params: 1,
                instructions: vec![Instruction::Dup, Instruction::Swap],
                exit: BlockExit::Return { value: Operand::StackValue(0) },
            },
        ],
    };
    assert_eq!(validate(&program), Ok(()));
}

#[test]
fn revalidation_returns_the_same_verdict() {
    let good = Program {
        blocks: vec![Block {
            params: 0,
            instructions: Vec::new(),
            exit: BlockExit::Return { value: cunit() },
        }],
    };
    assert_eq!(validate(&good), validate(&good));
    assert_eq!(validate(&good), Ok(()));

    let bad = arity_mismatch_program();
    assert_eq!(validate(&bad), validate(&bad));
    assert_eq!(validate(&bad), Err(IrError::JumpArityMismatch));
}
