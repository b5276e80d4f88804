use num_bigint::BigInt;
use zkdsl::ast::{BinaryOperator, UnaryOperator};
use zkdsl::ir::{Block, BlockExit, Constant, Instruction, Operand, Program};
use zkdsl::vm::{VMError, Value, VM};

fn num(i: i64) -> Value {
    Value::Num { value: BigInt::from(i) }
}

fn cnum(i: i64) -> Operand {
    Operand::Constant(Constant::Num { value: BigInt::from(i) })
}

fn binop(op: BinaryOperator, lhs: i64, rhs: i64) -> Result<Value, VMError> {
    let program = Program {
        blocks: vec![Block {
            params: 0,
            instructions: vec![Instruction::BinOp { op, lhs: cnum(lhs), rhs: cnum(rhs) }],
            exit: BlockExit::Return { value: Operand::StackValue(0) },
        }],
    };
    let mut vm = VM { ip: 0, program, data: Vec::new(), address: Vec::new() };
    vm.execute(100).1
}

fn unop(op: UnaryOperator, operand: i64) -> Result<Value, VMError> {
    let program = Program {
        blocks: vec![Block {
            params: 0,
            instructions: vec![Instruction::UnaryOp { op, operand: cnum(operand) }],
            exit: BlockExit::Return { value: Operand::StackValue(0) },
        }],
    };
    let mut vm = VM { ip: 0, program, data: Vec::new(), address: Vec::new() };
    vm.execute(100).1
}

#[test]
fn arithmetic_operators_are_exact() {
    assert_eq!(binop(BinaryOperator::Plus, 2, 3), Ok(num(5)));
    assert_eq!(binop(BinaryOperator::Minus, 2, 3), Ok(num(-1)));
    assert_eq!(binop(BinaryOperator::Multiply, 6, 7), Ok(num(42)));
}

#[test]
fn division_truncates_toward_zero() {
    assert_eq!(binop(BinaryOperator::Divide, 7, 2), Ok(num(3)));
    assert_eq!(binop(BinaryOperator::Divide, -7, 2), Ok(num(-3)));
    assert_eq!(binop(BinaryOperator::Divide, 7, -2), Ok(num(-3)));
    assert_eq!(binop(BinaryOperator::Divide, -7, -2), Ok(num(3)));
}

#[test]
fn division_by_zero_is_an_error() {
    assert_eq!(binop(BinaryOperator::Divide, 1, 0), Err(VMError::DivisionByZero));
}

#[test]
fn arithmetic_does_not_overflow_machine_integers() {
    let program = Program {
        blocks: vec![Block {
            params: 0,
            instructions: vec![Instruction::BinOp {
                op: BinaryOperator::Multiply,
                lhs: cnum(i64::MAX),
                rhs: cnum(i64::MAX),
            }],
            exit: BlockExit::Return { value: Operand::StackValue(0) },
        }],
    };
    let mut vm = VM { ip: 0, program, data: Vec::new(), address: Vec::new() };
    let expected = BigInt::from(i64::MAX) * BigInt::from(i64::MAX);
    assert_eq!(vm.execute(100).1, Ok(Value::Num { value: expected }));
}

#[test]
fn comparisons_yield_one_or_zero() {
    assert_eq!(binop(BinaryOperator::Equal, 4, 4), Ok(num(1)));
    assert_eq!(binop(BinaryOperator::Equal, 4, 5), Ok(num(0)));
    assert_eq!(binop(BinaryOperator::NotEqual, 4, 5), Ok(num(1)));
    assert_eq!(binop(BinaryOperator::NotEqual, 4, 4), Ok(num(0)));
    assert_eq!(binop(BinaryOperator::LessThan, 3, 4), Ok(num(1)));
    assert_eq!(binop(BinaryOperator::LessThan, 4, 3), Ok(num(0)));
    assert_eq!(binop(BinaryOperator::GreaterThan, 4, 3), Ok(num(1)));
    assert_eq!(binop(BinaryOperator::GreaterThan, 3, 4), Ok(num(0)));
}

#[test]
fn boolean_combinators_read_nonzero_as_true() {
    assert_eq!(binop(BinaryOperator::And, 2, 3), Ok(num(1)));
    assert_eq!(binop(BinaryOperator::And, 2, 0), Ok(num(0)));
    assert_eq!(binop(BinaryOperator::Or, 0, 3), Ok(num(1)));
    assert_eq!(binop(BinaryOperator::Or, 0, 0), Ok(num(0)));
    assert_eq!(binop(BinaryOperator::Xor, 2, 0), Ok(num(1)));
    assert_eq!(binop(BinaryOperator::Xor, 2, 3), Ok(num(0)));
    assert_eq!(binop(BinaryOperator::Xor, 0, 0), Ok(num(0)));
}

#[test]
fn unary_operators_are_fully_defined() {
    assert_eq!(unop(UnaryOperator::Minus, 5), Ok(num(-5)));
    assert_eq!(unop(UnaryOperator::Minus, -5), Ok(num(5)));
    assert_eq!(unop(UnaryOperator::Not, 0), Ok(num(1)));
    assert_eq!(unop(UnaryOperator::Not, 3), Ok(num(0)));
}

#[test]
fn unit_operands_fail_with_void_value() {
    let program = Program {
        blocks: vec![Block {
            params: 0,
            instructions: vec![Instruction::BinOp {
                op: BinaryOperator::Plus,
                lhs: Operand::Constant(Constant::Unit),
                rhs: cnum(1),
            }],
            exit: BlockExit::Return { value: Operand::StackValue(0) },
        }],
    };
    let mut vm = VM { ip: 0, program, data: Vec::new(), address: Vec::new() };
    assert_eq!(vm.execute(100).1, Err(VMError::VoidValue));

    let program = Program {
        blocks: vec![Block {
            params: 0,
            instructions: vec![Instruction::UnaryOp {
                op: UnaryOperator::Minus,
                operand: Operand::Constant(Constant::Unit),
            }],
            exit: BlockExit::Return { value: Operand::StackValue(0) },
        }],
    };
    let mut vm = VM { ip: 0, program, data: Vec::new(), address: Vec::new() };
    assert_eq!(vm.execute(100).1, Err(VMError::VoidValue));
}
