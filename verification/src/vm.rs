//! The stack-based virtual machine and its execution trace.
//!
//! `VM::execute` validates its program, then runs it block by block from
//! block 0, appending one `ExecStep` to the trace per instruction executed
//! and one per block exit taken. The trace and the result are a function of
//! the program, the machine's initial stacks and the step budget alone, which
//! is what lets the trace stand in as a verifiable record of the run.
//!
//! Boolean encoding, fixed once for the whole machine: a number is true
//! exactly when it is nonzero; the unit value has no boolean reading and
//! using it as one is a `VoidValue` error.

use vstd::prelude::*;

use crate::ast::{BinaryOperator, UnaryOperator};
use crate::bigint::{
    big_add, big_clone, big_div, big_eq, big_from_i64, big_is_zero, big_lt, big_mul, big_neg,
    big_sub, big_value, div_trunc,
};
use crate::ir::{
    BlockExit, BlockExitV, BlockV, Constant, ConstantV, Instruction, InstructionV, IrError,
    JumpArg, JumpArgV, Operand, OperandV, Program, validate, validate_v,
};

verus! {

/// A runtime value: unit ("no result") or an arbitrary-precision integer.
#[derive(Debug, PartialEq)]
pub enum Value {
    Unit,
    Num { value: num_bigint::BigInt },
}

/// View of a `Value`: unit or an unbounded integer.
pub ghost enum ValueV {
    Unit,
    Num { value: int },
}

impl View for Value {
    type V = ValueV;

    open spec fn view(&self) -> ValueV {
        match self {
            Value::Unit => ValueV::Unit,
            Value::Num { value } => ValueV::Num { value: big_value(*value) },
        }
    }
}

impl DeepView for Value {
    type V = ValueV;

    open spec fn deep_view(&self) -> ValueV {
        self.view()
    }
}

impl Clone for Value {
    fn clone(&self) -> (r: Self)
        ensures
            r@ == self@,
    {
        match self {
            Value::Unit => Value::Unit,
            Value::Num { value } => Value::Num { value: big_clone(value) },
        }
    }
}

/// A failure that aborts one execution. The trace accumulated up to the
/// failing step is still handed to the caller.
#[derive(Debug, Clone, Copy, PartialEq, Eq, Structural)]
pub enum VMError {
    /// A pop was attempted on a stack without enough values.
    StackUnderflow,
    /// The unit value was used where a number or a boolean was required.
    VoidValue,
    /// A division's right operand was zero.
    DivisionByZero,
    /// Control was transferred to a block index outside the program.
    InvalidJumpTarget,
    /// A jump carried an argument count differing from its target's declared
    /// parameter count.
    JumpArityMismatch,
    /// An `Unreachable` exit was executed: a defect in the producer of the
    /// program, never recoverable.
    UnreachableExecuted,
    /// The caller's step budget ran out before the program returned.
    StepLimitExceeded,
    /// The program was rejected by validation before execution began.
    InvalidProgram { error: IrError },
}

impl Value {
    /// The numeric payload, or `VoidValue` for unit.
    pub fn get_num(self) -> (r: Result<num_bigint::BigInt, VMError>)
        ensures
            match self@ {
                ValueV::Unit => r == Err::<num_bigint::BigInt, VMError>(VMError::VoidValue),
                ValueV::Num { value } => r matches Ok(n) && big_value(n) == value,
            },
    {
        match self {
            Value::Unit => Err(VMError::VoidValue),
            Value::Num { value } => Ok(value),
        }
    }

    /// The boolean reading of a value: a number is true exactly when it is
    /// nonzero; unit has none.
    pub fn is_true(self) -> (r: Result<bool, VMError>)
        ensures
            match self@ {
                ValueV::Unit => r == Err::<bool, VMError>(VMError::VoidValue),
                ValueV::Num { value } => r == Ok::<bool, VMError>(value != 0),
            },
    {
        match self {
            Value::Unit => Err(VMError::VoidValue),
            Value::Num { value } => Ok(!big_is_zero(&value)),
        }
    }

    /// The runtime value a constant stands for; total and side-effect-free.
    pub fn from_constant(constant: &Constant) -> (r: Value)
        ensures
            r@ == const_value_v(constant.deep_view()),
    {
        match constant {
            Constant::Unit => Value::Unit,
            Constant::Num { value } => Value::Num { value: big_clone(value) },
        }
    }
}

/// The value a constant converts to.
pub open spec fn const_value_v(constant: ConstantV) -> ValueV {
    match constant {
        ConstantV::Unit => ValueV::Unit,
        ConstantV::Num { value } => ValueV::Num { value },
    }
}

/// The number standing for a boolean: one for true, zero for false.
pub open spec fn bool_value_v(b: bool) -> ValueV {
    ValueV::Num { value: if b { 1 } else { 0 } }
}

fn bool_to_value(b: bool) -> (r: Value)
    ensures
        r@ == bool_value_v(b),
{
    if b {
        Value::Num { value: big_from_i64(1) }
    } else {
        Value::Num { value: big_from_i64(0) }
    }
}

/// What a binary operator yields on two values. Every operator requires
/// numeric operands; comparisons and the boolean combinators yield the
/// number standing for their boolean result; division is truncated and
/// rejects a zero divisor.
pub open spec fn binop_value(op: BinaryOperator, lhs: ValueV, rhs: ValueV) -> Result<
    ValueV,
    VMError,
> {
    match (lhs, rhs) {
        (ValueV::Num { value: a }, ValueV::Num { value: b }) => match op {
            BinaryOperator::Plus => Ok(ValueV::Num { value: a + b }),
            BinaryOperator::Minus => Ok(ValueV::Num { value: a - b }),
            BinaryOperator::Multiply => Ok(ValueV::Num { value: a * b }),
            BinaryOperator::Divide => if b == 0 {
                Err(VMError::DivisionByZero)
            } else {
                Ok(ValueV::Num { value: div_trunc(a, b) })
            },
            BinaryOperator::Equal => Ok(bool_value_v(a == b)),
            BinaryOperator::NotEqual => Ok(bool_value_v(a != b)),
            BinaryOperator::LessThan => Ok(bool_value_v(a < b)),
            BinaryOperator::GreaterThan => Ok(bool_value_v(a > b)),
            BinaryOperator::And => Ok(bool_value_v(a != 0 && b != 0)),
            BinaryOperator::Or => Ok(bool_value_v(a != 0 || b != 0)),
            BinaryOperator::Xor => Ok(bool_value_v((a != 0) != (b != 0))),
        },
        _ => Err(VMError::VoidValue),
    }
}

/// What a unary operator yields on a value. `Minus` negates a number; `Not`
/// inverts its boolean reading, yielding the number standing for the result.
pub open spec fn unop_value(op: UnaryOperator, operand: ValueV) -> Result<ValueV, VMError> {
    match operand {
        ValueV::Num { value: a } => match op {
            UnaryOperator::Minus => Ok(ValueV::Num { value: -a }),
            UnaryOperator::Not => Ok(bool_value_v(a == 0)),
        },
        ValueV::Unit => Err(VMError::VoidValue),
    }
}

fn apply_binop(op: &BinaryOperator, lhs: Value, rhs: Value) -> (r: Result<Value, VMError>)
    ensures
        match binop_value(*op, lhs@, rhs@) {
            Ok(v) => r matches Ok(rv) && rv@ == v,
            Err(e) => r == Err::<Value, VMError>(e),
        },
{
    let a = match lhs.get_num() {
        Ok(n) => n,
        Err(e) => {
            return Err(e);
        },
    };
    let b = match rhs.get_num() {
        Ok(n) => n,
        Err(e) => {
            return Err(e);
        },
    };
    match op {
        BinaryOperator::Plus => Ok(Value::Num { value: big_add(&a, &b) }),
        BinaryOperator::Minus => Ok(Value::Num { value: big_sub(&a, &b) }),
        BinaryOperator::Multiply => Ok(Value::Num { value: big_mul(&a, &b) }),
        BinaryOperator::Divide => {
            if big_is_zero(&b) {
                Err(VMError::DivisionByZero)
            } else {
                Ok(Value::Num { value: big_div(&a, &b) })
            }
        },
        BinaryOperator::Equal => Ok(bool_to_value(big_eq(&a, &b))),
        BinaryOperator::NotEqual => Ok(bool_to_value(!big_eq(&a, &b))),
        BinaryOperator::LessThan => Ok(bool_to_value(big_lt(&a, &b))),
        BinaryOperator::GreaterThan => Ok(bool_to_value(big_lt(&b, &a))),
        BinaryOperator::And => Ok(bool_to_value(!big_is_zero(&a) && !big_is_zero(&b))),
        BinaryOperator::Or => Ok(bool_to_value(!big_is_zero(&a) || !big_is_zero(&b))),
        BinaryOperator::Xor => Ok(bool_to_value(big_is_zero(&a) != big_is_zero(&b))),
    }
}


fn apply_unop(op: &UnaryOperator, operand: Value) -> (r: Result<Value, VMError>)
    ensures
        match unop_value(*op, operand@) {
            Ok(v) => r matches Ok(rv) && rv@ == v,
            Err(e) => r == Err::<Value, VMError>(e),
        },
{
    let a = match operand.get_num() {
        Ok(n) => n,
        Err(e) => {
            return Err(e);
        },
    };
    match op {
        UnaryOperator::Minus => Ok(Value::Num { value: big_neg(&a) }),
        UnaryOperator::Not => Ok(bool_to_value(big_is_zero(&a))),
    }
}

// ------------------------------------------------------------------
// The execution trace
// ------------------------------------------------------------------

/// What one recorded step did: executed an instruction, or took an exit.
#[derive(Debug, Clone, PartialEq)]
pub enum StepFunction {
    Instruction { instr: Instruction },
    Exit { exit: BlockExit },
}

/// One entry of the trace: the index of the block being executed when the
/// step ran, and the operation the step performed.
#[derive(Debug, Clone, PartialEq)]
pub struct ExecStep {
    pub ip: usize,
    pub op: StepFunction,
}

/// The observable record of one execution: an append-only log holding one
/// step per instruction executed and one per exit taken, in execution order.
/// A step is recorded only once it has succeeded, so on an error the trace
/// ends just before the failing step.
#[derive(Debug, Clone, PartialEq)]
pub struct ExecTrace {
    pub log: Vec<ExecStep>,
}

/// View of a `StepFunction`.
pub ghost enum StepFunctionV {
    Instruction { instr: InstructionV },
    Exit { exit: BlockExitV },
}

/// View of an `ExecStep`.
#[verifier::ext_equal]
pub ghost struct ExecStepV {
    pub ip: int,
    pub op: StepFunctionV,
}

impl From<Instruction> for StepFunction {
    fn from(instr: Instruction) -> (r: Self)
        ensures
            r == (StepFunction::Instruction { instr }),
    {
        StepFunction::Instruction { instr }
    }
}

impl vstd::std_specs::convert::FromSpecImpl<Instruction> for StepFunction {
    open spec fn obeys_from_spec() -> bool {
        true
    }

    open spec fn from_spec(instr: Instruction) -> Self {
        StepFunction::Instruction { instr }
    }
}

impl From<BlockExit> for StepFunction {
    fn from(exit: BlockExit) -> (r: Self)
        ensures
            r == (StepFunction::Exit { exit }),
    {
        StepFunction::Exit { exit }
    }
}

impl vstd::std_specs::convert::FromSpecImpl<BlockExit> for StepFunction {
    open spec fn obeys_from_spec() -> bool {
        true
    }

    open spec fn from_spec(exit: BlockExit) -> Self {
        StepFunction::Exit { exit }
    }
}

impl DeepView for StepFunction {
    type V = StepFunctionV;

    open spec fn deep_view(&self) -> StepFunctionV {
        match self {
            StepFunction::Instruction { instr } => StepFunctionV::Instruction {
                instr: instr.deep_view(),
            },
            StepFunction::Exit { exit } => StepFunctionV::Exit { exit: exit.deep_view() },
        }
    }
}

impl DeepView for ExecStep {
    type V = ExecStepV;

    open spec fn deep_view(&self) -> ExecStepV {
        ExecStepV { ip: self.ip as int, op: self.op.deep_view() }
    }
}

impl DeepView for ExecTrace {
    type V = Seq<ExecStepV>;

    open spec fn deep_view(&self) -> Seq<ExecStepV> {
        self.log.deep_view()
    }
}

impl Default for ExecTrace {
    fn default() -> (r: Self)
        ensures
            r.deep_view() == Seq::<ExecStepV>::empty(),
    {
        Self::new()
    }
}

impl ExecTrace {
    /// An empty trace.
    pub fn new() -> (r: ExecTrace)
        ensures
            r.deep_view() == Seq::<ExecStepV>::empty(),
    {
        let r = ExecTrace { log: Vec::new() };
        proof {
            assert(r.deep_view() =~= Seq::<ExecStepV>::empty());
        }
        r
    }

    /// Appends `other`'s log to `self`'s, in order, leaving `other` empty.
    /// Concatenation of per-block sub-traces preserves global order.
    pub fn concat_trace(&mut self, other: &mut ExecTrace)
        ensures
            final(self).deep_view() == old(self).deep_view() + old(other).deep_view(),
            final(other).deep_view() == Seq::<ExecStepV>::empty(),
    {
        self.log.append(&mut other.log);
        proof {
            assert(self.deep_view() =~= old(self).deep_view() + old(other).deep_view());
            assert(other.deep_view() =~= Seq::<ExecStepV>::empty());
        }
    }

    fn push_step(&mut self, step: ExecStep)
        ensures
            final(self).deep_view() == old(self).deep_view().push(step.deep_view()),
    {
        self.log.push(step);
        proof {
            assert(self.deep_view() =~= old(self).deep_view().push(step.deep_view()));
        }
    }
}

// ------------------------------------------------------------------
// The machine
// ------------------------------------------------------------------

/// The virtual machine: an instruction pointer naming the block being
/// executed, the general-purpose data stack, and an address stack provisioned
/// for future call support (no current instruction touches it).
pub struct VM {
    pub ip: usize,
    pub program: Program,
    pub data: Vec<Value>,
    pub address: Vec<Value>,
}

/// Resolving one operand against a data stack: a constant converts to its
/// value, a stack slot removes and yields the value `index` slots below the
/// top (zero names the top), and a register — no register file being modeled
/// yet — yields unit.
pub open spec fn resolve_operand_v(operand: OperandV, data: Seq<ValueV>) -> Result<
    (ValueV, Seq<ValueV>),
    VMError,
> {
    match operand {
        OperandV::Constant { constant } => Ok((const_value_v(constant), data)),
        OperandV::StackValue { index } => if 0 <= index < data.len() {
            Ok((data[data.len() - 1 - index], data.remove(data.len() - 1 - index)))
        } else {
            Err(VMError::StackUnderflow)
        },
        OperandV::Register { register } => Ok((ValueV::Unit, data)),
    }
}

/// What one instruction does to the data stack, or the error aborting it.
/// A binary operation resolves its right operand before its left one.
pub open spec fn instr_step(instr: InstructionV, data: Seq<ValueV>) -> Result<
    Seq<ValueV>,
    VMError,
> {
    match instr {
        InstructionV::Nop => Ok(data),
        InstructionV::BinOp { op, lhs, rhs } => match resolve_operand_v(rhs, data) {
            Err(e) => Err(e),
            Ok((rv, d1)) => match resolve_operand_v(lhs, d1) {
                Err(e) => Err(e),
                Ok((lv, d2)) => match binop_value(op, lv, rv) {
                    Err(e) => Err(e),
                    Ok(v) => Ok(d2.push(v)),
                },
            },
        },
        InstructionV::UnaryOp { op, operand } => match resolve_operand_v(operand, data) {
            Err(e) => Err(e),
            Ok((v, d1)) => match unop_value(op, v) {
                Err(e) => Err(e),
                Ok(rv) => Ok(d1.push(rv)),
            },
        },
        InstructionV::Swap => if data.len() >= 2 {
            Ok(
                data.update(data.len() - 1, data[data.len() - 2]).update(
                    data.len() - 2,
                    data[data.len() - 1],
                ),
            )
        } else {
            Err(VMError::StackUnderflow)
        },
        InstructionV::Dup => if data.len() >= 1 {
            Ok(data.push(data.last()))
        } else {
            Err(VMError::StackUnderflow)
        },
    }
}

impl VM {
    fn pop_data(&mut self) -> (r: Result<Value, VMError>)
        ensures
            final(self).program == old(self).program,
            final(self).address == old(self).address,
            final(self).ip == old(self).ip,
            match r {
                Ok(v) => old(self).data@.len() > 0 && v == old(self).data@.last()
                    && final(self).data@ == old(self).data@.drop_last(),
                Err(e) => e == VMError::StackUnderflow && old(self).data@.len() == 0 && final(self).data@
                    == old(self).data@,
            },
    {
        if let Some(value) = self.data.pop() {
            Ok(value)
        } else {
            Err(VMError::StackUnderflow)
        }
    }

    fn push_data(&mut self, value: Value)
        ensures
            final(self).program == old(self).program,
            final(self).address == old(self).address,
            final(self).ip == old(self).ip,
            final(self).data@ == old(self).data@.push(value),
    {
        self.data.push(value);
    }

    /// The address stack is provisioned for future call support; these two
    /// operations are its whole interface.
    #[allow(dead_code)]
    fn pop_address(&mut self) -> (r: Result<Value, VMError>)
        ensures
            final(self).program == old(self).program,
            final(self).data == old(self).data,
            final(self).ip == old(self).ip,
            match r {
                Ok(v) => old(self).address@.len() > 0 && v == old(self).address@.last()
                    && final(self).address@ == old(self).address@.drop_last(),
                Err(e) => e == VMError::StackUnderflow && old(self).address@.len() == 0
                    && final(self).address@ == old(self).address@,
            },
    {
        if let Some(value) = self.address.pop() {
            Ok(value)
        } else {
            Err(VMError::StackUnderflow)
        }
    }

    #[allow(dead_code)]
    fn push_address(&mut self, value: Value)
        ensures
            final(self).program == old(self).program,
            final(self).data == old(self).data,
            final(self).ip == old(self).ip,
            final(self).address@ == old(self).address@.push(value),
    {
        self.address.push(value);
    }

    fn resolve_operand(&mut self, operand: &Operand) -> (r: Result<Value, VMError>)
        ensures
            final(self).program == old(self).program,
            final(self).address == old(self).address,
            final(self).ip == old(self).ip,
            match resolve_operand_v(operand.deep_view(), old(self).data.deep_view()) {
                Ok((v, d)) => r matches Ok(rv) && rv@ == v && final(self).data.deep_view() == d,
                Err(e) => r == Err::<Value, VMError>(e) && final(self).data.deep_view() == old(
                    self,
                ).data.deep_view(),
            },
    {
        match operand {
            Operand::Constant(c) => Ok(Value::from_constant(c)),
            Operand::StackValue(index) => {
                if *index < self.data.len() {
                    let pos = self.data.len() - 1 - *index;
                    let v = self.data.remove(pos);
                    proof {
                        assert(self.data.deep_view() =~= old(self).data.deep_view().remove(
                            pos as int,
                        ));
                    }
                    Ok(v)
                } else {
                    Err(VMError::StackUnderflow)
                }
            },
            Operand::Register(_) => Ok(Value::Unit),
        }
    }

    fn execute_nop(&mut self)
        ensures
            *final(self) == *old(self),
    {
    }

    fn execute_swap(&mut self) -> (r: Result<(), VMError>)
        ensures
            final(self).program == old(self).program,
            final(self).address == old(self).address,
            final(self).ip == old(self).ip,
            match instr_step(InstructionV::Swap, old(self).data.deep_view()) {
                Ok(d2) => r is Ok && final(self).data.deep_view() == d2,
                Err(e) => r == Err::<(), VMError>(e),
            },
    {
        let a = match self.pop_data() {
            Ok(v) => v,
            Err(e) => {
                return Err(e);
            },
        };
        let b = match self.pop_data() {
            Ok(v) => v,
            Err(e) => {
                return Err(e);
            },
        };
        self.push_data(a);
        self.push_data(b);
        proof {
            assert(self.data.deep_view() =~= instr_step(
                InstructionV::Swap,
                old(self).data.deep_view(),
            )->Ok_0);
        }
        Ok(())
    }

    fn execute_dup(&mut self) -> (r: Result<(), VMError>)
        ensures
            final(self).program == old(self).program,
            final(self).address == old(self).address,
            final(self).ip == old(self).ip,
            match instr_step(InstructionV::Dup, old(self).data.deep_view()) {
                Ok(d2) => r is Ok && final(self).data.deep_view() == d2,
                Err(e) => r == Err::<(), VMError>(e),
            },
    {
        let value = match self.pop_data() {
            Ok(v) => v,
            Err(e) => {
                return Err(e);
            },
        };
        self.push_data(value.clone());
        self.push_data(value);
        proof {
            assert(self.data.deep_view() =~= instr_step(
                InstructionV::Dup,
                old(self).data.deep_view(),
            )->Ok_0);
        }
        Ok(())
    }

    fn execute_binop(&mut self, op: &BinaryOperator, lhs: &Operand, rhs: &Operand) -> (r: Result<
        Value,
        VMError,
    >)
        ensures
            final(self).program == old(self).program,
            final(self).address == old(self).address,
            final(self).ip == old(self).ip,
            match instr_step(
                InstructionV::BinOp { op: *op, lhs: lhs.deep_view(), rhs: rhs.deep_view() },
                old(self).data.deep_view(),
            ) {
                Ok(d2) => r matches Ok(v) && final(self).data.deep_view().push(v@) == d2,
                Err(e) => r == Err::<Value, VMError>(e),
            },
    {
        let rv = match self.resolve_operand(rhs) {
            Ok(v) => v,
            Err(e) => {
                return Err(e);
            },
        };
        let lv = match self.resolve_operand(lhs) {
            Ok(v) => v,
            Err(e) => {
                return Err(e);
            },
        };
        apply_binop(op, lv, rv)
    }

    fn execute_unop(&mut self, op: &UnaryOperator, operand: &Operand) -> (r: Result<Value, VMError>)
        ensures
            final(self).program == old(self).program,
            final(self).address == old(self).address,
            final(self).ip == old(self).ip,
            match instr_step(
                InstructionV::UnaryOp { op: *op, operand: operand.deep_view() },
                old(self).data.deep_view(),
            ) {
                Ok(d2) => r matches Ok(v) && final(self).data.deep_view().push(v@) == d2,
                Err(e) => r == Err::<Value, VMError>(e),
            },
    {
        let v = match self.resolve_operand(operand) {
            Ok(v) => v,
            Err(e) => {
                return Err(e);
            },
        };
        apply_unop(op, v)
    }

    fn execute_instruction(&mut self, instr: &Instruction) -> (r: Result<ExecStep, VMError>)
        ensures
            final(self).program == old(self).program,
            final(self).address == old(self).address,
            final(self).ip == old(self).ip,
            match instr_step(instr.deep_view(), old(self).data.deep_view()) {
                Ok(d2) => r matches Ok(step) && final(self).data.deep_view() == d2 && step.deep_view()
                    == (ExecStepV {
                    ip: old(self).ip as int,
                    op: StepFunctionV::Instruction { instr: instr.deep_view() },
                }),
                Err(e) => r == Err::<ExecStep, VMError>(e),
            },
    {
        match instr {
            Instruction::Nop => {
                self.execute_nop();
            },
            Instruction::BinOp { op, lhs, rhs } => {
                let result = match self.execute_binop(op, lhs, rhs) {
                    Ok(v) => v,
                    Err(e) => {
                        return Err(e);
                    },
                };
                self.push_data(result);
                proof {
                    assert(self.data.deep_view() =~= instr_step(
                        instr.deep_view(),
                        old(self).data.deep_view(),
                    )->Ok_0);
                }
            },
            Instruction::UnaryOp { op, operand } => {
                let result = match self.execute_unop(op, operand) {
                    Ok(v) => v,
                    Err(e) => {
                        return Err(e);
                    },
                };
                self.push_data(result);
                proof {
                    assert(self.data.deep_view() =~= instr_step(
                        instr.deep_view(),
                        old(self).data.deep_view(),
                    )->Ok_0);
                }
            },
            Instruction::Swap => {
                match self.execute_swap() {
                    Ok(_) => {},
                    Err(e) => {
                        return Err(e);
                    },
                }
            },
            Instruction::Dup => {
                match self.execute_dup() {
                    Ok(_) => {},
                    Err(e) => {
                        return Err(e);
                    },
                }
            },
        }
        Ok(ExecStep { ip: self.ip, op: StepFunction::Instruction { instr: instr.clone() } })
    }
}


// ------------------------------------------------------------------
// Control transfer
// ------------------------------------------------------------------

/// What taking an exit leads to: a transfer to another block, a normal halt
/// with the program's result, or a failure.
pub ghost enum ExitOutcomeV {
    Goto { target: int, data: Seq<ValueV> },
    Halt { value: ValueV, data: Seq<ValueV> },
    Failed { error: VMError },
}

/// Resolving a jump's argument operands from position `i` on, left to right,
/// each against the stack the previous resolutions left: the resolved values
/// in order, and what remains of the stack.
pub open spec fn resolve_args_from_v(args: Seq<OperandV>, i: int, data: Seq<ValueV>) -> Result<
    (Seq<ValueV>, Seq<ValueV>),
    VMError,
>
    decreases args.len() - i,
{
    if i < 0 || i >= args.len() {
        Ok((Seq::empty(), data))
    } else {
        match resolve_operand_v(args[i], data) {
            Err(e) => Err(e),
            Ok((v, d1)) => match resolve_args_from_v(args, i + 1, d1) {
                Err(e) => Err(e),
                Ok((vs, d2)) => Ok((seq![v] + vs, d2)),
            },
        }
    }
}

/// Taking a jump: the target must be a block of the program and the argument
/// count must equal its declared parameter count (both re-checked at runtime,
/// defending even against an unvalidated program); the resolved argument
/// values are pushed in order, the first argument deepest.
pub open spec fn jump_to_v(program: Seq<BlockV>, arg: JumpArgV, data: Seq<ValueV>) -> ExitOutcomeV {
    if !(0 <= arg.target < program.len()) {
        ExitOutcomeV::Failed { error: VMError::InvalidJumpTarget }
    } else if arg.args.len() != program[arg.target].params {
        ExitOutcomeV::Failed { error: VMError::JumpArityMismatch }
    } else {
        match resolve_args_from_v(arg.args, 0, data) {
            Err(e) => ExitOutcomeV::Failed { error: e },
            Ok((vs, d)) => ExitOutcomeV::Goto { target: arg.target, data: d + vs },
        }
    }
}

/// What taking an exit does, on a given data stack.
pub open spec fn exit_step(program: Seq<BlockV>, exit: BlockExitV, data: Seq<ValueV>) -> ExitOutcomeV {
    match exit {
        BlockExitV::Jump { arg } => jump_to_v(program, arg, data),
        BlockExitV::ConditionalJump { condition, arg_then, arg_else } => {
            match resolve_operand_v(condition, data) {
                Err(e) => ExitOutcomeV::Failed { error: e },
                Ok((v, d1)) => match v {
                    ValueV::Unit => ExitOutcomeV::Failed { error: VMError::VoidValue },
                    ValueV::Num { value } => jump_to_v(
                        program,
                        if value != 0 {
                            arg_then
                        } else {
                            arg_else
                        },
                        d1,
                    ),
                },
            }
        },
        BlockExitV::Return { value } => match resolve_operand_v(value, data) {
            Err(e) => ExitOutcomeV::Failed { error: e },
            Ok((v, d1)) => ExitOutcomeV::Halt { value: v, data: d1 },
        },
        BlockExitV::Unreachable => ExitOutcomeV::Failed { error: VMError::UnreachableExecuted },
    }
}

impl VM {
    #[verifier::loop_isolation(false)]
    fn jump_to(&mut self, arg: &JumpArg) -> (r: Result<(), VMError>)
        ensures
            final(self).program == old(self).program,
            final(self).address == old(self).address,
            match jump_to_v(old(self).program.deep_view(), arg.deep_view(), old(self).data.deep_view()) {
                ExitOutcomeV::Goto { target, data } => r is Ok && final(self).ip == target
                    && final(self).data.deep_view() == data,
                ExitOutcomeV::Failed { error } => r == Err::<(), VMError>(error),
                ExitOutcomeV::Halt { .. } => false,
            },
    {
        let ghost pv = self.program.deep_view();
        let ghost data0 = self.data.deep_view();
        let ghost argsv = arg.deep_view().args;
        if arg.target >= self.program.blocks.len() {
            return Err(VMError::InvalidJumpTarget);
        }
        proof {
            assert(pv[arg.target as int] == self.program.blocks[arg.target as int].deep_view());
        }
        if arg.args.len() != self.program.blocks[arg.target].params {
            return Err(VMError::JumpArityMismatch);
        }
        let mut resolved: Vec<Value> = Vec::new();
        let mut i: usize = 0;
        proof {
            assert(resolved.deep_view() =~= Seq::<ValueV>::empty());
        }
        while i < arg.args.len()
            invariant
                0 <= i <= arg.args.len(),
                self.program == old(self).program,
                self.address == old(self).address,
                argsv == arg.args.deep_view(),
                match resolve_args_from_v(argsv, i as int, self.data.deep_view()) {
                    Ok((vs, d)) => resolve_args_from_v(argsv, 0, data0) matches Ok((vs0, d0))
                        && vs0 == resolved.deep_view() + vs && d0 == d,
                    Err(e) => resolve_args_from_v(argsv, 0, data0) == Err::<
                        (Seq<ValueV>, Seq<ValueV>),
                        VMError,
                    >(e),
                },
            decreases arg.args.len() - i,
        {
            proof {
                assert(argsv[i as int] == arg.args[i as int].deep_view());
            }
            let ghost data_before = self.data.deep_view();
            let ghost resolved_before = resolved.deep_view();
            match self.resolve_operand(&arg.args[i]) {
                Err(e) => {
                    return Err(e);
                },
                Ok(v) => {
                    resolved.push(v);
                    proof {
                        assert(resolved.deep_view() =~= resolved_before.push(v@));
                        let (v_s, d1_s) = resolve_operand_v(argsv[i as int], data_before)->Ok_0;
                        if let Ok((vs, d)) = resolve_args_from_v(argsv, i as int + 1, d1_s) {
                            assert(resolved_before + (seq![v_s] + vs) =~= resolved_before.push(v_s)
                                + vs);
                        }
                    }
                },
            }
            i += 1;
        }
        // push the resolved values in order
        let ghost vs_final = resolved.deep_view();
        let ghost data_after_args = self.data.deep_view();
        let mut j: usize = 0;
        while j < resolved.len()
            invariant
                0 <= j <= resolved.len(),
                self.program == old(self).program,
                self.address == old(self).address,
                vs_final == resolved.deep_view(),
                self.data.deep_view() == data_after_args + vs_final.take(j as int),
            decreases resolved.len() - j,
        {
            let ghost data_before = self.data.deep_view();
            let v = resolved[j].clone();
            proof {
                assert(vs_final[j as int] == resolved@[j as int].deep_view());
            }
            self.push_data(v);
            proof {
                assert(self.data.deep_view() =~= data_before.push(vs_final[j as int]));
                assert(data_before.push(vs_final[j as int]) =~= data_after_args + vs_final.take(
                    j as int + 1,
                ));
            }
            j += 1;
        }
        proof {
            assert(vs_final.take(resolved.len() as int) =~= vs_final);
        }
        self.ip = arg.target;
        Ok(())
    }

    fn execute_blockexit(&mut self, exit: &BlockExit) -> (r: Result<(ExecStep, Option<Value>), VMError>)
        ensures
            final(self).program == old(self).program,
            final(self).address == old(self).address,
            match exit_step(old(self).program.deep_view(), exit.deep_view(), old(self).data.deep_view()) {
                ExitOutcomeV::Goto { target, data } => r matches Ok((step, opt)) && opt is None
                    && final(self).ip == target && final(self).data.deep_view() == data
                    && step.deep_view() == (ExecStepV {
                    ip: old(self).ip as int,
                    op: StepFunctionV::Exit { exit: exit.deep_view() },
                }),
                ExitOutcomeV::Halt { value, data } => r matches Ok((step, opt)) && opt matches Some(
                    v,
                ) && v@ == value && final(self).ip == old(self).ip && final(self).data.deep_view()
                    == data && step.deep_view() == (ExecStepV {
                    ip: old(self).ip as int,
                    op: StepFunctionV::Exit { exit: exit.deep_view() },
                }),
                ExitOutcomeV::Failed { error } => r == Err::<(ExecStep, Option<Value>), VMError>(
                    error,
                ),
            },
    {
        let step_ip = self.ip;
        match exit {
            BlockExit::Jump { arg } => {
                match self.jump_to(arg) {
                    Err(e) => Err(e),
                    Ok(_) => Ok(
                        (
                            ExecStep { ip: step_ip, op: StepFunction::Exit { exit: exit.clone() } },
                            None,
                        ),
                    ),
                }
            },
            BlockExit::ConditionalJump { condition, arg_then, arg_else } => {
                let cond = match self.resolve_operand(condition) {
                    Err(e) => {
                        return Err(e);
                    },
                    Ok(v) => v,
                };
                let taken = match cond.is_true() {
                    Err(e) => {
                        return Err(e);
                    },
                    Ok(b) => b,
                };
                let result = if taken {
                    self.jump_to(arg_then)
                } else {
                    self.jump_to(arg_else)
                };
                match result {
                    Err(e) => Err(e),
                    Ok(_) => Ok(
                        (
                            ExecStep { ip: step_ip, op: StepFunction::Exit { exit: exit.clone() } },
                            None,
                        ),
                    ),
                }
            },
            BlockExit::Return { value } => {
                let v = match self.resolve_operand(value) {
                    Err(e) => {
                        return Err(e);
                    },
                    Ok(v) => v,
                };
                Ok(
                    (
                        ExecStep { ip: step_ip, op: StepFunction::Exit { exit: exit.clone() } },
                        Some(v),
                    ),
                )
            },
            BlockExit::Unreachable => Err(VMError::UnreachableExecuted),
        }
    }
}

// ------------------------------------------------------------------
// Whole-program execution
// ------------------------------------------------------------------

/// Ghost configuration of a running machine: the block being executed, the
/// position within it (its instruction count means "at the exit"), and the
/// data stack.
#[verifier::ext_equal]
pub ghost struct ConfigV {
    pub ip: int,
    pub pos: int,
    pub data: Seq<ValueV>,
}

/// What one step of the machine does: records a step and continues, records
/// a step and halts with the program's result and the final stack, or fails.
pub ghost enum StepResultV {
    Next { step: ExecStepV, next: ConfigV },
    Halt { step: ExecStepV, value: ValueV, data: Seq<ValueV> },
    Failed { error: VMError },
}

/// One step of the machine: the next instruction of the current block if any
/// remain, its exit otherwise.
pub open spec fn step_config(program: Seq<BlockV>, c: ConfigV) -> StepResultV {
    if !(0 <= c.ip < program.len()) {
        StepResultV::Failed { error: VMError::InvalidJumpTarget }
    } else {
        let block = program[c.ip];
        if 0 <= c.pos < block.instructions.len() {
            match instr_step(block.instructions[c.pos], c.data) {
                Err(e) => StepResultV::Failed { error: e },
                Ok(d2) => StepResultV::Next {
                    step: ExecStepV {
                        ip: c.ip,
                        op: StepFunctionV::Instruction { instr: block.instructions[c.pos] },
                    },
                    next: ConfigV { ip: c.ip, pos: c.pos + 1, data: d2 },
                },
            }
        } else {
            let sv = ExecStepV { ip: c.ip, op: StepFunctionV::Exit { exit: block.exit } };
            match exit_step(program, block.exit, c.data) {
                ExitOutcomeV::Failed { error } => StepResultV::Failed { error },
                ExitOutcomeV::Halt { value, data } => StepResultV::Halt { step: sv, value, data },
                ExitOutcomeV::Goto { target, data } => StepResultV::Next {
                    step: sv,
                    next: ConfigV { ip: target, pos: 0, data },
                },
            }
        }
    }
}

/// Running the machine from a configuration with a step budget: the trace of
/// the steps taken, in order, and the result. Each recorded step spends one
/// unit of budget; an exhausted budget fails with `StepLimitExceeded`, so a
/// program that never returns is cut off rather than run forever. On success
/// the result carries the returned value and the final data stack.
pub open spec fn run_from(program: Seq<BlockV>, c: ConfigV, fuel: nat) -> (Seq<ExecStepV>, Result<
    (ValueV, Seq<ValueV>),
    VMError,
>)
    decreases fuel,
{
    if fuel == 0 {
        (Seq::empty(), Err(VMError::StepLimitExceeded))
    } else {
        match step_config(program, c) {
            StepResultV::Failed { error } => (Seq::empty(), Err(error)),
            StepResultV::Halt { step, value, data } => (seq![step], Ok((value, data))),
            StepResultV::Next { step, next } => {
                let (tr, r) = run_from(program, next, (fuel - 1) as nat);
                (seq![step] + tr, r)
            },
        }
    }
}

/// The whole observable outcome of `VM::execute`: an invalid program is
/// rejected with an empty trace; a valid one runs from block 0 against the
/// machine's initial data stack.
pub open spec fn execute_v(program: Seq<BlockV>, data: Seq<ValueV>, budget: nat) -> (Seq<
    ExecStepV,
>, Result<(ValueV, Seq<ValueV>), VMError>) {
    match validate_v(program) {
        Err(e) => (Seq::empty(), Err(VMError::InvalidProgram { error: e })),
        Ok(_) => run_from(program, ConfigV { ip: 0, pos: 0, data }, budget),
    }
}

impl VM {
    /// Runs the program: validates it, then executes from block 0, recording
    /// one step per instruction executed and one per exit taken, until a
    /// `Return` yields the result, an error aborts the run, or the caller's
    /// step budget runs out. The trace accumulated so far is returned in
    /// every case; the trace and the result are exactly `execute_v` of the
    /// program, the initial data stack and the budget — a function of those
    /// three alone.
    #[verifier::loop_isolation(false)]
    pub fn execute(&mut self, step_budget: usize) -> (r: (ExecTrace, Result<Value, VMError>))
        ensures
            final(self).program == old(self).program,
            final(self).address == old(self).address,
            ({
                let (tr, res) = execute_v(
                    old(self).program.deep_view(),
                    old(self).data.deep_view(),
                    step_budget as nat,
                );
                &&& r.0.deep_view() == tr
                &&& match r.1 {
                    Ok(v) => res matches Ok((rv, rd)) && v@ == rv
                        && final(self).data.deep_view() == rd,
                    Err(e) => res == Err::<(ValueV, Seq<ValueV>), VMError>(e),
                }
            }),
    {
        let ghost pv = self.program.deep_view();
        let ghost data0 = self.data.deep_view();
        let mut trace = ExecTrace::new();
        match validate(&self.program) {
            Err(e) => {
                return (trace, Err(VMError::InvalidProgram { error: e }));
            },
            Ok(_) => {},
        }
        self.ip = 0;
        let mut pos: usize = 0;
        let mut fuel: usize = step_budget;
        let ghost c0 = ConfigV { ip: 0, pos: 0, data: data0 };
        loop
            invariant
                self.program == old(self).program,
                self.address == old(self).address,
                ({
                    let cur = ConfigV {
                        ip: self.ip as int,
                        pos: pos as int,
                        data: self.data.deep_view(),
                    };
                    let (tr, rr) = run_from(pv, cur, fuel as nat);
                    &&& run_from(pv, c0, step_budget as nat).0 == trace.deep_view() + tr
                    &&& run_from(pv, c0, step_budget as nat).1 == rr
                }),
            decreases fuel,
        {
            let ghost cur = ConfigV {
                ip: self.ip as int,
                pos: pos as int,
                data: self.data.deep_view(),
            };
            if fuel == 0 {
                proof {
                    assert(trace.deep_view() + Seq::<ExecStepV>::empty() =~= trace.deep_view());
                }
                return (trace, Err(VMError::StepLimitExceeded));
            }
            if self.ip >= self.program.blocks.len() {
                proof {
                    assert(trace.deep_view() + Seq::<ExecStepV>::empty() =~= trace.deep_view());
                }
                return (trace, Err(VMError::InvalidJumpTarget));
            }
            proof {
                assert(pv[self.ip as int] == self.program.blocks[self.ip as int].deep_view());
            }
            let instr_count = self.program.blocks[self.ip].instructions.len();
            if pos < instr_count {
                let instr = self.program.blocks[self.ip].instructions[pos].clone();
                proof {
                    assert(pv[cur.ip].instructions[cur.pos] == self.program.blocks[
                        self.ip as int
                    ].instructions.deep_view()[cur.pos]);
                    assert(self.program.blocks[self.ip as int].instructions.deep_view()[cur.pos]
                        == self.program.blocks[self.ip as int].instructions@[cur.pos].deep_view());
                }
                let ghost trace_before = trace.deep_view();
                match self.execute_instruction(&instr) {
                    Err(e) => {
                        proof {
                            assert(step_config(pv, cur) == (StepResultV::Failed { error: e }));
                            assert(trace_before + Seq::<ExecStepV>::empty() =~= trace_before);
                        }
                        return (trace, Err(e));
                    },
                    Ok(step) => {
                        trace.push_step(step);
                        pos = pos + 1;
                        fuel = fuel - 1;
                        proof {
                            let next = ConfigV {
                                ip: self.ip as int,
                                pos: pos as int,
                                data: self.data.deep_view(),
                            };
                            assert(step_config(pv, cur) == (StepResultV::Next {
                                step: step.deep_view(),
                                next,
                            }));
                            let (tr2, rr2) = run_from(pv, next, fuel as nat);
                            assert(run_from(pv, cur, (fuel + 1) as nat).0 =~= seq![
                                step.deep_view(),
                            ] + tr2);
                            assert(trace_before + (seq![step.deep_view()] + tr2)
                                =~= trace_before.push(step.deep_view()) + tr2);
                        }
                    },
                }
            } else {
                let exit = self.program.blocks[self.ip].exit.clone();
                proof {
                    assert(exit.deep_view() == pv[cur.ip].exit);
                }
                let ghost trace_before = trace.deep_view();
                match self.execute_blockexit(&exit) {
                    Err(e) => {
                        proof {
                            assert(step_config(pv, cur) == (StepResultV::Failed { error: e }));
                            assert(trace_before + Seq::<ExecStepV>::empty() =~= trace_before);
                        }
                        return (trace, Err(e));
                    },
                    Ok((step, outcome)) => {
                        trace.push_step(step);
                        match outcome {
                            Some(value) => {
                                proof {
                                    assert(step_config(pv, cur) == (StepResultV::Halt {
                                        step: step.deep_view(),
                                        value: value@,
                                        data: self.data.deep_view(),
                                    }));
                                    assert(trace_before + seq![step.deep_view()]
                                        =~= trace_before.push(step.deep_view()));
                                }
                                return (trace, Ok(value));
                            },
                            None => {
                                pos = 0;
                                fuel = fuel - 1;
                                proof {
                                    let next = ConfigV {
                                        ip: self.ip as int,
                                        pos: 0,
                                        data: self.data.deep_view(),
                                    };
                                    assert(step_config(pv, cur) == (StepResultV::Next {
                                        step: step.deep_view(),
                                        next,
                                    }));
                                    let (tr2, rr2) = run_from(pv, next, fuel as nat);
                                    assert(run_from(pv, cur, (fuel + 1) as nat).0 =~= seq![
                                        step.deep_view(),
                                    ] + tr2);
                                    assert(trace_before + (seq![step.deep_view()] + tr2)
                                        =~= trace_before.push(step.deep_view()) + tr2);
                                }
                            },
                        }
                    },
                }
            }
        }
    }
}

// ------------------------------------------------------------------
// Laws of execution
// ------------------------------------------------------------------

/// Determinism: the trace and the result of an execution are a function of
/// the program, the initial data stack and the step budget alone, so two
/// independent runs of the same program from the same state yield identical
/// traces and identical results. `VM::execute` ensures its outcome equals
/// `execute_v` of those three inputs, which this lemma ties together.
pub proof fn lemma_execute_deterministic(
    program: Seq<BlockV>,
    data: Seq<ValueV>,
    budget: nat,
    first: (Seq<ExecStepV>, Result<(ValueV, Seq<ValueV>), VMError>),
    second: (Seq<ExecStepV>, Result<(ValueV, Seq<ValueV>), VMError>),
)
    requires
        first == execute_v(program, data, budget),
        second == execute_v(program, data, budget),
    ensures
        first == second,
{
}

/// Stack slots an operand consumes when it resolves: one per stack slot
/// named, none for a constant or a register.
pub open spec fn operand_pops(operand: OperandV) -> int {
    match operand {
        OperandV::StackValue { index } => 1,
        _ => 0,
    }
}

/// Values an instruction consumes from the data stack.
pub open spec fn instr_consumes(instr: InstructionV) -> int {
    match instr {
        InstructionV::Nop => 0,
        InstructionV::BinOp { op, lhs, rhs } => operand_pops(lhs) + operand_pops(rhs),
        InstructionV::UnaryOp { op, operand } => operand_pops(operand),
        InstructionV::Swap => 2,
        InstructionV::Dup => 1,
    }
}

/// Values an instruction produces onto the data stack.
pub open spec fn instr_produces(instr: InstructionV) -> int {
    match instr {
        InstructionV::Nop => 0,
        InstructionV::BinOp { .. } => 1,
        InstructionV::UnaryOp { .. } => 1,
        InstructionV::Swap => 2,
        InstructionV::Dup => 2,
    }
}

/// Stack discipline: whenever an instruction executes successfully, the net
/// change of the data stack's depth equals exactly the values it produces
/// minus the values it consumes; the only other possibility is an error.
pub proof fn lemma_instruction_stack_discipline(instr: InstructionV, data: Seq<ValueV>)
    ensures
        match instr_step(instr, data) {
            Ok(d2) => d2.len() == data.len() - instr_consumes(instr) + instr_produces(instr),
            Err(_) => true,
        },
{
    match instr {
        InstructionV::BinOp { op, lhs, rhs } => {
            if let Ok((rv, d1)) = resolve_operand_v(rhs, data) {
                if let Ok((lv, d2)) = resolve_operand_v(lhs, d1) {
                    assert(d1.len() == data.len() - operand_pops(rhs));
                    assert(d2.len() == d1.len() - operand_pops(lhs));
                }
            }
        },
        InstructionV::UnaryOp { op, operand } => {
            if let Ok((v, d1)) = resolve_operand_v(operand, data) {
                assert(d1.len() == data.len() - operand_pops(operand));
            }
        },
        _ => {},
    }
}

/// The failures an instruction itself can raise are dynamic ones: an
/// underflow, a unit misused, or a zero divisor.
proof fn lemma_instr_step_errors(instr: InstructionV, data: Seq<ValueV>)
    ensures
        match instr_step(instr, data) {
            Err(e) => e == VMError::StackUnderflow || e == VMError::VoidValue || e
                == VMError::DivisionByZero,
            Ok(_) => true,
        },
{
    match instr {
        InstructionV::BinOp { op, lhs, rhs } => {
            if let Ok((rv, d1)) = resolve_operand_v(rhs, data) {
                if let Ok((lv, d2)) = resolve_operand_v(lhs, d1) {
                }
            }
        },
        InstructionV::UnaryOp { op, operand } => {
            if let Ok((v, d1)) = resolve_operand_v(operand, data) {
            }
        },
        _ => {},
    }
}

/// Resolving jump arguments can fail only with an underflow.
proof fn lemma_resolve_args_errors(args: Seq<OperandV>, i: int, data: Seq<ValueV>)
    ensures
        match resolve_args_from_v(args, i, data) {
            Err(e) => e == VMError::StackUnderflow,
            Ok(_) => true,
        },
    decreases args.len() - i,
{
    if 0 <= i < args.len() {
        if let Ok((v, d1)) = resolve_operand_v(args[i], data) {
            lemma_resolve_args_errors(args, i + 1, d1);
        }
    }
}

/// An exit that validation checked cannot fail its runtime target or arity
/// re-check, whatever stack it runs on; and any transfer it makes stays
/// inside the program.
proof fn lemma_exit_step_errors(
    program: Seq<BlockV>,
    exit: BlockExitV,
    checked_depth: int,
    data: Seq<ValueV>,
)
    requires
        crate::ir::exit_check_v(program, exit, checked_depth) is Ok,
    ensures
        match exit_step(program, exit, data) {
            ExitOutcomeV::Failed { error } => error != VMError::InvalidJumpTarget && error
                != VMError::JumpArityMismatch,
            ExitOutcomeV::Goto { target, data } => 0 <= target < program.len(),
            ExitOutcomeV::Halt { .. } => true,
        },
{
    match exit {
        BlockExitV::Jump { arg } => {
            lemma_resolve_args_errors(arg.args, 0, data);
        },
        BlockExitV::ConditionalJump { condition, arg_then, arg_else } => {
            if let Ok((v, d1)) = resolve_operand_v(condition, data) {
                lemma_resolve_args_errors(arg_then.args, 0, d1);
                lemma_resolve_args_errors(arg_else.args, 0, d1);
            }
        },
        _ => {},
    }
}

proof fn lemma_run_from_no_jump_errors(program: Seq<BlockV>, c: ConfigV, fuel: nat)
    requires
        validate_v(program) is Ok,
        0 <= c.ip < program.len(),
    ensures
        ({
            let (tr, r) = run_from(program, c, fuel);
            &&& r != Err::<(ValueV, Seq<ValueV>), VMError>(VMError::InvalidJumpTarget)
            &&& r != Err::<(ValueV, Seq<ValueV>), VMError>(VMError::JumpArityMismatch)
        }),
    decreases fuel,
{
    if fuel > 0 {
        crate::ir::lemma_blocks_check_ok(program, 0, c.ip);
        let block = program[c.ip];
        if 0 <= c.pos < block.instructions.len() {
            lemma_instr_step_errors(block.instructions[c.pos], c.data);
        } else {
            let checked_depth = crate::ir::instrs_check_v(
                block.instructions,
                0,
                block.params,
            )->Ok_0;
            lemma_exit_step_errors(program, block.exit, checked_depth, c.data);
        }
        match step_config(program, c) {
            StepResultV::Next { step, next } => {
                lemma_run_from_no_jump_errors(program, next, (fuel - 1) as nat);
            },
            _ => {},
        }
    }
}

/// Validation is the load-bearing gate: the runtime target and arity checks,
/// kept as a defense against unvalidated programs, never fire during the
/// execution of a program validation accepted. Such a run can fail only for
/// dynamic reasons — an underflow, a unit misused, a zero divisor, an
/// `Unreachable` exit, or an exhausted step budget.
pub proof fn lemma_validated_execution_never_hits_jump_errors(
    program: Seq<BlockV>,
    data: Seq<ValueV>,
    budget: nat,
)
    requires
        validate_v(program) is Ok,
    ensures
        ({
            let (tr, r) = execute_v(program, data, budget);
            &&& r != Err::<(ValueV, Seq<ValueV>), VMError>(VMError::InvalidJumpTarget)
            &&& r != Err::<(ValueV, Seq<ValueV>), VMError>(VMError::JumpArityMismatch)
        }),
{
    lemma_run_from_no_jump_errors(program, ConfigV { ip: 0, pos: 0, data }, budget);
}

} // verus!
