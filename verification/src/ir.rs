//! The intermediate representation: instructions, operands, basic blocks,
//! block exits with explicit jump arguments, and whole programs.
//!
//! A program is an ordered collection of blocks; block indices are stable
//! addresses. Control only leaves a block through its single exit, and values
//! cross block boundaries explicitly, as the argument list of a jump.
//!
//! `validate` is the static correctness gate: it checks every jump target,
//! every jump's argument count against its target's declared parameter count,
//! and — conservatively — every stack-slot operand against the depth the data
//! stack is guaranteed to have at that point.

use vstd::prelude::*;

use crate::ast::{BinaryOperator, UnaryOperator};
use crate::bigint::{big_clone, big_value};

verus! {

/// A compile-time-known value embedded in the representation. It converts
/// one-to-one into a runtime value when an instruction reads it.
#[derive(Debug, PartialEq)]
pub enum Constant {
    Unit,
    Num { value: num_bigint::BigInt },
}

/// A read-only value source consumed by an instruction or an exit: an
/// embedded constant, a stack slot (`StackValue(0)` is the top of the data
/// stack), or a named machine register.
#[derive(Debug, PartialEq)]
pub enum Operand {
    Constant(Constant),
    StackValue(usize),
    Register(Register),
}

/// A named machine register. No register file is modeled yet: reading any
/// register yields the unit value.
#[derive(Debug, Clone, Copy, PartialEq, Eq, Hash)]
pub enum Register {
    Zero,
    Ra,
    Sp,
    Gp,
    Tp,
    Temp(RegisterType, usize),
    Saved(RegisterType, usize),
    Arg(RegisterType, usize),
}

/// The class of a numbered register.
#[derive(Debug, Clone, Copy, PartialEq, Eq, Hash)]
pub enum RegisterType {
    Integer,
}

/// One computation step within a block. Instructions touch nothing but the
/// data stack: a binary or unary operation resolves its operands (popping a
/// stack slot per `StackValue` operand, right before left) and pushes exactly
/// one result; `Swap` and `Dup` rearrange the top of the stack; `Nop` does
/// nothing.
#[derive(Debug, PartialEq)]
pub enum Instruction {
    Nop,
    BinOp { op: BinaryOperator, lhs: Operand, rhs: Operand },
    UnaryOp { op: UnaryOperator, operand: Operand },
    Swap,
    Dup,
}

/// The static target of a control transfer together with the ordered operand
/// list passed to it. The resolved argument values are pushed onto the data
/// stack in order (the first argument deepest) for the target block to
/// consume as its parameters.
#[derive(Debug, PartialEq)]
pub struct JumpArg {
    pub target: usize,
    pub args: Vec<Operand>,
}

/// The single control transfer that terminates a block.
#[derive(Debug, PartialEq)]
pub enum BlockExit {
    /// Unconditional transfer.
    Jump { arg: JumpArg },
    /// Evaluates `condition` as a boolean (a number is true exactly when it
    /// is nonzero; unit is an error) and transfers via `arg_then` or
    /// `arg_else`.
    ConditionalJump { condition: Operand, arg_then: JumpArg, arg_else: JumpArg },
    /// Terminates execution with `value` as the program's result.
    Return { value: Operand },
    /// Asserts control can never reach this exit; executing it is a fatal
    /// error, signalling a defect in the producer of the program.
    Unreachable,
}

/// An ordered sequence of instructions terminated by exactly one exit.
/// `params` is the number of values the block expects on top of the data
/// stack on entry, pushed there by the transfer that enters it.
#[derive(Debug, PartialEq)]
pub struct Block {
    pub params: usize,
    pub instructions: Vec<Instruction>,
    pub exit: BlockExit,
}

/// An ordered collection of blocks. Execution enters at block 0, which
/// therefore must declare no parameters.
#[derive(Debug, PartialEq)]
pub struct Program {
    pub blocks: Vec<Block>,
}

// ------------------------------------------------------------------
// Mathematical views
// ------------------------------------------------------------------

/// View of a `Constant`: unit or an unbounded integer.
pub ghost enum ConstantV {
    Unit,
    Num { value: int },
}

/// View of an `Operand`.
pub ghost enum OperandV {
    Constant { constant: ConstantV },
    StackValue { index: int },
    Register { register: Register },
}

/// View of an `Instruction`.
pub ghost enum InstructionV {
    Nop,
    BinOp { op: BinaryOperator, lhs: OperandV, rhs: OperandV },
    UnaryOp { op: UnaryOperator, operand: OperandV },
    Swap,
    Dup,
}

/// View of a `JumpArg`.
#[verifier::ext_equal]
pub ghost struct JumpArgV {
    pub target: int,
    pub args: Seq<OperandV>,
}

/// View of a `BlockExit`.
pub ghost enum BlockExitV {
    Jump { arg: JumpArgV },
    ConditionalJump { condition: OperandV, arg_then: JumpArgV, arg_else: JumpArgV },
    Return { value: OperandV },
    Unreachable,
}

/// View of a `Block`.
#[verifier::ext_equal]
pub ghost struct BlockV {
    pub params: int,
    pub instructions: Seq<InstructionV>,
    pub exit: BlockExitV,
}

impl DeepView for Constant {
    type V = ConstantV;

    open spec fn deep_view(&self) -> ConstantV {
        match self {
            Constant::Unit => ConstantV::Unit,
            Constant::Num { value } => ConstantV::Num { value: big_value(*value) },
        }
    }
}

impl DeepView for Operand {
    type V = OperandV;

    open spec fn deep_view(&self) -> OperandV {
        match self {
            Operand::Constant(c) => OperandV::Constant { constant: c.deep_view() },
            Operand::StackValue(i) => OperandV::StackValue { index: *i as int },
            Operand::Register(r) => OperandV::Register { register: *r },
        }
    }
}

impl DeepView for Instruction {
    type V = InstructionV;

    open spec fn deep_view(&self) -> InstructionV {
        match self {
            Instruction::Nop => InstructionV::Nop,
            Instruction::BinOp { op, lhs, rhs } => InstructionV::BinOp {
                op: *op,
                lhs: lhs.deep_view(),
                rhs: rhs.deep_view(),
            },
            Instruction::UnaryOp { op, operand } => InstructionV::UnaryOp {
                op: *op,
                operand: operand.deep_view(),
            },
            Instruction::Swap => InstructionV::Swap,
            Instruction::Dup => InstructionV::Dup,
        }
    }
}

impl DeepView for JumpArg {
    type V = JumpArgV;

    open spec fn deep_view(&self) -> JumpArgV {
        JumpArgV { target: self.target as int, args: self.args.deep_view() }
    }
}

impl DeepView for BlockExit {
    type V = BlockExitV;

    open spec fn deep_view(&self) -> BlockExitV {
        match self {
            BlockExit::Jump { arg } => BlockExitV::Jump { arg: arg.deep_view() },
            BlockExit::ConditionalJump { condition, arg_then, arg_else } => {
                BlockExitV::ConditionalJump {
                    condition: condition.deep_view(),
                    arg_then: arg_then.deep_view(),
                    arg_else: arg_else.deep_view(),
                }
            },
            BlockExit::Return { value } => BlockExitV::Return { value: value.deep_view() },
            BlockExit::Unreachable => BlockExitV::Unreachable,
        }
    }
}

impl DeepView for Block {
    type V = BlockV;

    open spec fn deep_view(&self) -> BlockV {
        BlockV {
            params: self.params as int,
            instructions: self.instructions.deep_view(),
            exit: self.exit.deep_view(),
        }
    }
}

impl DeepView for Program {
    type V = Seq<BlockV>;

    open spec fn deep_view(&self) -> Seq<BlockV> {
        self.blocks.deep_view()
    }
}

// ------------------------------------------------------------------
// Cloning, preserving the view
// ------------------------------------------------------------------

impl Clone for Constant {
    fn clone(&self) -> (r: Self)
        ensures
            r.deep_view() == self.deep_view(),
    {
        match self {
            Constant::Unit => Constant::Unit,
            Constant::Num { value } => Constant::Num { value: big_clone(value) },
        }
    }
}

impl Clone for Operand {
    fn clone(&self) -> (r: Self)
        ensures
            r.deep_view() == self.deep_view(),
    {
        match self {
            Operand::Constant(c) => Operand::Constant(c.clone()),
            Operand::StackValue(i) => Operand::StackValue(*i),
            Operand::Register(r) => Operand::Register(*r),
        }
    }
}

impl Clone for Instruction {
    fn clone(&self) -> (r: Self)
        ensures
            r.deep_view() == self.deep_view(),
    {
        match self {
            Instruction::Nop => Instruction::Nop,
            Instruction::BinOp { op, lhs, rhs } => Instruction::BinOp {
                op: *op,
                lhs: lhs.clone(),
                rhs: rhs.clone(),
            },
            Instruction::UnaryOp { op, operand } => Instruction::UnaryOp {
                op: *op,
                operand: operand.clone(),
            },
            Instruction::Swap => Instruction::Swap,
            Instruction::Dup => Instruction::Dup,
        }
    }
}

impl Clone for JumpArg {
    fn clone(&self) -> (r: Self)
        ensures
            r.deep_view() == self.deep_view(),
    {
        let args = self.args.clone();
        proof {
            assert(args.deep_view() =~= self.args.deep_view());
        }
        JumpArg { target: self.target, args }
    }
}

impl Clone for BlockExit {
    fn clone(&self) -> (r: Self)
        ensures
            r.deep_view() == self.deep_view(),
    {
        match self {
            BlockExit::Jump { arg } => BlockExit::Jump { arg: arg.clone() },
            BlockExit::ConditionalJump { condition, arg_then, arg_else } => {
                BlockExit::ConditionalJump {
                    condition: condition.clone(),
                    arg_then: arg_then.clone(),
                    arg_else: arg_else.clone(),
                }
            },
            BlockExit::Return { value } => BlockExit::Return { value: value.clone() },
            BlockExit::Unreachable => BlockExit::Unreachable,
        }
    }
}

// ------------------------------------------------------------------
// Validation
// ------------------------------------------------------------------

/// A defect found in a program before execution.
#[derive(Debug, Clone, Copy, PartialEq, Eq, Structural)]
pub enum IrError {
    /// A jump names a block index outside the program (or the program is
    /// empty, so the entry block itself is missing).
    InvalidJumpTarget,
    /// A jump's argument count differs from its target's declared parameter
    /// count (or the entry block declares parameters, which the implicit
    /// entry transfer cannot supply).
    JumpArityMismatch,
    /// A `StackValue` operand's index is not below the stack depth the block
    /// is guaranteed to have at that point.
    StackIndexOutOfRange,
}

/// Checking one operand against the guaranteed stack depth: resolving a
/// stack slot needs `index < depth` and removes the slot; constants and
/// registers leave the stack alone.
pub open spec fn operand_check_v(operand: OperandV, depth: int) -> Result<int, IrError> {
    match operand {
        OperandV::StackValue { index } => if 0 <= index < depth {
            Ok(depth - 1)
        } else {
            Err(IrError::StackIndexOutOfRange)
        },
        _ => Ok(depth),
    }
}

/// Checking one instruction: how it changes the guaranteed stack depth, or
/// the defect found. Operands are checked in resolution order (right before
/// left).
pub open spec fn instr_check_v(instr: InstructionV, depth: int) -> Result<int, IrError> {
    match instr {
        InstructionV::Nop => Ok(depth),
        InstructionV::BinOp { op, lhs, rhs } => match operand_check_v(rhs, depth) {
            Err(e) => Err(e),
            Ok(d1) => match operand_check_v(lhs, d1) {
                Err(e) => Err(e),
                Ok(d2) => Ok(d2 + 1),
            },
        },
        InstructionV::UnaryOp { op, operand } => match operand_check_v(operand, depth) {
            Err(e) => Err(e),
            Ok(d1) => Ok(d1 + 1),
        },
        InstructionV::Swap => Ok(depth),
        InstructionV::Dup => Ok(depth + 1),
    }
}

/// Checking the instructions of a block from position `i` on, starting from
/// guaranteed depth `depth`.
pub open spec fn instrs_check_v(instrs: Seq<InstructionV>, i: int, depth: int) -> Result<
    int,
    IrError,
>
    decreases instrs.len() - i,
{
    if i < 0 || i >= instrs.len() {
        Ok(depth)
    } else {
        match instr_check_v(instrs[i], depth) {
            Err(e) => Err(e),
            Ok(d) => instrs_check_v(instrs, i + 1, d),
        }
    }
}

/// Checking a jump's argument operands from position `i` on.
pub open spec fn args_check_v(args: Seq<OperandV>, i: int, depth: int) -> Result<int, IrError>
    decreases args.len() - i,
{
    if i < 0 || i >= args.len() {
        Ok(depth)
    } else {
        match operand_check_v(args[i], depth) {
            Err(e) => Err(e),
            Ok(d) => args_check_v(args, i + 1, d),
        }
    }
}

/// Checking one jump: its target must be a block of the program, its
/// argument count must equal the target's parameter count, and its argument
/// operands must check against the current depth.
pub open spec fn jump_check_v(program: Seq<BlockV>, arg: JumpArgV, depth: int) -> Result<
    int,
    IrError,
> {
    if !(0 <= arg.target < program.len()) {
        Err(IrError::InvalidJumpTarget)
    } else if arg.args.len() != program[arg.target].params {
        Err(IrError::JumpArityMismatch)
    } else {
        args_check_v(arg.args, 0, depth)
    }
}

/// Checking a block's exit at the depth reached after its instructions.
/// Both arms of a conditional jump are checked against the depth left after
/// resolving the condition.
pub open spec fn exit_check_v(program: Seq<BlockV>, exit: BlockExitV, depth: int) -> Result<
    (),
    IrError,
> {
    match exit {
        BlockExitV::Jump { arg } => match jump_check_v(program, arg, depth) {
            Err(e) => Err(e),
            Ok(_) => Ok(()),
        },
        BlockExitV::ConditionalJump { condition, arg_then, arg_else } => {
            match operand_check_v(condition, depth) {
                Err(e) => Err(e),
                Ok(d1) => match jump_check_v(program, arg_then, d1) {
                    Err(e) => Err(e),
                    Ok(_) => match jump_check_v(program, arg_else, d1) {
                        Err(e) => Err(e),
                        Ok(_) => Ok(()),
                    },
                },
            }
        },
        BlockExitV::Return { value } => match operand_check_v(value, depth) {
            Err(e) => Err(e),
            Ok(_) => Ok(()),
        },
        BlockExitV::Unreachable => Ok(()),
    }
}

/// Checking one block, entered with exactly its declared parameter count on
/// the stack.
pub open spec fn block_check_v(program: Seq<BlockV>, block: BlockV) -> Result<(), IrError> {
    match instrs_check_v(block.instructions, 0, block.params) {
        Err(e) => Err(e),
        Ok(d) => exit_check_v(program, block.exit, d),
    }
}

/// Checking the blocks of a program from index `i` on.
pub open spec fn blocks_check_v(program: Seq<BlockV>, i: int) -> Result<(), IrError>
    decreases program.len() - i,
{
    if i < 0 || i >= program.len() {
        Ok(())
    } else {
        match block_check_v(program, program[i]) {
            Err(e) => Err(e),
            Ok(_) => blocks_check_v(program, i + 1),
        }
    }
}

/// The verdict validation reaches on a program: the entry block must exist
/// and take no parameters, and every block must check.
pub open spec fn validate_v(program: Seq<BlockV>) -> Result<(), IrError> {
    if program.len() == 0 {
        Err(IrError::InvalidJumpTarget)
    } else if program[0].params != 0 {
        Err(IrError::JumpArityMismatch)
    } else {
        blocks_check_v(program, 0)
    }
}

/// Maps an executable depth to the mathematical verdict it stands for.
pub open spec fn depth_result_v(r: Result<u128, IrError>) -> Result<int, IrError> {
    match r {
        Ok(d) => Ok(d as int),
        Err(e) => Err(e),
    }
}

fn check_operand(operand: &Operand, depth: u128) -> (r: Result<u128, IrError>)
    ensures
        depth_result_v(r) == operand_check_v(operand.deep_view(), depth as int),
{
    match operand {
        Operand::StackValue(index) => {
            if (*index as u128) < depth {
                Ok(depth - 1)
            } else {
                Err(IrError::StackIndexOutOfRange)
            }
        },
        _ => Ok(depth),
    }
}

fn check_instr(instr: &Instruction, depth: u128) -> (r: Result<u128, IrError>)
    requires
        depth < u128::MAX,
    ensures
        depth_result_v(r) == instr_check_v(instr.deep_view(), depth as int),
        r matches Ok(d) ==> d as int <= depth as int + 1,
{
    match instr {
        Instruction::Nop => Ok(depth),
        Instruction::BinOp { op, lhs, rhs } => {
            let d1 = match check_operand(rhs, depth) {
                Err(e) => {
                    return Err(e);
                },
                Ok(d) => d,
            };
            let d2 = match check_operand(lhs, d1) {
                Err(e) => {
                    return Err(e);
                },
                Ok(d) => d,
            };
            Ok(d2 + 1)
        },
        Instruction::UnaryOp { op, operand } => {
            let d1 = match check_operand(operand, depth) {
                Err(e) => {
                    return Err(e);
                },
                Ok(d) => d,
            };
            Ok(d1 + 1)
        },
        Instruction::Swap => Ok(depth),
        Instruction::Dup => Ok(depth + 1),
    }
}

#[verifier::loop_isolation(false)]
fn check_jump(program: &Program, arg: &JumpArg, depth: u128) -> (r: Result<u128, IrError>)
    ensures
        depth_result_v(r) == jump_check_v(program.deep_view(), arg.deep_view(), depth as int),
{
    if arg.target >= program.blocks.len() {
        return Err(IrError::InvalidJumpTarget);
    }
    proof {
        assert(program.deep_view()[arg.target as int] == program.blocks[arg.target as int].deep_view());
    }
    if arg.args.len() != program.blocks[arg.target].params {
        return Err(IrError::JumpArityMismatch);
    }
    let ghost argsv = arg.deep_view().args;
    let ghost depth0 = depth as int;
    let mut d = depth;
    let mut i: usize = 0;
    while i < arg.args.len()
        invariant
            0 <= i <= arg.args.len(),
            argsv == arg.args.deep_view(),
            args_check_v(argsv, 0, depth0) == args_check_v(argsv, i as int, d as int),
        decreases arg.args.len() - i,
    {
        proof {
            assert(argsv[i as int] == arg.args[i as int].deep_view());
        }
        match check_operand(&arg.args[i], d) {
            Err(e) => {
                proof {
                    assert(args_check_v(argsv, i as int, d as int) == Err::<int, IrError>(e));
                }
                return Err(e);
            },
            Ok(nd) => {
                d = nd;
            },
        }
        i += 1;
    }
    Ok(d)
}

fn check_exit(program: &Program, exit: &BlockExit, depth: u128) -> (r: Result<(), IrError>)
    ensures
        r == exit_check_v(program.deep_view(), exit.deep_view(), depth as int),
{
    match exit {
        BlockExit::Jump { arg } => match check_jump(program, arg, depth) {
            Err(e) => Err(e),
            Ok(_) => Ok(()),
        },
        BlockExit::ConditionalJump { condition, arg_then, arg_else } => {
            let d1 = match check_operand(condition, depth) {
                Err(e) => {
                    return Err(e);
                },
                Ok(d) => d,
            };
            match check_jump(program, arg_then, d1) {
                Err(e) => {
                    return Err(e);
                },
                Ok(_) => {},
            }
            match check_jump(program, arg_else, d1) {
                Err(e) => Err(e),
                Ok(_) => Ok(()),
            }
        },
        BlockExit::Return { value } => match check_operand(value, depth) {
            Err(e) => Err(e),
            Ok(_) => Ok(()),
        },
        BlockExit::Unreachable => Ok(()),
    }
}

#[verifier::loop_isolation(false)]
fn check_block(program: &Program, block: &Block) -> (r: Result<(), IrError>)
    ensures
        r == block_check_v(program.deep_view(), block.deep_view()),
{
    let ghost instrsv = block.instructions.deep_view();
    let ghost params0 = block.params as int;
    let mut depth: u128 = block.params as u128;
    let mut j: usize = 0;
    while j < block.instructions.len()
        invariant
            0 <= j <= block.instructions.len(),
            instrsv == block.instructions.deep_view(),
            depth as int <= block.params as int + j as int,
            instrs_check_v(instrsv, 0, params0) == instrs_check_v(instrsv, j as int, depth as int),
            params0 == block.params as int,
        decreases block.instructions.len() - j,
    {
        proof {
            assert(instrsv[j as int] == block.instructions[j as int].deep_view());
            assert(usize::MAX as int <= u64::MAX as int);
        }
        match check_instr(&block.instructions[j], depth) {
            Err(e) => {
                return Err(e);
            },
            Ok(nd) => {
                depth = nd;
            },
        }
        j += 1;
    }
    check_exit(program, &block.exit, depth)
}

/// Validation: the load-bearing correctness gate run before execution. It
/// returns `Ok` exactly when the entry block exists and takes no parameters,
/// every jump target is a block of the program, every jump's argument count
/// equals its target's declared parameter count, and every stack-slot operand
/// is within the stack depth its block is guaranteed to have at that point.
/// The verdict is a function of the program alone.
#[verifier::loop_isolation(false)]
pub fn validate(program: &Program) -> (r: Result<(), IrError>)
    ensures
        r == validate_v(program.deep_view()),
{
    let ghost pv = program.deep_view();
    if program.blocks.len() == 0 {
        return Err(IrError::InvalidJumpTarget);
    }
    proof {
        assert(pv[0] == program.blocks[0].deep_view());
    }
    if program.blocks[0].params != 0 {
        return Err(IrError::JumpArityMismatch);
    }
    let mut i: usize = 0;
    while i < program.blocks.len()
        invariant
            0 <= i <= program.blocks.len(),
            pv == program.deep_view(),
            blocks_check_v(pv, 0) == blocks_check_v(pv, i as int),
        decreases program.blocks.len() - i,
    {
        proof {
            assert(pv[i as int] == program.blocks[i as int].deep_view());
        }
        match check_block(program, &program.blocks[i]) {
            Err(e) => {
                proof {
                    assert(blocks_check_v(pv, i as int) == Err::<(), IrError>(e));
                }
                return Err(e);
            },
            Ok(_) => {},
        }
        i += 1;
    }
    Ok(())
}

// ------------------------------------------------------------------
// Laws of validation
// ------------------------------------------------------------------

/// The jump argument lists an exit carries.
pub open spec fn exit_jump_args(exit: BlockExitV) -> Seq<JumpArgV> {
    match exit {
        BlockExitV::Jump { arg } => seq![arg],
        BlockExitV::ConditionalJump { condition, arg_then, arg_else } => seq![arg_then, arg_else],
        _ => Seq::empty(),
    }
}

/// The jump names a block of the program, but its argument count differs
/// from that target's declared parameter count.
pub open spec fn arg_mismatched(program: Seq<BlockV>, arg: JumpArgV) -> bool {
    0 <= arg.target < program.len() && arg.args.len() != program[arg.target].params
}

/// Some block of the program carries a jump whose target is a block of the
/// program but whose argument count differs from that target's declared
/// parameter count.
pub open spec fn has_arity_mismatch(program: Seq<BlockV>) -> bool {
    exists|i: int, j: int|
        0 <= i < program.len() && 0 <= j < exit_jump_args(program[i].exit).len()
            && arg_mismatched(program, #[trigger] exit_jump_args(program[i].exit)[j])
}

pub(crate) proof fn lemma_blocks_check_ok(program: Seq<BlockV>, j: int, i: int)
    requires
        0 <= j <= i < program.len(),
        blocks_check_v(program, j) is Ok,
    ensures
        block_check_v(program, program[i]) is Ok,
    decreases i - j,
{
    if j < i {
        lemma_blocks_check_ok(program, j + 1, i);
    }
}

/// Jump arity: a program that carries a jump argument list whose length
/// differs from its (in-range) target's declared parameter count never
/// validates, so execution — which validates first — never starts on it.
pub proof fn lemma_validate_rejects_arity_mismatch(program: Seq<BlockV>)
    requires
        has_arity_mismatch(program),
    ensures
        validate_v(program) is Err,
{
    if validate_v(program) is Ok {
        let (i, j) = choose|i: int, j: int|
            0 <= i < program.len() && 0 <= j < exit_jump_args(program[i].exit).len()
                && arg_mismatched(program, #[trigger] exit_jump_args(program[i].exit)[j]);
        lemma_blocks_check_ok(program, 0, i);
        let exit = program[i].exit;
        match exit {
            BlockExitV::Jump { arg } => {
                assert(exit_jump_args(exit)[0] == arg);
            },
            BlockExitV::ConditionalJump { condition, arg_then, arg_else } => {
                assert(exit_jump_args(exit)[0] == arg_then);
                assert(exit_jump_args(exit)[1] == arg_else);
            },
            _ => {},
        }
    }
}

/// Idempotent re-validation: the verdict is a function of the program alone,
/// so validating the same program twice returns the same verdict.
pub proof fn lemma_validate_idempotent(
    program: Seq<BlockV>,
    first: Result<(), IrError>,
    second: Result<(), IrError>,
)
    requires
        first == validate_v(program),
        second == validate_v(program),
    ensures
        first == second,
{
}

} // verus!
