//! Errors of one step of the machine.

use crate::types::errors::math_errors::MathError;
use crate::types::errors::memory_errors::MemoryError;
use crate::types::relocatable::{MaybeRelocatable, Relocatable};
use crate::vm::errors::runner_errors::RunnerError;
use crate::vm::errors::trace_errors::TraceError;
use vstd::prelude::*;

verus! {

/// What can abort a step.
#[derive(Clone, Debug, PartialEq, Eq)]
pub enum VirtualMachineError {
    /// The cell at the program counter is a hole or holds an address.
    InstructionNonInt(Relocatable),
    /// The instruction word does not fit in 64 bits, or its top bit is set.
    InvalidInstructionEncoding,
    /// The bits that select the source of the second operand are not a valid
    /// combination.
    InvalidOp1Reg(u64),
    /// The bits that select the result logic are not a valid combination.
    InvalidRes(u64),
    /// The bits that select the opcode are not a valid combination.
    InvalidOpcode(u64),
    /// The bits that select the update of the program counter are not a valid
    /// combination.
    InvalidPcUpdate(u64),
    /// The bits that select the update of the allocation pointer are not a valid
    /// combination.
    InvalidApUpdate(u64),
    /// An instruction takes an immediate and reads it from a register too.
    ImmShouldBe1,
    /// The second operand is read through the first, which is not known.
    UnknownOp0,
    /// A call adds two to the allocation pointer and nothing else.
    UnconstrainedResAdd,
    /// A conditional jump cannot take a result.
    UnconstrainedResJump,
    /// A relative jump needs a numeric result.
    JumpRelNotInt,
    /// An absolute jump needs an address as result.
    JumpAbsNotRelocatable,
    /// The allocation pointer cannot move by an unknown result.
    UnconstrainedResAssertEq,
    /// The allocation pointer can only move by a number.
    ApUpdateNotInt,
    /// The frame pointer of a return is not an address of the execution
    /// segment, or a number.
    InvalidFpUpdate,
    /// The operand at the address is unknown and cannot be deduced: more than
    /// one operand is missing, or the instruction does not constrain it.
    UnknownOperand(Relocatable),
    /// An `assert_eq` whose two sides differ.
    DiffAssertValues(MaybeRelocatable, MaybeRelocatable),
    /// A call that does not store the frame pointer in its first cell.
    CantWriteReturnFp(MaybeRelocatable, MaybeRelocatable),
    /// A call that does not store the return address in its second cell.
    CantWriteReturnPc(MaybeRelocatable, MaybeRelocatable),
    /// A deduced value contradicts the one in memory.
    InconsistentAutoDeduction(Relocatable, MaybeRelocatable, MaybeRelocatable),
    /// The program has no range-check builtin.
    NoRangeCheckBuiltin,
    /// Addresses of different segments cannot be compared.
    DiffIndexComp(Relocatable, Relocatable),
    /// An address and a field element cannot be compared.
    DiffTypeComparison(MaybeRelocatable, MaybeRelocatable),
    /// The run has not ended yet.
    RunNotFinished,
    /// A register would leave the range of machine words.
    RegisterOverflow,
    /// An arithmetic error met on the way.
    Math(MathError),
    /// A memory error met on the way.
    Memory(MemoryError),
    /// An error of a builtin runner met on the way.
    RunnerError(RunnerError),
    /// A trace error met on the way.
    Trace(TraceError),
}

} // verus!
