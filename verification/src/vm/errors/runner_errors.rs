//! Errors of the runner and of the builtin runners.

use crate::felt::Felt252;
use crate::types::errors::math_errors::MathError;
use crate::types::errors::memory_errors::MemoryError;
use crate::types::relocatable::MaybeRelocatable;
use vstd::prelude::*;

verus! {

/// What can go wrong when a run is set up, when a builtin deduces a cell, and
/// when a run is closed.
#[derive(Clone, Debug, PartialEq, Eq)]
pub enum RunnerError {
    /// The program has no entry point.
    MissingMain,
    /// The program names its builtins in an order other than the canonical one.
    DisorderedBuiltins,
    /// The program names a builtin that this machine does not run.
    BuiltinNotSupported(String),
    /// The program segment was not allocated yet.
    NoProgBase,
    /// The execution segment was not allocated yet.
    NoExecBase,
    /// The execution segment was not allocated when the entry point was set up.
    NoExecBaseForEntrypoint,
    /// The initial program counter was not set.
    NoPC,
    /// The initial allocation pointer was not set.
    NoAP,
    /// The initial frame pointer was not set.
    NoFP,
    /// Memory refused the program or the initial stack.
    MemoryInitializationError(MemoryError),
    /// Memory written before the rules were set does not meet them.
    MemoryValidationError(MemoryError),
    /// A builtin sits in a temporary segment.
    RunnerInTemporarySegment(isize),
    /// A builtin could not read a cell.
    FailedMemoryGet(MemoryError),
    /// An input cell of a builtin holds an address.
    ExpectedInteger(MaybeRelocatable),
    /// A cell that should hold a number could not be read as one.
    MemoryGet(MaybeRelocatable),
    /// An input point of the elliptic-curve builtin is not on the curve.
    PointNotOnCurve(Felt252, Felt252),
    /// The elliptic-curve operation met two points with the same x coordinate.
    EcOpSameXCoordinate(String),
    /// The elliptic-curve operation had to divide by an element without inverse.
    EcOpArithmetic(MathError),
    /// An input of the bitwise builtin (at the address) has more bits than the
    /// builtin takes (the number).
    IntegerBiggerThanPowerOfTwo(MaybeRelocatable, u32, Felt252),
    /// The stop pointer of a builtin could not be read from the stack.
    FinalStack,
    /// The stop pointer of the named builtin does not match the cells it used.
    InvalidStopPointer(String),
    /// The output could not be turned into text.
    FailedStringConversion,
    /// A segment size or address does not fit in a machine word.
    SizeOverflow,
    /// A memory error met on the way.
    Memory(MemoryError),
}

} // verus!
