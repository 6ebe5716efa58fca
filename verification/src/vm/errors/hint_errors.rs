//! Errors of hints.

use crate::felt::Felt252;
use crate::types::errors::math_errors::MathError;
use crate::types::errors::memory_errors::MemoryError;
use crate::types::relocatable::{MaybeRelocatable, Relocatable};
use crate::vm::errors::vm_errors::VirtualMachineError;
use vstd::prelude::*;

verus! {

/// What can go wrong when a hint is executed.
#[derive(Clone, Debug, PartialEq, Eq)]
pub enum HintError {
    /// No hint is known for this code.
    UnknownHint(String),
    /// The hint uses a name that has no reference, or whose reference cannot be
    /// resolved.
    UnknownIdentifier(String),
    /// The name stands for a cell (at the address) that holds no field element.
    IdentifierNotInteger(String, Relocatable),
    /// The name stands for a cell (at the address) that holds no address.
    IdentifierNotRelocatable(String, Relocatable),
    /// The struct of this name has no member of that name in memory.
    IdentifierHasNoMember(String, String),
    /// A reference could not be resolved to an address.
    UnknownIdentifierInternal,
    /// A reference resolved to a cell (at the address) of the wrong kind.
    WrongIdentifierTypeInternal(Relocatable),
    /// The program has no constant of this name.
    MissingConstant(String),
    /// The scopes hold no variable of this name, or one of another kind.
    VariableNotInScopeError(String),
    /// The main scope cannot be left.
    FromScopeError,
    /// `a <= b` does not hold.
    NonLeFelt252(Felt252, Felt252),
    /// The two shortest arcs (first and third) exceed their bounds (second and
    /// fourth).
    ArcTooBig(Felt252, Felt252, Felt252, Felt252),
    /// The excluded arc is not the third.
    ExcludedNot2(Felt252),
    /// The two values are equal.
    AssertNotEqualFail(MaybeRelocatable, MaybeRelocatable),
    /// The value is not below the bound of the range-check builtin.
    AssertNNValueOutOfRange(Felt252),
    /// The value is zero in the field with this prime.
    AssertNotZero(Felt252, String),
    /// The value that should have been split to zero is not zero.
    SplitIntNotZero,
    /// A limb of a split is above its bound.
    SplitIntLimbOutOfRange(Felt252),
    /// The value is outside the range in which its sign can be told.
    ValueOutsideValidRange(Felt252),
    /// The value has more than 250 bits.
    ValueOutside250BitRange(Felt252),
    /// The first value is outside the range that the second bounds.
    OutOfValidRange(Felt252, Felt252),
    /// `a < b` does not hold.
    AssertLtFelt252(Felt252, Felt252),
    /// An assertion of the hint failed.
    AssertionFailed(String),
    /// The value does not fit in 32 bits.
    BigintToU32Fail,
    /// A memory error met on the way.
    Memory(MemoryError),
    /// An arithmetic error met on the way.
    Math(MathError),
    /// An error of the machine met on the way.
    Internal(VirtualMachineError),
}

} // verus!
