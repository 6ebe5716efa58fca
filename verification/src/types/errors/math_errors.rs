//! Errors of field and address arithmetic.

use crate::felt::Felt252;
use crate::types::relocatable::{MaybeRelocatable, Relocatable};
use vstd::prelude::*;

verus! {

/// What can go wrong in arithmetic on field elements and addresses.
#[derive(Clone, Copy, Debug, PartialEq, Eq, Structural)]
pub enum MathError {
    /// The divisor has no multiplicative inverse; zero is the case that occurs.
    DividedByZero,
    /// The first number is not a multiple of the second, or the second is zero.
    SafeDivFailUsize(usize, usize),
    /// The first number is not a multiple of the second, or the second is zero.
    SafeDivFail(Felt252, Felt252),
    /// No square root was found for the element.
    FailedToGetSqrt(Felt252),
    /// A field element stood where an address was needed.
    Felt252ToRelocatable(Felt252),
    /// Subtracting the number from the address would give a negative offset.
    RelocatableSubNegOffset(Relocatable, usize),
    /// Adding the field element to the address gives an offset that no machine
    /// word can hold.
    RelocatableAddFelt252OffsetExceeded(Relocatable, Felt252),
    /// Adding the number to the address gives an offset that no machine word can
    /// hold.
    RelocatableAddUsizeOffsetExceeded(Relocatable, usize),
    /// Two addresses cannot be added.
    RelocatableAdd(Relocatable, Relocatable),
    /// Addresses of different segments cannot be subtracted.
    RelocatableSubDiffIndex(Relocatable, Relocatable),
    /// Division is defined on two field elements only.
    DivModWrongType(MaybeRelocatable, MaybeRelocatable),
    /// An address cannot be subtracted from a field element.
    SubRelocatableFromInt(Felt252, Relocatable),
    /// The field element does not fit in 32 bits.
    Felt252ToU32Conversion(Felt252),
    /// The field element does not fit in a machine word.
    Felt252ToUsizeConversion(Felt252),
    /// The field element does not fit in 64 bits.
    Felt252ToU64Conversion(Felt252),
}

} // verus!
