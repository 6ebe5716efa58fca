//! Errors of the segmented memory.

use crate::types::errors::math_errors::MathError;
use crate::types::relocatable::{MaybeRelocatable, Relocatable};
use vstd::prelude::*;

verus! {

/// What can go wrong when memory is read, written, validated or relocated.
#[derive(Clone, Copy, Debug, PartialEq, Eq, Structural)]
pub enum MemoryError {
    /// The segment of the address (first number) is not among the allocated ones
    /// (second number: how many there are).
    UnallocatedSegment(usize, usize),
    /// A field element stood where an address was needed.
    AddressNotRelocatable,
    /// The address lies in a temporary segment.
    AddressInTemporarySegment(isize),
    /// The address lies in no temporary segment.
    AddressNotInTemporarySegment(isize),
    /// A segment base with a non-zero offset.
    NonZeroOffset(usize),
    /// The cell at the address (first) already holds a value (second) different
    /// from the one to be written (third).
    InconsistentMemory(Relocatable, MaybeRelocatable, MaybeRelocatable),
    /// Memory was relocated before, or the relocation table does not fit it.
    Relocation,
    /// An address of a temporary segment cannot be relocated.
    TemporarySegmentInRelocation(isize),
    /// The effective sizes of the segments were not computed yet.
    MissingSegmentUsedSizes,
    /// The set of accessed addresses is not there yet.
    MissingAccessedAddresses,
    /// The range-check builtin found a number outside its bound.
    NumOutOfBounds,
    /// The range-check builtin found an address in place of a number.
    FoundNonInt,
    /// The cell was expected to hold a field element.
    ExpectedInteger(Relocatable),
    /// The cell was expected to hold an address.
    ExpectedRelocatable(Relocatable),
    /// The cell holds nothing.
    UnknownMemoryCell(Relocatable),
    /// More cells were used than the steps taken allow for.
    InsufficientAllocatedCells,
    /// The number of steps is not a multiple of the builtin's ratio.
    ErrorCalculatingMemoryUnits,
    /// A segment holds more cells than were counted as accessed.
    SegmentHasMoreAccessedAddressesThanSize(usize, usize, usize),
    /// An address was accessed in a segment whose size was not counted.
    SegmentNotFinalized(usize),
    /// An address was accessed beyond the size (second) of its segment.
    AccessedAddressOffsetBiggerThanSegmentSize(Relocatable, usize),
    /// A size does not fit in a machine word.
    SizeOverflow,
    /// An arithmetic error met on the way.
    Math(MathError),
}

} // verus!
