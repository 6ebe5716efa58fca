//! Addresses into segmented memory, and the values a memory cell can hold.

use crate::felt::{field_add, field_sub, prime, Felt252};
use crate::types::errors::math_errors::MathError;
use crate::types::errors::memory_errors::MemoryError;
use vstd::prelude::*;
use vstd::std_specs::convert::FromSpecImpl;

verus! {

/// An address: a segment and an offset into it. A negative segment index
/// denotes a temporary segment.
#[derive(Eq, Ord, Hash, PartialEq, PartialOrd, Clone, Copy, Debug, Structural)]
pub struct Relocatable {
    pub segment_index: isize,
    pub offset: usize,
}

/// What a memory cell holds: an address or a field element.
#[derive(Eq, Ord, Hash, PartialEq, PartialOrd, Clone, Copy, Debug, Structural)]
pub enum MaybeRelocatable {
    RelocatableValue(Relocatable),
    Int(Felt252),
}

impl From<(isize, usize)> for Relocatable {
    fn from(index_offset: (isize, usize)) -> (r: Relocatable) {
        Relocatable { segment_index: index_offset.0, offset: index_offset.1 }
    }
}

impl FromSpecImpl<(isize, usize)> for Relocatable {
    open spec fn obeys_from_spec() -> bool {
        true
    }

    open spec fn from_spec(index_offset: (isize, usize)) -> Relocatable {
        Relocatable { segment_index: index_offset.0, offset: index_offset.1 }
    }
}

impl From<(isize, usize)> for MaybeRelocatable {
    fn from(index_offset: (isize, usize)) -> (r: MaybeRelocatable) {
        MaybeRelocatable::RelocatableValue(
            Relocatable { segment_index: index_offset.0, offset: index_offset.1 },
        )
    }
}

impl FromSpecImpl<(isize, usize)> for MaybeRelocatable {
    open spec fn obeys_from_spec() -> bool {
        true
    }

    open spec fn from_spec(index_offset: (isize, usize)) -> MaybeRelocatable {
        MaybeRelocatable::RelocatableValue(
            Relocatable { segment_index: index_offset.0, offset: index_offset.1 },
        )
    }
}

impl From<Felt252> for MaybeRelocatable {
    fn from(num: Felt252) -> (r: MaybeRelocatable) {
        MaybeRelocatable::Int(num)
    }
}

impl FromSpecImpl<Felt252> for MaybeRelocatable {
    open spec fn obeys_from_spec() -> bool {
        true
    }

    open spec fn from_spec(num: Felt252) -> MaybeRelocatable {
        MaybeRelocatable::Int(num)
    }
}

impl From<Relocatable> for MaybeRelocatable {
    fn from(rel: Relocatable) -> (r: MaybeRelocatable) {
        MaybeRelocatable::RelocatableValue(rel)
    }
}

impl FromSpecImpl<Relocatable> for MaybeRelocatable {
    open spec fn obeys_from_spec() -> bool {
        true
    }

    open spec fn from_spec(rel: Relocatable) -> MaybeRelocatable {
        MaybeRelocatable::RelocatableValue(rel)
    }
}

impl Relocatable {
    /// The address `offset` cells into segment `segment_index`.
    pub fn new(segment_index: isize, offset: usize) -> (r: Relocatable)
        ensures
            r == (Relocatable { segment_index, offset }),
    {
        Relocatable { segment_index, offset }
    }

    /// What `add_usize` returns.
    pub open spec fn moved_forward(self, other: usize) -> Result<Relocatable, MathError> {
        if self.offset + other <= usize::MAX {
            Ok(
                Relocatable {
                    segment_index: self.segment_index,
                    offset: (self.offset + other) as usize,
                },
            )
        } else {
            Err(MathError::RelocatableAddUsizeOffsetExceeded(self, other))
        }
    }

    /// What `sub_usize` returns.
    pub open spec fn moved_back(self, other: usize) -> Result<Relocatable, MathError> {
        if self.offset >= other {
            Ok(
                Relocatable {
                    segment_index: self.segment_index,
                    offset: (self.offset - other) as usize,
                },
            )
        } else {
            Err(MathError::RelocatableSubNegOffset(self, other))
        }
    }

    /// What `add_i32` returns.
    pub open spec fn moved_by(self, other: i32) -> Result<Relocatable, MathError> {
        if other >= 0 {
            self.moved_forward(other as usize)
        } else {
            self.moved_back((-other) as usize)
        }
    }

    /// What `add_int` returns.
    pub open spec fn moved_by_felt(self, other: Felt252) -> Result<Relocatable, MathError> {
        if self.offset + other@ <= usize::MAX {
            Ok(
                Relocatable {
                    segment_index: self.segment_index,
                    offset: (self.offset + other@) as usize,
                },
            )
        } else {
            Err(MathError::RelocatableAddFelt252OffsetExceeded(self, other))
        }
    }

    /// What `add_maybe` returns.
    pub open spec fn moved_by_cell(self, other: MaybeRelocatable) -> Result<
        Relocatable,
        MathError,
    > {
        match other {
            MaybeRelocatable::RelocatableValue(rel) => Err(MathError::RelocatableAdd(self, rel)),
            MaybeRelocatable::Int(num) => self.moved_by_felt(num),
        }
    }

    /// What `sub_rel` returns.
    pub open spec fn distance_from(self, other: Relocatable) -> Result<usize, MathError> {
        if self.segment_index != other.segment_index {
            Err(MathError::RelocatableSubDiffIndex(self, other))
        } else if self.offset < other.offset {
            Err(MathError::RelocatableSubNegOffset(self, other.offset))
        } else {
            Ok((self.offset - other.offset) as usize)
        }
    }

    /// The address `other` cells further on; fails where the offset would not
    /// fit in a machine word.
    pub fn add_usize(&self, other: usize) -> (r: Result<Relocatable, MathError>)
        ensures
            r == self.moved_forward(other),
    {
        match self.offset.checked_add(other) {
            Some(offset) => Ok(Relocatable { segment_index: self.segment_index, offset }),
            None => Err(MathError::RelocatableAddUsizeOffsetExceeded(*self, other)),
        }
    }

    /// The address `other` cells back; fails where the offset would be negative.
    pub fn sub_usize(&self, other: usize) -> (r: Result<Relocatable, MathError>)
        ensures
            r == self.moved_back(other),
    {
        if self.offset < other {
            return Err(MathError::RelocatableSubNegOffset(*self, other));
        }
        Ok(Relocatable { segment_index: self.segment_index, offset: self.offset - other })
    }

    /// The address moved by a signed number of cells.
    pub fn add_i32(&self, other: i32) -> (r: Result<Relocatable, MathError>)
        ensures
            r == self.moved_by(other),
    {
        if other >= 0 {
            self.add_usize(other as usize)
        } else {
            let back: usize = (-(other as i64)) as usize;
            self.sub_usize(back)
        }
    }

    /// The address moved forward by a field element: the new offset is the sum
    /// of the old one and the element's value as integers, which must fit in a
    /// machine word. The offset never decreases.
    pub fn add_int(&self, other: &Felt252) -> (r: Result<Relocatable, MathError>)
        ensures
            r == self.moved_by_felt(*other),
            r matches Ok(moved) ==> moved.offset >= self.offset,
    {
        match other.to_usize() {
            Some(distance) => match self.offset.checked_add(distance) {
                Some(offset) => Ok(Relocatable { segment_index: self.segment_index, offset }),
                None => Err(MathError::RelocatableAddFelt252OffsetExceeded(*self, *other)),
            },
            None => Err(MathError::RelocatableAddFelt252OffsetExceeded(*self, *other)),
        }
    }

    /// The address moved by a cell value, which must be a field element.
    pub fn add_maybe(&self, other: &MaybeRelocatable) -> (r: Result<Relocatable, MathError>)
        ensures
            r == self.moved_by_cell(*other),
    {
        match other {
            MaybeRelocatable::RelocatableValue(rel) => Err(MathError::RelocatableAdd(*self, *rel)),
            MaybeRelocatable::Int(num) => self.add_int(num),
        }
    }

    /// The distance in cells from `other` to `self`, both in one segment.
    pub fn sub_rel(&self, other: &Relocatable) -> (r: Result<usize, MathError>)
        ensures
            r == self.distance_from(*other),
    {
        if self.segment_index != other.segment_index {
            return Err(MathError::RelocatableSubDiffIndex(*self, *other));
        }
        if self.offset < other.offset {
            return Err(MathError::RelocatableSubNegOffset(*self, other.offset));
        }
        Ok(self.offset - other.offset)
    }
}

impl MaybeRelocatable {
    /// Whether this is a field element with the given value.
    pub open spec fn is_int_with(self, value: nat) -> bool {
        self matches MaybeRelocatable::Int(num) && num@ == value
    }

    /// Whether this is the given address.
    pub open spec fn is_rel(self, segment_index: isize, offset: int) -> bool {
        self matches MaybeRelocatable::RelocatableValue(rel) && rel.segment_index == segment_index
            && rel.offset == offset
    }

    /// Adds a field element: to a field element in the field, to an address by
    /// moving its offset forward by the element's value, which must stay within
    /// a machine word.
    pub fn add_int(&self, other: &Felt252) -> (r: Result<MaybeRelocatable, MathError>)
        ensures
            match *self {
                MaybeRelocatable::Int(num) => r matches Ok(v) && v.is_int_with(
                    field_add(num@, other@),
                ),
                MaybeRelocatable::RelocatableValue(rel) => if rel.offset + other@
                    <= usize::MAX {
                    r matches Ok(v) && v.is_rel(rel.segment_index, rel.offset + other@)
                } else {
                    r == Err::<MaybeRelocatable, MathError>(
                        MathError::RelocatableAddFelt252OffsetExceeded(rel, *other),
                    )
                },
            },
    {
        match self {
            MaybeRelocatable::Int(value) => Ok(MaybeRelocatable::Int(value.add(other))),
            MaybeRelocatable::RelocatableValue(rel) => {
                match rel.add_int(other) {
                    Ok(moved) => Ok(MaybeRelocatable::RelocatableValue(moved)),
                    Err(e) => Err(e),
                }
            },
        }
    }

    /// Adds a machine integer: to a field element in the field, to an address by
    /// moving its offset forward, which must stay within a machine word.
    pub fn add_usize(&self, other: usize) -> (r: Result<MaybeRelocatable, MathError>)
        ensures
            match *self {
                MaybeRelocatable::Int(num) => r matches Ok(v) && v.is_int_with(
                    field_add(num@, other as nat),
                ),
                MaybeRelocatable::RelocatableValue(rel) => if rel.offset + other <= usize::MAX {
                    r matches Ok(v) && v.is_rel(rel.segment_index, rel.offset + other)
                } else {
                    r == Err::<MaybeRelocatable, MathError>(
                        MathError::RelocatableAddUsizeOffsetExceeded(rel, other),
                    )
                },
            },
    {
        match self {
            MaybeRelocatable::Int(value) => Ok(MaybeRelocatable::Int(value.add_usize(other))),
            MaybeRelocatable::RelocatableValue(rel) => {
                match rel.add_usize(other) {
                    Ok(moved) => Ok(MaybeRelocatable::RelocatableValue(moved)),
                    Err(e) => Err(e),
                }
            },
        }
    }

    /// Adds two cell values. Two field elements add in the field; an address and
    /// a field element give the address moved forward by the element's value;
    /// two addresses cannot be added.
    pub fn add(&self, other: &MaybeRelocatable) -> (r: Result<MaybeRelocatable, MathError>)
        ensures
            match (*self, *other) {
                (MaybeRelocatable::Int(a), MaybeRelocatable::Int(b)) => r matches Ok(v)
                    && v.is_int_with(field_add(a@, b@)),
                (
                    MaybeRelocatable::RelocatableValue(a),
                    MaybeRelocatable::RelocatableValue(b),
                ) => r == Err::<MaybeRelocatable, MathError>(MathError::RelocatableAdd(a, b)),
                (MaybeRelocatable::RelocatableValue(rel), MaybeRelocatable::Int(num)) | (
                    MaybeRelocatable::Int(num),
                    MaybeRelocatable::RelocatableValue(rel),
                ) => if rel.offset + num@ <= usize::MAX {
                    r matches Ok(v) && v.is_rel(rel.segment_index, rel.offset + num@)
                } else {
                    r == Err::<MaybeRelocatable, MathError>(
                        MathError::RelocatableAddFelt252OffsetExceeded(rel, num),
                    )
                },
            },
    {
        match (self, other) {
            (MaybeRelocatable::Int(a), MaybeRelocatable::Int(b)) => Ok(
                MaybeRelocatable::Int(a.add(b)),
            ),
            (MaybeRelocatable::RelocatableValue(a), MaybeRelocatable::RelocatableValue(b)) => Err(
                MathError::RelocatableAdd(*a, *b),
            ),
            (MaybeRelocatable::RelocatableValue(rel), MaybeRelocatable::Int(num)) => {
                match rel.add_int(num) {
                    Ok(moved) => Ok(MaybeRelocatable::RelocatableValue(moved)),
                    Err(e) => Err(e),
                }
            },
            (MaybeRelocatable::Int(num), MaybeRelocatable::RelocatableValue(rel)) => {
                match rel.add_int(num) {
                    Ok(moved) => Ok(MaybeRelocatable::RelocatableValue(moved)),
                    Err(e) => Err(e),
                }
            },
        }
    }

    /// Subtracts two cell values. Two field elements subtract in the field; two
    /// addresses of one segment give the distance between them; an address less
    /// a field element gives the address moved back by the element's value,
    /// which must not pass the start of the segment; a field element less an
    /// address is not defined.
    pub fn sub(&self, other: &MaybeRelocatable) -> (r: Result<MaybeRelocatable, MathError>)
        ensures
            match (*self, *other) {
                (MaybeRelocatable::Int(a), MaybeRelocatable::Int(b)) => r matches Ok(v)
                    && v.is_int_with(field_sub(a@, b@)),
                (MaybeRelocatable::RelocatableValue(a), MaybeRelocatable::RelocatableValue(b)) => {
                    if a.segment_index != b.segment_index {
                        r == Err::<MaybeRelocatable, MathError>(
                            MathError::RelocatableSubDiffIndex(a, b),
                        )
                    } else if a.offset < b.offset {
                        r == Err::<MaybeRelocatable, MathError>(
                            MathError::RelocatableSubNegOffset(a, b.offset),
                        )
                    } else {
                        r matches Ok(v) && v.is_int_with((a.offset - b.offset) as nat)
                    }
                },
                (MaybeRelocatable::RelocatableValue(a), MaybeRelocatable::Int(b)) => {
                    if b@ <= a.offset {
                        r matches Ok(v) && v.is_rel(a.segment_index, a.offset - b@)
                    } else {
                        r == Err::<MaybeRelocatable, MathError>(
                            MathError::RelocatableAddFelt252OffsetExceeded(a, b),
                        )
                    }
                },
                (MaybeRelocatable::Int(a), MaybeRelocatable::RelocatableValue(b)) => r == Err::<
                    MaybeRelocatable,
                    MathError,
                >(MathError::SubRelocatableFromInt(a, b)),
            },
    {
        match (self, other) {
            (MaybeRelocatable::Int(a), MaybeRelocatable::Int(b)) => Ok(
                MaybeRelocatable::Int(a.sub(b)),
            ),
            (MaybeRelocatable::RelocatableValue(a), MaybeRelocatable::RelocatableValue(b)) => {
                match a.sub_rel(b) {
                    Ok(distance) => Ok(MaybeRelocatable::Int(Felt252::from_u128(distance as u128))),
                    Err(e) => Err(e),
                }
            },
            (MaybeRelocatable::RelocatableValue(a), MaybeRelocatable::Int(b)) => {
                match b.to_usize() {
                    Some(distance) => if distance <= a.offset {
                        Ok(
                            MaybeRelocatable::RelocatableValue(
                                Relocatable {
                                    segment_index: a.segment_index,
                                    offset: a.offset - distance,
                                },
                            ),
                        )
                    } else {
                        Err(MathError::RelocatableAddFelt252OffsetExceeded(*a, *b))
                    },
                    None => Err(MathError::RelocatableAddFelt252OffsetExceeded(*a, *b)),
                }
            },
            (MaybeRelocatable::Int(a), MaybeRelocatable::RelocatableValue(b)) => Err(
                MathError::SubRelocatableFromInt(*a, *b),
            ),
        }
    }

    /// Divides one field element by another that is not zero: the quotient in
    /// the field and the remainder, which is zero. Anything but two field
    /// elements is refused.
    pub fn divmod(&self, other: &MaybeRelocatable) -> (r: Result<
        (MaybeRelocatable, MaybeRelocatable),
        MathError,
    >)
        ensures
            match (*self, *other) {
                (MaybeRelocatable::Int(val), MaybeRelocatable::Int(div)) => {
                    if div@ != 0 {
                        r matches Ok((q, m)) && m.is_int_with(0) && (q matches MaybeRelocatable::Int(
                            quotient,
                        ) && crate::felt::field_mul(quotient@, div@) == val@ && quotient@
                            < prime())
                    } else {
                        r == Err::<(MaybeRelocatable, MaybeRelocatable), MathError>(
                            MathError::DividedByZero,
                        )
                    }
                },
                _ => r == Err::<(MaybeRelocatable, MaybeRelocatable), MathError>(
                    MathError::DivModWrongType(*self, *other),
                ),
            },
    {
        match (self, other) {
            (MaybeRelocatable::Int(val), MaybeRelocatable::Int(div)) => {
                match val.div(div) {
                    Ok(q) => Ok((MaybeRelocatable::Int(q), MaybeRelocatable::Int(Felt252::zero()))),
                    Err(e) => Err(e),
                }
            },
            _ => Err(MathError::DivModWrongType(*self, *other)),
        }
    }

    /// The field element inside, if this is one.
    pub fn get_int_ref(&self) -> (r: Option<&Felt252>)
        ensures
            match *self {
                MaybeRelocatable::Int(num) => r == Some(&num),
                MaybeRelocatable::RelocatableValue(_) => r.is_none(),
            },
    {
        match self {
            MaybeRelocatable::Int(num) => Some(num),
            MaybeRelocatable::RelocatableValue(_) => None,
        }
    }

    /// The address inside, if this is one.
    pub fn get_relocatable(&self) -> (r: Option<Relocatable>)
        ensures
            match *self {
                MaybeRelocatable::RelocatableValue(rel) => r == Some(rel),
                MaybeRelocatable::Int(_) => r.is_none(),
            },
    {
        match self {
            MaybeRelocatable::RelocatableValue(rel) => Some(*rel),
            MaybeRelocatable::Int(_) => None,
        }
    }
}

/// The linear address of `relocatable` once segment `i` starts at
/// `relocation_table[i]`.
pub open spec fn relocated_address(relocatable: Relocatable, relocation_table: Seq<usize>) -> int {
    relocation_table[relocatable.segment_index as int] + relocatable.offset
}

/// Flattens an address with the relocation table. Refused are temporary
/// segments, segments beyond the table, and addresses beyond the machine words.
pub fn relocate_address(relocatable: Relocatable, relocation_table: &Vec<usize>) -> (r: Result<
    usize,
    MemoryError,
>)
    ensures
        r == relocate_address_spec(relocatable, relocation_table@),
{
    if relocatable.segment_index < 0 {
        return Err(MemoryError::TemporarySegmentInRelocation(relocatable.segment_index));
    }
    let segment_index: usize = relocatable.segment_index as usize;
    if relocation_table.len() <= segment_index {
        return Err(MemoryError::Relocation);
    }
    match relocation_table[segment_index].checked_add(relocatable.offset) {
        Some(address) => Ok(address),
        None => Err(MemoryError::Relocation),
    }
}

/// What `relocate_address` returns.
pub open spec fn relocate_address_spec(
    relocatable: Relocatable,
    relocation_table: Seq<usize>,
) -> Result<usize, MemoryError> {
    if relocatable.segment_index < 0 {
        Err(MemoryError::TemporarySegmentInRelocation(relocatable.segment_index))
    } else if relocatable.segment_index >= relocation_table.len() {
        Err(MemoryError::Relocation)
    } else if relocated_address(relocatable, relocation_table) > usize::MAX {
        Err(MemoryError::Relocation)
    } else {
        Ok(relocated_address(relocatable, relocation_table) as usize)
    }
}

/// Flattens a cell value: a field element stays, an address becomes the field
/// element of its linear address.
pub fn relocate_value(value: MaybeRelocatable, relocation_table: &Vec<usize>) -> (r: Result<
    Felt252,
    MemoryError,
>)
    ensures
        match value {
            MaybeRelocatable::Int(num) => r == Ok::<Felt252, MemoryError>(num),
            MaybeRelocatable::RelocatableValue(rel) => match relocate_address_spec(
                rel,
                relocation_table@,
            ) {
                Ok(address) => r matches Ok(num) && num@ == address,
                Err(e) => r == Err::<Felt252, MemoryError>(e),
            },
        },
{
    match value {
        MaybeRelocatable::Int(num) => Ok(num),
        MaybeRelocatable::RelocatableValue(rel) => {
            match relocate_address(rel, relocation_table) {
                Ok(address) => Ok(Felt252::from_u128(address as u128)),
                Err(e) => Err(e),
            }
        },
    }
}

/// Moving an address forward never decreases its offset: where `add_usize`
/// succeeds, the address stays in its segment and its offset grows by exactly
/// the distance; and `sub_rel` of the moved address and the address it
/// started from gives the distance back.
pub proof fn law_address_arithmetic(rel: Relocatable, distance: usize)
    requires
        rel.offset + distance <= usize::MAX,
    ensures
        rel.moved_forward(distance) matches Ok(moved) && moved.offset >= rel.offset
            && moved.segment_index == rel.segment_index && moved.distance_from(rel) == Ok::<
            usize,
            MathError,
        >(distance),
{
}

/// The difference of two addresses of one segment is the difference of their
/// offsets, exactly: where `a` is not before `b`, `sub_rel` gives the number of
/// cells from `b` to `a`, and moving `b` forward by it gives `a`.
pub proof fn law_address_difference(a: Relocatable, b: Relocatable)
    requires
        a.segment_index == b.segment_index,
        a.offset >= b.offset,
    ensures
        a.distance_from(b) == Ok::<usize, MathError>((a.offset - b.offset) as usize),
        b.moved_forward((a.offset - b.offset) as usize) == Ok::<Relocatable, MathError>(a),
{
}

/// Adding a field element to an address never decreases its offset: where
/// `add_int` succeeds the address stays in its segment and its offset grows
/// by exactly the element's value; where the sum leaves the machine words the
/// addition is refused.
pub proof fn law_address_plus_element(rel: Relocatable, by: Felt252)
    ensures
        rel.offset + by@ <= usize::MAX ==> (rel.moved_by_felt(by) matches Ok(moved)
            && moved.segment_index == rel.segment_index && moved.offset == rel.offset + by@
            && moved.offset >= rel.offset),
        rel.offset + by@ > usize::MAX ==> rel.moved_by_felt(by) == Err::<Relocatable, MathError>(
            MathError::RelocatableAddFelt252OffsetExceeded(rel, by),
        ),
{
}

} // verus!
