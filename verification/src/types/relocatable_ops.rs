//! The operators `+` and `-` on addresses. Each gives a `Result`: an address
//! cannot leave the offsets that a machine word holds.

use crate::felt::Felt252;
use crate::types::errors::math_errors::MathError;
use crate::types::errors::memory_errors::MemoryError;
use crate::types::relocatable::{MaybeRelocatable, Relocatable};
use vstd::prelude::*;
use vstd::std_specs::convert::{FromSpecImpl, TryFromSpecImpl};
use vstd::std_specs::ops::{AddSpecImpl, SubSpecImpl};

verus! {

impl core::ops::Add<usize> for Relocatable {
    type Output = Result<Relocatable, MathError>;

    fn add(self, other: usize) -> (r: Result<Relocatable, MathError>) {
        self.add_usize(other)
    }
}

impl AddSpecImpl<usize> for Relocatable {
    open spec fn obeys_add_spec() -> bool {
        true
    }

    open spec fn add_req(self, other: usize) -> bool {
        true
    }

    open spec fn add_spec(self, other: usize) -> Result<Relocatable, MathError> {
        self.moved_forward(other)
    }
}

impl<'a> core::ops::Add<usize> for &'a Relocatable {
    type Output = Result<Relocatable, MathError>;

    fn add(self, other: usize) -> (r: Result<Relocatable, MathError>) {
        self.add_usize(other)
    }
}

impl<'a> AddSpecImpl<usize> for &'a Relocatable {
    open spec fn obeys_add_spec() -> bool {
        true
    }

    open spec fn add_req(self, other: usize) -> bool {
        true
    }

    open spec fn add_spec(self, other: usize) -> Result<Relocatable, MathError> {
        self.moved_forward(other)
    }
}

impl core::ops::Add<i32> for Relocatable {
    type Output = Result<Relocatable, MathError>;

    fn add(self, other: i32) -> (r: Result<Relocatable, MathError>) {
        self.add_i32(other)
    }
}

impl AddSpecImpl<i32> for Relocatable {
    open spec fn obeys_add_spec() -> bool {
        true
    }

    open spec fn add_req(self, other: i32) -> bool {
        true
    }

    open spec fn add_spec(self, other: i32) -> Result<Relocatable, MathError> {
        self.moved_by(other)
    }
}

impl<'a> core::ops::Add<&'a Felt252> for Relocatable {
    type Output = Result<Relocatable, MathError>;

    fn add(self, other: &'a Felt252) -> (r: Result<Relocatable, MathError>) {
        self.add_int(other)
    }
}

impl<'a> AddSpecImpl<&'a Felt252> for Relocatable {
    open spec fn obeys_add_spec() -> bool {
        true
    }

    open spec fn add_req(self, other: &'a Felt252) -> bool {
        true
    }

    open spec fn add_spec(self, other: &'a Felt252) -> Result<Relocatable, MathError> {
        self.moved_by_felt(*other)
    }
}

impl<'a> core::ops::Add<&'a MaybeRelocatable> for Relocatable {
    type Output = Result<Relocatable, MathError>;

    fn add(self, other: &'a MaybeRelocatable) -> (r: Result<Relocatable, MathError>) {
        self.add_maybe(other)
    }
}

impl<'a> AddSpecImpl<&'a MaybeRelocatable> for Relocatable {
    open spec fn obeys_add_spec() -> bool {
        true
    }

    open spec fn add_req(self, other: &'a MaybeRelocatable) -> bool {
        true
    }

    open spec fn add_spec(self, other: &'a MaybeRelocatable) -> Result<Relocatable, MathError> {
        self.moved_by_cell(*other)
    }
}

impl core::ops::Sub<usize> for Relocatable {
    type Output = Result<Relocatable, MathError>;

    fn sub(self, other: usize) -> (r: Result<Relocatable, MathError>) {
        self.sub_usize(other)
    }
}

impl SubSpecImpl<usize> for Relocatable {
    open spec fn obeys_sub_spec() -> bool {
        true
    }

    open spec fn sub_req(self, other: usize) -> bool {
        true
    }

    open spec fn sub_spec(self, other: usize) -> Result<Relocatable, MathError> {
        self.moved_back(other)
    }
}

impl core::ops::Sub<Relocatable> for Relocatable {
    type Output = Result<usize, MathError>;

    fn sub(self, other: Relocatable) -> (r: Result<usize, MathError>) {
        self.sub_rel(&other)
    }
}

impl SubSpecImpl<Relocatable> for Relocatable {
    open spec fn obeys_sub_spec() -> bool {
        true
    }

    open spec fn sub_req(self, other: Relocatable) -> bool {
        true
    }

    open spec fn sub_spec(self, other: Relocatable) -> Result<usize, MathError> {
        self.distance_from(other)
    }
}

impl TryFrom<MaybeRelocatable> for Relocatable {
    type Error = MemoryError;

    fn try_from(other: MaybeRelocatable) -> (r: Result<Relocatable, MemoryError>) {
        match other {
            MaybeRelocatable::RelocatableValue(rel) => Ok(rel),
            MaybeRelocatable::Int(_) => Err(MemoryError::AddressNotRelocatable),
        }
    }
}

impl TryFromSpecImpl<MaybeRelocatable> for Relocatable {
    open spec fn obeys_try_from_spec() -> bool {
        true
    }

    open spec fn try_from_spec(other: MaybeRelocatable) -> Result<Relocatable, MemoryError> {
        match other {
            MaybeRelocatable::RelocatableValue(rel) => Ok(rel),
            MaybeRelocatable::Int(_) => Err(MemoryError::AddressNotRelocatable),
        }
    }
}

impl From<usize> for MaybeRelocatable {
    fn from(num: usize) -> (r: MaybeRelocatable) {
        MaybeRelocatable::Int(Felt252::from(num))
    }
}

impl FromSpecImpl<usize> for MaybeRelocatable {
    open spec fn obeys_from_spec() -> bool {
        true
    }

    open spec fn from_spec(num: usize) -> MaybeRelocatable {
        MaybeRelocatable::Int(Felt252::from_int(num as int))
    }
}

impl<'a> From<&'a Relocatable> for MaybeRelocatable {
    fn from(rel: &'a Relocatable) -> (r: MaybeRelocatable) {
        MaybeRelocatable::RelocatableValue(*rel)
    }
}

impl<'a> FromSpecImpl<&'a Relocatable> for MaybeRelocatable {
    open spec fn obeys_from_spec() -> bool {
        true
    }

    open spec fn from_spec(rel: &'a Relocatable) -> MaybeRelocatable {
        MaybeRelocatable::RelocatableValue(*rel)
    }
}

impl<'a> From<&'a Felt252> for MaybeRelocatable {
    fn from(val: &'a Felt252) -> (r: MaybeRelocatable) {
        MaybeRelocatable::Int(*val)
    }
}

impl<'a> FromSpecImpl<&'a Felt252> for MaybeRelocatable {
    open spec fn obeys_from_spec() -> bool {
        true
    }

    open spec fn from_spec(val: &'a Felt252) -> MaybeRelocatable {
        MaybeRelocatable::Int(*val)
    }
}

} // verus!
