//! The range-check builtin: every value written to its segment must be a field
//! element below a bound.

use crate::felt::{field_pow, prime, Felt252};
use crate::types::errors::memory_errors::MemoryError;
use crate::types::relocatable::{MaybeRelocatable, Relocatable};
use crate::vm::errors::runner_errors::RunnerError;
use crate::vm::runners::builtin_runner::{
    check_final_stack, final_stack_outcome, memory_accesses, used_cells, used_cells_spec,
    FinalStackOutcome, RANGE_CHECK_BUILTIN_NAME,
};
use crate::vm::vm_core::VirtualMachine;
use crate::vm::vm_memory::memory::{Memory, ValidationRule};
use crate::vm::vm_memory::memory_segments::MemorySegmentManager;
use vstd::prelude::*;

verus! {

/// The runner of the range-check builtin.
#[derive(Debug, Clone, Copy, PartialEq, Eq, Structural)]
pub struct RangeCheckBuiltinRunner {
    pub ratio: u32,
    pub base: isize,
    pub stop_ptr: Option<usize>,
    pub cells_per_instance: u32,
    pub n_input_cells: u32,
    /// The bound of one part: `2^16`.
    pub inner_rc_bound: Felt252,
    /// The bound of a value: `2^(16 * n_parts)` in the field, or no bound where
    /// that is zero.
    pub _bound: Option<Felt252>,
    pub n_parts: u32,
    pub included: bool,
}

/// The bound on values of `n_parts` parts of sixteen bits each.
pub open spec fn range_check_bound(n_parts: u32) -> nat {
    field_pow(2, (16 * n_parts) as nat)
}

/// The bound on values of eight parts is `2^128`, one more than the largest
/// integer of 128 bits.
pub proof fn lemma_bound_of_eight_parts()
    ensures
        range_check_bound(8) == u128::MAX + 1,
{
    vstd::arithmetic::power2::lemma2_to64();
    vstd::arithmetic::power2::lemma_pow2_adds(64, 64);
    vstd::arithmetic::power2::lemma_pow2(128);
    assert(vstd::arithmetic::power2::pow2(128) == u128::MAX + 1) by (nonlinear_arith)
        requires
            vstd::arithmetic::power2::pow2(128) == vstd::arithmetic::power2::pow2(64)
                * vstd::arithmetic::power2::pow2(64),
            vstd::arithmetic::power2::pow2(64) == 0x10000000000000000,
    ;
    assert((16 * 8u32) as nat == 128);
    vstd::arithmetic::div_mod::lemma_small_mod((u128::MAX + 1) as nat, prime());
}

impl RangeCheckBuiltinRunner {
    /// A runner for values of `n_parts` parts of sixteen bits each, its
    /// segment not yet allocated.
    pub fn new(ratio: u32, n_parts: u32) -> (r: RangeCheckBuiltinRunner)
        ensures
            r.ratio == ratio,
            r.base == 0,
            r.stop_ptr.is_none(),
            r.cells_per_instance == 1,
            r.n_input_cells == 1,
            r.inner_rc_bound@ == 0x10000,
            r.n_parts == n_parts,
            r.included,
            n_parts != 0 && range_check_bound(n_parts) == 0 ==> r._bound.is_none(),
            !(n_parts != 0 && range_check_bound(n_parts) == 0) ==> (r._bound matches Some(b)
                && b@ == range_check_bound(n_parts)),
    {
        let bound = Felt252::from_u128(2).pow_words(0, 16 * (n_parts as u128));
        RangeCheckBuiltinRunner {
            ratio,
            base: 0,
            stop_ptr: None,
            cells_per_instance: 1,
            n_input_cells: 1,
            inner_rc_bound: Felt252::from_u128(0x10000),
            _bound: if n_parts != 0 && bound.is_zero() {
                None
            } else {
                Some(bound)
            },
            n_parts,
            included: true,
        }
    }

    /// Allocates the builtin's segment and remembers its index.
    pub fn initialize_segments(&mut self, segments: &mut MemorySegmentManager, memory: &mut Memory)
        requires
            old(segments).has_room(1),
        ensures
            final(self).base == old(segments).num_segments,
            *final(self) == (RangeCheckBuiltinRunner { base: final(self).base, ..*old(self) }),
            final(segments).num_segments == old(segments).num_segments + 1,
            final(segments).num_temp_segments == old(segments).num_temp_segments,
            final(segments).segment_used_sizes == old(segments).segment_used_sizes,
            final(memory).data@.len() == old(memory).data@.len() + 1,
            final(memory).temp_data == old(memory).temp_data,
            final(memory).validation_rules == old(memory).validation_rules,
            forall|addr: Relocatable| final(memory).cell(addr) == old(memory).cell(addr),
            forall|i: int| #[trigger] final(memory).segment_len(i) == old(memory).segment_len(i),
    {
        self.base = segments.add(memory).segment_index;
    }

    /// The cells that the builtin puts on the initial stack: the first address of
    /// its segment, where the program uses the builtin.
    pub fn initial_stack(&self) -> (r: Vec<MaybeRelocatable>)
        ensures
            self.included ==> r@ == seq![
                MaybeRelocatable::RelocatableValue(
                    Relocatable { segment_index: self.base, offset: 0 },
                ),
            ],
            !self.included ==> r@.len() == 0,
    {
        let mut stack: Vec<MaybeRelocatable> = Vec::new();
        if self.included {
            stack.push(
                MaybeRelocatable::RelocatableValue(
                    Relocatable { segment_index: self.base, offset: 0 },
                ),
            );
        }
        stack
    }

    /// The index of the segment the builtin owns.
    pub fn base(&self) -> (r: isize)
        ensures
            r == self.base,
    {
        self.base
    }

    /// Gives the builtin's segment its rule: every value is a field element
    /// below the bound. Fails where the builtin sits in a temporary segment.
    pub fn add_validation_rule(&self, memory: &mut Memory) -> (r: Result<(), RunnerError>)
        ensures
            self.base < 0 ==> r == Err::<(), RunnerError>(
                RunnerError::RunnerInTemporarySegment(self.base),
            ) && *final(memory) == *old(memory),
            self.base >= 0 ==> r is Ok && final(memory).rule(self.base as int) == Some(
                ValidationRule::RangeCheck(self._bound),
            ) && (forall|i: int| i != self.base ==> final(memory).rule(i) == old(memory).rule(i))
                && final(memory).data == old(memory).data && final(memory).temp_data == old(memory).temp_data && final(memory).validated_addresses == old(memory).validated_addresses,
    {
        if self.base < 0 {
            return Err(RunnerError::RunnerInTemporarySegment(self.base));
        }
        memory.add_validation_rule(self.base as usize, ValidationRule::RangeCheck(self._bound));
        Ok(())
    }

    /// The builtin deduces nothing.
    pub fn deduce_memory_cell(&self, address: &Relocatable, memory: &Memory) -> (r: Result<
        Option<MaybeRelocatable>,
        RunnerError,
    >)
        ensures
            r == Ok::<Option<MaybeRelocatable>, RunnerError>(None),
    {
        Ok(None)
    }

    /// The number of cells in use of the builtin's segment.
    pub fn get_used_cells(&self, segments: &MemorySegmentManager) -> (r: Result<
        usize,
        MemoryError,
    >)
        ensures
            r == used_cells_spec(self.base, *segments),
    {
        used_cells(self.base, segments)
    }

    /// The addresses of the cells in use of the builtin's segment, in order.
    pub fn get_memory_accesses(&self, vm: &VirtualMachine) -> (r: Result<
        Vec<Relocatable>,
        MemoryError,
    >)
        ensures
            match used_cells_spec(self.base, vm.segments) {
                Ok(size) => r matches Ok(v) && v@.len() == size && forall|i: int|
                    0 <= i < size ==> v@[i] == (Relocatable {
                        segment_index: self.base,
                        offset: i as usize,
                    }),
                Err(e) => r == Err::<Vec<Relocatable>, MemoryError>(e),
            },
    {
        memory_accesses(self.base, &vm.segments)
    }

    /// Checks the stop pointer that the program left on the stack below
    /// `pointer`, records it, and returns the address at which the stack goes on.
    pub fn final_stack(
        &mut self,
        segments: &MemorySegmentManager,
        memory: &Memory,
        pointer: Relocatable,
    ) -> (r: Result<Relocatable, RunnerError>)
        requires
            old(self).cells_per_instance != 0,
        ensures
            match final_stack_outcome(
                old(self).base,
                old(self).cells_per_instance as usize,
                old(self).included,
                *segments,
                *memory,
                pointer,
            ) {
                FinalStackOutcome::Stop(stop, next) => r == Ok::<Relocatable, RunnerError>(next)
                    && *final(self) == (RangeCheckBuiltinRunner {
                    stop_ptr: Some(stop),
                    ..*old(self)
                }),
                FinalStackOutcome::NoPointer => r == Err::<Relocatable, RunnerError>(
                    RunnerError::FinalStack,
                ) && *final(self) == *old(self),
                FinalStackOutcome::Invalid => (r matches Err(RunnerError::InvalidStopPointer(n))
                    && n@ == RANGE_CHECK_BUILTIN_NAME@) && *final(self) == *old(self),
                FinalStackOutcome::Overflow => r == Err::<Relocatable, RunnerError>(
                    RunnerError::SizeOverflow,
                ) && *final(self) == *old(self),
                FinalStackOutcome::Temporary => r == Err::<Relocatable, RunnerError>(
                    RunnerError::RunnerInTemporarySegment(old(self).base),
                ) && *final(self) == *old(self),
            },
    {
        match check_final_stack(
            RANGE_CHECK_BUILTIN_NAME,
            self.base,
            self.cells_per_instance as usize,
            self.included,
            segments,
            memory,
            pointer,
        ) {
            Ok((stop, next)) => {
                self.stop_ptr = Some(stop);
                Ok(next)
            },
            Err(e) => Err(e),
        }
    }
}

} // verus!
