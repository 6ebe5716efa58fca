//! The Pedersen hash builtin: the third cell of each instance is the hash of
//! the first two.

use crate::felt::bytes::be_value;
use crate::felt::{prime, Felt252};
use crate::types::errors::memory_errors::MemoryError;
use crate::types::relocatable::{MaybeRelocatable, Relocatable};
use crate::vm::errors::runner_errors::RunnerError;
use crate::vm::runners::builtin_runner::{
    check_final_stack, final_stack_outcome, memory_accesses, used_cells, used_cells_spec,
    FinalStackOutcome, HASH_BUILTIN_NAME,
};
use crate::vm::vm_core::VirtualMachine;
use crate::vm::vm_memory::memory::Memory;
use crate::vm::vm_memory::memory_segments::MemorySegmentManager;
use starknet_crypto::{pedersen_hash, Felt};
use vstd::prelude::*;

verus! {

/// The Pedersen hash of two integers, as `starknet_crypto::pedersen_hash`
/// computes it.
pub uninterp spec fn pedersen_digest(x: nat, y: nat) -> nat;

/// Calls `starknet_crypto::pedersen_hash` on two field elements given as 32
/// big-endian bytes each. The result is named, not described.
#[verifier::external_body]
fn pedersen(x: &[u8; 32], y: &[u8; 32]) -> (r: [u8; 32])
    ensures
        be_value(r@) == pedersen_digest(be_value(x@), be_value(y@)),
{
    pedersen_hash(&Felt::from_bytes_be(x), &Felt::from_bytes_be(y)).to_bytes_be()
}

/// The Pedersen hash of two field elements, as a field element.
pub fn pedersen_felt(x: &Felt252, y: &Felt252) -> (r: Felt252)
    ensures
        r@ == pedersen_digest(x@, y@) % prime(),
{
    let digest = pedersen(&x.to_be_bytes(), &y.to_be_bytes());
    Felt252::from_bytes_be(digest.as_slice())
}

/// The runner of the Pedersen hash builtin.
#[derive(Debug)]
pub struct HashBuiltinRunner {
    pub base: isize,
    pub ratio: usize,
    pub cells_per_instance: usize,
    pub n_input_cells: usize,
    pub stop_ptr: Option<usize>,
    pub included: bool,
    /// The output cells that were deduced already, in order of deduction.
    pub verified_addresses: Vec<Relocatable>,
}

/// The two inputs of the hash whose output cell is `address`: the cells two
/// and one before it, where both hold field elements.
pub open spec fn hash_inputs(memory: Memory, address: Relocatable) -> Option<(nat, nat)> {
    if address.offset < 2 {
        None
    } else {
        match (
            memory.cell(
                Relocatable {
                    segment_index: address.segment_index,
                    offset: (address.offset - 2) as usize,
                },
            ),
            memory.cell(
                Relocatable {
                    segment_index: address.segment_index,
                    offset: (address.offset - 1) as usize,
                },
            ),
        ) {
            (Some(MaybeRelocatable::Int(x)), Some(MaybeRelocatable::Int(y))) => Some((x@, y@)),
            _ => None,
        }
    }
}

/// What the deduction of the cell at `address` gives: the hash of the two
/// cells before it, where `address` is an output cell that was not deduced
/// before and both inputs are there.
pub open spec fn hash_deduction(
    verified: Seq<Relocatable>,
    memory: Memory,
    address: Relocatable,
) -> Option<nat> {
    if address.offset as int % 3 != 2 || verified.contains(address) {
        None
    } else {
        match hash_inputs(memory, address) {
            Some((x, y)) => Some(pedersen_digest(x, y) % prime()),
            None => None,
        }
    }
}

/// Whether `list` holds `address`.
pub fn contains_address(list: &Vec<Relocatable>, address: &Relocatable) -> (r: bool)
    ensures
        r == list@.contains(*address),
{
    let mut i: usize = 0;
    while i < list.len()
        invariant
            i <= list@.len(),
            forall|k: int| 0 <= k < i ==> list@[k] != *address,
        decreases list@.len() - i,
    {
        if list[i] == *address {
            return true;
        }
        i = i + 1;
    }
    false
}

impl HashBuiltinRunner {
    /// A runner with the given ratio, its segment not yet allocated.
    pub fn new(ratio: usize) -> (r: HashBuiltinRunner)
        ensures
            r.base == 0,
            r.ratio == ratio,
            r.cells_per_instance == 3,
            r.n_input_cells == 2,
            r.stop_ptr.is_none(),
            r.included,
            r.verified_addresses@.len() == 0,
    {
        HashBuiltinRunner {
            base: 0,
            ratio,
            cells_per_instance: 3,
            n_input_cells: 2,
            stop_ptr: None,
            included: true,
            verified_addresses: Vec::new(),
        }
    }

    /// Allocates the builtin's segment and remembers its index.
    pub fn initialize_segments(&mut self, segments: &mut MemorySegmentManager, memory: &mut Memory)
        requires
            old(segments).has_room(1),
        ensures
            final(self).base == old(segments).num_segments,
            final(self).ratio == old(self).ratio,
            final(self).cells_per_instance == old(self).cells_per_instance,
            final(self).n_input_cells == old(self).n_input_cells,
            final(self).stop_ptr == old(self).stop_ptr,
            final(self).included == old(self).included,
            final(self).verified_addresses == old(self).verified_addresses,
            final(segments).num_segments == old(segments).num_segments + 1,
            final(segments).num_temp_segments == old(segments).num_temp_segments,
            final(segments).segment_used_sizes == old(segments).segment_used_sizes,
            final(memory).data@.len() == old(memory).data@.len() + 1,
            final(memory).temp_data == old(memory).temp_data,
            final(memory).validation_rules == old(memory).validation_rules,
            forall|addr: Relocatable| final(memory).cell(addr) == old(memory).cell(addr),
            forall|i: int| #[trigger] final(memory).segment_len(i) == old(memory).segment_len(i),
    {
        self.base = segments.add(memory).segment_index;
    }

    /// The cells that the builtin puts on the initial stack: the first address of
    /// its segment, where the program uses the builtin.
    pub fn initial_stack(&self) -> (r: Vec<MaybeRelocatable>)
        ensures
            self.included ==> r@ == seq![
                MaybeRelocatable::RelocatableValue(
                    Relocatable { segment_index: self.base, offset: 0 },
                ),
            ],
            !self.included ==> r@.len() == 0,
    {
        let mut stack: Vec<MaybeRelocatable> = Vec::new();
        if self.included {
            stack.push(
                MaybeRelocatable::RelocatableValue(
                    Relocatable { segment_index: self.base, offset: 0 },
                ),
            );
        }
        stack
    }

    /// The index of the segment the builtin owns.
    pub fn base(&self) -> (r: isize)
        ensures
            r == self.base,
    {
        self.base
    }

    /// The builtin has no rule for the values of its segment.
    pub fn add_validation_rule(&self, memory: &mut Memory) -> (r: Result<(), RunnerError>)
        ensures
            r is Ok,
            *final(memory) == *old(memory),
    {
        Ok(())
    }

    /// Deduces the value of an output cell: the hash of the two cells before
    /// it. Each output cell is deduced once; its address is remembered, and a
    /// later call for it gives nothing.
    pub fn deduce_memory_cell(&mut self, address: &Relocatable, memory: &Memory) -> (r: Result<
        Option<MaybeRelocatable>,
        RunnerError,
    >)
        requires
            old(self).cells_per_instance == 3,
        ensures
            match hash_deduction(old(self).verified_addresses@, *memory, *address) {
                Some(digest) => (r matches Ok(Some(MaybeRelocatable::Int(v))) && v@ == digest)
                    && final(self).verified_addresses@ == old(self).verified_addresses@.push(
                    *address,
                ),
                None => r == Ok::<Option<MaybeRelocatable>, RunnerError>(None) && final(self).verified_addresses@ == old(self).verified_addresses@,
            },
            final(self).base == old(self).base,
            final(self).ratio == old(self).ratio,
            final(self).cells_per_instance == old(self).cells_per_instance,
            final(self).n_input_cells == old(self).n_input_cells,
            final(self).stop_ptr == old(self).stop_ptr,
            final(self).included == old(self).included,
    {
        if address.offset % self.cells_per_instance != 2 || contains_address(
            &self.verified_addresses,
            address,
        ) {
            return Ok(None);
        }
        let first = memory.get(
            &Relocatable { segment_index: address.segment_index, offset: address.offset - 2 },
        );
        let second = memory.get(
            &Relocatable { segment_index: address.segment_index, offset: address.offset - 1 },
        );
        match (first, second) {
            (Some(MaybeRelocatable::Int(x)), Some(MaybeRelocatable::Int(y))) => {
                self.verified_addresses.push(*address);
                Ok(Some(MaybeRelocatable::Int(pedersen_felt(&x, &y))))
            },
            _ => Ok(None),
        }
    }

    /// The number of cells in use of the builtin's segment.
    pub fn get_used_cells(&self, segments: &MemorySegmentManager) -> (r: Result<
        usize,
        MemoryError,
    >)
        ensures
            r == used_cells_spec(self.base, *segments),
    {
        used_cells(self.base, segments)
    }

    /// The addresses of the cells in use of the builtin's segment, in order.
    pub fn get_memory_accesses(&self, vm: &VirtualMachine) -> (r: Result<
        Vec<Relocatable>,
        MemoryError,
    >)
        ensures
            match used_cells_spec(self.base, vm.segments) {
                Ok(size) => r matches Ok(v) && v@.len() == size && forall|i: int|
                    0 <= i < size ==> v@[i] == (Relocatable {
                        segment_index: self.base,
                        offset: i as usize,
                    }),
                Err(e) => r == Err::<Vec<Relocatable>, MemoryError>(e),
            },
    {
        memory_accesses(self.base, &vm.segments)
    }

    /// Checks the stop pointer that the program left on the stack below
    /// `pointer`, records it, and returns the address at which the stack goes on.
    pub fn final_stack(
        &mut self,
        segments: &MemorySegmentManager,
        memory: &Memory,
        pointer: Relocatable,
    ) -> (r: Result<Relocatable, RunnerError>)
        requires
            old(self).cells_per_instance != 0,
        ensures
            final(self).base == old(self).base,
            final(self).included == old(self).included,
            final(self).cells_per_instance == old(self).cells_per_instance,
            final(self).verified_addresses == old(self).verified_addresses,
            match final_stack_outcome(
                old(self).base,
                old(self).cells_per_instance,
                old(self).included,
                *segments,
                *memory,
                pointer,
            ) {
                FinalStackOutcome::Stop(stop, next) => r == Ok::<Relocatable, RunnerError>(next)
                    && final(self).stop_ptr == Some(stop),
                FinalStackOutcome::NoPointer => r == Err::<Relocatable, RunnerError>(
                    RunnerError::FinalStack,
                ) && final(self).stop_ptr == old(self).stop_ptr,
                FinalStackOutcome::Invalid => (r matches Err(RunnerError::InvalidStopPointer(n))
                    && n@ == HASH_BUILTIN_NAME@) && final(self).stop_ptr == old(self).stop_ptr,
                FinalStackOutcome::Overflow => r == Err::<Relocatable, RunnerError>(
                    RunnerError::SizeOverflow,
                ) && final(self).stop_ptr == old(self).stop_ptr,
                FinalStackOutcome::Temporary => r == Err::<Relocatable, RunnerError>(
                    RunnerError::RunnerInTemporarySegment(old(self).base),
                ) && final(self).stop_ptr == old(self).stop_ptr,
            },
    {
        match check_final_stack(
            HASH_BUILTIN_NAME,
            self.base,
            self.cells_per_instance,
            self.included,
            segments,
            memory,
            pointer,
        ) {
            Ok((stop, next)) => {
                self.stop_ptr = Some(stop);
                Ok(next)
            },
            Err(e) => Err(e),
        }
    }
}

/// A deduction runs once per address. After the deduction of an output cell
/// has given a value, its address is among the verified ones, and the deduction
/// of the same cell gives nothing, whatever memory holds.
pub proof fn law_deduction_memoized(
    verified: Seq<Relocatable>,
    memory: Memory,
    later: Memory,
    address: Relocatable,
)
    requires
        hash_deduction(verified, memory, address) is Some,
    ensures
        hash_deduction(verified.push(address), later, address) is None,
{
    assert(verified.push(address).last() == address);
}

} // verus!
