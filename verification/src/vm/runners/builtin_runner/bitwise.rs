//! The bitwise builtin: from two inputs it deduces their AND, XOR and OR.

use crate::felt::bytes::bit_length;
use crate::felt::ops::{bitand_value, bitor_value, bitxor_value};
use crate::felt::prime;
use crate::types::errors::memory_errors::MemoryError;
use crate::types::relocatable::{MaybeRelocatable, Relocatable};
use crate::vm::errors::runner_errors::RunnerError;
use crate::vm::runners::builtin_runner::{
    check_final_stack, final_stack_outcome, memory_accesses, used_cells, used_cells_spec,
    FinalStackOutcome, BITWISE_BUILTIN_NAME,
};
use crate::vm::vm_core::VirtualMachine;
use crate::vm::vm_memory::memory::Memory;
use crate::vm::vm_memory::memory_segments::MemorySegmentManager;
use vstd::prelude::*;

verus! {

/// The runner of the bitwise builtin.
#[derive(Debug, Clone, Copy, PartialEq, Eq, Structural)]
pub struct BitwiseBuiltinRunner {
    pub ratio: u32,
    pub base: isize,
    pub cells_per_instance: u32,
    pub n_input_cells: u32,
    /// The number of bits an input may have.
    pub total_n_bits: u32,
    pub stop_ptr: Option<usize>,
    pub included: bool,
}

/// What the deduction of a cell of the builtin's segment comes to.
pub enum BitwiseDeduction {
    /// The cell is no output cell, or an input is not there: nothing is known.
    Nothing,
    /// The input at this offset of the instance has too many bits.
    TooBig(int),
    /// The output is this value.
    Value(nat),
}

/// The deduction of the cell at `address`. An instance has five cells: two
/// inputs `x` and `y`, then `x & y`, `x ^ y` and `x | y`.
pub open spec fn bitwise_deduction(
    memory: Memory,
    address: Relocatable,
    total_n_bits: u32,
) -> BitwiseDeduction {
    let index = address.offset as int % 5;
    let x_addr = Relocatable {
        segment_index: address.segment_index,
        offset: (address.offset - index) as usize,
    };
    let y_addr = Relocatable {
        segment_index: address.segment_index,
        offset: (address.offset - index + 1) as usize,
    };
    if index <= 1 {
        BitwiseDeduction::Nothing
    } else {
        match (memory.cell(x_addr), memory.cell(y_addr)) {
            (Some(MaybeRelocatable::Int(x)), Some(MaybeRelocatable::Int(y))) => {
                if bit_length(x@) > total_n_bits {
                    BitwiseDeduction::TooBig(0)
                } else if bit_length(y@) > total_n_bits {
                    BitwiseDeduction::TooBig(1)
                } else if index == 2 {
                    BitwiseDeduction::Value(bitand_value(x, y))
                } else if index == 3 {
                    BitwiseDeduction::Value(bitxor_value(x, y) % prime())
                } else {
                    BitwiseDeduction::Value(bitor_value(x, y) % prime())
                }
            },
            _ => BitwiseDeduction::Nothing,
        }
    }
}

impl BitwiseBuiltinRunner {
    /// A runner with the given ratio for inputs of 251 bits, its segment not
    /// yet allocated.
    pub fn new(ratio: u32, included: bool) -> (r: BitwiseBuiltinRunner)
        ensures
            r == (BitwiseBuiltinRunner {
                ratio,
                base: 0,
                cells_per_instance: 5,
                n_input_cells: 2,
                total_n_bits: 251,
                stop_ptr: None,
                included,
            }),
    {
        BitwiseBuiltinRunner {
            ratio,
            base: 0,
            cells_per_instance: 5,
            n_input_cells: 2,
            total_n_bits: 251,
            stop_ptr: None,
            included,
        }
    }

    /// Allocates the builtin's segment and remembers its index.
    pub fn initialize_segments(&mut self, segments: &mut MemorySegmentManager, memory: &mut Memory)
        requires
            old(segments).has_room(1),
        ensures
            final(self).base == old(segments).num_segments,
            *final(self) == (BitwiseBuiltinRunner { base: final(self).base, ..*old(self) }),
            final(segments).num_segments == old(segments).num_segments + 1,
            final(segments).num_temp_segments == old(segments).num_temp_segments,
            final(segments).segment_used_sizes == old(segments).segment_used_sizes,
            final(memory).data@.len() == old(memory).data@.len() + 1,
            final(memory).temp_data == old(memory).temp_data,
            final(memory).validation_rules == old(memory).validation_rules,
            forall|addr: Relocatable| final(memory).cell(addr) == old(memory).cell(addr),
            forall|i: int| #[trigger] final(memory).segment_len(i) == old(memory).segment_len(i),
    {
        self.base = segments.add(memory).segment_index;
    }

    /// The cells that the builtin puts on the initial stack: the first address of
    /// its segment, where the program uses the builtin.
    pub fn initial_stack(&self) -> (r: Vec<MaybeRelocatable>)
        ensures
            self.included ==> r@ == seq![
                MaybeRelocatable::RelocatableValue(
                    Relocatable { segment_index: self.base, offset: 0 },
                ),
            ],
            !self.included ==> r@.len() == 0,
    {
        let mut stack: Vec<MaybeRelocatable> = Vec::new();
        if self.included {
            stack.push(
                MaybeRelocatable::RelocatableValue(
                    Relocatable { segment_index: self.base, offset: 0 },
                ),
            );
        }
        stack
    }

    /// The index of the segment the builtin owns.
    pub fn base(&self) -> (r: isize)
        ensures
            r == self.base,
    {
        self.base
    }

    /// The builtin has no rule for the values of its segment.
    pub fn add_validation_rule(&self, memory: &mut Memory) -> (r: Result<(), RunnerError>)
        ensures
            r is Ok,
            *final(memory) == *old(memory),
    {
        Ok(())
    }

    /// Deduces an output cell from the two inputs of its instance.
    pub fn deduce_memory_cell(&self, address: &Relocatable, memory: &Memory) -> (r: Result<
        Option<MaybeRelocatable>,
        RunnerError,
    >)
        requires
            self.cells_per_instance == 5,
        ensures
            match bitwise_deduction(*memory, *address, self.total_n_bits) {
                BitwiseDeduction::Nothing => r == Ok::<Option<MaybeRelocatable>, RunnerError>(
                    None,
                ),
                BitwiseDeduction::TooBig(i) => r matches Err(
                    RunnerError::IntegerBiggerThanPowerOfTwo(at, bits, num),
                ) && at == MaybeRelocatable::RelocatableValue(
                    Relocatable {
                        segment_index: address.segment_index,
                        offset: (address.offset - address.offset % 5 + i) as usize,
                    },
                ) && bits == self.total_n_bits && memory.cell(
                    Relocatable {
                        segment_index: address.segment_index,
                        offset: (address.offset - address.offset % 5 + i) as usize,
                    },
                ) == Some(MaybeRelocatable::Int(num)),
                BitwiseDeduction::Value(v) => r matches Ok(Some(MaybeRelocatable::Int(out)))
                    && out@ == v,
            },
    {
        let index: usize = address.offset % (self.cells_per_instance as usize);
        if index <= 1 {
            return Ok(None);
        }
        let x_addr = Relocatable {
            segment_index: address.segment_index,
            offset: address.offset - index,
        };
        let y_addr = Relocatable {
            segment_index: address.segment_index,
            offset: address.offset - index + 1,
        };
        match (memory.get(&x_addr), memory.get(&y_addr)) {
            (Some(MaybeRelocatable::Int(x)), Some(MaybeRelocatable::Int(y))) => {
                if x.bits() > self.total_n_bits as u64 {
                    return Err(
                        RunnerError::IntegerBiggerThanPowerOfTwo(
                            MaybeRelocatable::RelocatableValue(x_addr),
                            self.total_n_bits,
                            x,
                        ),
                    );
                }
                if y.bits() > self.total_n_bits as u64 {
                    return Err(
                        RunnerError::IntegerBiggerThanPowerOfTwo(
                            MaybeRelocatable::RelocatableValue(y_addr),
                            self.total_n_bits,
                            y,
                        ),
                    );
                }
                if index == 2 {
                    Ok(Some(MaybeRelocatable::Int(x.bitand(&y))))
                } else if index == 3 {
                    Ok(Some(MaybeRelocatable::Int(x.bitxor(&y))))
                } else {
                    Ok(Some(MaybeRelocatable::Int(x.bitor(&y))))
                }
            },
            _ => Ok(None),
        }
    }

    /// The number of cells in use of the builtin's segment.
    pub fn get_used_cells(&self, segments: &MemorySegmentManager) -> (r: Result<
        usize,
        MemoryError,
    >)
        ensures
            r == used_cells_spec(self.base, *segments),
    {
        used_cells(self.base, segments)
    }

    /// The addresses of the cells in use of the builtin's segment, in order.
    pub fn get_memory_accesses(&self, vm: &VirtualMachine) -> (r: Result<
        Vec<Relocatable>,
        MemoryError,
    >)
        ensures
            match used_cells_spec(self.base, vm.segments) {
                Ok(size) => r matches Ok(v) && v@.len() == size && forall|i: int|
                    0 <= i < size ==> v@[i] == (Relocatable {
                        segment_index: self.base,
                        offset: i as usize,
                    }),
                Err(e) => r == Err::<Vec<Relocatable>, MemoryError>(e),
            },
    {
        memory_accesses(self.base, &vm.segments)
    }

    /// Checks the stop pointer that the program left on the stack below
    /// `pointer`, records it, and returns the address at which the stack goes on.
    pub fn final_stack(
        &mut self,
        segments: &MemorySegmentManager,
        memory: &Memory,
        pointer: Relocatable,
    ) -> (r: Result<Relocatable, RunnerError>)
        requires
            old(self).cells_per_instance != 0,
        ensures
            match final_stack_outcome(
                old(self).base,
                old(self).cells_per_instance as usize,
                old(self).included,
                *segments,
                *memory,
                pointer,
            ) {
                FinalStackOutcome::Stop(stop, next) => r == Ok::<Relocatable, RunnerError>(next)
                    && *final(self) == (BitwiseBuiltinRunner {
                    stop_ptr: Some(stop),
                    ..*old(self)
                }),
                FinalStackOutcome::NoPointer => r == Err::<Relocatable, RunnerError>(
                    RunnerError::FinalStack,
                ) && *final(self) == *old(self),
                FinalStackOutcome::Invalid => (r matches Err(RunnerError::InvalidStopPointer(n))
                    && n@ == BITWISE_BUILTIN_NAME@) && *final(self) == *old(self),
                FinalStackOutcome::Overflow => r == Err::<Relocatable, RunnerError>(
                    RunnerError::SizeOverflow,
                ) && *final(self) == *old(self),
                FinalStackOutcome::Temporary => r == Err::<Relocatable, RunnerError>(
                    RunnerError::RunnerInTemporarySegment(old(self).base),
                ) && *final(self) == *old(self),
            },
    {
        match check_final_stack(
            BITWISE_BUILTIN_NAME,
            self.base,
            self.cells_per_instance as usize,
            self.included,
            segments,
            memory,
            pointer,
        ) {
            Ok((stop, next)) => {
                self.stop_ptr = Some(stop);
                Ok(next)
            },
            Err(e) => Err(e),
        }
    }
}

} // verus!
