//! The output builtin: a segment that the program writes its results to.

use crate::types::errors::memory_errors::MemoryError;
use crate::types::relocatable::{MaybeRelocatable, Relocatable};
use crate::vm::errors::runner_errors::RunnerError;
use crate::vm::runners::builtin_runner::{
    check_final_stack, final_stack_outcome, memory_accesses, used_cells, used_cells_spec,
    FinalStackOutcome, OUTPUT_BUILTIN_NAME,
};
use crate::vm::vm_core::VirtualMachine;
use crate::vm::vm_memory::memory::Memory;
use crate::vm::vm_memory::memory_segments::MemorySegmentManager;
use vstd::prelude::*;

verus! {

/// The runner of the output builtin.
#[derive(Debug, Clone, Copy, PartialEq, Eq, Structural)]
pub struct OutputBuiltinRunner {
    pub base: isize,
    pub stop_ptr: Option<usize>,
    pub included: bool,
}

impl OutputBuiltinRunner {
    /// A runner whose segment is not yet allocated.
    pub fn new(included: bool) -> (r: OutputBuiltinRunner)
        ensures
            r == (OutputBuiltinRunner { base: 0, stop_ptr: None, included }),
    {
        OutputBuiltinRunner { base: 0, stop_ptr: None, included }
    }

    /// Allocates the builtin's segment and remembers its index.
    pub fn initialize_segments(&mut self, segments: &mut MemorySegmentManager, memory: &mut Memory)
        requires
            old(segments).has_room(1),
        ensures
            final(self).base == old(segments).num_segments,
            *final(self) == (OutputBuiltinRunner { base: final(self).base, ..*old(self) }),
            final(segments).num_segments == old(segments).num_segments + 1,
            final(segments).num_temp_segments == old(segments).num_temp_segments,
            final(segments).segment_used_sizes == old(segments).segment_used_sizes,
            final(memory).data@.len() == old(memory).data@.len() + 1,
            final(memory).temp_data == old(memory).temp_data,
            final(memory).validation_rules == old(memory).validation_rules,
            forall|addr: Relocatable| final(memory).cell(addr) == old(memory).cell(addr),
            forall|i: int| #[trigger] final(memory).segment_len(i) == old(memory).segment_len(i),
    {
        self.base = segments.add(memory).segment_index;
    }

    /// The cells that the builtin puts on the initial stack: the first address of
    /// its segment, where the program uses the builtin.
    pub fn initial_stack(&self) -> (r: Vec<MaybeRelocatable>)
        ensures
            self.included ==> r@ == seq![
                MaybeRelocatable::RelocatableValue(
                    Relocatable { segment_index: self.base, offset: 0 },
                ),
            ],
            !self.included ==> r@.len() == 0,
    {
        let mut stack: Vec<MaybeRelocatable> = Vec::new();
        if self.included {
            stack.push(
                MaybeRelocatable::RelocatableValue(
                    Relocatable { segment_index: self.base, offset: 0 },
                ),
            );
        }
        stack
    }

    /// The index of the segment the builtin owns.
    pub fn base(&self) -> (r: isize)
        ensures
            r == self.base,
    {
        self.base
    }

    /// The builtin has no rule for the values of its segment.
    pub fn add_validation_rule(&self, memory: &mut Memory) -> (r: Result<(), RunnerError>)
        ensures
            r is Ok,
            *final(memory) == *old(memory),
    {
        Ok(())
    }

    /// The builtin deduces nothing.
    pub fn deduce_memory_cell(&self, address: &Relocatable, memory: &Memory) -> (r: Result<
        Option<MaybeRelocatable>,
        RunnerError,
    >)
        ensures
            r == Ok::<Option<MaybeRelocatable>, RunnerError>(None),
    {
        Ok(None)
    }

    /// The number of cells in use of the builtin's segment.
    pub fn get_used_cells(&self, segments: &MemorySegmentManager) -> (r: Result<
        usize,
        MemoryError,
    >)
        ensures
            r == used_cells_spec(self.base, *segments),
    {
        used_cells(self.base, segments)
    }

    /// The addresses of the cells in use of the builtin's segment, in order.
    pub fn get_memory_accesses(&self, vm: &VirtualMachine) -> (r: Result<
        Vec<Relocatable>,
        MemoryError,
    >)
        ensures
            match used_cells_spec(self.base, vm.segments) {
                Ok(size) => r matches Ok(v) && v@.len() == size && forall|i: int|
                    0 <= i < size ==> v@[i] == (Relocatable {
                        segment_index: self.base,
                        offset: i as usize,
                    }),
                Err(e) => r == Err::<Vec<Relocatable>, MemoryError>(e),
            },
    {
        memory_accesses(self.base, &vm.segments)
    }

    /// Checks the stop pointer that the program left on the stack below
    /// `pointer`, records it, and returns the address at which the stack goes on.
    pub fn final_stack(
        &mut self,
        segments: &MemorySegmentManager,
        memory: &Memory,
        pointer: Relocatable,
    ) -> (r: Result<Relocatable, RunnerError>)
        ensures
            match final_stack_outcome(
                old(self).base,
                1,
                old(self).included,
                *segments,
                *memory,
                pointer,
            ) {
                FinalStackOutcome::Stop(stop, next) => r == Ok::<Relocatable, RunnerError>(next)
                    && *final(self) == (OutputBuiltinRunner {
                    stop_ptr: Some(stop),
                    ..*old(self)
                }),
                FinalStackOutcome::NoPointer => r == Err::<Relocatable, RunnerError>(
                    RunnerError::FinalStack,
                ) && *final(self) == *old(self),
                FinalStackOutcome::Invalid => (r matches Err(RunnerError::InvalidStopPointer(n))
                    && n@ == OUTPUT_BUILTIN_NAME@) && *final(self) == *old(self),
                FinalStackOutcome::Overflow => r == Err::<Relocatable, RunnerError>(
                    RunnerError::SizeOverflow,
                ) && *final(self) == *old(self),
                FinalStackOutcome::Temporary => r == Err::<Relocatable, RunnerError>(
                    RunnerError::RunnerInTemporarySegment(old(self).base),
                ) && *final(self) == *old(self),
            },
    {
        match check_final_stack(
            OUTPUT_BUILTIN_NAME,
            self.base,
            1,
            self.included,
            segments,
            memory,
            pointer,
        ) {
            Ok((stop, next)) => {
                self.stop_ptr = Some(stop);
                Ok(next)
            },
            Err(e) => Err(e),
        }
    }
}

} // verus!
