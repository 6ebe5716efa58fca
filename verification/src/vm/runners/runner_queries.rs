//! What can be asked of a runner besides running: its constants, its
//! references as the hints use them, and the memory holes of a finished run.

use crate::felt::Felt252;
use crate::hint_processor::hint_processor_definition::{hint_reference_of, HintReference};
use crate::types::errors::memory_errors::MemoryError;
use crate::types::relocatable::Relocatable;
use crate::vm::runners::builtin_runner::used_cells_spec;
use crate::vm::runners::cairo_runner::CairoRunner;
use crate::vm::vm_core::VirtualMachine;
use crate::vm::vm_memory::memory_holes::memory_holes;
use vstd::prelude::*;

verus! {

/// The addresses of the first `size` cells of segment `base`, in order.
pub open spec fn cells_of_segment(base: isize, size: usize) -> Seq<Relocatable> {
    Seq::new(size as nat, |i: int| Relocatable { segment_index: base, offset: i as usize })
}

/// The addresses that the first `n` builtins of the machine account for: the
/// cells in use of their segments, builtin after builtin. Fails with the error
/// of the first builtin whose cells cannot be counted.
pub open spec fn builtin_accesses(vm: VirtualMachine, n: int) -> Result<
    Seq<Relocatable>,
    MemoryError,
>
    decreases n,
{
    if n <= 0 {
        Ok(Seq::empty())
    } else {
        match builtin_accesses(vm, n - 1) {
            Err(e) => Err(e),
            Ok(list) => {
                let base = vm.builtin_runners@[n - 1].base_spec();
                match used_cells_spec(base, vm.segments) {
                    Ok(size) => Ok(list + cells_of_segment(base, size)),
                    Err(e) => Err(e),
                }
            },
        }
    }
}

/// What `get_memory_holes` returns.
pub open spec fn runner_memory_holes(runner: CairoRunner, vm: VirtualMachine) -> Result<
    usize,
    MemoryError,
> {
    match runner.accessed_addresses {
        None => Err(MemoryError::MissingAccessedAddresses),
        Some(accessed) => match builtin_accesses(vm, vm.builtin_runners@.len() as int) {
            Err(e) => Err(e),
            Ok(list) => match vm.segments.segment_used_sizes {
                Some(sizes) => memory_holes(sizes@, list + accessed@),
                None => Err(MemoryError::MissingSegmentUsedSizes),
            },
        },
    }
}

impl CairoRunner {
    /// The constants of the program.
    pub fn get_constants(&self) -> (r: &Vec<(String, Felt252)>)
        ensures
            *r == self.program.constants,
    {
        &self.program.constants
    }

    /// The references of the program as the hints use them, in the order of the
    /// program.
    pub fn get_reference_list(&self) -> (r: Vec<HintReference>)
        ensures
            r@.len() == self.program.shared_program_data.reference_manager.references@.len(),
            forall|i: int|
                0 <= i < r@.len() ==> #[trigger] r@[i] == hint_reference_of(
                    self.program.shared_program_data.reference_manager.references@[i],
                ),
    {
        let references = &self.program.shared_program_data.reference_manager.references;
        let mut out: Vec<HintReference> = Vec::new();
        let mut i: usize = 0;
        while i < references.len()
            invariant
                i <= references@.len(),
                out@.len() == i,
                forall|k: int|
                    0 <= k < i ==> #[trigger] out@[k] == hint_reference_of(references@[k]),
            decreases references@.len() - i,
        {
            out.push(HintReference::from_reference(&references[i]));
            i = i + 1;
        }
        out
    }

    /// The number of memory holes of the finished run: the cells in use that
    /// neither an instruction nor a builtin accessed, over the segments in which
    /// something was accessed.
    pub fn get_memory_holes(&self, vm: &VirtualMachine) -> (r: Result<usize, MemoryError>)
        ensures
            r == runner_memory_holes(*self, *vm),
    {
        let accessed = match &self.accessed_addresses {
            Some(accessed) => accessed,
            None => {
                return Err(MemoryError::MissingAccessedAddresses);
            },
        };
        let mut list: Vec<Relocatable> = Vec::new();
        let mut i: usize = 0;
        while i < vm.builtin_runners.len()
            invariant
                i <= vm.builtin_runners@.len(),
                self.accessed_addresses == Some(*accessed),
                builtin_accesses(*vm, i as int) == Ok::<Seq<Relocatable>, MemoryError>(list@),
            decreases vm.builtin_runners@.len() - i,
        {
            let mut cells = match vm.builtin_runners[i].get_memory_accesses(vm) {
                Ok(cells) => cells,
                Err(e) => {
                    proof {
                        lemma_builtin_accesses_fail(*vm, i + 1, vm.builtin_runners@.len() as int);
                    }
                    return Err(e);
                },
            };
            proof {
                let base = vm.builtin_runners@[i as int].base_spec();
                assert(cells@ =~= cells_of_segment(base, cells@.len() as usize));
            }
            list.append(&mut cells);
            i = i + 1;
        }
        let mut k: usize = 0;
        let ghost from_builtins = list@;
        while k < accessed.len()
            invariant
                k <= accessed@.len(),
                self.accessed_addresses == Some(*accessed),
                builtin_accesses(*vm, vm.builtin_runners@.len() as int) == Ok::<
                    Seq<Relocatable>,
                    MemoryError,
                >(from_builtins),
                list@ == from_builtins + accessed@.take(k as int),
            decreases accessed@.len() - k,
        {
            list.push(accessed[k]);
            assert(accessed@.take(k + 1) =~= accessed@.take(k as int).push(accessed@[k as int]));
            assert(list@ =~= from_builtins + accessed@.take(k + 1));
            k = k + 1;
        }
        assert(accessed@.take(accessed@.len() as int) =~= accessed@);
        vm.segments.get_memory_holes(&list)
    }
}

/// Once the builtins up to `n` cannot be accounted for, no longer list can.
pub proof fn lemma_builtin_accesses_fail(vm: VirtualMachine, n: int, m: int)
    requires
        0 <= n <= m,
        builtin_accesses(vm, n) is Err,
    ensures
        builtin_accesses(vm, m) == builtin_accesses(vm, n),
    decreases m,
{
    if n < m {
        lemma_builtin_accesses_fail(vm, n, m - 1);
    }
}

} // verus!
