//! The runner: it sets a program up in a machine, runs it to its end and
//! relocates memory and trace.

use crate::felt::big::radix_digits;
use crate::felt::Felt252;
use crate::serde::deserialize_program::BuiltinName;
use crate::types::errors::memory_errors::MemoryError;
use crate::types::instance_definitions::ec_op_instance_def::EcOpInstanceDef;
use crate::types::program::Program;
use crate::types::relocatable::{
    relocate_address_spec, relocate_value, MaybeRelocatable, Relocatable,
};
use crate::vm::errors::runner_errors::RunnerError;
use crate::vm::errors::trace_errors::TraceError;
use crate::vm::errors::vm_errors::VirtualMachineError;
use crate::vm::runners::builtin_runner::range_check::lemma_bound_of_eight_parts;
use crate::vm::runners::builtin_runner::{
    BitwiseBuiltinRunner, BuiltinRunner, EcOpBuiltinRunner, HashBuiltinRunner,
    OutputBuiltinRunner, RangeCheckBuiltinRunner,
};
use crate::vm::trace::trace_entry::{
    relocate_trace_register, relocated_register, RelocatedTraceEntry,
};
use crate::vm::vm_core::{current_instruction, stepped, RunContext, TraceEntry, VirtualMachine};
use crate::vm::vm_memory::memory::{cell_of, Memory, ValidationRule};
use crate::vm::vm_memory::memory_segments::{
    base_of, blank, lemma_blank_is_loadable, load_verdict, loadable, nth_after,
};
use vstd::prelude::*;
use vstd::string::StringExecFns;

verus! {

/// The place of a builtin in the canonical order; negative for a builtin that
/// has no place in it.
pub open spec fn rank(builtin: BuiltinName) -> int {
    match builtin {
        BuiltinName::output => 0,
        BuiltinName::pedersen => 1,
        BuiltinName::range_check => 2,
        BuiltinName::ecdsa => 3,
        BuiltinName::bitwise => 4,
        BuiltinName::ec_op => 5,
        BuiltinName::poseidon => 6,
        BuiltinName::segment_arena => 7,
        BuiltinName::keccak => -1,
    }
}

/// Whether the builtins are a subsequence of the canonical order: each has a
/// place in it, and the places grow.
pub open spec fn in_canonical_order(builtins: Seq<BuiltinName>) -> bool {
    &&& forall|i: int| 0 <= i < builtins.len() ==> rank(#[trigger] builtins[i]) >= 0
    &&& forall|i: int, j: int|
        0 <= i < j < builtins.len() ==> rank(#[trigger] builtins[i]) < rank(#[trigger] builtins[j])
}

/// The place of a builtin in the canonical order.
pub fn canonical_rank(builtin: BuiltinName) -> (r: i8)
    ensures
        r == rank(builtin),
{
    match builtin {
        BuiltinName::output => 0,
        BuiltinName::pedersen => 1,
        BuiltinName::range_check => 2,
        BuiltinName::ecdsa => 3,
        BuiltinName::bitwise => 4,
        BuiltinName::ec_op => 5,
        BuiltinName::poseidon => 6,
        BuiltinName::segment_arena => 7,
        BuiltinName::keccak => -1,
    }
}

/// Whether the builtins are declared in the canonical order.
pub fn is_ordered(builtins: &Vec<BuiltinName>) -> (r: bool)
    ensures
        r == in_canonical_order(builtins@),
{
    let mut last: i8 = -1;
    let mut i: usize = 0;
    while i < builtins.len()
        invariant
            i <= builtins@.len(),
            -1 <= last <= 7,
            in_canonical_order(builtins@.take(i as int)),
            forall|k: int| 0 <= k < i ==> rank(#[trigger] builtins@[k]) <= last,
            i == 0 ==> last == -1,
            i > 0 ==> last == rank(builtins@[i - 1]),
        decreases builtins@.len() - i,
    {
        let place = canonical_rank(builtins[i]);
        if place <= last {
            proof {
                if in_canonical_order(builtins@) {
                    assert(rank(builtins@[i as int]) >= 0);
                    if i > 0 {
                        assert(rank(builtins@[i - 1]) < rank(builtins@[i as int]));
                    }
                }
            }
            return false;
        }
        proof {
            let before = builtins@.take(i as int);
            let after = builtins@.take(i + 1);
            assert forall|a: int, b: int| 0 <= a < b < after.len() implies rank(
                #[trigger] after[a],
            ) < rank(#[trigger] after[b]) by {
                if b < i {
                    assert(before[a] == after[a] && before[b] == after[b]);
                } else {
                    assert(after[a] == builtins@[a]);
                }
            }
            assert forall|a: int| 0 <= a < after.len() implies rank(#[trigger] after[a]) >= 0 by {
                if a < i {
                    assert(before[a] == after[a]);
                }
            }
        }
        last = place;
        i = i + 1;
    }
    proof {
        assert(builtins@.take(builtins@.len() as int) =~= builtins@);
    }
    true
}

/// Whether this machine has a runner for the builtin.
pub open spec fn supported(builtin: BuiltinName) -> bool {
    builtin == BuiltinName::output || builtin == BuiltinName::pedersen || builtin
        == BuiltinName::range_check || builtin == BuiltinName::bitwise || builtin
        == BuiltinName::ec_op
}

/// The names of the runners made for the first `n` builtins: one for each that
/// the machine supports, in order.
pub open spec fn runner_names(builtins: Seq<BuiltinName>, n: int) -> Seq<Seq<char>>
    decreases n,
{
    if n <= 0 {
        Seq::empty()
    } else if supported(builtins[n - 1]) {
        runner_names(builtins, n - 1).push(builtins[n - 1].name_spec())
    } else {
        runner_names(builtins, n - 1)
    }
}

/// The names of a list of runners.
pub open spec fn names_of(runners: Seq<BuiltinRunner>) -> Seq<Seq<char>> {
    Seq::new(runners.len(), |i: int| runners[i].name_spec())
}

/// Whether the runner is as the machine makes it for a program: it has
/// neither segment nor stop pointer yet, the program uses it, and its
/// parameters are those of its kind. The output builtin has none; the hash
/// builtin takes an instance of three cells every 8 steps; the range check
/// holds values of eight parts of sixteen bits, so below `2^128`, every 8
/// steps; the bitwise builtin takes inputs of 251 bits every 256 steps; the
/// curve builtin runs 256 rounds on scalars of 252 bits every 256 steps.
pub open spec fn as_made(runner: BuiltinRunner) -> bool {
    match runner {
        BuiltinRunner::Output(b) => b == (OutputBuiltinRunner {
            base: 0,
            stop_ptr: None,
            included: true,
        }),
        BuiltinRunner::Hash(b) => b.base == 0 && b.ratio == 8 && b.cells_per_instance == 3
            && b.n_input_cells == 2 && b.stop_ptr is None && b.included
            && b.verified_addresses@.len() == 0,
        BuiltinRunner::RangeCheck(b) => b.base == 0 && b.ratio == 8 && b.cells_per_instance == 1
            && b.n_input_cells == 1 && b.stop_ptr is None && b.included && b.n_parts == 8
            && b.inner_rc_bound@ == 0x10000 && (b._bound matches Some(bound) && bound@
            == u128::MAX + 1),
        BuiltinRunner::Bitwise(b) => b == (BitwiseBuiltinRunner {
            ratio: 256,
            base: 0,
            cells_per_instance: 5,
            n_input_cells: 2,
            total_n_bits: 251,
            stop_ptr: None,
            included: true,
        }),
        BuiltinRunner::EcOp(b) => b == (EcOpBuiltinRunner {
            base: 0,
            ratio: 256,
            n_input_cells: 5,
            cells_per_instance: 7,
            ec_op_builtin: EcOpInstanceDef { ratio: 256, scalar_height: 256, scalar_bits: 252 },
            stop_ptr: None,
            included: true,
            instances_per_component: 1,
        }),
    }
}

/// Whether every runner of the list is as the machine makes it.
pub open spec fn all_as_made(runners: Seq<BuiltinRunner>) -> bool {
    forall|i: int| 0 <= i < runners.len() ==> as_made(#[trigger] runners[i])
}

/// Whether every runner of the list is as its constructor leaves it: the
/// program uses it, and it has neither segment nor stop pointer yet.
pub open spec fn all_fresh(runners: Seq<BuiltinRunner>) -> bool {
    forall|i: int|
        0 <= i < runners.len() ==> (#[trigger] runners[i]).well_formed() && runners[i].included_spec()
            && runners[i].base_spec() == 0 && runners[i].stop_ptr_spec().is_none()
}

/// The runner: the program and where it was put in the machine.
#[derive(Debug)]
pub struct CairoRunner {
    pub program: Program,
    pub layout: String,
    /// The program counter at which the run is over.
    pub final_pc: Option<Relocatable>,
    pub program_base: Option<Relocatable>,
    pub execution_base: Option<Relocatable>,
    pub initial_ap: Option<Relocatable>,
    pub initial_fp: Option<Relocatable>,
    pub initial_pc: Option<Relocatable>,
    /// The addresses that the run read or wrote, once it is over.
    pub accessed_addresses: Option<Vec<Relocatable>>,
    /// Memory as one sequence of cells, once relocated. Address 0 is not used.
    pub relocated_memory: Vec<Option<Felt252>>,
    /// The trace with linear addresses, once relocated.
    pub relocated_trace: Option<Vec<RelocatedTraceEntry>>,
}

impl CairoRunner {
    /// A runner for `program`, with nothing set up yet.
    pub fn new(program: Program) -> (r: Result<CairoRunner, RunnerError>)
        ensures
            r matches Ok(runner) && runner.program == program && runner.layout@ == "plain"@
                && runner.final_pc.is_none() && runner.program_base.is_none()
                && runner.execution_base.is_none() && runner.initial_ap.is_none()
                && runner.initial_fp.is_none() && runner.initial_pc.is_none()
                && runner.accessed_addresses.is_none() && runner.relocated_memory@.len() == 0
                && runner.relocated_trace.is_none(),
    {
        Ok(
            CairoRunner {
                program,
                layout: String::from_str("plain"),
                final_pc: None,
                program_base: None,
                execution_base: None,
                initial_ap: None,
                initial_fp: None,
                initial_pc: None,
                accessed_addresses: None,
                relocated_memory: Vec::new(),
                relocated_trace: None,
            },
        )
    }

    /// Gives the machine one runner for each builtin that the program declares
    /// and the machine supports. The builtins must be declared in the canonical
    /// order; where they are not, the machine is left untouched.
    pub fn initialize_builtins(&self, vm: &mut VirtualMachine) -> (r: Result<(), RunnerError>)
        ensures
            !in_canonical_order(self.program.builtins@) ==> r == Err::<(), RunnerError>(
                RunnerError::DisorderedBuiltins,
            ) && *final(vm) == *old(vm),
            in_canonical_order(self.program.builtins@) ==> r is Ok && names_of(
                final(vm).builtin_runners@,
            ) == runner_names(self.program.builtins@, self.program.builtins@.len() as int)
                && all_fresh(final(vm).builtin_runners@) && all_as_made(
                final(vm).builtin_runners@,
            ),
            final(vm).run_context == old(vm).run_context,
            final(vm).segments == old(vm).segments,
            final(vm).memory == old(vm).memory,
            final(vm).trace == old(vm).trace,
            final(vm).current_step == old(vm).current_step,
            r is Ok ==> final(vm).builtin_runners@.len() <= self.program.builtins@.len(),
    {
        if !is_ordered(&self.program.builtins) {
            return Err(RunnerError::DisorderedBuiltins);
        }
        let mut builtin_runners: Vec<BuiltinRunner> = Vec::new();
        let mut i: usize = 0;
        while i < self.program.builtins.len()
            invariant
                i <= self.program.builtins@.len(),
                builtin_runners@.len() <= i,
                names_of(builtin_runners@) =~= runner_names(self.program.builtins@, i as int),
                all_fresh(builtin_runners@),
                all_as_made(builtin_runners@),
            decreases self.program.builtins@.len() - i,
        {
            let ghost before = builtin_runners@;
            proof {
                lemma_bound_of_eight_parts();
            }
            match self.program.builtins[i] {
                BuiltinName::output => {
                    builtin_runners.push(BuiltinRunner::Output(OutputBuiltinRunner::new(true)));
                },
                BuiltinName::pedersen => {
                    builtin_runners.push(BuiltinRunner::Hash(HashBuiltinRunner::new(8)));
                },
                BuiltinName::range_check => {
                    builtin_runners.push(
                        BuiltinRunner::RangeCheck(RangeCheckBuiltinRunner::new(8, 8)),
                    );
                },
                BuiltinName::bitwise => {
                    builtin_runners.push(
                        BuiltinRunner::Bitwise(BitwiseBuiltinRunner::new(256, true)),
                    );
                },
                BuiltinName::ec_op => {
                    builtin_runners.push(
                        BuiltinRunner::EcOp(
                            EcOpBuiltinRunner::new(&EcOpInstanceDef::default(), true),
                        ),
                    );
                },
                _ => {},
            }
            proof {
                assert forall|k: int| 0 <= k < builtin_runners@.len() implies (
                #[trigger] builtin_runners@[k]).well_formed() && builtin_runners@[k].included_spec()
                    && builtin_runners@[k].base_spec() == 0
                    && builtin_runners@[k].stop_ptr_spec().is_none() by {
                    if k < before.len() {
                        assert(builtin_runners@[k] == before[k]);
                    }
                }
                assert forall|k: int| 0 <= k < before.len() implies names_of(builtin_runners@)[k]
                    == names_of(before)[k] by {
                    assert(builtin_runners@[k] == before[k]);
                }
                assert forall|k: int| 0 <= k < builtin_runners@.len() implies as_made(
                    #[trigger] builtin_runners@[k],
                ) by {
                    if k < before.len() {
                        assert(builtin_runners@[k] == before[k]);
                    }
                }
            }
            i = i + 1;
        }
        vm.builtin_runners = builtin_runners;
        Ok(())
    }

    /// Allocates the program segment (unless one is given), the execution
    /// segment and one segment for each builtin, in this order.
    pub fn initialize_segments(&mut self, vm: &mut VirtualMachine, program_base: Option<Relocatable>)
        requires
            old(vm).segments.has_room(2 + old(vm).builtin_runners@.len() as int),
        ensures
            final(self).program_base == (match program_base {
                Some(base) => Some(base),
                None => Some(Relocatable { segment_index: old(vm).segments.num_segments as isize, offset: 0 }),
            }),
            final(self).execution_base == Some(
                Relocatable {
                    segment_index: (old(vm).segments.num_segments + (if program_base is Some {
                        0int
                    } else {
                        1
                    })) as isize,
                    offset: 0,
                },
            ),
            final(self).program == old(self).program,
            final(self).layout == old(self).layout,
            final(self).final_pc == old(self).final_pc,
            final(self).initial_ap == old(self).initial_ap,
            final(self).initial_fp == old(self).initial_fp,
            final(self).initial_pc == old(self).initial_pc,
            final(self).accessed_addresses == old(self).accessed_addresses,
            final(self).relocated_memory == old(self).relocated_memory,
            final(self).relocated_trace == old(self).relocated_trace,
            final(vm).run_context == old(vm).run_context,
            final(vm).trace == old(vm).trace,
            final(vm).current_step == old(vm).current_step,
            final(vm).builtin_runners@.len() == old(vm).builtin_runners@.len(),
            final(vm).segments.num_segments == old(vm).segments.num_segments + old(vm).builtin_runners@.len() + (if program_base is Some {
                1int
            } else {
                2
            }),
            final(vm).segments.num_temp_segments == old(vm).segments.num_temp_segments,
            final(vm).segments.segment_used_sizes == old(vm).segments.segment_used_sizes,
            final(vm).memory.data@.len() == old(vm).memory.data@.len() + old(vm).builtin_runners@.len() + (if program_base is Some {
                1int
            } else {
                2
            }),
            final(vm).memory.temp_data == old(vm).memory.temp_data,
            final(vm).memory.validation_rules == old(vm).memory.validation_rules,
            forall|addr: Relocatable| final(vm).memory.cell(addr) == old(vm).memory.cell(addr),
            forall|i: int| #[trigger] final(vm).memory.segment_len(i) == old(vm).memory.segment_len(i),
            forall|i: int|
                0 <= i < old(vm).builtin_runners@.len() ==> {
                    &&& (#[trigger] final(vm).builtin_runners@[i]).base_spec() == old(vm).segments.num_segments + i + (if program_base is Some {
                        1int
                    } else {
                        2
                    })
                    &&& final(vm).builtin_runners@[i].included_spec() == old(vm).builtin_runners@[i].included_spec()
                    &&& final(vm).builtin_runners@[i].rule_spec() == old(vm).builtin_runners@[i].rule_spec()
                    &&& final(vm).builtin_runners@[i].name_spec() == old(vm).builtin_runners@[i].name_spec()
                    &&& final(vm).builtin_runners@[i].well_formed() == old(vm).builtin_runners@[i].well_formed()
                },
    {
        self.program_base = match program_base {
            Some(base) => Some(base),
            None => Some(vm.segments.add(&mut vm.memory)),
        };
        self.execution_base = Some(vm.segments.add(&mut vm.memory));
        let ghost first = vm.segments.num_segments;
        let mut i: usize = 0;
        while i < vm.builtin_runners.len()
            invariant
                i <= vm.builtin_runners@.len(),
                vm.builtin_runners@.len() == old(vm).builtin_runners@.len(),
                first == old(vm).segments.num_segments + (if program_base is Some {
                    1int
                } else {
                    2
                }),
                first + old(vm).builtin_runners@.len() <= isize::MAX,
                vm.segments.num_segments == first + i,
                vm.segments.num_temp_segments == old(vm).segments.num_temp_segments,
                vm.segments.segment_used_sizes == old(vm).segments.segment_used_sizes,
                vm.memory.data@.len() == old(vm).memory.data@.len() + i + (if program_base
                    is Some {
                    1int
                } else {
                    2
                }),
                vm.memory.temp_data == old(vm).memory.temp_data,
                vm.memory.validation_rules == old(vm).memory.validation_rules,
                vm.run_context == old(vm).run_context,
                vm.trace == old(vm).trace,
                vm.current_step == old(vm).current_step,
                forall|addr: Relocatable| vm.memory.cell(addr) == old(vm).memory.cell(addr),
                forall|k: int| #[trigger] vm.memory.segment_len(k) == old(vm).memory.segment_len(k),
                forall|k: int|
                    i <= k < vm.builtin_runners@.len() ==> vm.builtin_runners@[k] == old(vm).builtin_runners@[k],
                forall|k: int|
                    0 <= k < i ==> {
                        &&& (#[trigger] vm.builtin_runners@[k]).base_spec() == first + k
                        &&& vm.builtin_runners@[k].included_spec() == old(vm).builtin_runners@[k].included_spec()
                        &&& vm.builtin_runners@[k].rule_spec() == old(vm).builtin_runners@[k].rule_spec()
                        &&& vm.builtin_runners@[k].name_spec() == old(vm).builtin_runners@[k].name_spec()
                        &&& vm.builtin_runners@[k].well_formed() == old(vm).builtin_runners@[k].well_formed()
                    },
            decreases vm.builtin_runners@.len() - i,
        {
            vm.builtin_runners[i].initialize_segments(&mut vm.segments, &mut vm.memory);
            i = i + 1;
        }
    }

    /// Whether `after` is `self` but for the initial registers and the final
    /// program counter.
    pub open spec fn same_but_registers(&self, after: CairoRunner) -> bool {
        &&& after.program == self.program
        &&& after.layout == self.layout
        &&& after.program_base == self.program_base
        &&& after.execution_base == self.execution_base
        &&& after.accessed_addresses == self.accessed_addresses
        &&& after.relocated_memory == self.relocated_memory
        &&& after.relocated_trace == self.relocated_trace
    }

    /// Writes the bytecode to the program segment and `stack` to the execution
    /// segment, and sets the initial program counter to `entrypoint`.
    pub fn initialize_state(
        &mut self,
        vm: &mut VirtualMachine,
        entrypoint: usize,
        stack: &Vec<MaybeRelocatable>,
    ) -> (r: Result<(), RunnerError>)
        ensures
            old(self).same_but_registers(*final(self)),
            final(self).final_pc == old(self).final_pc,
            final(self).initial_ap == old(self).initial_ap,
            final(self).initial_fp == old(self).initial_fp,
            final(vm).run_context == old(vm).run_context,
            final(vm).segments == old(vm).segments,
            final(vm).builtin_runners == old(vm).builtin_runners,
            final(vm).trace == old(vm).trace,
            final(vm).current_step == old(vm).current_step,
            old(vm).memory.extended_by(final(vm).memory),
            old(self).execution_base is None ==> r is Err,
            state_fits(*old(self), old(vm).memory, entrypoint, stack@) ==> r is Ok,
            state_error(*old(self), old(vm).memory, entrypoint, stack@) matches Some(e) ==> r
                == Err::<(), RunnerError>(e),
            r matches Err(e) ==> (e == RunnerError::NoExecBase && old(self).execution_base is None)
                || e == RunnerError::SizeOverflow
                || e matches RunnerError::MemoryInitializationError(_),
            (old(self).program_base matches Some(prog_base) && old(self).execution_base matches Some(
                exec_base,
            ) ==> prog_base.segment_index != exec_base.segment_index) ==> (r is Ok <==> state_fits(
                *old(self),
                old(vm).memory,
                entrypoint,
                stack@,
            )),
            final(vm).memory.data@.len() == old(vm).memory.data@.len(),
            final(vm).memory.temp_data@.len() == old(vm).memory.temp_data@.len(),
            final(vm).memory.validation_rules@ == old(vm).memory.validation_rules@,
            forall|i: int|
                beside_state(*old(self), i) ==> #[trigger] final(vm).memory.segment_len(i) == old(vm).memory.segment_len(i),
            r is Ok ==> {
                &&& old(self).execution_base matches Some(exec_base) && forall|k: int|
                    0 <= k < stack@.len() ==> final(vm).memory.cell(#[trigger] nth_after(exec_base, k))
                        == Some(stack@[k])
                &&& old(self).program_base matches Some(prog_base) ==> final(self).initial_pc
                    == Some(nth_after(prog_base, entrypoint as int)) && prog_base.offset
                    + entrypoint <= usize::MAX && forall|k: int|
                    0 <= k < old(self).program.shared_program_data.data@.len() ==> final(vm).memory.cell(#[trigger] nth_after(prog_base, k)) == Some(
                        old(self).program.shared_program_data.data@[k],
                    )
                &&& old(self).program_base is None ==> final(self).initial_pc == old(self).initial_pc
            },
    {
        match self.program_base {
            Some(prog_base) => {
                let initial_pc = match prog_base.add_usize(entrypoint) {
                    Ok(pc) => pc,
                    Err(_) => {
                        return Err(RunnerError::SizeOverflow);
                    },
                };
                if prog_base.offset > usize::MAX - self.program.shared_program_data.data.len() {
                    return Err(RunnerError::SizeOverflow);
                }
                self.initial_pc = Some(initial_pc);
                match vm.segments.load_data(
                    &mut vm.memory,
                    prog_base,
                    &self.program.shared_program_data.data,
                ) {
                    Ok(_) => {},
                    Err(e) => {
                        return Err(RunnerError::MemoryInitializationError(e));
                    },
                }
            },
            None => {},
        }
        match self.execution_base {
            Some(exec_base) => {
                if exec_base.offset > usize::MAX - stack.len() {
                    return Err(RunnerError::SizeOverflow);
                }
                let ghost middle = vm.memory;
                proof {
                    if state_fits(*old(self), old(vm).memory, entrypoint, stack@) {
                        assert forall|k: int| 0 <= k < stack@.len() implies #[trigger] load_verdict(
                            middle,
                            exec_base,
                            stack@,
                            k,
                        ) is Ok by {
                            assert(load_verdict(old(vm).memory, exec_base, stack@, k) is Ok);
                            assert(middle.cell(nth_after(exec_base, k)) == old(vm).memory.cell(
                                nth_after(exec_base, k),
                            ));
                        }
                    }
                }
                match vm.segments.load_data(&mut vm.memory, exec_base, stack) {
                    Ok(_) => {},
                    Err(e) => {
                        return Err(RunnerError::MemoryInitializationError(e));
                    },
                }
                proof {
                    if self.program_base matches Some(prog_base) ==> prog_base.segment_index
                        != exec_base.segment_index {
                        assert forall|k: int| 0 <= k < stack@.len() implies #[trigger] load_verdict(
                            old(vm).memory,
                            exec_base,
                            stack@,
                            k,
                        ) is Ok by {
                            assert(load_verdict(middle, exec_base, stack@, k) is Ok);
                            assert(middle.cell(nth_after(exec_base, k)) == old(vm).memory.cell(
                                nth_after(exec_base, k),
                            ));
                        }
                    }
                    if self.program_base is Some {
                        let prog_base = self.program_base.unwrap();
                        assert forall|k: int|
                            0 <= k < self.program.shared_program_data.data@.len() implies vm.memory.cell(
                            #[trigger] nth_after(prog_base, k),
                        ) == Some(self.program.shared_program_data.data@[k]) by {
                            assert(middle.cell(nth_after(prog_base, k)) == Some(
                                self.program.shared_program_data.data@[k],
                            ));
                        }
                    }
                }
                Ok(())
            },
            None => Err(RunnerError::NoExecBase),
        }
    }

    /// Sets a function call up: allocates the segment whose first address ends
    /// the run, pushes the return frame pointer and that address on `stack`,
    /// sets the initial frame and allocation pointers after the stack, and
    /// writes program and stack to memory. Returns the address that ends the
    /// run.
    pub fn initialize_function_entrypoint(
        &mut self,
        vm: &mut VirtualMachine,
        entrypoint: usize,
        stack: Vec<MaybeRelocatable>,
        return_fp: MaybeRelocatable,
    ) -> (r: Result<Relocatable, RunnerError>)
        requires
            old(vm).segments.has_room(1),
        ensures
            old(self).same_but_registers(*final(self)),
            final(vm).run_context == old(vm).run_context,
            final(vm).builtin_runners == old(vm).builtin_runners,
            final(vm).trace == old(vm).trace,
            final(vm).current_step == old(vm).current_step,
            final(vm).segments.num_segments == old(vm).segments.num_segments + 1,
            final(vm).segments.num_temp_segments == old(vm).segments.num_temp_segments,
            final(vm).segments.segment_used_sizes == old(vm).segments.segment_used_sizes,
            final(vm).memory.data@.len() == old(vm).memory.data@.len() + 1,
            final(vm).memory.validation_rules@ == old(vm).memory.validation_rules@,
            forall|addr: Relocatable|
                old(vm).memory.cell(addr) is Some ==> final(vm).memory.cell(addr) == old(vm).memory.cell(addr),
            old(self).execution_base is None ==> r == Err::<Relocatable, RunnerError>(
                RunnerError::NoExecBaseForEntrypoint,
            ),
            old(self).execution_base matches Some(exec_base) && exec_base.offset + stack@.len() + 2
                > usize::MAX ==> r == Err::<Relocatable, RunnerError>(RunnerError::SizeOverflow),
            r matches Err(e) ==> (e == RunnerError::NoExecBaseForEntrypoint && old(self).execution_base is None) || e == RunnerError::SizeOverflow
                || e matches RunnerError::MemoryInitializationError(_),
            entry_fits(*old(self), old(vm).memory, entrypoint, stack@.len() as int) ==> r is Ok,
            final(vm).memory.temp_data@.len() == old(vm).memory.temp_data@.len(),
            forall|i: int|
                beside_state(*old(self), i) ==> #[trigger] final(vm).memory.segment_len(i) == old(vm).memory.segment_len(i),
            r matches Ok(end) ==> {
                &&& end == (Relocatable {
                    segment_index: old(vm).segments.num_segments as isize,
                    offset: 0,
                })
                &&& final(self).final_pc == Some(end)
                &&& old(self).execution_base matches Some(exec_base) && final(self).initial_fp
                    == Some(nth_after(exec_base, (stack@.len() + 2) as int)) && final(self).initial_ap
                    == final(self).initial_fp && exec_base.offset + stack@.len() + 2
                    <= usize::MAX && (forall|k: int|
                    0 <= k < stack@.len() ==> final(vm).memory.cell(#[trigger] nth_after(exec_base, k))
                        == Some(stack@[k])) && final(vm).memory.cell(
                    nth_after(exec_base, stack@.len() as int),
                ) == Some(return_fp) && final(vm).memory.cell(
                    nth_after(exec_base, (stack@.len() + 1) as int),
                ) == Some(MaybeRelocatable::RelocatableValue(end))
                &&& old(self).program_base matches Some(prog_base) ==> final(self).initial_pc
                    == Some(nth_after(prog_base, entrypoint as int)) && prog_base.offset
                    + entrypoint <= usize::MAX && forall|k: int|
                    0 <= k < old(self).program.shared_program_data.data@.len() ==> final(vm).memory.cell(#[trigger] nth_after(prog_base, k)) == Some(
                        old(self).program.shared_program_data.data@[k],
                    )
            },
    {
        let end = vm.segments.add(&mut vm.memory);
        let mut full_stack = stack;
        full_stack.push(return_fp);
        full_stack.push(MaybeRelocatable::RelocatableValue(end));
        match self.execution_base {
            Some(base) => {
                let initial_fp = match base.add_usize(full_stack.len()) {
                    Ok(fp) => fp,
                    Err(_) => {
                        return Err(RunnerError::SizeOverflow);
                    },
                };
                self.initial_fp = Some(initial_fp);
                self.initial_ap = self.initial_fp;
            },
            None => {
                return Err(RunnerError::NoExecBaseForEntrypoint);
            },
        }
        proof {
            if entry_fits(*old(self), old(vm).memory, entrypoint, stack@.len() as int) {
                let exec_base = self.execution_base.unwrap();
                assert(blank(vm.memory, exec_base, full_stack@.len() as int));
                lemma_blank_is_loadable(vm.memory, exec_base, full_stack@);
                if self.program_base is Some {
                    let prog_base = self.program_base.unwrap();
                    assert(blank(
                        vm.memory,
                        prog_base,
                        self.program.shared_program_data.data@.len() as int,
                    ));
                    lemma_blank_is_loadable(
                        vm.memory,
                        prog_base,
                        self.program.shared_program_data.data@,
                    );
                }
                assert(state_fits(*self, vm.memory, entrypoint, full_stack@));
            }
            assert forall|i: int| beside_state(*old(self), i) implies #[trigger] vm.memory.segment_len(
                i,
            ) == old(vm).memory.segment_len(i) by {
                if 0 <= i < old(vm).memory.data@.len() {
                    assert(vm.memory.data@[i] == old(vm).memory.data@[i]);
                }
            }
        }
        let ghost added = vm.memory;
        match self.initialize_state(vm, entrypoint, &full_stack) {
            Ok(()) => {},
            Err(e) => {
                return Err(e);
            },
        }
        proof {
            let exec_base = self.execution_base.unwrap();
            assert forall|k: int| 0 <= k < stack@.len() implies vm.memory.cell(
                #[trigger] nth_after(exec_base, k),
            ) == Some(stack@[k]) by {
                assert(full_stack@[k] == stack@[k]);
            }
            assert(full_stack@[stack@.len() as int] == return_fp);
            assert(full_stack@[(stack@.len() + 1) as int] == MaybeRelocatable::RelocatableValue(end));
        }
        self.final_pc = Some(end);
        Ok(end)
    }

    /// The initial stack of the builtins: for each builtin that the program
    /// uses, the first address of its segment.
    pub fn builtins_stack(vm: &VirtualMachine) -> (r: Vec<MaybeRelocatable>)
        ensures
            r@ == stack_of(vm.builtin_runners@, vm.builtin_runners@.len() as int),
    {
        let mut stack: Vec<MaybeRelocatable> = Vec::new();
        let mut i: usize = 0;
        while i < vm.builtin_runners.len()
            invariant
                i <= vm.builtin_runners@.len(),
                stack@ =~= stack_of(vm.builtin_runners@, i as int),
            decreases vm.builtin_runners@.len() - i,
        {
            let mut part = vm.builtin_runners[i].initial_stack();
            stack.append(&mut part);
            i = i + 1;
        }
        stack
    }

    /// Sets the run up to start at the entry point of the program: the initial
    /// stack holds what the builtins put there, then the return frame pointer
    /// and the address that ends the run. Returns that address.
    pub fn initialize_main_entrypoint(&mut self, vm: &mut VirtualMachine) -> (r: Result<
        Relocatable,
        RunnerError,
    >)
        requires
            old(vm).segments.has_room(2),
        ensures
            old(self).same_but_registers(*final(self)),
            final(vm).run_context == old(vm).run_context,
            final(vm).builtin_runners == old(vm).builtin_runners,
            final(vm).trace == old(vm).trace,
            final(vm).current_step == old(vm).current_step,
            final(vm).segments.num_temp_segments == old(vm).segments.num_temp_segments,
            final(vm).segments.segment_used_sizes == old(vm).segments.segment_used_sizes,
            final(vm).memory.validation_rules@ == old(vm).memory.validation_rules@,
            forall|addr: Relocatable|
                old(vm).memory.cell(addr) is Some ==> final(vm).memory.cell(addr) == old(vm).memory.cell(addr),
            old(self).program.shared_program_data.main is None ==> r == Err::<
                Relocatable,
                RunnerError,
            >(RunnerError::MissingMain),
            old(self).program.shared_program_data.main is Some && old(self).execution_base is None
                ==> r == Err::<Relocatable, RunnerError>(RunnerError::NoExecBaseForEntrypoint),
            r matches Err(e) ==> (e == RunnerError::MissingMain && old(self).program.shared_program_data.main is None) || (e
                == RunnerError::NoExecBaseForEntrypoint && old(self).execution_base is None) || e
                == RunnerError::SizeOverflow || e matches RunnerError::MemoryInitializationError(_),
            old(self).program.shared_program_data.main matches Some(main) && entry_fits(
                *old(self),
                old(vm).memory,
                main,
                stack_of(old(vm).builtin_runners@, old(vm).builtin_runners@.len() as int).len() as int,
            ) ==> r is Ok,
            final(vm).memory.temp_data@.len() == old(vm).memory.temp_data@.len(),
            forall|i: int|
                beside_state(*old(self), i) ==> #[trigger] final(vm).memory.segment_len(i) == old(vm).memory.segment_len(i),
            r matches Ok(end) ==> {
                &&& old(self).program.shared_program_data.main matches Some(main)
                &&& end == (Relocatable {
                    segment_index: (old(vm).segments.num_segments + 1) as isize,
                    offset: 0,
                })
                &&& final(vm).segments.num_segments == old(vm).segments.num_segments + 2
                &&& final(vm).memory.data@.len() == old(vm).memory.data@.len() + 2
                &&& final(self).final_pc == Some(end)
                &&& old(self).execution_base matches Some(exec_base) && final(self).initial_fp
                    == Some(
                    nth_after(
                        exec_base,
                        (stack_of(
                            old(vm).builtin_runners@,
                            old(vm).builtin_runners@.len() as int,
                        ).len() + 2) as int,
                    ),
                ) && final(self).initial_ap == final(self).initial_fp
                &&& old(self).execution_base matches Some(exec_base) && {
                    let stack = stack_of(
                        old(vm).builtin_runners@,
                        old(vm).builtin_runners@.len() as int,
                    );
                    &&& forall|k: int|
                        0 <= k < stack.len() ==> final(vm).memory.cell(
                            #[trigger] nth_after(exec_base, k),
                        ) == Some(stack[k])
                    &&& final(vm).memory.cell(nth_after(exec_base, stack.len() as int)) == Some(
                        MaybeRelocatable::RelocatableValue(
                            Relocatable {
                                segment_index: old(vm).segments.num_segments as isize,
                                offset: 0,
                            },
                        ),
                    )
                    &&& final(vm).memory.cell(nth_after(exec_base, stack.len() as int + 1)) == Some(
                        MaybeRelocatable::RelocatableValue(end),
                    )
                }
                &&& old(self).program_base matches Some(prog_base) ==> final(self).initial_pc
                    == Some(
                    nth_after(prog_base, old(self).program.shared_program_data.main.unwrap() as int),
                ) && forall|k: int|
                    0 <= k < old(self).program.shared_program_data.data@.len() ==> final(vm).memory.cell(#[trigger] nth_after(prog_base, k)) == Some(
                        old(self).program.shared_program_data.data@[k],
                    )
            },
    {
        let stack = CairoRunner::builtins_stack(vm);
        let return_fp = vm.segments.add(&mut vm.memory);
        proof {
            assert forall|i: int| beside_state(*old(self), i) implies #[trigger] vm.memory.segment_len(
                i,
            ) == old(vm).memory.segment_len(i) by {
                if 0 <= i < old(vm).memory.data@.len() {
                    assert(vm.memory.data@[i] == old(vm).memory.data@[i]);
                }
            }
            if self.program.shared_program_data.main is Some {
                let main = self.program.shared_program_data.main.unwrap();
                if entry_fits(*old(self), old(vm).memory, main, stack@.len() as int) {
                    assert(entry_fits(*self, vm.memory, main, stack@.len() as int));
                }
            }
        }
        match self.program.shared_program_data.main {
            Some(main) => self.initialize_function_entrypoint(
                vm,
                main,
                stack,
                MaybeRelocatable::RelocatableValue(return_fp),
            ),
            None => Err(RunnerError::MissingMain),
        }
    }

    /// Puts the initial registers into the machine, gives the segment of each
    /// builtin its rule and holds what memory already holds to the rules.
    pub fn initialize_vm(&mut self, vm: &mut VirtualMachine) -> (r: Result<(), RunnerError>)
        ensures
            *final(self) == *old(self),
            final(vm).builtin_runners == old(vm).builtin_runners,
            final(vm).segments == old(vm).segments,
            final(vm).trace == old(vm).trace,
            final(vm).current_step == old(vm).current_step,
            final(vm).memory.data == old(vm).memory.data,
            final(vm).memory.temp_data == old(vm).memory.temp_data,
            old(self).initial_pc is None ==> r == Err::<(), RunnerError>(RunnerError::NoPC),
            old(self).initial_pc is Some && old(self).initial_ap is None ==> r == Err::<(), RunnerError>(
                RunnerError::NoAP,
            ),
            old(self).initial_pc is Some && old(self).initial_ap is Some && old(self).initial_fp is None ==> r
                == Err::<(), RunnerError>(RunnerError::NoFP),
            old(self).initial_pc is Some && old(self).initial_ap is Some && old(self).initial_fp is Some
                && old(self).program_base is None ==> r == Err::<(), RunnerError>(
                RunnerError::NoProgBase,
            ),
            vm_fits(*old(self), *old(vm)) ==> r is Ok,
            registers_set(*old(self)) ==> final(vm).run_context == (RunContext {
                pc: old(self).initial_pc.unwrap(),
                ap: old(self).initial_ap.unwrap().offset,
                fp: old(self).initial_fp.unwrap().offset,
            }) && final(vm)._program_base == Some(
                MaybeRelocatable::RelocatableValue(old(self).program_base.unwrap()),
            ),
            !registers_set(*old(self)) ==> *final(vm) == *old(vm),
            registers_set(*old(self)) ==> match temporary_before(
                old(vm).builtin_runners@,
                old(vm).builtin_runners@.len() as int,
            ) {
                Some(k) => r == Err::<(), RunnerError>(
                    RunnerError::RunnerInTemporarySegment(
                        old(vm).builtin_runners@[k].base_spec(),
                    ),
                ) && forall|s: int|
                    #[trigger] final(vm).memory.rule(s) == rule_after(
                        old(vm).memory,
                        old(vm).builtin_runners@,
                        k,
                        s,
                    ),
                None => (forall|s: int|
                    #[trigger] final(vm).memory.rule(s) == rule_after(
                        old(vm).memory,
                        old(vm).builtin_runners@,
                        old(vm).builtin_runners@.len() as int,
                        s,
                    )) && (r is Ok <==> final(vm).memory.all_valid()) && (r matches Err(error) ==> error matches RunnerError::MemoryValidationError(e)
                    && exists|addr: Relocatable|
                    #[trigger] final(vm).memory.verdict_at(addr) == Err::<(), MemoryError>(e)),
            },
    {
        let pc = match self.initial_pc {
            Some(pc) => pc,
            None => {
                return Err(RunnerError::NoPC);
            },
        };
        let ap = match self.initial_ap {
            Some(ap) => ap.offset,
            None => {
                return Err(RunnerError::NoAP);
            },
        };
        let fp = match self.initial_fp {
            Some(fp) => fp.offset,
            None => {
                return Err(RunnerError::NoFP);
            },
        };
        let program_base = match self.program_base {
            Some(base) => base,
            None => {
                return Err(RunnerError::NoProgBase);
            },
        };
        vm.run_context = RunContext { pc, ap, fp };
        vm._program_base = Some(MaybeRelocatable::RelocatableValue(program_base));
        let mut i: usize = 0;
        while i < vm.builtin_runners.len()
            invariant
                i <= vm.builtin_runners@.len(),
                *self == *old(self),
                self.initial_pc is Some,
                self.initial_ap is Some,
                self.initial_fp is Some,
                self.program_base is Some,
                pc == self.initial_pc.unwrap(),
                ap == self.initial_ap.unwrap().offset,
                fp == self.initial_fp.unwrap().offset,
                vm.builtin_runners == old(vm).builtin_runners,
                vm.segments == old(vm).segments,
                vm.trace == old(vm).trace,
                vm.current_step == old(vm).current_step,
                vm.memory.data == old(vm).memory.data,
                vm.memory.temp_data == old(vm).memory.temp_data,
                vm.run_context == (RunContext { pc, ap, fp }),
                vm._program_base == Some(MaybeRelocatable::RelocatableValue(program_base)),
                program_base == self.program_base.unwrap(),
                vm_fits(*old(self), *old(vm)) ==> vm.memory.all_valid(),
                registers_set(*old(self)),
                temporary_before(vm.builtin_runners@, i as int) is None,
                forall|s: int|
                    #[trigger] vm.memory.rule(s) == rule_after(
                        old(vm).memory,
                        vm.builtin_runners@,
                        i as int,
                        s,
                    ),
            decreases vm.builtin_runners@.len() - i,
        {
            let ghost before = vm.memory;
            match vm.builtin_runners[i].add_validation_rule(&mut vm.memory) {
                Ok(()) => {},
                Err(e) => {
                    proof {
                        assert(temporary_before(vm.builtin_runners@, i as int + 1) == Some(
                            i as int,
                        ));
                        lemma_temporary_stays(
                            vm.builtin_runners@,
                            i as int + 1,
                            vm.builtin_runners@.len() as int,
                        );
                    }
                    return Err(e);
                },
            }
            proof {
                assert(temporary_before(vm.builtin_runners@, i as int + 1) is None);
                assert forall|s: int|
                    #[trigger] vm.memory.rule(s) == rule_after(
                        old(vm).memory,
                        vm.builtin_runners@,
                        i as int + 1,
                        s,
                    ) by {
                    assert(before.rule(s) == rule_after(
                        old(vm).memory,
                        vm.builtin_runners@,
                        i as int,
                        s,
                    ));
                }
                if vm_fits(*old(self), *old(vm)) {
                    let runner = vm.builtin_runners@[i as int];
                    assert forall|addr: Relocatable| #[trigger] vm.memory.verdict_at(addr)
                        is Ok by {
                        assert(before.verdict_at(addr) is Ok);
                        assert(vm.memory.segment_len(addr.segment_index as int)
                            == old(vm).memory.segment_len(addr.segment_index as int));
                        assert(vm.memory.cell(addr) == before.cell(addr));
                    }
                }
            }
            i = i + 1;
        }
        let ghost ruled = vm.memory;
        let checked = vm.memory.validate_existing_memory();
        proof {
            assert forall|s: int|
                #[trigger] vm.memory.rule(s) == rule_after(
                    old(vm).memory,
                    old(vm).builtin_runners@,
                    old(vm).builtin_runners@.len() as int,
                    s,
                ) by {
                assert(ruled.rule(s) == rule_after(
                    old(vm).memory,
                    old(vm).builtin_runners@,
                    old(vm).builtin_runners@.len() as int,
                    s,
                ));
            }
        }
        match checked {
            Ok(()) => {
                proof {
                    assert forall|addr: Relocatable| #[trigger] vm.memory.verdict_at(addr) is Ok by {
                        assert(ruled.verdict_at(addr) is Ok);
                    }
                }
                Ok(())
            },
            Err(e) => {
                proof {
                    let addr = choose|addr: Relocatable|
                        #[trigger] ruled.verdict_at(addr) == Err::<(), MemoryError>(e);
                    assert(vm.memory.verdict_at(addr) == ruled.verdict_at(addr));
                    assert(!vm.memory.all_valid());
                }
                Err(RunnerError::MemoryValidationError(e))
            },
        }
    }

    /// Sets up a run from the entry point of the program: the builtin runners,
    /// the segments, program and stack in memory, the registers and the rules.
    /// Returns the address that ends the run. Where the builtins are declared
    /// out of the canonical order, nothing is allocated and the machine is left
    /// untouched.
    pub fn initialize(&mut self, vm: &mut VirtualMachine) -> (r: Result<Relocatable, RunnerError>)
        requires
            old(vm).segments.has_room(12),
        ensures
            final(self).program == old(self).program,
            !in_canonical_order(old(self).program.builtins@) ==> r == Err::<
                Relocatable,
                RunnerError,
            >(RunnerError::DisorderedBuiltins) && *final(vm) == *old(vm) && *final(self) == *old(self),
            in_canonical_order(old(self).program.builtins@) && old(self).program.shared_program_data.main is None ==> r == Err::<Relocatable, RunnerError>(
                RunnerError::MissingMain,
            ),
            in_canonical_order(old(self).program.builtins@) && old(self).program.shared_program_data.main is Some
                && ready_for_setup(*old(vm)) ==> r is Ok,
            r matches Err(e) ==> e == RunnerError::DisorderedBuiltins || e
                == RunnerError::MissingMain || e == RunnerError::SizeOverflow
                || e matches RunnerError::MemoryInitializationError(_)
                || e matches RunnerError::MemoryValidationError(_),
            forall|addr: Relocatable|
                old(vm).memory.cell(addr) is Some ==> final(vm).memory.cell(addr) == old(vm).memory.cell(addr),
            r matches Ok(end) ==> {
                &&& in_canonical_order(old(self).program.builtins@)
                &&& old(self).program.shared_program_data.main matches Some(main)
                &&& names_of(final(vm).builtin_runners@) == runner_names(
                    old(self).program.builtins@,
                    old(self).program.builtins@.len() as int,
                )
                &&& final(vm).builtins_well_formed()
                &&& final(self).final_pc == Some(end)
                &&& final(self).program_base == Some(
                    Relocatable {
                        segment_index: old(vm).segments.num_segments as isize,
                        offset: 0,
                    },
                )
                &&& final(self).execution_base == Some(
                    Relocatable {
                        segment_index: (old(vm).segments.num_segments + 1) as isize,
                        offset: 0,
                    },
                )
                &&& end == (Relocatable {
                    segment_index: (old(vm).segments.num_segments + 3 + final(vm).builtin_runners@.len()) as isize,
                    offset: 0,
                })
                &&& final(vm).segments.num_segments == old(vm).segments.num_segments + 4 + final(vm).builtin_runners@.len()
                &&& final(vm).run_context.pc == (Relocatable {
                    segment_index: old(vm).segments.num_segments as isize,
                    offset: main,
                })
                &&& final(vm).run_context.ap == final(vm).builtin_runners@.len() + 2
                &&& final(vm).run_context.fp == final(vm).run_context.ap
                &&& forall|k: int|
                    0 <= k < old(self).program.shared_program_data.data@.len() ==> final(vm).memory.cell(
                        #[trigger] nth_after(
                            Relocatable {
                                segment_index: old(vm).segments.num_segments as isize,
                                offset: 0,
                            },
                            k,
                        ),
                    ) == Some(old(self).program.shared_program_data.data@[k])
                &&& final(vm).memory.all_valid()
                &&& {
                    let stack = stack_of(
                        final(vm).builtin_runners@,
                        final(vm).builtin_runners@.len() as int,
                    );
                    let exec_base = Relocatable {
                        segment_index: (old(vm).segments.num_segments + 1) as isize,
                        offset: 0,
                    };
                    &&& forall|k: int|
                        0 <= k < stack.len() ==> final(vm).memory.cell(
                            #[trigger] nth_after(exec_base, k),
                        ) == Some(stack[k])
                    &&& final(vm).memory.cell(nth_after(exec_base, stack.len() as int)) == Some(
                        MaybeRelocatable::RelocatableValue(
                            Relocatable {
                                segment_index: (old(vm).segments.num_segments + 2 + final(vm).builtin_runners@.len()) as isize,
                                offset: 0,
                            },
                        ),
                    )
                    &&& final(vm).memory.cell(nth_after(exec_base, stack.len() as int + 1)) == Some(
                        MaybeRelocatable::RelocatableValue(end),
                    )
                }
                &&& forall|i: int|
                    0 <= i < final(vm).builtin_runners@.len() ==> {
                        &&& (#[trigger] final(vm).builtin_runners@[i]).base_spec() == old(vm).segments.num_segments + 2 + i
                        &&& final(vm).builtin_runners@[i].rule_spec() matches Some(rule)
                            ==> final(vm).memory.rule(
                            final(vm).builtin_runners@[i].base_spec() as int,
                        ) == Some(rule) && default_bound(rule)
                    }
                &&& forall|s: int|
                    unruled(final(vm).builtin_runners@, final(vm).builtin_runners@.len() as int, s)
                        ==> #[trigger] final(vm).memory.rule(s) == old(vm).memory.rule(s)
            },
    {
        match self.initialize_builtins(vm) {
            Ok(()) => {},
            Err(e) => {
                return Err(e);
            },
        }
        proof {
            lemma_canonical_order_is_short(self.program.builtins@);
        }
        let ghost made = vm.builtin_runners@;
        self.initialize_segments(vm, None);
        proof {
            assert forall|i: int|
                0 <= i < vm.builtin_runners@.len() && (#[trigger] vm.builtin_runners@[i]).rule_spec()
                    is Some implies default_bound(vm.builtin_runners@[i].rule_spec().unwrap()) by {
                assert(as_made(made[i]));
                assert(vm.builtin_runners@[i].rule_spec() == made[i].rule_spec());
            }
            lemma_stack_of_all_included(vm.builtin_runners@, vm.builtin_runners@.len() as int);
            assert forall|i: int| 0 <= i < vm.builtin_runners@.len() implies (
            #[trigger] vm.builtin_runners@[i]).well_formed() by {}
        }
        let ghost names = names_of(vm.builtin_runners@);
        let ghost laid_out = *vm;
        proof {
            assert(self.program.shared_program_data.data.len()
                == self.program.shared_program_data.data@.len());
            if self.program.shared_program_data.main is Some && ready_for_setup(*old(vm)) {
                let main = self.program.shared_program_data.main.unwrap();
                let n_stack = stack_of(vm.builtin_runners@, vm.builtin_runners@.len() as int).len() as int;
                let prog_base = self.program_base.unwrap();
                let exec_base = self.execution_base.unwrap();
                assert forall|k: int| 0 <= k < n_stack + 2 implies vm.memory.cell(
                    #[trigger] nth_after(exec_base, k),
                ) is None by {
                    assert(old(vm).memory.cell(nth_after(exec_base, k)) is None);
                }
                assert forall|k: int|
                    0 <= k < self.program.shared_program_data.data@.len() implies vm.memory.cell(
                    #[trigger] nth_after(prog_base, k),
                ) is None by {
                    assert(old(vm).memory.cell(nth_after(prog_base, k)) is None);
                }
                assert(blank(vm.memory, exec_base, n_stack + 2));
                assert(blank(
                    vm.memory,
                    prog_base,
                    self.program.shared_program_data.data@.len() as int,
                ));
                assert(entry_fits(*self, vm.memory, main, n_stack));
            }
        }
        let end = match self.initialize_main_entrypoint(vm) {
            Ok(end) => end,
            Err(e) => {
                return Err(e);
            },
        };
        proof {
            if ready_for_setup(*old(vm)) {
                assert forall|addr: Relocatable| #[trigger] vm.memory.verdict_at(addr) is Ok by {
                    assert(vm.memory.rule(addr.segment_index as int) is None);
                }
                assert forall|i: int|
                    0 <= i < vm.builtin_runners@.len() && (#[trigger] vm.builtin_runners@[i]).rule_spec()
                        is Some implies vm.builtin_runners@[i].base_spec() >= 0
                    && vm.memory.segment_len(vm.builtin_runners@[i].base_spec() as int) == 0 by {
                    let base = vm.builtin_runners@[i].base_spec() as int;
                    assert(laid_out.builtin_runners@[i].base_spec() == base);
                    assert(beside_state(*self, base));
                    assert(vm.memory.segment_len(base) == laid_out.memory.segment_len(base));
                    assert(laid_out.memory.segment_len(base) == old(vm).memory.segment_len(base));
                }
                assert(vm_fits(*self, *vm));
            }
        }
        let ghost entered = *vm;
        proof {
            let stack = stack_of(vm.builtin_runners@, vm.builtin_runners@.len() as int);
            let exec_base = self.execution_base.unwrap();
            assert(laid_out.builtin_runners@ == vm.builtin_runners@);
            assert forall|i: int| 0 <= i < vm.builtin_runners@.len() implies (
            #[trigger] vm.builtin_runners@[i]).base_spec() >= 0 by {
                assert(laid_out.builtin_runners@[i].base_spec() == old(vm).segments.num_segments + 2
                    + i);
            }
            lemma_no_temporary(vm.builtin_runners@, vm.builtin_runners@.len() as int);
            assert(registers_set(*self));
            assert forall|k: int| 0 <= k < stack.len() implies entered.memory.cell(
                #[trigger] nth_after(exec_base, k),
            ) == Some(stack[k]) by {}
        }
        match self.initialize_vm(vm) {
            Ok(()) => {},
            Err(e) => {
                return Err(e);
            },
        }
        proof {
            let stack = stack_of(vm.builtin_runners@, vm.builtin_runners@.len() as int);
            let exec_base = self.execution_base.unwrap();
            assert forall|k: int| 0 <= k < stack.len() implies vm.memory.cell(
                #[trigger] nth_after(exec_base, k),
            ) == Some(stack[k]) by {
                assert(entered.memory.cell(nth_after(exec_base, k)) == Some(stack[k]));
            }
            assert(vm.memory.cell(nth_after(exec_base, stack.len() as int))
                == entered.memory.cell(nth_after(exec_base, stack.len() as int)));
            assert(vm.memory.cell(nth_after(exec_base, stack.len() as int + 1))
                == entered.memory.cell(nth_after(exec_base, stack.len() as int + 1)));
            let runners = vm.builtin_runners@;
            let n = runners.len() as int;
            assert forall|i: int| 0 <= i < n implies (#[trigger] runners[i]).base_spec() == old(vm).segments.num_segments + 2 + i by {
                assert(laid_out.builtin_runners@[i].base_spec() == old(vm).segments.num_segments + 2
                    + i);
            }
            lemma_no_temporary(runners, n);
            lemma_rules_registered(entered.memory, runners, n);
            assert forall|s: int| unruled(runners, n, s) implies #[trigger] vm.memory.rule(s) == old(vm).memory.rule(s) by {
                assert(rule_after(entered.memory, runners, n, s) == entered.memory.rule(s));
            }
            assert forall|i: int| 0 <= i < n && (#[trigger] runners[i]).rule_spec() is Some implies vm.memory.rule(
                runners[i].base_spec() as int,
            ) == runners[i].rule_spec() && default_bound(runners[i].rule_spec().unwrap()) by {
                assert(rule_after(entered.memory, runners, n, runners[i].base_spec() as int)
                    == runners[i].rule_spec());
                assert(laid_out.builtin_runners@[i] == runners[i]);
            }
        }
        Ok(end)
    }

    /// Steps the machine until the program counter is `address`. The first step
    /// that fails ends the run with its error; what the run did up to then
    /// stays.
    pub fn run_until_pc(&mut self, address: Relocatable, vm: &mut VirtualMachine) -> (r: Result<
        (),
        VirtualMachineError,
    >)
        requires
            old(vm).builtins_well_formed(),
        ensures
            *final(self) == *old(self),
            final(vm).builtins_well_formed(),
            final(vm).segments == old(vm).segments,
            final(vm).builtin_runners@.len() == old(vm).builtin_runners@.len(),
            old(vm).memory.extended_by(final(vm).memory),
            final(vm).current_step >= old(vm).current_step,
            final(vm).trace is Some <==> old(vm).trace is Some,
            old(vm).trace is Some ==> final(vm).trace.unwrap()@.len() == old(vm).trace.unwrap()@.len() + (final(vm).current_step - old(vm).current_step),
            r is Ok ==> final(vm).run_context.pc == address,
            old(vm).run_context.pc == address ==> r is Ok && final(vm).run_context == old(vm).run_context && final(vm).current_step == old(vm).current_step,
            match r {
                Ok(()) => run_of(
                    *old(vm),
                    address,
                    final(vm).current_step - old(vm).current_step,
                    *final(vm),
                ),
                Err(e) => exists|last: VirtualMachine|
                    last.run_context.pc != address && run_of(
                        *old(vm),
                        address,
                        last.current_step - old(vm).current_step,
                        last,
                    ) && #[trigger] stepped(last, *final(vm), Err::<(), VirtualMachineError>(e)),
            },
            old(vm).run_context.pc != address ==> (match current_instruction(
                old(vm).run_context,
                old(vm).memory,
            ) {
                Err(e) => r == Err::<(), VirtualMachineError>(e),
                Ok(_) => old(vm).current_step == usize::MAX ==> r == Err::<
                    (),
                    VirtualMachineError,
                >(VirtualMachineError::RegisterOverflow),
            }),
    {
        while vm.run_context.pc != address
            invariant
                vm.current_step == old(vm).current_step ==> vm.run_context == old(vm).run_context
                    && vm.memory == old(vm).memory,
                vm.current_step > old(vm).current_step ==> current_instruction(
                    old(vm).run_context,
                    old(vm).memory,
                ) is Ok && old(vm).current_step < usize::MAX,
                vm.builtins_well_formed(),
                vm.segments == old(vm).segments,
                vm.builtin_runners@.len() == old(vm).builtin_runners@.len(),
                old(vm).memory.extended_by(vm.memory),
                vm.current_step >= old(vm).current_step,
                vm.trace is Some <==> old(vm).trace is Some,
                old(vm).trace is Some ==> vm.trace.unwrap()@.len() == old(vm).trace.unwrap()@.len() + (vm.current_step - old(vm).current_step),
                old(vm).run_context.pc == address ==> vm.run_context == old(vm).run_context
                    && vm.current_step == old(vm).current_step,
                run_of(*old(vm), address, vm.current_step - old(vm).current_step, *vm),
            decreases usize::MAX - vm.current_step,
        {
            let ghost last = *vm;
            match vm.step_instruction() {
                Ok(()) => {
                    proof {
                        assert(stepped(last, *vm, Ok::<(), VirtualMachineError>(())));
                    }
                },
                Err(e) => {
                    proof {
                        assert(stepped(last, *vm, Err::<(), VirtualMachineError>(e)));
                    }
                    return Err(e);
                },
            }
        }
        Ok(())
    }

    /// Marks `size` cells from `address` on as accessed. The run must be over.
    pub fn mark_as_accessed(&mut self, address: Relocatable, size: usize) -> (r: Result<
        (),
        VirtualMachineError,
    >)
        ensures
            old(self).accessed_addresses is None ==> r == Err::<(), VirtualMachineError>(
                VirtualMachineError::RunNotFinished,
            ) && *final(self) == *old(self),
            old(self).accessed_addresses is Some && address.offset + size > usize::MAX ==> r
                == Err::<(), VirtualMachineError>(VirtualMachineError::RegisterOverflow)
                && *final(self) == *old(self),
            old(self).accessed_addresses is Some && address.offset + size <= usize::MAX ==> r
                is Ok && (final(self).accessed_addresses matches Some(after) && after@.len()
                == old(self).accessed_addresses.unwrap()@.len() + size && (forall|k: int|
                0 <= k < old(self).accessed_addresses.unwrap()@.len() ==> after@[k] == old(self).accessed_addresses.unwrap()@[k]) && (forall|k: int|
                0 <= k < size ==> after@[old(self).accessed_addresses.unwrap()@.len() + k]
                    == nth_after(address, k))),
            final(self).program == old(self).program,
            final(self).layout == old(self).layout,
            final(self).final_pc == old(self).final_pc,
            final(self).program_base == old(self).program_base,
            final(self).execution_base == old(self).execution_base,
            final(self).initial_ap == old(self).initial_ap,
            final(self).initial_fp == old(self).initial_fp,
            final(self).initial_pc == old(self).initial_pc,
            final(self).relocated_memory == old(self).relocated_memory,
            final(self).relocated_trace == old(self).relocated_trace,
    {
        if self.accessed_addresses.is_none() {
            return Err(VirtualMachineError::RunNotFinished);
        }
        if address.offset > usize::MAX - size {
            return Err(VirtualMachineError::RegisterOverflow);
        }
        let mut accessed = self.accessed_addresses.take().unwrap();
        let ghost before = accessed@;
        let mut i: usize = 0;
        while i < size
            invariant
                i <= size,
                address.offset + size <= usize::MAX,
                accessed@.len() == before.len() + i,
                forall|k: int| 0 <= k < before.len() ==> accessed@[k] == before[k],
                forall|k: int| 0 <= k < i ==> accessed@[before.len() + k] == nth_after(address, k),
            decreases size - i,
        {
            accessed.push(
                Relocatable { segment_index: address.segment_index, offset: address.offset + i },
            );
            i = i + 1;
        }
        self.accessed_addresses = Some(accessed);
        Ok(())
    }

    /// Lays memory out as one sequence: cell 0 stays empty, then the permanent
    /// segments follow one another, each at the address that the relocation
    /// table gives it, and every value is flattened. Fails where memory was
    /// relocated before, where the table does not fit the segments, and where a
    /// value cannot be flattened.
    pub fn relocate_memory(&mut self, vm: &VirtualMachine, relocation_table: &Vec<usize>) -> (r:
        Result<(), MemoryError>)
        ensures
            old(self).relocated_memory@.len() != 0 ==> r == Err::<(), MemoryError>(
                MemoryError::Relocation,
            ) && *final(self) == *old(self),
            final(self).program == old(self).program,
            final(self).layout == old(self).layout,
            final(self).final_pc == old(self).final_pc,
            final(self).program_base == old(self).program_base,
            final(self).execution_base == old(self).execution_base,
            final(self).initial_ap == old(self).initial_ap,
            final(self).initial_fp == old(self).initial_fp,
            final(self).initial_pc == old(self).initial_pc,
            final(self).accessed_addresses == old(self).accessed_addresses,
            final(self).relocated_trace == old(self).relocated_trace,
            old(self).relocated_memory@.len() == 0 ==> (r is Ok <==> lays_out(
                vm.memory,
                relocation_table@,
            )),
            r is Ok ==> final(self).relocated_memory@.len() == laid_base(
                vm.memory,
                vm.memory.data@.len() as int,
            ),
            r is Ok ==> {
                &&& final(self).relocated_memory@.len() >= 1
                &&& final(self).relocated_memory@[0].is_none()
                &&& relocation_table@.len() >= vm.memory.data@.len()
                &&& forall|i: int, j: int|
                    0 <= i < vm.memory.data@.len() && 0 <= j < vm.memory.segment_len(i)
                        ==> relocation_table@[i] + j < final(self).relocated_memory@.len()
                        && relocated_cell(
                        #[trigger] cell_of(vm.memory.data@, i, j),
                        relocation_table@,
                        final(self).relocated_memory@[relocation_table@[i] + j],
                    )
            },
    {
        if self.relocated_memory.len() != 0 {
            return Err(MemoryError::Relocation);
        }
        self.relocated_memory.push(None);
        let mut index: usize = 0;
        while index < vm.memory.data.len()
            invariant
                index <= vm.memory.data@.len(),
                self.program == old(self).program,
                self.layout == old(self).layout,
                self.final_pc == old(self).final_pc,
                self.program_base == old(self).program_base,
                self.execution_base == old(self).execution_base,
                self.initial_ap == old(self).initial_ap,
                self.initial_fp == old(self).initial_fp,
                self.initial_pc == old(self).initial_pc,
                self.accessed_addresses == old(self).accessed_addresses,
                self.relocated_trace == old(self).relocated_trace,
                old(self).relocated_memory@.len() == 0,
                self.relocated_memory@.len() >= 1,
                self.relocated_memory@[0].is_none(),
                relocation_table@.len() >= index,
                self.relocated_memory@.len() == laid_base(vm.memory, index as int),
                forall|i: int|
                    0 <= i < index ==> #[trigger] relocation_table@[i] == laid_base(vm.memory, i),
                forall|i: int, j: int|
                    0 <= i < index && 0 <= j < vm.memory.segment_len(i) ==> can_flatten(
                        #[trigger] cell_of(vm.memory.data@, i, j),
                        relocation_table@,
                    ),
                forall|i: int, j: int|
                    0 <= i < index && 0 <= j < vm.memory.segment_len(i) ==> relocation_table@[i] + j
                        < self.relocated_memory@.len() && relocated_cell(
                        #[trigger] cell_of(vm.memory.data@, i, j),
                        relocation_table@,
                        self.relocated_memory@[relocation_table@[i] + j],
                    ),
            decreases vm.memory.data@.len() - index,
        {
            if index >= relocation_table.len() {
                return Err(MemoryError::Relocation);
            }
            if self.relocated_memory.len() != relocation_table[index] {
                return Err(MemoryError::Relocation);
            }
            let ghost start = self.relocated_memory@.len();
            let ghost laid = self.relocated_memory@;
            let segment = &vm.memory.data[index];
            let mut j: usize = 0;
            while j < segment.len()
                invariant
                    index < vm.memory.data@.len(),
                    *segment == vm.memory.data@[index as int],
                    j <= segment@.len(),
                    self.program == old(self).program,
                    self.layout == old(self).layout,
                    self.final_pc == old(self).final_pc,
                    self.program_base == old(self).program_base,
                    self.execution_base == old(self).execution_base,
                    self.initial_ap == old(self).initial_ap,
                    self.initial_fp == old(self).initial_fp,
                    self.initial_pc == old(self).initial_pc,
                    self.accessed_addresses == old(self).accessed_addresses,
                    self.relocated_trace == old(self).relocated_trace,
                    old(self).relocated_memory@.len() == 0,
                    self.relocated_memory@.len() == start + j,
                    index < relocation_table@.len(),
                    start == relocation_table@[index as int],
                    start == laid.len(),
                    start >= 1,
                    forall|k: int|
                        0 <= k < j ==> can_flatten(
                            #[trigger] cell_of(vm.memory.data@, index as int, k),
                            relocation_table@,
                        ),
                    forall|k: int| 0 <= k < start ==> self.relocated_memory@[k] == laid[k],
                    forall|k: int|
                        0 <= k < j ==> relocated_cell(
                            #[trigger] cell_of(vm.memory.data@, index as int, k),
                            relocation_table@,
                            self.relocated_memory@[start + k],
                        ),
                decreases segment@.len() - j,
            {
                match segment[j] {
                    Some(value) => {
                        match relocate_value(value, relocation_table) {
                            Ok(flat) => {
                                self.relocated_memory.push(Some(flat));
                            },
                            Err(e) => {
                                proof {
                                    assert(cell_of(vm.memory.data@, index as int, j as int)
                                        == Some(value));
                                    assert(j < vm.memory.segment_len(index as int));
                                    assert(!can_flatten(
                                        cell_of(vm.memory.data@, index as int, j as int),
                                        relocation_table@,
                                    ));
                                }
                                return Err(e);
                            },
                        }
                    },
                    None => {
                        self.relocated_memory.push(None);
                    },
                }
                j = j + 1;
            }
            index = index + 1;
        }
        Ok(())
    }

    /// Flattens the trace of the machine with the relocation table. Fails where
    /// the trace was relocated before, where the machine kept no trace, and
    /// where a register cannot be flattened.
    pub fn relocate_trace(&mut self, vm: &VirtualMachine, relocation_table: &Vec<usize>) -> (r:
        Result<(), TraceError>)
        ensures
            final(self).program == old(self).program,
            final(self).layout == old(self).layout,
            final(self).final_pc == old(self).final_pc,
            final(self).program_base == old(self).program_base,
            final(self).execution_base == old(self).execution_base,
            final(self).initial_ap == old(self).initial_ap,
            final(self).initial_fp == old(self).initial_fp,
            final(self).initial_pc == old(self).initial_pc,
            final(self).accessed_addresses == old(self).accessed_addresses,
            final(self).relocated_memory == old(self).relocated_memory,
            old(self).relocated_trace is Some ==> r == Err::<(), TraceError>(
                TraceError::AlreadyRelocated,
            ) && final(self).relocated_trace == old(self).relocated_trace,
            old(self).relocated_trace is None && vm.trace is None ==> r == Err::<(), TraceError>(
                TraceError::TraceNotEnabled,
            ) && final(self).relocated_trace == old(self).relocated_trace,
            r is Err ==> final(self).relocated_trace == old(self).relocated_trace,
            r is Ok <==> old(self).relocated_trace is None && (vm.trace matches Some(trace)
                && trace_flattens(trace@, relocation_table@)),
            r matches Err(e) ==> e == (if old(self).relocated_trace is Some {
                TraceError::AlreadyRelocated
            } else if vm.trace is None {
                TraceError::TraceNotEnabled
            } else {
                TraceError::NoRelocationFound
            }),
            r is Ok ==> (vm.trace matches Some(trace) && final(self).relocated_trace matches Some(
                flat,
            ) && flat@.len() == trace@.len() && forall|k: int|
                0 <= k < trace@.len() ==> {
                    &&& relocated_register(trace@[k].pc, relocation_table@) == Ok::<
                        usize,
                        TraceError,
                    >((#[trigger] flat@[k]).pc)
                    &&& relocated_register(trace@[k].ap, relocation_table@) == Ok::<
                        usize,
                        TraceError,
                    >(flat@[k].ap)
                    &&& relocated_register(trace@[k].fp, relocation_table@) == Ok::<
                        usize,
                        TraceError,
                    >(flat@[k].fp)
                }),
    {
        if self.relocated_trace.is_some() {
            return Err(TraceError::AlreadyRelocated);
        }
        let trace = match &vm.trace {
            Some(trace) => trace,
            None => {
                return Err(TraceError::TraceNotEnabled);
            },
        };
        let mut flat: Vec<RelocatedTraceEntry> = Vec::new();
        let mut k: usize = 0;
        while k < trace.len()
            invariant
                k <= trace@.len(),
                *self == *old(self),
                self.relocated_trace is None,
                vm.trace == Some(*trace),
                flat@.len() == k,
                forall|i: int|
                    0 <= i < k ==> (relocated_register((#[trigger] trace@[i]).pc, relocation_table@)
                        is Ok && relocated_register(trace@[i].ap, relocation_table@) is Ok
                        && relocated_register(trace@[i].fp, relocation_table@) is Ok),
                forall|i: int|
                    0 <= i < k ==> {
                        &&& relocated_register(trace@[i].pc, relocation_table@) == Ok::<
                            usize,
                            TraceError,
                        >((#[trigger] flat@[i]).pc)
                        &&& relocated_register(trace@[i].ap, relocation_table@) == Ok::<
                            usize,
                            TraceError,
                        >(flat@[i].ap)
                        &&& relocated_register(trace@[i].fp, relocation_table@) == Ok::<
                            usize,
                            TraceError,
                        >(flat@[i].fp)
                    },
            decreases trace@.len() - k,
        {
            let pc = match relocate_trace_register(&trace[k].pc, relocation_table) {
                Ok(pc) => pc,
                Err(e) => {
                    return Err(e);
                },
            };
            let ap = match relocate_trace_register(&trace[k].ap, relocation_table) {
                Ok(ap) => ap,
                Err(e) => {
                    return Err(e);
                },
            };
            let fp = match relocate_trace_register(&trace[k].fp, relocation_table) {
                Ok(fp) => fp,
                Err(e) => {
                    return Err(e);
                },
            };
            flat.push(RelocatedTraceEntry { pc, ap, fp });
            k = k + 1;
        }
        self.relocated_trace = Some(flat);
        Ok(())
    }

    /// Relocates memory and, where the machine kept one, the trace: computes
    /// the effective sizes of the segments and the relocation table, then lays
    /// memory and trace out by it. A second relocation is refused.
    pub fn relocate(&mut self, vm: &mut VirtualMachine) -> (r: Result<(), TraceError>)
        ensures
            final(self).program == old(self).program,
            final(vm).run_context == old(vm).run_context,
            final(vm).builtin_runners == old(vm).builtin_runners,
            final(vm).memory == old(vm).memory,
            final(vm).trace == old(vm).trace,
            final(vm).current_step == old(vm).current_step,
            final(vm).segments.segment_used_sizes is Some,
            old(self).relocated_memory@.len() != 0 ==> r is Err,
            old(self).relocated_trace is Some && old(vm).trace is Some ==> r is Err,
            final(vm).segments.segment_used_sizes matches Some(sizes) && sizes@ == effective_sizes(
                *old(vm),
            ),
            final(self).layout == old(self).layout,
            final(self).final_pc == old(self).final_pc,
            final(self).program_base == old(self).program_base,
            final(self).execution_base == old(self).execution_base,
            final(self).initial_ap == old(self).initial_ap,
            final(self).initial_fp == old(self).initial_fp,
            final(self).initial_pc == old(self).initial_pc,
            final(self).accessed_addresses == old(self).accessed_addresses,
            r is Ok <==> relocates(*old(self), *old(vm)),
            r is Ok ==> {
                let table = table_of(effective_sizes(*old(vm)));
                let memory = old(vm).memory;
                &&& final(self).relocated_memory@.len() == laid_base(
                    memory,
                    memory.data@.len() as int,
                )
                &&& final(self).relocated_memory@.len() >= 1
                &&& final(self).relocated_memory@[0].is_none()
                &&& table.len() >= memory.data@.len()
                &&& forall|i: int, j: int|
                    0 <= i < memory.data@.len() && 0 <= j < memory.segment_len(i) ==> table[i] + j
                        < final(self).relocated_memory@.len() && relocated_cell(
                        #[trigger] cell_of(memory.data@, i, j),
                        table,
                        final(self).relocated_memory@[table[i] + j],
                    )
            },
            r is Ok ==> match old(vm).trace {
                None => final(self).relocated_trace == old(self).relocated_trace,
                Some(trace) => {
                    let table = table_of(effective_sizes(*old(vm)));
                    final(self).relocated_trace matches Some(flat) && flat@.len() == trace@.len()
                        && forall|k: int|
                        0 <= k < trace@.len() ==> {
                            &&& relocated_register(trace@[k].pc, table) == Ok::<usize, TraceError>(
                                (#[trigger] flat@[k]).pc,
                            )
                            &&& relocated_register(trace@[k].ap, table) == Ok::<usize, TraceError>(
                                flat@[k].ap,
                            )
                            &&& relocated_register(trace@[k].fp, table) == Ok::<usize, TraceError>(
                                flat@[k].fp,
                            )
                        }
                },
            },
            r matches Err(e) ==> {
                let sizes = effective_sizes(*old(vm));
                if base_of(sizes, sizes.len() as int) > usize::MAX {
                    e == TraceError::MemoryError(MemoryError::SizeOverflow)
                } else if old(self).relocated_memory@.len() != 0 {
                    e == TraceError::MemoryError(MemoryError::Relocation)
                } else if !lays_out(old(vm).memory, table_of(sizes)) {
                    e matches TraceError::MemoryError(_)
                } else if old(self).relocated_trace is Some {
                    e == TraceError::AlreadyRelocated
                } else {
                    e == TraceError::NoRelocationFound
                }
            },
    {
        vm.segments.compute_effective_sizes(&vm.memory);
        let ghost sizes = effective_sizes(*old(vm));
        proof {
            assert(vm.segments.segment_used_sizes.unwrap()@ =~= sizes);
        }
        let relocation_table = match vm.segments.relocate_segments() {
            Ok(table) => table,
            Err(e) => {
                return Err(TraceError::MemoryError(e));
            },
        };
        proof {
            assert(relocation_table@ =~= table_of(sizes));
        }
        match self.relocate_memory(vm, &relocation_table) {
            Ok(()) => {},
            Err(e) => {
                return Err(TraceError::MemoryError(e));
            },
        }
        if vm.trace.is_some() {
            match self.relocate_trace(vm, &relocation_table) {
                Ok(()) => {},
                Err(e) => {
                    return Err(e);
                },
            }
        }
        Ok(())
    }

    /// The output of the program: the values of the cells in use of the output
    /// builtin's segment, each in decimal on a line of its own. Empty where the
    /// first builtin is not the output builtin.
    pub fn get_output(&mut self, vm: &mut VirtualMachine) -> (r: Result<String, RunnerError>)
        ensures
            *final(self) == *old(self),
            final(vm).run_context == old(vm).run_context,
            final(vm).builtin_runners == old(vm).builtin_runners,
            final(vm).memory == old(vm).memory,
            final(vm).trace == old(vm).trace,
            final(vm).current_step == old(vm).current_step,
            final(vm).segments.num_segments == old(vm).segments.num_segments,
            final(vm).segments.num_temp_segments == old(vm).segments.num_temp_segments,
            match output_outcome(*old(vm)) {
                Ok(expected) => r matches Ok(text) && text@ == expected,
                Err(e) => r == Err::<String, RunnerError>(e),
            },
    {
        let mut output = String::from_str("");
        proof {
            reveal_strlit("");
        }
        if vm.builtin_runners.len() == 0 {
            return Ok(output);
        }
        let base = match &vm.builtin_runners[0] {
            BuiltinRunner::Output(b) => b.base,
            _ => {
                return Ok(output);
            },
        };
        if base < 0 {
            return Err(RunnerError::RunnerInTemporarySegment(base));
        }
        vm.segments.compute_effective_sizes(&vm.memory);
        let size = match vm.segments.get_segment_used_size(base as usize) {
            Some(size) => size,
            None => {
                return Err(RunnerError::Memory(MemoryError::MissingSegmentUsedSizes));
            },
        };
        proof {
            reveal_strlit("");
            assert(output@ =~= output_text(vm.memory, base, 0));
        }
        let mut i: usize = 0;
        while i < size
            invariant
                i <= size,
                base >= 0,
                vm.segments.num_segments == old(vm).segments.num_segments,
                vm.segments.num_temp_segments == old(vm).segments.num_temp_segments,
                output_size(*old(vm), base) == Some(size),
                first_non_integer(vm.memory, base, 0, size as int) == first_non_integer(
                    vm.memory,
                    base,
                    i as int,
                    size as int,
                ),
                *self == *old(self),
                vm.run_context == old(vm).run_context,
                vm.builtin_runners == old(vm).builtin_runners,
                vm.memory == old(vm).memory,
                vm.trace == old(vm).trace,
                vm.current_step == old(vm).current_step,
                vm.builtin_runners@.len() > 0 && vm.builtin_runners@[0] is Output,
                base == vm.builtin_runners@[0].base_spec(),
                output@ == output_text(vm.memory, base, i as int),
            decreases size - i,
        {
            let address = Relocatable { segment_index: base, offset: i };
            let value = match vm.memory.get_integer(&address) {
                Ok(value) => value,
                Err(_) => {
                    return Err(RunnerError::MemoryGet(MaybeRelocatable::RelocatableValue(address)));
                },
            };
            output.append(value.to_string().as_str());
            output.append("\n");
            i = i + 1;
        }
        Ok(output)
    }
}

/// The linear address at which permanent segment `i` of `memory` starts: the
/// segments follow one another from address 1.
pub open spec fn laid_base(memory: Memory, i: int) -> int
    decreases i,
{
    if i <= 0 {
        1
    } else {
        laid_base(memory, i - 1) + memory.segment_len(i - 1)
    }
}

/// Whether relocation can flatten the cell: a hole and a field element it
/// can, an address where the table has a linear address for it.
pub open spec fn can_flatten(cell: Option<MaybeRelocatable>, relocation_table: Seq<usize>) -> bool {
    match cell {
        Some(MaybeRelocatable::RelocatableValue(rel)) => relocate_address_spec(
            rel,
            relocation_table,
        ) is Ok,
        _ => true,
    }
}

/// Whether memory can be laid out by the table: the table gives every
/// permanent segment the address at which it starts, and every cell can be
/// flattened.
pub open spec fn lays_out(memory: Memory, relocation_table: Seq<usize>) -> bool {
    &&& relocation_table.len() >= memory.data@.len()
    &&& forall|i: int|
        0 <= i < memory.data@.len() ==> #[trigger] relocation_table[i] == laid_base(memory, i)
    &&& forall|i: int, j: int|
        0 <= i < memory.data@.len() && 0 <= j < memory.segment_len(i) ==> can_flatten(
            #[trigger] cell_of(memory.data@, i, j),
            relocation_table,
        )
}

/// Whether every register of every entry of the trace has a linear address.
pub open spec fn trace_flattens(trace: Seq<TraceEntry>, relocation_table: Seq<usize>) -> bool {
    forall|k: int|
        0 <= k < trace.len() ==> (relocated_register((#[trigger] trace[k]).pc, relocation_table)
            is Ok && relocated_register(trace[k].ap, relocation_table) is Ok && relocated_register(
            trace[k].fp,
            relocation_table,
        ) is Ok)
}

/// The effective sizes by which the machine is relocated: those that were
/// counted, else the lengths of the permanent segments.
pub open spec fn effective_sizes(vm: VirtualMachine) -> Seq<usize> {
    match vm.segments.segment_used_sizes {
        Some(sizes) => sizes@,
        None => Seq::new(vm.memory.data@.len(), |i: int| vm.memory.segment_len(i) as usize),
    }
}

/// The relocation table for segments of the given sizes.
pub open spec fn table_of(sizes: Seq<usize>) -> Seq<usize> {
    Seq::new(sizes.len(), |i: int| base_of(sizes, i) as usize)
}

/// Whether a run can be relocated: nothing was relocated before, the layout
/// fits in the machine words, memory can be laid out by the table of the
/// effective sizes and, where there is a trace, the trace can be flattened.
pub open spec fn relocates(runner: CairoRunner, vm: VirtualMachine) -> bool {
    let sizes = effective_sizes(vm);
    &&& runner.relocated_memory@.len() == 0
    &&& base_of(sizes, sizes.len() as int) <= usize::MAX
    &&& lays_out(vm.memory, table_of(sizes))
    &&& vm.trace matches Some(trace) ==> runner.relocated_trace is None && trace_flattens(
        trace@,
        table_of(sizes),
    )
}

/// Whether `flat` is what relocation makes of the cell `cell`: a hole stays a
/// hole, a field element stays, and an address becomes its linear address.
pub open spec fn relocated_cell(
    cell: Option<MaybeRelocatable>,
    relocation_table: Seq<usize>,
    flat: Option<Felt252>,
) -> bool {
    match cell {
        None => flat.is_none(),
        Some(MaybeRelocatable::Int(num)) => flat == Some(num),
        Some(MaybeRelocatable::RelocatableValue(rel)) => relocate_address_spec(rel, relocation_table)
            matches Ok(address) && (flat matches Some(num) && num@ == address),
    }
}

/// The error that writing program and stack ends with before memory is asked
/// for the stack: an address that leaves the machine words, or an execution
/// segment that is not set. `None` where memory decides: it refuses a value of
/// the program or the stack, or takes them all.
pub open spec fn state_error(
    runner: CairoRunner,
    memory: Memory,
    entrypoint: usize,
    stack: Seq<MaybeRelocatable>,
) -> Option<RunnerError> {
    if runner.program_base matches Some(prog_base) && (prog_base.offset + entrypoint > usize::MAX
        || prog_base.offset + runner.program.shared_program_data.data@.len() > usize::MAX) {
        Some(RunnerError::SizeOverflow)
    } else if runner.program_base matches Some(prog_base) && !loadable(
        memory,
        prog_base,
        runner.program.shared_program_data.data@,
    ) {
        None
    } else {
        match runner.execution_base {
            None => Some(RunnerError::NoExecBase),
            Some(exec_base) => if exec_base.offset + stack.len() > usize::MAX {
                Some(RunnerError::SizeOverflow)
            } else {
                None
            },
        }
    }
}

/// Whether the program and `stack` can be written to their segments: the
/// segments are two, both are set, the addresses stay in the machine words and
/// memory takes every value.
pub open spec fn state_fits(
    runner: CairoRunner,
    memory: Memory,
    entrypoint: usize,
    stack: Seq<MaybeRelocatable>,
) -> bool {
    &&& runner.execution_base matches Some(exec_base) && exec_base.offset + stack.len()
        <= usize::MAX && loadable(memory, exec_base, stack) && (runner.program_base matches Some(
        prog_base,
    ) ==> prog_base.segment_index != exec_base.segment_index)
    &&& runner.program_base matches Some(prog_base) ==> prog_base.offset + entrypoint
        <= usize::MAX && prog_base.offset + runner.program.shared_program_data.data@.len()
        <= usize::MAX && loadable(memory, prog_base, runner.program.shared_program_data.data@)
}

/// Whether a function call with a stack of `n_stack` values can be set up:
/// program and execution segment are two, the cells that program and stack go
/// to are holes of segments without a rule, and the addresses stay in the
/// machine words.
pub open spec fn entry_fits(
    runner: CairoRunner,
    memory: Memory,
    entrypoint: usize,
    n_stack: int,
) -> bool {
    &&& runner.execution_base matches Some(exec_base) && exec_base.offset + n_stack + 2
        <= usize::MAX && blank(memory, exec_base, n_stack + 2) && (
    runner.program_base matches Some(prog_base) ==> prog_base.segment_index
        != exec_base.segment_index)
    &&& runner.program_base matches Some(prog_base) ==> prog_base.offset + entrypoint
        <= usize::MAX && prog_base.offset + runner.program.shared_program_data.data@.len()
        <= usize::MAX && blank(
        memory,
        prog_base,
        runner.program.shared_program_data.data@.len() as int,
    )
}

/// Whether segment `i` is neither the program nor the execution segment of the
/// runner.
pub open spec fn beside_state(runner: CairoRunner, i: int) -> bool {
    &&& runner.program_base matches Some(prog_base) ==> i != prog_base.segment_index
    &&& runner.execution_base matches Some(exec_base) ==> i != exec_base.segment_index
}

/// Whether `end` is the machine after `n` steps from `start`, each of them
/// taken away from `address` and without an error: the run of the machine
/// towards `address`, as far as it has come.
pub open spec fn run_of(start: VirtualMachine, address: Relocatable, n: int, end: VirtualMachine) -> bool
    decreases n,
{
    if n <= 0 {
        end == start
    } else {
        exists|last: VirtualMachine|
            last.run_context.pc != address && run_of(start, address, n - 1, last)
                && #[trigger] stepped(last, end, Ok::<(), VirtualMachineError>(()))
    }
}

/// Whether the initial registers and the program base are set.
pub open spec fn registers_set(runner: CairoRunner) -> bool {
    runner.initial_pc is Some && runner.initial_ap is Some && runner.initial_fp is Some
        && runner.program_base is Some
}

/// The first of the first `n` builtins that has a rule but sits in a temporary
/// segment, if there is one.
pub open spec fn temporary_before(runners: Seq<BuiltinRunner>, n: int) -> Option<int>
    decreases n,
{
    if n <= 0 {
        None
    } else {
        match temporary_before(runners, n - 1) {
            Some(k) => Some(k),
            None => if runners[n - 1].rule_spec() is Some && runners[n - 1].base_spec() < 0 {
                Some(n - 1)
            } else {
                None
            },
        }
    }
}

/// The rule of segment `s` once the first `n` builtins have given their
/// segments their rules: that of the last of them that has a rule and sits in
/// `s`, else the rule that `memory` had.
pub open spec fn rule_after(
    memory: Memory,
    runners: Seq<BuiltinRunner>,
    n: int,
    s: int,
) -> Option<ValidationRule>
    decreases n,
{
    if n <= 0 {
        memory.rule(s)
    } else if runners[n - 1].rule_spec() is Some && runners[n - 1].base_spec() == s {
        runners[n - 1].rule_spec()
    } else {
        rule_after(memory, runners, n - 1, s)
    }
}

/// A builtin found in a temporary segment among the first `m` is found among
/// the first `n` too, for `n` no less than `m`.
pub proof fn lemma_temporary_stays(runners: Seq<BuiltinRunner>, m: int, n: int)
    requires
        m <= n,
        temporary_before(runners, m) is Some,
    ensures
        temporary_before(runners, n) == temporary_before(runners, m),
    decreases n - m,
{
    if m < n {
        lemma_temporary_stays(runners, m, n - 1);
    }
}

/// Whether the rule holds values below `2^128`, as the range check of a
/// program does.
pub open spec fn default_bound(rule: ValidationRule) -> bool {
    rule matches ValidationRule::RangeCheck(Some(bound)) && bound@ == u128::MAX + 1
}

/// Where every builtin with a rule sits in a permanent segment, none is found
/// in a temporary one.
pub proof fn lemma_no_temporary(runners: Seq<BuiltinRunner>, n: int)
    requires
        n <= runners.len(),
        forall|i: int| 0 <= i < n ==> (#[trigger] runners[i]).base_spec() >= 0,
    ensures
        temporary_before(runners, n) is None,
    decreases n,
{
    if n > 0 {
        lemma_no_temporary(runners, n - 1);
    }
}

/// Whether none of the first `n` builtins that have a rule sits in segment `s`.
pub open spec fn unruled(runners: Seq<BuiltinRunner>, n: int, s: int) -> bool {
    forall|i: int|
        0 <= i < n && (#[trigger] runners[i]).rule_spec() is Some ==> runners[i].base_spec() != s
}

/// Where no two builtins with a rule share a segment, each of them finds its
/// own rule on its segment once all have registered, and a segment that holds
/// no builtin with a rule keeps the rule it had.
pub proof fn lemma_rules_registered(memory: Memory, runners: Seq<BuiltinRunner>, n: int)
    requires
        0 <= n <= runners.len(),
        forall|i: int, j: int|
            0 <= i < j < n && runners[i].rule_spec() is Some && runners[j].rule_spec() is Some
                ==> runners[i].base_spec() != runners[j].base_spec(),
    ensures
        forall|i: int|
            0 <= i < n && runners[i].rule_spec() is Some ==> #[trigger] rule_after(
                memory,
                runners,
                n,
                runners[i].base_spec() as int,
            ) == runners[i].rule_spec(),
        forall|s: int|
            unruled(runners, n, s) ==> #[trigger] rule_after(memory, runners, n, s) == memory.rule(
                s,
            ),
    decreases n,
{
    if n > 0 {
        lemma_rules_registered(memory, runners, n - 1);
        assert forall|s: int| unruled(runners, n, s) implies #[trigger] rule_after(
            memory,
            runners,
            n,
            s,
        ) == memory.rule(s) by {
            assert(unruled(runners, n - 1, s));
            assert(!(runners[n - 1].rule_spec() is Some && runners[n - 1].base_spec() == s));
            assert(rule_after(memory, runners, n - 1, s) == memory.rule(s));
        }
        assert forall|i: int|
            0 <= i < n && runners[i].rule_spec() is Some implies #[trigger] rule_after(
            memory,
            runners,
            n,
            runners[i].base_spec() as int,
        ) == runners[i].rule_spec() by {
            if i < n - 1 {
                assert(rule_after(memory, runners, n - 1, runners[i].base_spec() as int)
                    == runners[i].rule_spec());
            }
        }
    }
}

/// Whether the machine can be started: the registers and the program base are
/// set, what memory holds meets the rules it has, and each builtin with a rule
/// has a permanent segment that is still empty.
pub open spec fn vm_fits(runner: CairoRunner, vm: VirtualMachine) -> bool {
    &&& runner.initial_pc is Some
    &&& runner.initial_ap is Some
    &&& runner.initial_fp is Some
    &&& runner.program_base is Some
    &&& vm.memory.all_valid()
    &&& forall|i: int|
        0 <= i < vm.builtin_runners@.len() && (#[trigger] vm.builtin_runners@[i]).rule_spec()
            is Some ==> vm.builtin_runners@[i].base_spec() >= 0 && vm.memory.segment_len(
            vm.builtin_runners@[i].base_spec() as int,
        ) == 0
}

/// Builtins in the canonical order are eight at most: the place of each is no
/// less than its index.
pub proof fn lemma_canonical_order_is_short(builtins: Seq<BuiltinName>)
    requires
        in_canonical_order(builtins),
    ensures
        builtins.len() <= 8,
{
    lemma_rank_grows(builtins, builtins.len() as int - 1);
    if builtins.len() > 0 {
        assert(rank(builtins[builtins.len() as int - 1]) <= 7);
    }
}

/// In the canonical order the place of the builtin at index `i` is at least
/// `i`.
pub proof fn lemma_rank_grows(builtins: Seq<BuiltinName>, i: int)
    requires
        in_canonical_order(builtins),
        i < builtins.len(),
    ensures
        0 <= i ==> rank(builtins[i]) >= i,
    decreases i,
{
    if i > 0 {
        lemma_rank_grows(builtins, i - 1);
        assert(rank(builtins[i - 1]) < rank(builtins[i]));
    } else if i == 0 {
        assert(rank(builtins[0]) >= 0);
    }
}

/// Whether a machine is ready to be set up: memory holds the segments that
/// the manager counted and no segment has a rule yet, as in a machine that
/// was just made.
pub open spec fn ready_for_setup(vm: VirtualMachine) -> bool {
    vm.memory.data@.len() == vm.segments.num_segments && vm.memory.validation_rules@.len() == 0
}

/// The number of cells of the output segment `base` that are printed: its
/// effective size as it was counted, or as it is counted now from memory.
pub open spec fn output_size(vm: VirtualMachine, base: isize) -> Option<usize> {
    match vm.segments.segment_used_sizes {
        Some(sizes) => if 0 <= base < sizes@.len() {
            Some(sizes@[base as int])
        } else {
            None
        },
        None => if 0 <= base < vm.memory.data@.len() {
            Some(vm.memory.segment_len(base as int) as usize)
        } else {
            None
        },
    }
}

/// The offset of the first cell of segment `base` from `from` up to `n` that
/// holds no field element.
pub open spec fn first_non_integer(memory: Memory, base: isize, from: int, n: int) -> Option<int>
    decreases n - from,
{
    if from < 0 || from >= n {
        None
    } else if memory.cell(Relocatable { segment_index: base, offset: from as usize }) matches Some(
        MaybeRelocatable::Int(_),
    ) {
        first_non_integer(memory, base, from + 1, n)
    } else {
        Some(from)
    }
}

/// What `get_output` returns: nothing where the first builtin is not the output
/// builtin; else the text of the cells in use of its segment, or the error of
/// the first of them that holds no field element.
pub open spec fn output_outcome(vm: VirtualMachine) -> Result<Seq<char>, RunnerError> {
    if !(vm.builtin_runners@.len() > 0 && vm.builtin_runners@[0] is Output) {
        Ok(Seq::empty())
    } else {
        let base = vm.builtin_runners@[0].base_spec();
        if base < 0 {
            Err(RunnerError::RunnerInTemporarySegment(base))
        } else {
            match output_size(vm, base) {
                None => Err(RunnerError::Memory(MemoryError::MissingSegmentUsedSizes)),
                Some(size) => match first_non_integer(vm.memory, base, 0, size as int) {
                    Some(at) => Err(
                        RunnerError::MemoryGet(
                            MaybeRelocatable::RelocatableValue(
                                Relocatable { segment_index: base, offset: at as usize },
                            ),
                        ),
                    ),
                    None => Ok(output_text(vm.memory, base, size as int)),
                },
            }
        }
    }
}

/// The output text of the first `n` cells of segment `base`: the decimal digits
/// of each value, each followed by a line break. A cell that holds no field
/// element counts as zero; the output of a run has none.
pub open spec fn output_text(memory: Memory, base: isize, n: int) -> Seq<char>
    decreases n,
{
    if n <= 0 {
        Seq::empty()
    } else {
        output_text(memory, base, n - 1) + radix_digits(
            match memory.cell(Relocatable { segment_index: base, offset: (n - 1) as usize }) {
                Some(MaybeRelocatable::Int(num)) => num@,
                _ => 0,
            },
            10,
        ) + "\n"@
    }
}

/// Where the program uses every builtin, each puts one cell on the stack.
pub proof fn lemma_stack_of_all_included(runners: Seq<BuiltinRunner>, n: int)
    requires
        0 <= n <= runners.len(),
        forall|i: int| 0 <= i < runners.len() ==> (#[trigger] runners[i]).included_spec(),
    ensures
        stack_of(runners, n).len() == n,
    decreases n,
{
    if n > 0 {
        lemma_stack_of_all_included(runners, n - 1);
    }
}

/// The initial stack of the first `n` builtin runners: for each that the
/// program uses, the first address of its segment.
pub open spec fn stack_of(runners: Seq<BuiltinRunner>, n: int) -> Seq<MaybeRelocatable>
    decreases n,
{
    if n <= 0 {
        Seq::empty()
    } else if runners[n - 1].included_spec() {
        stack_of(runners, n - 1).push(
            MaybeRelocatable::RelocatableValue(
                Relocatable { segment_index: runners[n - 1].base_spec(), offset: 0 },
            ),
        )
    } else {
        stack_of(runners, n - 1)
    }
}

} // verus!
