//! The builtin runners: each owns a segment and gives its cells a meaning.

use crate::math_utils::div_ceil_usize;
use crate::types::errors::memory_errors::MemoryError;
use crate::types::relocatable::{MaybeRelocatable, Relocatable};
use crate::vm::errors::runner_errors::RunnerError;
use crate::vm::vm_core::VirtualMachine;
use crate::vm::vm_memory::memory::{Memory, ValidationRule};
use crate::vm::vm_memory::memory_segments::MemorySegmentManager;
use vstd::prelude::*;
use vstd::string::StringExecFns;

pub mod bitwise;
pub mod ec_op;
pub mod hash;
pub mod output;
pub mod range_check;

pub use bitwise::BitwiseBuiltinRunner;
pub use ec_op::EcOpBuiltinRunner;
pub use hash::HashBuiltinRunner;
pub use output::OutputBuiltinRunner;
pub use range_check::RangeCheckBuiltinRunner;

verus! {

/// The name of the output builtin.
pub const OUTPUT_BUILTIN_NAME: &'static str = "output";

/// The name of the Pedersen hash builtin.
pub const HASH_BUILTIN_NAME: &'static str = "pedersen";

/// The name of the range-check builtin.
pub const RANGE_CHECK_BUILTIN_NAME: &'static str = "range_check";

/// The name of the signature builtin.
pub const SIGNATURE_BUILTIN_NAME: &'static str = "ecdsa";

/// The name of the Keccak builtin.
pub const KECCAK_BUILTIN_NAME: &'static str = "keccak";

/// The name of the bitwise builtin.
pub const BITWISE_BUILTIN_NAME: &'static str = "bitwise";

/// The name of the elliptic-curve operation builtin.
pub const EC_OP_BUILTIN_NAME: &'static str = "ec_op";

/// The name of the Poseidon hash builtin.
pub const POSEIDON_BUILTIN_NAME: &'static str = "poseidon";

/// The name of the segment arena builtin.
pub const SEGMENT_ARENA_BUILTIN_NAME: &'static str = "segment_arena";

/// The effective size of the segment with index `base`, as `used_cells`
/// returns it.
pub open spec fn used_cells_spec(base: isize, segments: MemorySegmentManager) -> Result<
    usize,
    MemoryError,
> {
    if base < 0 {
        Err(MemoryError::AddressInTemporarySegment(base))
    } else {
        match segments.segment_used_sizes {
            Some(sizes) => if base < sizes@.len() {
                Ok(sizes@[base as int])
            } else {
                Err(MemoryError::MissingSegmentUsedSizes)
            },
            None => Err(MemoryError::MissingSegmentUsedSizes),
        }
    }
}

/// The number of cells in use of the segment with index `base`: its effective
/// size, which must have been computed.
pub fn used_cells(base: isize, segments: &MemorySegmentManager) -> (r: Result<usize, MemoryError>)
    ensures
        r == used_cells_spec(base, *segments),
{
    if base < 0 {
        return Err(MemoryError::AddressInTemporarySegment(base));
    }
    match segments.get_segment_used_size(base as usize) {
        Some(size) => Ok(size),
        None => Err(MemoryError::MissingSegmentUsedSizes),
    }
}

/// The addresses of the cells in use of the segment with index `base`, in
/// order.
pub fn memory_accesses(base: isize, segments: &MemorySegmentManager) -> (r: Result<
    Vec<Relocatable>,
    MemoryError,
>)
    ensures
        match used_cells_spec(base, *segments) {
            Ok(size) => r matches Ok(v) && v@.len() == size && forall|i: int|
                0 <= i < size ==> v@[i] == (Relocatable { segment_index: base, offset: i as usize }),
            Err(e) => r == Err::<Vec<Relocatable>, MemoryError>(e),
        },
{
    let size = match used_cells(base, segments) {
        Ok(size) => size,
        Err(e) => {
            return Err(e);
        },
    };
    let mut out: Vec<Relocatable> = Vec::new();
    let mut i: usize = 0;
    while i < size
        invariant
            i <= size,
            out@.len() == i,
            forall|k: int|
                0 <= k < i ==> out@[k] == (Relocatable { segment_index: base, offset: k as usize }),
        decreases size - i,
    {
        out.push(Relocatable { segment_index: base, offset: i });
        i = i + 1;
    }
    Ok(out)
}

/// The number of instances that `used` cells take, `cells` cells each: the
/// quotient rounded up.
pub open spec fn instances_for(used: usize, cells: usize) -> usize {
    if used as int % cells as int == 0 {
        (used as int / cells as int) as usize
    } else {
        (used as int / cells as int + 1) as usize
    }
}

/// How the check of a builtin's stop pointer ends.
pub enum FinalStackOutcome {
    /// The builtin stops at this offset, and the stack goes on at this address.
    Stop(usize, Relocatable),
    /// The stop pointer cannot be read from the stack, or the segment sizes are
    /// not there.
    NoPointer,
    /// The stop pointer is not where the cells in use end.
    Invalid,
    /// The number of cells does not fit in a machine word.
    Overflow,
    /// The builtin sits in a temporary segment.
    Temporary,
}

/// The check of a builtin's stop pointer. A builtin that the program uses finds
/// its stop pointer in the cell before `pointer`; it must point into the
/// builtin's segment, to the end of the last instance in use. The stack then
/// goes on one cell before `pointer`. A builtin that the program does not use
/// stops at the number of its segment and leaves the stack alone.
pub open spec fn final_stack_outcome(
    base: isize,
    cells_per_instance: usize,
    included: bool,
    segments: MemorySegmentManager,
    memory: Memory,
    pointer: Relocatable,
) -> FinalStackOutcome {
    if !included {
        if base < 0 {
            FinalStackOutcome::Temporary
        } else {
            FinalStackOutcome::Stop(base as usize, pointer)
        }
    } else if pointer.offset == 0 {
        FinalStackOutcome::NoPointer
    } else {
        let below = Relocatable {
            segment_index: pointer.segment_index,
            offset: (pointer.offset - 1) as usize,
        };
        match memory.cell(below) {
            Some(MaybeRelocatable::RelocatableValue(stop)) => {
                if base != stop.segment_index {
                    FinalStackOutcome::Invalid
                } else {
                    match used_cells_spec(base, segments) {
                        Err(_) => FinalStackOutcome::NoPointer,
                        Ok(used) => {
                            let instances = instances_for(used, cells_per_instance);
                            if instances * cells_per_instance > usize::MAX {
                                FinalStackOutcome::Overflow
                            } else if stop.offset != instances * cells_per_instance {
                                FinalStackOutcome::Invalid
                            } else {
                                FinalStackOutcome::Stop(stop.offset, below)
                            }
                        },
                    }
                }
            },
            _ => FinalStackOutcome::NoPointer,
        }
    }
}

/// Whether `r` reports `outcome` for the builtin called `name`.
pub open spec fn reports(
    r: Result<(usize, Relocatable), RunnerError>,
    outcome: FinalStackOutcome,
    name: Seq<char>,
    base: isize,
) -> bool {
    match outcome {
        FinalStackOutcome::Stop(stop, next) => r == Ok::<(usize, Relocatable), RunnerError>(
            (stop, next),
        ),
        FinalStackOutcome::NoPointer => r == Err::<(usize, Relocatable), RunnerError>(
            RunnerError::FinalStack,
        ),
        FinalStackOutcome::Invalid => r matches Err(RunnerError::InvalidStopPointer(n)) && n@
            == name,
        FinalStackOutcome::Overflow => r == Err::<(usize, Relocatable), RunnerError>(
            RunnerError::SizeOverflow,
        ),
        FinalStackOutcome::Temporary => r == Err::<(usize, Relocatable), RunnerError>(
            RunnerError::RunnerInTemporarySegment(base),
        ),
    }
}

/// Checks the stop pointer of the builtin called `name`: see
/// `final_stack_outcome`. Returns the stop offset and the address at which the
/// stack goes on.
pub fn check_final_stack(
    name: &str,
    base: isize,
    cells_per_instance: usize,
    included: bool,
    segments: &MemorySegmentManager,
    memory: &Memory,
    pointer: Relocatable,
) -> (r: Result<(usize, Relocatable), RunnerError>)
    requires
        cells_per_instance != 0,
    ensures
        reports(
            r,
            final_stack_outcome(base, cells_per_instance, included, *segments, *memory, pointer),
            name@,
            base,
        ),
{
    if !included {
        if base < 0 {
            return Err(RunnerError::RunnerInTemporarySegment(base));
        }
        return Ok((base as usize, pointer));
    }
    let below = match pointer.sub_usize(1) {
        Ok(below) => below,
        Err(_) => {
            return Err(RunnerError::FinalStack);
        },
    };
    let stop = match memory.get_relocatable(&below) {
        Ok(stop) => stop,
        Err(_) => {
            return Err(RunnerError::FinalStack);
        },
    };
    if base != stop.segment_index {
        return Err(RunnerError::InvalidStopPointer(String::from_str(name)));
    }
    let used = match used_cells(base, segments) {
        Ok(used) => used,
        Err(_) => {
            return Err(RunnerError::FinalStack);
        },
    };
    let instances = div_ceil_usize(used, cells_per_instance);
    let expected = match instances.checked_mul(cells_per_instance) {
        Some(expected) => expected,
        None => {
            return Err(RunnerError::SizeOverflow);
        },
    };
    if stop.offset != expected {
        return Err(RunnerError::InvalidStopPointer(String::from_str(name)));
    }
    Ok((stop.offset, below))
}

/// A builtin runner of one of the kinds this machine knows.
#[derive(Debug)]
pub enum BuiltinRunner {
    Output(OutputBuiltinRunner),
    Hash(HashBuiltinRunner),
    RangeCheck(RangeCheckBuiltinRunner),
    Bitwise(BitwiseBuiltinRunner),
    EcOp(EcOpBuiltinRunner),
}

impl BuiltinRunner {
    /// The index of the segment the builtin owns.
    pub open spec fn base_spec(&self) -> isize {
        match self {
            BuiltinRunner::Output(b) => b.base,
            BuiltinRunner::Hash(b) => b.base,
            BuiltinRunner::RangeCheck(b) => b.base,
            BuiltinRunner::Bitwise(b) => b.base,
            BuiltinRunner::EcOp(b) => b.base,
        }
    }

    /// Whether the program uses the builtin.
    pub open spec fn included_spec(&self) -> bool {
        match self {
            BuiltinRunner::Output(b) => b.included,
            BuiltinRunner::Hash(b) => b.included,
            BuiltinRunner::RangeCheck(b) => b.included,
            BuiltinRunner::Bitwise(b) => b.included,
            BuiltinRunner::EcOp(b) => b.included,
        }
    }

    /// The number of cells of one instance.
    pub open spec fn cells_per_instance_spec(&self) -> usize {
        match self {
            BuiltinRunner::Output(b) => 1,
            BuiltinRunner::Hash(b) => b.cells_per_instance,
            BuiltinRunner::RangeCheck(b) => b.cells_per_instance as usize,
            BuiltinRunner::Bitwise(b) => b.cells_per_instance as usize,
            BuiltinRunner::EcOp(b) => b.cells_per_instance as usize,
        }
    }

    /// The stop pointer, once `final_stack` has set it.
    pub open spec fn stop_ptr_spec(&self) -> Option<usize> {
        match self {
            BuiltinRunner::Output(b) => b.stop_ptr,
            BuiltinRunner::Hash(b) => b.stop_ptr,
            BuiltinRunner::RangeCheck(b) => b.stop_ptr,
            BuiltinRunner::Bitwise(b) => b.stop_ptr,
            BuiltinRunner::EcOp(b) => b.stop_ptr,
        }
    }

    /// The rule that the builtin gives its segment, if it has one.
    pub open spec fn rule_spec(&self) -> Option<ValidationRule> {
        match self {
            BuiltinRunner::RangeCheck(b) => Some(ValidationRule::RangeCheck(b._bound)),
            _ => None,
        }
    }

    /// Whether the parameters of the builtin are those its kind was made with.
    pub open spec fn well_formed(&self) -> bool {
        match self {
            BuiltinRunner::Output(b) => true,
            BuiltinRunner::Hash(b) => b.cells_per_instance == 3,
            BuiltinRunner::RangeCheck(b) => b.cells_per_instance == 1,
            BuiltinRunner::Bitwise(b) => b.cells_per_instance == 5,
            BuiltinRunner::EcOp(b) => b.cells_per_instance == 7 && b.n_input_cells == 5,
        }
    }

    /// Whether the parameters of the builtin are those its kind was made with.
    pub fn is_well_formed(&self) -> (r: bool)
        ensures
            r == self.well_formed(),
    {
        match self {
            BuiltinRunner::Output(_) => true,
            BuiltinRunner::Hash(b) => b.cells_per_instance == 3,
            BuiltinRunner::RangeCheck(b) => b.cells_per_instance == 1,
            BuiltinRunner::Bitwise(b) => b.cells_per_instance == 5,
            BuiltinRunner::EcOp(b) => b.cells_per_instance == 7 && b.n_input_cells == 5,
        }
    }

    /// Whether a deduction at `address` that starts from `self` may end in
    /// `after` with the result `r`: the deduction of the builtin's kind, which
    /// changes a hash builtin by the address it remembers and no other builtin.
    pub open spec fn deduces(
        self,
        after: BuiltinRunner,
        memory: Memory,
        address: Relocatable,
        r: Result<Option<MaybeRelocatable>, RunnerError>,
    ) -> bool {
        match self {
                BuiltinRunner::Output(_) => r == Ok::<Option<MaybeRelocatable>, RunnerError>(None)
                    && after == self,
                BuiltinRunner::RangeCheck(_) => r == Ok::<Option<MaybeRelocatable>, RunnerError>(
                    None,
                ) && after == self,
                BuiltinRunner::Hash(b) => after matches BuiltinRunner::Hash(after)
                    && match hash::hash_deduction(b.verified_addresses@, memory, address) {
                    Some(digest) => (r matches Ok(Some(MaybeRelocatable::Int(v))) && v@ == digest)
                        && after.verified_addresses@ == b.verified_addresses@.push(address),
                    None => r == Ok::<Option<MaybeRelocatable>, RunnerError>(None)
                        && after.verified_addresses@ == b.verified_addresses@,
                },
                BuiltinRunner::Bitwise(b) => after == self
                    && match bitwise::bitwise_deduction(memory, address, b.total_n_bits) {
                    bitwise::BitwiseDeduction::Nothing => r == Ok::<
                        Option<MaybeRelocatable>,
                        RunnerError,
                    >(None),
                    bitwise::BitwiseDeduction::TooBig(i) => r matches Err(
                        RunnerError::IntegerBiggerThanPowerOfTwo(_, _, _),
                    ),
                    bitwise::BitwiseDeduction::Value(v) => r matches Ok(
                        Some(MaybeRelocatable::Int(out)),
                    ) && out@ == v,
                },
                BuiltinRunner::EcOp(b) => after == self && match ec_op::ec_op_deduction(
                    memory,
                    address,
                    b.ec_op_builtin.scalar_height as nat,
                ) {
                    ec_op::EcOpDeduction::Nothing => r == Ok::<
                        Option<MaybeRelocatable>,
                        RunnerError,
                    >(None),
                    ec_op::EcOpDeduction::NotInt(i) => r matches Err(
                        RunnerError::ExpectedInteger(_),
                    ),
                    ec_op::EcOpDeduction::OffCurve(x, y) => r matches Err(
                        RunnerError::PointNotOnCurve(p, q),
                    ) && p@ == x && q@ == y,
                    ec_op::EcOpDeduction::Outcome(ec_op::EcOpOutcome::Done(p)) => r matches Ok(
                        Some(MaybeRelocatable::Int(v)),
                    ) && v@ == (if address.offset % 7 == 5 {
                        p.0
                    } else {
                        p.1
                    }),
                    ec_op::EcOpDeduction::Outcome(ec_op::EcOpOutcome::SameX(p, q)) => r matches Err(
                        RunnerError::EcOpSameXCoordinate(_),
                    ),
                    ec_op::EcOpDeduction::Outcome(ec_op::EcOpOutcome::Arithmetic) => r matches Err(
                        RunnerError::EcOpArithmetic(_),
                    ),
                },
            }
    }

    /// The name of the builtin's kind.
    pub open spec fn name_spec(&self) -> Seq<char> {
        match self {
            BuiltinRunner::Output(_) => OUTPUT_BUILTIN_NAME@,
            BuiltinRunner::Hash(_) => HASH_BUILTIN_NAME@,
            BuiltinRunner::RangeCheck(_) => RANGE_CHECK_BUILTIN_NAME@,
            BuiltinRunner::Bitwise(_) => BITWISE_BUILTIN_NAME@,
            BuiltinRunner::EcOp(_) => EC_OP_BUILTIN_NAME@,
        }
    }

    /// The name of the builtin's kind.
    pub fn name(&self) -> (r: &'static str)
        ensures
            r@ == self.name_spec(),
    {
        match self {
            BuiltinRunner::Output(_) => OUTPUT_BUILTIN_NAME,
            BuiltinRunner::Hash(_) => HASH_BUILTIN_NAME,
            BuiltinRunner::RangeCheck(_) => RANGE_CHECK_BUILTIN_NAME,
            BuiltinRunner::Bitwise(_) => BITWISE_BUILTIN_NAME,
            BuiltinRunner::EcOp(_) => EC_OP_BUILTIN_NAME,
        }
    }

    /// The index of the segment the builtin owns.
    pub fn base(&self) -> (r: isize)
        ensures
            r == self.base_spec(),
    {
        match self {
            BuiltinRunner::Output(b) => b.base(),
            BuiltinRunner::Hash(b) => b.base(),
            BuiltinRunner::RangeCheck(b) => b.base(),
            BuiltinRunner::Bitwise(b) => b.base(),
            BuiltinRunner::EcOp(b) => b.base(),
        }
    }

    /// Allocates the builtin's segment and remembers its index.
    pub fn initialize_segments(&mut self, segments: &mut MemorySegmentManager, memory: &mut Memory)
        requires
            old(segments).has_room(1),
        ensures
            final(self).base_spec() == old(segments).num_segments,
            final(self).included_spec() == old(self).included_spec(),
            final(self).cells_per_instance_spec() == old(self).cells_per_instance_spec(),
            final(self).rule_spec() == old(self).rule_spec(),
            final(self).name_spec() == old(self).name_spec(),
            final(self).well_formed() == old(self).well_formed(),
            final(segments).num_segments == old(segments).num_segments + 1,
            final(segments).num_temp_segments == old(segments).num_temp_segments,
            final(segments).segment_used_sizes == old(segments).segment_used_sizes,
            final(memory).data@.len() == old(memory).data@.len() + 1,
            final(memory).temp_data == old(memory).temp_data,
            final(memory).validation_rules == old(memory).validation_rules,
            forall|addr: Relocatable| final(memory).cell(addr) == old(memory).cell(addr),
            forall|i: int| #[trigger] final(memory).segment_len(i) == old(memory).segment_len(i),
    {
        match self {
            BuiltinRunner::Output(b) => b.initialize_segments(segments, memory),
            BuiltinRunner::Hash(b) => b.initialize_segments(segments, memory),
            BuiltinRunner::RangeCheck(b) => b.initialize_segments(segments, memory),
            BuiltinRunner::Bitwise(b) => b.initialize_segments(segments, memory),
            BuiltinRunner::EcOp(b) => b.initialize_segments(segments, memory),
        }
    }

    /// The cells that the builtin puts on the initial stack: the first address of
    /// its segment, where the program uses the builtin.
    pub fn initial_stack(&self) -> (r: Vec<MaybeRelocatable>)
        ensures
            self.included_spec() ==> r@ == seq![
                MaybeRelocatable::RelocatableValue(
                    Relocatable { segment_index: self.base_spec(), offset: 0 },
                ),
            ],
            !self.included_spec() ==> r@.len() == 0,
    {
        match self {
            BuiltinRunner::Output(b) => b.initial_stack(),
            BuiltinRunner::Hash(b) => b.initial_stack(),
            BuiltinRunner::RangeCheck(b) => b.initial_stack(),
            BuiltinRunner::Bitwise(b) => b.initial_stack(),
            BuiltinRunner::EcOp(b) => b.initial_stack(),
        }
    }

    /// Gives the builtin's segment the rule of the builtin, where it has one.
    /// Fails where a builtin with a rule sits in a temporary segment.
    pub fn add_validation_rule(&self, memory: &mut Memory) -> (r: Result<(), RunnerError>)
        ensures
            final(memory).data == old(memory).data,
            final(memory).temp_data == old(memory).temp_data,
            final(memory).validated_addresses == old(memory).validated_addresses,
            match self.rule_spec() {
                None => r is Ok && *final(memory) == *old(memory),
                Some(rule) => if self.base_spec() < 0 {
                    r == Err::<(), RunnerError>(
                        RunnerError::RunnerInTemporarySegment(self.base_spec()),
                    ) && *final(memory) == *old(memory)
                } else {
                    r is Ok && final(memory).rule(self.base_spec() as int) == Some(rule)
                        && forall|i: int|
                        i != self.base_spec() ==> final(memory).rule(i) == old(memory).rule(i)
                },
            },
    {
        match self {
            BuiltinRunner::Output(b) => b.add_validation_rule(memory),
            BuiltinRunner::Hash(b) => b.add_validation_rule(memory),
            BuiltinRunner::RangeCheck(b) => b.add_validation_rule(memory),
            BuiltinRunner::Bitwise(b) => b.add_validation_rule(memory),
            BuiltinRunner::EcOp(b) => b.add_validation_rule(memory),
        }
    }

    /// Deduces the value of a cell of the builtin's segment from the cells that
    /// are there, as the builtin's kind tells; `None` where nothing can be
    /// deduced yet.
    pub fn deduce_memory_cell(&mut self, address: &Relocatable, memory: &Memory) -> (r: Result<
        Option<MaybeRelocatable>,
        RunnerError,
    >)
        requires
            old(self).well_formed(),
        ensures
            final(self).base_spec() == old(self).base_spec(),
            final(self).included_spec() == old(self).included_spec(),
            final(self).cells_per_instance_spec() == old(self).cells_per_instance_spec(),
            final(self).stop_ptr_spec() == old(self).stop_ptr_spec(),
            final(self).rule_spec() == old(self).rule_spec(),
            final(self).name_spec() == old(self).name_spec(),
            final(self).well_formed(),
            old(self).deduces(*final(self), *memory, *address, r),
    {
        match self {
            BuiltinRunner::Output(b) => b.deduce_memory_cell(address, memory),
            BuiltinRunner::Hash(b) => b.deduce_memory_cell(address, memory),
            BuiltinRunner::RangeCheck(b) => b.deduce_memory_cell(address, memory),
            BuiltinRunner::Bitwise(b) => b.deduce_memory_cell(address, memory),
            BuiltinRunner::EcOp(b) => b.deduce_memory_cell(address, memory),
        }
    }

    /// The number of cells in use of the builtin's segment.
    pub fn get_used_cells(&self, segments: &MemorySegmentManager) -> (r: Result<
        usize,
        MemoryError,
    >)
        ensures
            r == used_cells_spec(self.base_spec(), *segments),
    {
        used_cells(self.base(), segments)
    }

    /// The addresses of the cells in use of the builtin's segment, in order.
    pub fn get_memory_accesses(&self, vm: &VirtualMachine) -> (r: Result<
        Vec<Relocatable>,
        MemoryError,
    >)
        ensures
            match used_cells_spec(self.base_spec(), vm.segments) {
                Ok(size) => r matches Ok(v) && v@.len() == size && forall|i: int|
                    0 <= i < size ==> v@[i] == (Relocatable {
                        segment_index: self.base_spec(),
                        offset: i as usize,
                    }),
                Err(e) => r == Err::<Vec<Relocatable>, MemoryError>(e),
            },
    {
        memory_accesses(self.base(), &vm.segments)
    }

    /// Checks the stop pointer that the program left on the stack below
    /// `pointer`, records it, and returns the address at which the stack goes on.
    pub fn final_stack(
        &mut self,
        segments: &MemorySegmentManager,
        memory: &Memory,
        pointer: Relocatable,
    ) -> (r: Result<Relocatable, RunnerError>)
        requires
            old(self).well_formed(),
        ensures
            final(self).base_spec() == old(self).base_spec(),
            final(self).included_spec() == old(self).included_spec(),
            final(self).cells_per_instance_spec() == old(self).cells_per_instance_spec(),
            final(self).name_spec() == old(self).name_spec(),
            final(self).well_formed(),
            match final_stack_outcome(
                old(self).base_spec(),
                old(self).cells_per_instance_spec(),
                old(self).included_spec(),
                *segments,
                *memory,
                pointer,
            ) {
                FinalStackOutcome::Stop(stop, next) => r == Ok::<Relocatable, RunnerError>(next)
                    && final(self).stop_ptr_spec() == Some(stop),
                FinalStackOutcome::NoPointer => r == Err::<Relocatable, RunnerError>(
                    RunnerError::FinalStack,
                ) && final(self).stop_ptr_spec() == old(self).stop_ptr_spec(),
                FinalStackOutcome::Invalid => (r matches Err(RunnerError::InvalidStopPointer(n))
                    && n@ == old(self).name_spec()) && final(self).stop_ptr_spec() == old(self).stop_ptr_spec(),
                FinalStackOutcome::Overflow => r == Err::<Relocatable, RunnerError>(
                    RunnerError::SizeOverflow,
                ) && final(self).stop_ptr_spec() == old(self).stop_ptr_spec(),
                FinalStackOutcome::Temporary => r == Err::<Relocatable, RunnerError>(
                    RunnerError::RunnerInTemporarySegment(old(self).base_spec()),
                ) && final(self).stop_ptr_spec() == old(self).stop_ptr_spec(),
            },
    {
        match self {
            BuiltinRunner::Output(b) => b.final_stack(segments, memory, pointer),
            BuiltinRunner::Hash(b) => b.final_stack(segments, memory, pointer),
            BuiltinRunner::RangeCheck(b) => b.final_stack(segments, memory, pointer),
            BuiltinRunner::Bitwise(b) => b.final_stack(segments, memory, pointer),
            BuiltinRunner::EcOp(b) => b.final_stack(segments, memory, pointer),
        }
    }
}

} // verus!
