//! The elliptic-curve operation builtin: from two points `P`, `Q` of the curve
//! and a scalar `m` it deduces `P + m * Q`.

use crate::felt::big::radix_digits;
use crate::felt::{field_add, field_mul, field_pow, field_sub, prime, Felt252};
use crate::math_utils::{
    div_ceil_usize, ec_add, ec_add_spec, ec_double, ec_double_spec, safe_div_usize, Point,
};
use crate::types::errors::math_errors::MathError;
use crate::types::errors::memory_errors::MemoryError;
use crate::types::instance_definitions::ec_op_instance_def::{
    EcOpInstanceDef, CELLS_PER_EC_OP, INPUT_CELLS_PER_EC_OP,
};
use crate::types::relocatable::{MaybeRelocatable, Relocatable};
use crate::vm::errors::runner_errors::RunnerError;
use crate::vm::runners::builtin_runner::{
    check_final_stack, final_stack_outcome, instances_for, used_cells, used_cells_spec,
    FinalStackOutcome, EC_OP_BUILTIN_NAME,
};
use crate::vm::vm_core::VirtualMachine;
use crate::vm::vm_memory::memory::Memory;
use crate::vm::vm_memory::memory_segments::{nth_after, MemorySegmentManager};
use vstd::prelude::*;
use vstd::string::StringExecFns;

verus! {

/// The runner of the elliptic-curve operation builtin.
#[derive(Debug, Clone, Copy, PartialEq, Eq, Structural)]
pub struct EcOpBuiltinRunner {
    pub ratio: u32,
    pub base: isize,
    pub cells_per_instance: u32,
    pub n_input_cells: u32,
    pub ec_op_builtin: EcOpInstanceDef,
    pub stop_ptr: Option<usize>,
    pub included: bool,
    pub instances_per_component: u32,
}

/// The text of a point: its coordinates in decimal, in brackets.
pub open spec fn point_text(p: Point) -> Seq<char> {
    "("@ + radix_digits(p.0, 10) + ", "@ + radix_digits(p.1, 10) + ")"@
}

/// The text of a scalar: in decimal, as a negative number where it lies in the
/// upper half of the field.
pub open spec fn scalar_text(m: nat) -> Seq<char> {
    if m > prime() / 2 {
        "-"@ + radix_digits((prime() - m) as nat, 10)
    } else {
        radix_digits(m, 10)
    }
}

/// The message of the same-x failure for the points `p`, `q` and the scalar `m`.
pub open spec fn ec_op_error_text(p: Point, m: nat, q: Point) -> Seq<char> {
    "Cannot apply EC operation: computation reached two points with the same x coordinate. \n\n    Attempting to compute P + m * Q where:\n\n    P = "@
        + point_text(p) + " \n\n    m = "@ + scalar_text(m) + "\n\n    Q = "@ + point_text(q) + "."@
}

/// The text of a point.
fn format_point(p: &(Felt252, Felt252)) -> (r: String)
    ensures
        r@ == point_text((p.0@, p.1@)),
{
    let mut s = String::from_str("(");
    s.append(p.0.to_string().as_str());
    s.append(", ");
    s.append(p.1.to_string().as_str());
    s.append(")");
    s
}

/// The text of a scalar.
fn format_scalar(m: &Felt252) -> (r: String)
    ensures
        r@ == scalar_text(m@),
{
    let half = Felt252::max_value().shr(1);
    proof {
        vstd::arithmetic::power::lemma_pow1(2);
    }
    if m.gt(&half) {
        let mut s = String::from_str("-");
        s.append(m.neg().to_string().as_str());
        s
    } else {
        m.to_string()
    }
}

/// The coefficient `alpha` of the curve.
pub open spec fn ec_alpha() -> nat {
    1
}

/// The coefficient `beta` of the curve.
pub open spec fn ec_beta() -> nat {
    0x6f21413efbe40de150e596d72f7a8c5609ad26c15c915c1f4cdfcb99cee9e89nat
}

/// How a run of double-and-add ends.
pub enum EcOpOutcome {
    /// All rounds were made; the sum is the result.
    Done(Point),
    /// A round found the partial sum and the doubled point on one vertical line.
    SameX(Point, Point),
    /// A round had to divide by an element without inverse.
    Arithmetic,
}

/// The outcome of `height` rounds of double-and-add. A round fails where the
/// partial sum and the doubled point share their x coordinate; else it adds the
/// doubled point to the partial sum where the low bit of `m` is set, doubles the
/// doubled point and halves `m`.
pub open spec fn ec_op_outcome(
    partial: Point,
    doubled: Point,
    m: nat,
    alpha: nat,
    height: nat,
) -> EcOpOutcome
    decreases height,
{
    if height == 0 {
        EcOpOutcome::Done(partial)
    } else if doubled.0 == partial.0 {
        EcOpOutcome::SameX(partial, doubled)
    } else if m % 2 == 1 && field_sub(partial.0, doubled.0) == 0 {
        EcOpOutcome::Arithmetic
    } else if field_mul(2, doubled.1) == 0 {
        EcOpOutcome::Arithmetic
    } else {
        ec_op_outcome(
            if m % 2 == 1 {
                ec_add_spec(partial, doubled)
            } else {
                partial
            },
            ec_double_spec(doubled, alpha),
            m / 2,
            alpha,
            (height - 1) as nat,
        )
    }
}

/// What the scan of the input cells of an instance finds.
pub enum InputScan {
    /// An input cell is a hole.
    Hole,
    /// The input cell with this index holds an address.
    NotInt(int),
    /// Every input cell holds a field element.
    Ready,
}

/// Scans the cells `from..n` after `instance` in order and stops at the first
/// that is a hole or holds an address.
pub open spec fn scan_inputs(memory: Memory, instance: Relocatable, from: int, n: int) -> InputScan
    decreases n - from,
{
    if from >= n {
        InputScan::Ready
    } else {
        match memory.cell(nth_after(instance, from)) {
            None => InputScan::Hole,
            Some(MaybeRelocatable::RelocatableValue(_)) => InputScan::NotInt(from),
            Some(MaybeRelocatable::Int(_)) => scan_inputs(memory, instance, from + 1, n),
        }
    }
}

/// The field element in the cell `i` cells after `instance`; zero where the
/// cell holds none.
pub open spec fn input_value(memory: Memory, instance: Relocatable, i: int) -> nat {
    match memory.cell(nth_after(instance, i)) {
        Some(MaybeRelocatable::Int(num)) => num@,
        _ => 0,
    }
}

/// What the deduction of a cell of the builtin's segment comes to.
pub enum EcOpDeduction {
    /// The cell is no output cell, or an input cell is a hole: nothing is known.
    Nothing,
    /// The input cell with this index holds an address.
    NotInt(int),
    /// The point with these coordinates is not on the curve.
    OffCurve(nat, nat),
    /// The run of double-and-add ended as stated.
    Outcome(EcOpOutcome),
}

/// The deduction of the cell at `address`: only the two output cells of an
/// instance are deduced, from the five input cells before them, which must hold
/// two points of the curve and a scalar.
pub open spec fn ec_op_deduction(memory: Memory, address: Relocatable, height: nat) -> EcOpDeduction {
    let index = address.offset as int % 7;
    let instance = Relocatable {
        segment_index: address.segment_index,
        offset: (address.offset - index) as usize,
    };
    if index != 5 && index != 6 {
        EcOpDeduction::Nothing
    } else {
        match scan_inputs(memory, instance, 0, 5) {
            InputScan::Hole => EcOpDeduction::Nothing,
            InputScan::NotInt(i) => EcOpDeduction::NotInt(i),
            InputScan::Ready => {
                let p = (input_value(memory, instance, 0), input_value(memory, instance, 1));
                let q = (input_value(memory, instance, 2), input_value(memory, instance, 3));
                let m = input_value(memory, instance, 4);
                if !on_curve(p.0, p.1, ec_alpha(), ec_beta()) {
                    EcOpDeduction::OffCurve(p.0, p.1)
                } else if !on_curve(q.0, q.1, ec_alpha(), ec_beta()) {
                    EcOpDeduction::OffCurve(q.0, q.1)
                } else {
                    EcOpDeduction::Outcome(ec_op_outcome(p, q, m, ec_alpha(), height))
                }
            },
        }
    }
}

/// Two residues differ by zero exactly when they are equal.
pub proof fn lemma_zero_difference(a: nat, b: nat)
    requires
        a < prime(),
        b < prime(),
    ensures
        field_sub(a, b) == 0 <==> a == b,
{
    let p = prime() as int;
    let d = a as int - b as int;
    if d == 0 {
        vstd::arithmetic::div_mod::lemma_small_mod(0, prime());
    } else if d > 0 {
        vstd::arithmetic::div_mod::lemma_small_mod(d as nat, prime());
    } else {
        vstd::arithmetic::div_mod::lemma_fundamental_div_mod_converse(d, p, -1, d + p);
    }
}

/// Whether `(x, y)` lies on the curve `y^2 = x^3 + alpha * x + beta`.
pub open spec fn on_curve(x: nat, y: nat, alpha: nat, beta: nat) -> bool {
    field_pow(y, 2) == field_add(field_add(field_pow(x, 3), field_mul(alpha, x)), beta)
}

impl EcOpBuiltinRunner {
    /// A runner with the given parameters, its segment not yet allocated.
    pub fn new(instance_def: &EcOpInstanceDef, included: bool) -> (r: EcOpBuiltinRunner)
        ensures
            r == (EcOpBuiltinRunner {
                base: 0,
                ratio: instance_def.ratio,
                n_input_cells: INPUT_CELLS_PER_EC_OP,
                cells_per_instance: CELLS_PER_EC_OP,
                ec_op_builtin: *instance_def,
                stop_ptr: None,
                included,
                instances_per_component: 1,
            }),
    {
        EcOpBuiltinRunner {
            base: 0,
            ratio: instance_def.ratio,
            n_input_cells: INPUT_CELLS_PER_EC_OP,
            cells_per_instance: CELLS_PER_EC_OP,
            ec_op_builtin: *instance_def,
            stop_ptr: None,
            included,
            instances_per_component: 1,
        }
    }

    /// Whether the point `(x, y)` lies on the curve
    /// `y^2 = x^3 + alpha * x + beta` over the field.
    pub fn point_on_curve(x: &Felt252, y: &Felt252, alpha: &Felt252, beta: &Felt252) -> (r: bool)
        ensures
            r == on_curve(x@, y@, alpha@, beta@),
    {
        let lhs = y.pow(2);
        let rhs = x.pow(3).add(&alpha.mul(x)).add(beta);
        proof {
            if lhs@ == rhs@ {
                Felt252::lemma_view_injective(lhs, rhs);
            }
        }
        lhs == rhs
    }

    /// Computes `P + m * Q` by `height` rounds of double-and-add, where
    /// `partial_sum` starts as `P` and `doubled_point` as `Q`. Fails as soon as a
    /// round finds the two on one vertical line.
    pub fn ec_op_impl(
        partial_sum: (Felt252, Felt252),
        doubled_point: (Felt252, Felt252),
        m: &Felt252,
        alpha: &Felt252,
        height: u32,
    ) -> (r: Result<(Felt252, Felt252), RunnerError>)
        ensures
            match ec_op_outcome(
                (partial_sum.0@, partial_sum.1@),
                (doubled_point.0@, doubled_point.1@),
                m@,
                alpha@,
                height as nat,
            ) {
                EcOpOutcome::Done(p) => r matches Ok(q) && (q.0@, q.1@) == p && q.0@ < prime()
                    && q.1@ < prime(),
                EcOpOutcome::SameX(p, q) => r matches Err(RunnerError::EcOpSameXCoordinate(msg))
                    && msg@ == ec_op_error_text(p, m@, q),
                EcOpOutcome::Arithmetic => r matches Err(RunnerError::EcOpArithmetic(e)) && e
                    == MathError::DividedByZero,
            },
    {
        let mut slope = *m;
        let mut partial = partial_sum;
        let mut doubled = doubled_point;
        let mut round: u32 = 0;
        proof {
            use_type_invariant(&partial_sum.0);
            use_type_invariant(&partial_sum.1);
            use_type_invariant(&doubled_point.0);
            use_type_invariant(&doubled_point.1);
        }
        while round < height
            invariant
                round <= height,
                partial.0@ < prime(),
                partial.1@ < prime(),
                doubled.0@ < prime(),
                doubled.1@ < prime(),
                ec_op_outcome(
                    (partial.0@, partial.1@),
                    (doubled.0@, doubled.1@),
                    slope@,
                    alpha@,
                    (height - round) as nat,
                ) == ec_op_outcome(
                    (partial_sum.0@, partial_sum.1@),
                    (doubled_point.0@, doubled_point.1@),
                    m@,
                    alpha@,
                    height as nat,
                ),
            decreases height - round,
        {
            if doubled.0.sub(&partial.0).is_zero() {
                proof {
                    lemma_zero_difference(doubled.0@, partial.0@);
                }
                return Err(
                    RunnerError::EcOpSameXCoordinate(
                        Self::format_ec_op_error(&partial, m, &doubled),
                    ),
                );
            }
            proof {
                lemma_zero_difference(doubled.0@, partial.0@);
            }
            if slope.is_odd() {
                match ec_add(&partial, &doubled) {
                    Ok(sum) => {
                        partial = sum;
                    },
                    Err(e) => {
                        return Err(RunnerError::EcOpArithmetic(e));
                    },
                }
            }
            match ec_double(&doubled, alpha) {
                Ok(twice) => {
                    doubled = twice;
                },
                Err(e) => {
                    return Err(RunnerError::EcOpArithmetic(e));
                },
            }
            proof {
                vstd::arithmetic::power::lemma_pow1(2);
            }
            slope = slope.shr(1);
            round = round + 1;
        }
        Ok(partial)
    }

    /// The message of the same-x failure.
    pub fn format_ec_op_error(p: &(Felt252, Felt252), m: &Felt252, q: &(Felt252, Felt252)) -> (r:
        String)
        ensures
            r@ == ec_op_error_text((p.0@, p.1@), m@, (q.0@, q.1@)),
    {
        let mut s = String::from_str(
            "Cannot apply EC operation: computation reached two points with the same x coordinate. \n\n    Attempting to compute P + m * Q where:\n\n    P = ",
        );
        s.append(format_point(p).as_str());
        s.append(" \n\n    m = ");
        s.append(format_scalar(m).as_str());
        s.append("\n\n    Q = ");
        s.append(format_point(q).as_str());
        s.append(".");
        s
    }

    /// The index of the segment the builtin owns.
    pub fn base(&self) -> (r: isize)
        ensures
            r == self.base,
    {
        self.base
    }

    /// Steps of the machine per instance.
    pub fn ratio(&self) -> (r: u32)
        ensures
            r == self.ratio,
    {
        self.ratio
    }

    /// Allocates the builtin's segment and remembers its index.
    pub fn initialize_segments(&mut self, segments: &mut MemorySegmentManager, memory: &mut Memory)
        requires
            old(segments).has_room(1),
        ensures
            final(self).base == old(segments).num_segments,
            *final(self) == (EcOpBuiltinRunner { base: final(self).base, ..*old(self) }),
            final(segments).num_segments == old(segments).num_segments + 1,
            final(segments).num_temp_segments == old(segments).num_temp_segments,
            final(segments).segment_used_sizes == old(segments).segment_used_sizes,
            final(memory).data@.len() == old(memory).data@.len() + 1,
            final(memory).temp_data == old(memory).temp_data,
            final(memory).validation_rules == old(memory).validation_rules,
            forall|addr: Relocatable| final(memory).cell(addr) == old(memory).cell(addr),
            forall|i: int| #[trigger] final(memory).segment_len(i) == old(memory).segment_len(i),
    {
        self.base = segments.add(memory).segment_index;
    }

    /// The cells that the builtin puts on the initial stack: the first address of
    /// its segment, where the program uses the builtin.
    pub fn initial_stack(&self) -> (r: Vec<MaybeRelocatable>)
        ensures
            self.included ==> r@ == seq![
                MaybeRelocatable::RelocatableValue(
                    Relocatable { segment_index: self.base, offset: 0 },
                ),
            ],
            !self.included ==> r@.len() == 0,
    {
        let mut stack: Vec<MaybeRelocatable> = Vec::new();
        if self.included {
            stack.push(
                MaybeRelocatable::RelocatableValue(
                    Relocatable { segment_index: self.base, offset: 0 },
                ),
            );
        }
        stack
    }

    /// The builtin has no rule for the values of its segment.
    pub fn add_validation_rule(&self, memory: &mut Memory) -> (r: Result<(), RunnerError>)
        ensures
            r is Ok,
            *final(memory) == *old(memory),
    {
        Ok(())
    }

    /// Deduces the value of an output cell from the input cells of its
    /// instance: the x or the y coordinate of `P + m * Q`.
    pub fn deduce_memory_cell(&self, address: &Relocatable, memory: &Memory) -> (r: Result<
        Option<MaybeRelocatable>,
        RunnerError,
    >)
        requires
            self.cells_per_instance == CELLS_PER_EC_OP,
            self.n_input_cells == INPUT_CELLS_PER_EC_OP,
        ensures
            match ec_op_deduction(*memory, *address, self.ec_op_builtin.scalar_height as nat) {
                EcOpDeduction::Nothing => r == Ok::<Option<MaybeRelocatable>, RunnerError>(None),
                EcOpDeduction::NotInt(i) => r == Err::<Option<MaybeRelocatable>, RunnerError>(
                    RunnerError::ExpectedInteger(
                        MaybeRelocatable::RelocatableValue(
                            Relocatable {
                                segment_index: address.segment_index,
                                offset: (address.offset - address.offset % 7 + i) as usize,
                            },
                        ),
                    ),
                ),
                EcOpDeduction::OffCurve(x, y) => r matches Err(RunnerError::PointNotOnCurve(a, b))
                    && a@ == x && b@ == y,
                EcOpDeduction::Outcome(EcOpOutcome::Done(p)) => r matches Ok(
                    Some(MaybeRelocatable::Int(v)),
                ) && v@ == (if address.offset % 7 == 5 {
                    p.0
                } else {
                    p.1
                }),
                EcOpDeduction::Outcome(EcOpOutcome::SameX(p, q)) => r matches Err(
                    RunnerError::EcOpSameXCoordinate(msg),
                ) && msg@ == ec_op_error_text(
                    p,
                    input_value(
                        *memory,
                        Relocatable {
                            segment_index: address.segment_index,
                            offset: (address.offset - address.offset % 7) as usize,
                        },
                        4,
                    ),
                    q,
                ),
                EcOpDeduction::Outcome(EcOpOutcome::Arithmetic) => r matches Err(
                    RunnerError::EcOpArithmetic(e),
                ) && e == MathError::DividedByZero,
            },
    {
        let alpha = Felt252::one();
        let beta = Felt252::from_words(
            0x6f21413efbe40de150e596d72f7a8c5u128,
            0x609ad26c15c915c1f4cdfcb99cee9e89u128,
        );
        let index: usize = address.offset % (self.cells_per_instance as usize);
        // only the two output cells are deduced
        if index != 5 && index != 6 {
            return Ok(None);
        }
        let instance = Relocatable {
            segment_index: address.segment_index,
            offset: address.offset - index,
        };
        // every input cell must hold a field element
        let input_cells = match read_inputs(memory, instance) {
            Ok(Some(cells)) => cells,
            Ok(None) => {
                return Ok(None);
            },
            Err(i) => {
                return Err(
                    RunnerError::ExpectedInteger(
                        MaybeRelocatable::RelocatableValue(
                            Relocatable {
                                segment_index: instance.segment_index,
                                offset: instance.offset + i,
                            },
                        ),
                    ),
                );
            },
        };
        // both input points must lie on the curve
        if !EcOpBuiltinRunner::point_on_curve(&input_cells[0], &input_cells[1], &alpha, &beta) {
            return Err(RunnerError::PointNotOnCurve(input_cells[0], input_cells[1]));
        }
        if !EcOpBuiltinRunner::point_on_curve(&input_cells[2], &input_cells[3], &alpha, &beta) {
            return Err(RunnerError::PointNotOnCurve(input_cells[2], input_cells[3]));
        }
        let result = match EcOpBuiltinRunner::ec_op_impl(
            (input_cells[0], input_cells[1]),
            (input_cells[2], input_cells[3]),
            &input_cells[4],
            &alpha,
            self.ec_op_builtin.scalar_height,
        ) {
            Ok(point) => point,
            Err(e) => {
                return Err(e);
            },
        };
        if index == 5 {
            Ok(Some(MaybeRelocatable::Int(result.0)))
        } else {
            Ok(Some(MaybeRelocatable::Int(result.1)))
        }
    }

    /// The cells that the steps taken so far pay for: the cells of one instance
    /// for every `ratio` steps, where the steps are a multiple of the ratio.
    pub fn get_allocated_memory_units(&self, vm: &VirtualMachine) -> (r: Result<
        usize,
        MemoryError,
    >)
        ensures
            self.ratio == 0 || vm.current_step % (self.ratio as usize) != 0 ==> r == Err::<
                usize,
                MemoryError,
            >(MemoryError::ErrorCalculatingMemoryUnits),
            self.ratio != 0 && vm.current_step % (self.ratio as usize) == 0 ==> (if
                self.cells_per_instance * (vm.current_step / (self.ratio as usize)) <= usize::MAX {
                r == Ok::<usize, MemoryError>(
                    (self.cells_per_instance * (vm.current_step / (self.ratio as usize))) as usize,
                )
            } else {
                r == Err::<usize, MemoryError>(MemoryError::SizeOverflow)
            }),
    {
        match safe_div_usize(vm.current_step, self.ratio as usize) {
            Ok(value) => match (self.cells_per_instance as usize).checked_mul(value) {
                Some(units) => Ok(units),
                None => Err(MemoryError::SizeOverflow),
            },
            Err(_) => Err(MemoryError::ErrorCalculatingMemoryUnits),
        }
    }

    /// The segment of the builtin and its stop pointer, once set.
    pub fn get_memory_segment_addresses(&self) -> (r: (isize, Option<usize>))
        ensures
            r == (self.base, self.stop_ptr),
    {
        (self.base, self.stop_ptr)
    }

    /// The number of cells in use of the builtin's segment.
    pub fn get_used_cells(&self, segments: &MemorySegmentManager) -> (r: Result<
        usize,
        MemoryError,
    >)
        ensures
            r == used_cells_spec(self.base, *segments),
    {
        used_cells(self.base, segments)
    }

    /// The cells in use and the cells that the steps taken pay for. Fails where
    /// fewer steps were taken than one instance needs, where the steps are no
    /// multiple of the ratio, and where more cells are in use than paid for.
    pub fn get_used_cells_and_allocated_size(&self, vm: &VirtualMachine) -> (r: Result<
        (usize, usize),
        MemoryError,
    >)
        ensures
            r == self.used_and_allocated(*vm),
    {
        proof {
            assert(self.ratio * self.instances_per_component <= u64::MAX) by (nonlinear_arith)
                requires
                    self.ratio <= u32::MAX,
                    self.instances_per_component <= u32::MAX,
            ;
        }
        let min_step: u64 = (self.ratio as u64) * (self.instances_per_component as u64);
        if (vm.current_step as u64) < min_step {
            return Err(MemoryError::InsufficientAllocatedCells);
        }
        let used = match self.get_used_cells(&vm.segments) {
            Ok(used) => used,
            Err(e) => {
                return Err(e);
            },
        };
        let instances = match safe_div_usize(vm.current_step, self.ratio as usize) {
            Ok(instances) => instances,
            Err(_) => {
                return Err(MemoryError::InsufficientAllocatedCells);
            },
        };
        let size = match (self.cells_per_instance as usize).checked_mul(instances) {
            Some(size) => size,
            None => {
                return Err(MemoryError::SizeOverflow);
            },
        };
        if used > size {
            return Err(MemoryError::InsufficientAllocatedCells);
        }
        Ok((used, size))
    }

    /// What `get_used_cells_and_allocated_size` returns.
    pub open spec fn used_and_allocated(&self, vm: VirtualMachine) -> Result<
        (usize, usize),
        MemoryError,
    > {
        if vm.current_step < self.ratio * self.instances_per_component {
            Err(MemoryError::InsufficientAllocatedCells)
        } else {
            match used_cells_spec(self.base, vm.segments) {
                Err(e) => Err(e),
                Ok(used) => {
                    if self.ratio == 0 || vm.current_step as int % self.ratio as int != 0 {
                        Err(MemoryError::InsufficientAllocatedCells)
                    } else {
                        let size = self.cells_per_instance * (vm.current_step as int
                            / self.ratio as int);
                        if size > usize::MAX {
                            Err(MemoryError::SizeOverflow)
                        } else if used > size {
                            Err(MemoryError::InsufficientAllocatedCells)
                        } else {
                            Ok((used, size as usize))
                        }
                    }
                },
            }
        }
    }

    /// Checks the stop pointer that the program left on the stack below
    /// `pointer`, records it, and returns the address at which the stack goes on.
    pub fn final_stack(
        &mut self,
        segments: &MemorySegmentManager,
        memory: &Memory,
        pointer: Relocatable,
    ) -> (r: Result<Relocatable, RunnerError>)
        requires
            old(self).cells_per_instance != 0,
        ensures
            match final_stack_outcome(
                old(self).base,
                old(self).cells_per_instance as usize,
                old(self).included,
                *segments,
                *memory,
                pointer,
            ) {
                FinalStackOutcome::Stop(stop, next) => r == Ok::<Relocatable, RunnerError>(next)
                    && *final(self) == (EcOpBuiltinRunner { stop_ptr: Some(stop), ..*old(self) }),
                FinalStackOutcome::NoPointer => r == Err::<Relocatable, RunnerError>(
                    RunnerError::FinalStack,
                ) && *final(self) == *old(self),
                FinalStackOutcome::Invalid => (r matches Err(RunnerError::InvalidStopPointer(n))
                    && n@ == EC_OP_BUILTIN_NAME@) && *final(self) == *old(self),
                FinalStackOutcome::Overflow => r == Err::<Relocatable, RunnerError>(
                    RunnerError::SizeOverflow,
                ) && *final(self) == *old(self),
                FinalStackOutcome::Temporary => r == Err::<Relocatable, RunnerError>(
                    RunnerError::RunnerInTemporarySegment(old(self).base),
                ) && *final(self) == *old(self),
            },
    {
        match check_final_stack(
            EC_OP_BUILTIN_NAME,
            self.base,
            self.cells_per_instance as usize,
            self.included,
            segments,
            memory,
            pointer,
        ) {
            Ok((stop, next)) => {
                self.stop_ptr = Some(stop);
                Ok(next)
            },
            Err(e) => Err(e),
        }
    }

    /// The number of instances in use: the cells in use divided by the cells of
    /// one instance, rounded up.
    pub fn get_used_instances(&self, segments: &MemorySegmentManager) -> (r: Result<
        usize,
        MemoryError,
    >)
        requires
            self.cells_per_instance != 0,
        ensures
            match used_cells_spec(self.base, *segments) {
                Ok(used) => r == Ok::<usize, MemoryError>(
                    instances_for(used, self.cells_per_instance as usize),
                ),
                Err(e) => r == Err::<usize, MemoryError>(e),
            },
    {
        match self.get_used_cells(segments) {
            Ok(used) => Ok(div_ceil_usize(used, self.cells_per_instance as usize)),
            Err(e) => Err(e),
        }
    }
}

/// Reads the five input cells after `instance`: the field elements they hold,
/// `None` where the first cell that holds none is a hole, or the index of that
/// cell where it holds an address.
fn read_inputs(memory: &Memory, instance: Relocatable) -> (r: Result<Option<Vec<Felt252>>, usize>)
    requires
        instance.offset + 5 <= usize::MAX,
    ensures
        match scan_inputs(*memory, instance, 0, 5) {
            InputScan::Hole => r == Ok::<Option<Vec<Felt252>>, usize>(None),
            InputScan::NotInt(i) => r == Err::<Option<Vec<Felt252>>, usize>(i as usize) && 0 <= i
                < 5,
            InputScan::Ready => r matches Ok(Some(cells)) && cells@.len() == 5 && forall|k: int|
                0 <= k < 5 ==> (#[trigger] cells@[k])@ == input_value(*memory, instance, k),
        },
{
    let mut input_cells: Vec<Felt252> = Vec::new();
    let mut i: usize = 0;
    while i < 5
        invariant
            i <= 5,
            instance.offset + 5 <= usize::MAX,
            input_cells@.len() == i,
            scan_inputs(*memory, instance, 0, 5) == scan_inputs(*memory, instance, i as int, 5),
            forall|k: int|
                0 <= k < i ==> (#[trigger] input_cells@[k])@ == input_value(*memory, instance, k),
        decreases 5 - i,
    {
        let cell = Relocatable {
            segment_index: instance.segment_index,
            offset: instance.offset + i,
        };
        proof {
            assert(cell == nth_after(instance, i as int));
        }
        match memory.get(&cell) {
            None => {
                return Ok(None);
            },
            Some(MaybeRelocatable::Int(num)) => {
                input_cells.push(num);
            },
            Some(MaybeRelocatable::RelocatableValue(_)) => {
                return Err(i);
            },
        }
        i = i + 1;
    }
    Ok(Some(input_cells))
}

} // verus!
