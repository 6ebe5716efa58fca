//! The state of the machine and its fetch-decode-execute step.

use crate::felt::laws::{law_mul_commutative, law_sub_then_add};
use crate::felt::ops::as_int;
use crate::felt::{field_add, field_mul, field_sub, prime, Felt252};
use crate::types::errors::math_errors::MathError;
use crate::types::errors::memory_errors::MemoryError;
use crate::types::instruction::{
    ApUpdate, FpUpdate, Instruction, Op1Addr, Opcode, PcUpdate, Register, Res,
};
use crate::types::relocatable::{MaybeRelocatable, Relocatable};
use crate::vm::decoding::decoder::{decode_instruction, decode_spec};
use crate::vm::errors::runner_errors::RunnerError;
use crate::vm::errors::vm_errors::VirtualMachineError;
use crate::vm::runners::builtin_runner::{BuiltinRunner, RangeCheckBuiltinRunner};
use crate::vm::vm_memory::memory::Memory;
use crate::vm::vm_memory::memory_segments::MemorySegmentManager;
use vstd::prelude::*;

verus! {

/// The registers: the program counter, and the offsets of the allocation
/// pointer and of the frame pointer into the execution segment.
#[derive(Clone, Copy, Debug, PartialEq, Eq, Structural)]
pub struct RunContext {
    pub pc: Relocatable,
    pub ap: usize,
    pub fp: usize,
}

/// The address `off` cells from `base`, where the offset stays within a
/// machine word.
pub open spec fn offset_addr(base: Relocatable, off: i32) -> Result<Relocatable, MathError> {
    if base.offset + off < 0 {
        Err(MathError::RelocatableSubNegOffset(base, (-off) as usize))
    } else if base.offset + off > usize::MAX {
        Err(MathError::RelocatableAddUsizeOffsetExceeded(base, off as usize))
    } else {
        Ok(Relocatable { segment_index: base.segment_index, offset: (base.offset + off) as usize })
    }
}

/// An arithmetic result as the result of a step.
pub open spec fn lift<T>(r: Result<T, MathError>) -> Result<T, VirtualMachineError> {
    match r {
        Ok(v) => Ok(v),
        Err(e) => Err(VirtualMachineError::Math(e)),
    }
}

impl RunContext {
    /// The allocation pointer as an address of the execution segment.
    pub open spec fn ap_addr(&self) -> Relocatable {
        Relocatable { segment_index: 1, offset: self.ap }
    }

    /// The frame pointer as an address of the execution segment.
    pub open spec fn fp_addr(&self) -> Relocatable {
        Relocatable { segment_index: 1, offset: self.fp }
    }

    /// The address in a register.
    pub open spec fn register(&self, register: Register) -> Relocatable {
        match register {
            Register::AP => self.ap_addr(),
            Register::FP => self.fp_addr(),
        }
    }

    /// The address of the destination operand.
    pub open spec fn dst_addr(&self, instruction: Instruction) -> Result<
        Relocatable,
        VirtualMachineError,
    > {
        lift(offset_addr(self.register(instruction.dst_register), instruction.off0))
    }

    /// The address of the first operand.
    pub open spec fn op0_addr(&self, instruction: Instruction) -> Result<
        Relocatable,
        VirtualMachineError,
    > {
        lift(offset_addr(self.register(instruction.op0_register), instruction.off1))
    }

    /// The address of the second operand, which may depend on the first.
    pub open spec fn op1_addr(&self, instruction: Instruction, op0: Option<MaybeRelocatable>) -> Result<
        Relocatable,
        VirtualMachineError,
    > {
        match instruction.op1_addr {
            Op1Addr::FP => lift(offset_addr(self.fp_addr(), instruction.off2)),
            Op1Addr::AP => lift(offset_addr(self.ap_addr(), instruction.off2)),
            Op1Addr::Imm => if instruction.off2 == 1 {
                lift(offset_addr(self.pc, instruction.off2))
            } else {
                Err(VirtualMachineError::ImmShouldBe1)
            },
            Op1Addr::Op0 => match op0 {
                Some(MaybeRelocatable::RelocatableValue(addr)) => lift(
                    offset_addr(addr, instruction.off2),
                ),
                Some(MaybeRelocatable::Int(_)) => Err(
                    VirtualMachineError::Memory(MemoryError::AddressNotRelocatable),
                ),
                None => Err(VirtualMachineError::UnknownOp0),
            },
        }
    }

    /// The allocation pointer as an address of the execution segment.
    pub fn get_ap(&self) -> (r: Relocatable)
        ensures
            r == self.ap_addr(),
    {
        Relocatable { segment_index: 1, offset: self.ap }
    }

    /// The frame pointer as an address of the execution segment.
    pub fn get_fp(&self) -> (r: Relocatable)
        ensures
            r == self.fp_addr(),
    {
        Relocatable { segment_index: 1, offset: self.fp }
    }

    /// The program counter.
    pub fn get_pc(&self) -> (r: Relocatable)
        ensures
            r == self.pc,
    {
        self.pc
    }

    /// The address `off` cells from `base`.
    fn shift(base: Relocatable, off: i32) -> (r: Result<Relocatable, VirtualMachineError>)
        ensures
            r == lift(offset_addr(base, off)),
    {
        match base.add_i32(off) {
            Ok(addr) => Ok(addr),
            Err(e) => Err(VirtualMachineError::Math(e)),
        }
    }

    /// The address of the destination operand: a register plus the first
    /// offset.
    pub fn compute_dst_addr(&self, instruction: &Instruction) -> (r: Result<
        Relocatable,
        VirtualMachineError,
    >)
        ensures
            r == self.dst_addr(*instruction),
    {
        let base = match instruction.dst_register {
            Register::AP => self.get_ap(),
            Register::FP => self.get_fp(),
        };
        RunContext::shift(base, instruction.off0)
    }

    /// The address of the first operand: a register plus the second offset.
    pub fn compute_op0_addr(&self, instruction: &Instruction) -> (r: Result<
        Relocatable,
        VirtualMachineError,
    >)
        ensures
            r == self.op0_addr(*instruction),
    {
        let base = match instruction.op0_register {
            Register::AP => self.get_ap(),
            Register::FP => self.get_fp(),
        };
        RunContext::shift(base, instruction.off1)
    }

    /// The address of the second operand: a register, the program counter or the
    /// address in the first operand, plus the third offset.
    pub fn compute_op1_addr(&self, instruction: &Instruction, op0: Option<MaybeRelocatable>) -> (r:
        Result<Relocatable, VirtualMachineError>)
        ensures
            r == self.op1_addr(*instruction, op0),
    {
        let base = match instruction.op1_addr {
            Op1Addr::FP => self.get_fp(),
            Op1Addr::AP => self.get_ap(),
            Op1Addr::Imm => {
                if instruction.off2 == 1 {
                    self.pc
                } else {
                    return Err(VirtualMachineError::ImmShouldBe1);
                }
            },
            Op1Addr::Op0 => match op0 {
                Some(MaybeRelocatable::RelocatableValue(addr)) => addr,
                Some(MaybeRelocatable::Int(_)) => {
                    return Err(VirtualMachineError::Memory(MemoryError::AddressNotRelocatable));
                },
                None => {
                    return Err(VirtualMachineError::UnknownOp0);
                },
            },
        };
        RunContext::shift(base, instruction.off2)
    }
}

/// The operands of an instruction and the result made from them.
#[derive(Clone, Copy, Debug, PartialEq, Eq, Structural)]
pub struct Operands {
    pub dst: MaybeRelocatable,
    pub res: Option<MaybeRelocatable>,
    pub op0: MaybeRelocatable,
    pub op1: MaybeRelocatable,
}

/// The addresses of the operands of an instruction.
#[derive(Clone, Copy, Debug, PartialEq, Eq, Structural)]
pub struct OperandsAddresses {
    pub dst_addr: Relocatable,
    pub op0_addr: Relocatable,
    pub op1_addr: Relocatable,
}

/// Whether `sum` is what adding the cell values `a` and `b` gives.
pub open spec fn is_sum(a: MaybeRelocatable, b: MaybeRelocatable, sum: MaybeRelocatable) -> bool {
    match (a, b) {
        (MaybeRelocatable::Int(x), MaybeRelocatable::Int(y)) => sum.is_int_with(
            field_add(x@, y@),
        ),
        (MaybeRelocatable::RelocatableValue(rel), MaybeRelocatable::Int(num)) | (
            MaybeRelocatable::Int(num),
            MaybeRelocatable::RelocatableValue(rel),
        ) => rel.offset + num@ <= usize::MAX && sum.is_rel(rel.segment_index, rel.offset + num@),
        _ => false,
    }
}

/// Whether the cell values `a` and `b` can be added: two addresses cannot, and
/// an address can move forward by a field element only within a machine word.
pub open spec fn addable(a: MaybeRelocatable, b: MaybeRelocatable) -> bool {
    match (a, b) {
        (MaybeRelocatable::Int(_), MaybeRelocatable::Int(_)) => true,
        (MaybeRelocatable::RelocatableValue(rel), MaybeRelocatable::Int(num)) | (
            MaybeRelocatable::Int(num),
            MaybeRelocatable::RelocatableValue(rel),
        ) => rel.offset + num@ <= usize::MAX,
        _ => false,
    }
}

/// Whether `difference` is what subtracting the cell value `b` from `a` gives.
pub open spec fn is_difference(
    a: MaybeRelocatable,
    b: MaybeRelocatable,
    difference: MaybeRelocatable,
) -> bool {
    match (a, b) {
        (MaybeRelocatable::Int(x), MaybeRelocatable::Int(y)) => difference.is_int_with(
            field_sub(x@, y@),
        ),
        (MaybeRelocatable::RelocatableValue(x), MaybeRelocatable::RelocatableValue(y)) => {
            x.segment_index == y.segment_index && x.offset >= y.offset && difference.is_int_with(
                (x.offset - y.offset) as nat,
            )
        },
        (MaybeRelocatable::RelocatableValue(x), MaybeRelocatable::Int(y)) => y@ <= x.offset
            && difference.is_rel(x.segment_index, x.offset - y@),
        _ => false,
    }
}

/// Why the cell value `b` cannot be subtracted from `a`, where it cannot.
pub open spec fn sub_fault(a: MaybeRelocatable, b: MaybeRelocatable) -> Option<MathError> {
    match (a, b) {
        (MaybeRelocatable::Int(_), MaybeRelocatable::Int(_)) => None,
        (MaybeRelocatable::RelocatableValue(x), MaybeRelocatable::RelocatableValue(y)) => {
            if x.segment_index != y.segment_index {
                Some(MathError::RelocatableSubDiffIndex(x, y))
            } else if x.offset < y.offset {
                Some(MathError::RelocatableSubNegOffset(x, y.offset))
            } else {
                None
            }
        },
        (MaybeRelocatable::RelocatableValue(x), MaybeRelocatable::Int(y)) => if y@ <= x.offset {
            None
        } else {
            Some(MathError::RelocatableAddFelt252OffsetExceeded(x, y))
        },
        (MaybeRelocatable::Int(x), MaybeRelocatable::RelocatableValue(y)) => Some(
            MathError::SubRelocatableFromInt(x, y),
        ),
    }
}

/// Whether `r` is what solving an `assert_eq` for one operand gives, `dst`
/// being the destination and `other` the other operand: of a sum the
/// difference, of a product the quotient in the field; nothing where one of
/// the two is unknown, the instruction makes no sum or product, or the divisor
/// is zero.
pub open spec fn solved_for(
    instruction: Instruction,
    dst: Option<MaybeRelocatable>,
    other: Option<MaybeRelocatable>,
    r: Result<(Option<MaybeRelocatable>, Option<MaybeRelocatable>), VirtualMachineError>,
) -> bool {
    match (instruction.res, dst, other) {
        (Res::Add, Some(d), Some(o)) => match sub_fault(d, o) {
            Some(e) => r == Err::<
                (Option<MaybeRelocatable>, Option<MaybeRelocatable>),
                VirtualMachineError,
            >(VirtualMachineError::Math(e)),
            None => r matches Ok((Some(x), res)) && res == dst && is_difference(d, o, x),
        },
        (Res::Mul, Some(MaybeRelocatable::Int(d)), Some(MaybeRelocatable::Int(o))) => {
            if o@ != 0 {
                r matches Ok((Some(MaybeRelocatable::Int(q)), res)) && res == dst && q@
                    == crate::felt::big::field_div(d@, o@)
            } else {
                r == Ok::<
                    (Option<MaybeRelocatable>, Option<MaybeRelocatable>),
                    VirtualMachineError,
                >((None, None))
            }
        },
        _ => r == Ok::<(Option<MaybeRelocatable>, Option<MaybeRelocatable>), VirtualMachineError>(
            (None, None),
        ),
    }
}

/// What is subtracted and then added again is back: where `d` is `a - b`,
/// `a` is `d + b` and `b + d`.
pub proof fn lemma_difference_then_sum(a: MaybeRelocatable, b: MaybeRelocatable, d: MaybeRelocatable)
    requires
        is_difference(a, b, d),
        a matches MaybeRelocatable::Int(x) ==> x@ < prime(),
        b matches MaybeRelocatable::Int(x) ==> x@ < prime(),
    ensures
        is_sum(d, b, a),
        is_sum(b, d, a),
{
    match (a, b) {
        (MaybeRelocatable::Int(x), MaybeRelocatable::Int(y)) => {
            law_sub_then_add(x@, y@);
        },
        (MaybeRelocatable::RelocatableValue(x), MaybeRelocatable::RelocatableValue(y)) => {
            vstd::arithmetic::div_mod::lemma_small_mod(x.offset as nat, prime());
        },
        (MaybeRelocatable::RelocatableValue(x), MaybeRelocatable::Int(y)) => {
            law_sub_then_add(x.offset as nat, y@);
        },
        _ => {},
    }
}

/// Whether `product` is what multiplying the cell values `a` and `b` gives.
pub open spec fn is_product(
    a: MaybeRelocatable,
    b: MaybeRelocatable,
    product: MaybeRelocatable,
) -> bool {
    match (a, b) {
        (MaybeRelocatable::Int(x), MaybeRelocatable::Int(y)) => product.is_int_with(
            field_mul(x@, y@),
        ),
        _ => false,
    }
}

/// Whether `res` is the result that the instruction makes from its operands.
pub open spec fn is_res(
    instruction: Instruction,
    op0: MaybeRelocatable,
    op1: MaybeRelocatable,
    res: Option<MaybeRelocatable>,
) -> bool {
    match instruction.res {
        Res::Op1 => res == Some(op1),
        Res::Add => res matches Some(sum) && is_sum(op0, op1, sum),
        Res::Mul => res matches Some(product) && is_product(op0, op1, product),
        Res::Unconstrained => res.is_none(),
    }
}

/// The result that the instruction makes from its operands; there is one at
/// most.
pub open spec fn res_of(
    instruction: Instruction,
    op0: MaybeRelocatable,
    op1: MaybeRelocatable,
) -> Option<MaybeRelocatable> {
    choose|res: Option<MaybeRelocatable>| is_res(instruction, op0, op1, res)
}

/// The result of an instruction is determined by its operands.
pub proof fn lemma_res_unique(
    instruction: Instruction,
    op0: MaybeRelocatable,
    op1: MaybeRelocatable,
    res: Option<MaybeRelocatable>,
)
    requires
        is_res(instruction, op0, op1, res),
    ensures
        res_of(instruction, op0, op1) == res,
{
    let other = res_of(instruction, op0, op1);
    assert(is_res(instruction, op0, op1, other));
    match instruction.res {
        Res::Add | Res::Mul => {
            match (res, other) {
                (Some(MaybeRelocatable::Int(a)), Some(MaybeRelocatable::Int(b))) => {
                    Felt252::lemma_view_injective(a, b);
                },
                _ => {},
            }
        },
        _ => {},
    }
}

/// The instruction at the program counter: the cell there must hold a field
/// element that fits an instruction word.
pub open spec fn current_instruction(ctx: RunContext, memory: Memory) -> Result<
    Instruction,
    VirtualMachineError,
> {
    match memory.cell(ctx.pc) {
        Some(MaybeRelocatable::Int(word)) => if word@ <= u64::MAX {
            decode_spec(word@ as u64)
        } else {
            Err(VirtualMachineError::InvalidInstructionEncoding)
        },
        _ => Err(VirtualMachineError::InstructionNonInt(ctx.pc)),
    }
}

/// The operands of `instruction` as `memory` holds them, with the result made
/// from them; `None` where an address cannot be formed or a cell is a hole.
pub open spec fn operands_at(ctx: RunContext, instruction: Instruction, memory: Memory) -> Option<
    Operands,
> {
    match (ctx.dst_addr(instruction), ctx.op0_addr(instruction)) {
        (Ok(dst_addr), Ok(op0_addr)) => match ctx.op1_addr(instruction, memory.cell(op0_addr)) {
            Ok(op1_addr) => match (
                memory.cell(dst_addr),
                memory.cell(op0_addr),
                memory.cell(op1_addr),
            ) {
                (Some(dst), Some(op0), Some(op1)) => Some(
                    Operands { dst, res: res_of(instruction, op0, op1), op0, op1 },
                ),
                _ => None,
            },
            Err(_) => None,
        },
        _ => None,
    }
}

/// Whether the instruction makes a result from these operands: a sum of two
/// addresses, or of an address that leaves the machine words, cannot be made,
/// nor a product of anything but field elements.
pub open spec fn res_defined(
    instruction: Instruction,
    op0: MaybeRelocatable,
    op1: MaybeRelocatable,
) -> bool {
    match instruction.res {
        Res::Add => addable(op0, op1),
        Res::Mul => op0 is Int && op1 is Int,
        _ => true,
    }
}

/// What executing `instruction` gives where memory holds its operands
/// already: the registers after it, or the error of the first of the result,
/// the opcode's assertion and the registers that fails.
pub open spec fn settled_step(
    ctx: RunContext,
    instruction: Instruction,
    operands: Operands,
    r: Result<(), VirtualMachineError>,
    after: RunContext,
) -> bool {
    if !res_defined(instruction, operands.op0, operands.op1) {
        r matches Err(VirtualMachineError::Math(_))
    } else {
        match opcode_verdict(ctx, instruction, operands) {
            Err(e) => r == Err::<(), VirtualMachineError>(e),
            Ok(()) => match next_context(ctx, instruction, operands) {
                Err(e) => r == Err::<(), VirtualMachineError>(e),
                Ok(next) => r is Ok && after == next,
            },
        }
    }
}

/// Whether `r` is what the instruction alone, or the other two operands, give
/// for the first operand: a call takes the address after the instruction, an
/// `assert_eq` is solved for it, anything else leaves it open.
pub open spec fn op0_solved(
    ctx: RunContext,
    instruction: Instruction,
    dst: Option<MaybeRelocatable>,
    op1: Option<MaybeRelocatable>,
    r: Result<(Option<MaybeRelocatable>, Option<MaybeRelocatable>), VirtualMachineError>,
) -> bool {
    match instruction.opcode {
                Opcode::Call => if ctx.pc.offset + instruction.size_spec()
                    <= usize::MAX {
                    r == Ok::<
                        (Option<MaybeRelocatable>, Option<MaybeRelocatable>),
                        VirtualMachineError,
                    >(
                        (
                            Some(
                                MaybeRelocatable::RelocatableValue(
                                    Relocatable {
                                        segment_index: ctx.pc.segment_index,
                                        offset: (ctx.pc.offset
                                            + instruction.size_spec()) as usize,
                                    },
                                ),
                            ),
                            None,
                        ),
                    )
                } else {
                    r == Err::<
                        (Option<MaybeRelocatable>, Option<MaybeRelocatable>),
                        VirtualMachineError,
                    >(VirtualMachineError::RegisterOverflow)
                },
                Opcode::AssertEq => solved_for(instruction, dst, op1, r),
                _ => r == Ok::<
                    (Option<MaybeRelocatable>, Option<MaybeRelocatable>),
                    VirtualMachineError,
                >((None, None)),
            }
}

/// Whether `r` is what the other two operands give for the second operand: an
/// `assert_eq` that takes its result from the second operand hands the
/// destination on, one of a sum or a product is solved for it, anything else
/// leaves it open.
pub open spec fn op1_solved(
    instruction: Instruction,
    dst: Option<MaybeRelocatable>,
    op0: Option<MaybeRelocatable>,
    r: Result<(Option<MaybeRelocatable>, Option<MaybeRelocatable>), VirtualMachineError>,
) -> bool {
    match instruction.opcode {
                Opcode::AssertEq => if instruction.res == Res::Op1 && dst is Some {
                    r == Ok::<
                        (Option<MaybeRelocatable>, Option<MaybeRelocatable>),
                        VirtualMachineError,
                    >((dst, dst))
                } else {
                    solved_for(instruction, dst, op0, r)
                },
                _ => r == Ok::<
                    (Option<MaybeRelocatable>, Option<MaybeRelocatable>),
                    VirtualMachineError,
                >((None, None)),
            }
}

/// Whether asking the builtin that owns the segment of `address` for the cell
/// there takes the builtins from `before` to `after` and gives `r`: without an
/// owner nothing is deduced and nothing changes; else only the owner may
/// change, and it deduces the cell from `memory` as its kind tells.
pub open spec fn asked(
    before: Seq<BuiltinRunner>,
    after: Seq<BuiltinRunner>,
    memory: Memory,
    address: Relocatable,
    r: Result<Option<MaybeRelocatable>, VirtualMachineError>,
) -> bool {
    &&& after.len() == before.len()
    &&& match owner(before, address.segment_index, 0) {
        None => r == Ok::<Option<MaybeRelocatable>, VirtualMachineError>(None) && after == before,
        Some(i) => {
            &&& 0 <= i < before.len()
            &&& forall|j: int| 0 <= j < before.len() && j != i ==> after[j] == before[j]
            &&& match r {
                Ok(v) => before[i].deduces(after[i], memory, address, Ok(v)),
                Err(VirtualMachineError::RunnerError(e)) => before[i].deduces(
                    after[i],
                    memory,
                    address,
                    Err(e),
                ),
                Err(_) => false,
            }
        },
    }
}

/// Whether `out` is the first operand as the machine finds it, with the
/// result where the operand was solved for: the cell at `op0_addr` where it is
/// written; else what the builtin that owns the cell deduces; else what the
/// instruction and the other operands give. The builtins go from `before` to
/// `after` on the way.
pub open spec fn first_operand(
    before: Seq<BuiltinRunner>,
    after: Seq<BuiltinRunner>,
    ctx: RunContext,
    instruction: Instruction,
    memory: Memory,
    op0_addr: Relocatable,
    dst: Option<MaybeRelocatable>,
    op1: Option<MaybeRelocatable>,
    out: Result<(Option<MaybeRelocatable>, Option<MaybeRelocatable>), VirtualMachineError>,
) -> bool {
    match memory.cell(op0_addr) {
        Some(v) => after == before && out == Ok::<
            (Option<MaybeRelocatable>, Option<MaybeRelocatable>),
            VirtualMachineError,
        >((Some(v), None)),
        None => exists|d: Result<Option<MaybeRelocatable>, VirtualMachineError>| #[trigger]
            asked(before, after, memory, op0_addr, d) && match d {
                Err(e) => out == Err::<
                    (Option<MaybeRelocatable>, Option<MaybeRelocatable>),
                    VirtualMachineError,
                >(e),
                Ok(Some(v)) => out == Ok::<
                    (Option<MaybeRelocatable>, Option<MaybeRelocatable>),
                    VirtualMachineError,
                >((Some(v), None)),
                Ok(None) => op0_solved(ctx, instruction, dst, op1, out),
            },
    }
}

/// Whether `out` is the second operand as the machine finds it, with the
/// result where the operand was solved for: the cell at `op1_addr` where it is
/// written; else what the builtin that owns the cell deduces; else what the
/// other operands give.
pub open spec fn second_operand(
    before: Seq<BuiltinRunner>,
    after: Seq<BuiltinRunner>,
    instruction: Instruction,
    memory: Memory,
    op1_addr: Relocatable,
    dst: Option<MaybeRelocatable>,
    op0: Option<MaybeRelocatable>,
    out: Result<(Option<MaybeRelocatable>, Option<MaybeRelocatable>), VirtualMachineError>,
) -> bool {
    match memory.cell(op1_addr) {
        Some(v) => after == before && out == Ok::<
            (Option<MaybeRelocatable>, Option<MaybeRelocatable>),
            VirtualMachineError,
        >((Some(v), None)),
        None => exists|d: Result<Option<MaybeRelocatable>, VirtualMachineError>| #[trigger]
            asked(before, after, memory, op1_addr, d) && match d {
                Err(e) => out == Err::<
                    (Option<MaybeRelocatable>, Option<MaybeRelocatable>),
                    VirtualMachineError,
                >(e),
                Ok(Some(v)) => out == Ok::<
                    (Option<MaybeRelocatable>, Option<MaybeRelocatable>),
                    VirtualMachineError,
                >((Some(v), None)),
                Ok(None) => op1_solved(instruction, dst, op0, out),
            },
    }
}

/// What writing an operand to its cell comes to: an operand that was read from
/// memory is not written again, one that was deduced is written as any value is.
pub open spec fn operand_verdict(
    memory: Memory,
    addr: Relocatable,
    value: MaybeRelocatable,
    known: bool,
) -> Result<(), VirtualMachineError> {
    if known {
        Ok(())
    } else {
        match memory.insert_verdict(addr, value) {
            Ok(()) => Ok(()),
            Err(e) => Err(VirtualMachineError::Memory(e)),
        }
    }
}

/// Whether `after` is `before` once an operand was written to its cell.
pub open spec fn operand_effect(
    before: Memory,
    after: Memory,
    addr: Relocatable,
    value: MaybeRelocatable,
    known: bool,
) -> bool {
    if known {
        after == before
    } else {
        before.insert_effect(after, addr, value)
    }
}

/// Whether writing the destination, the first and the second operand, in this
/// order and up to the first write that is refused, takes memory from `before`
/// to `after` and comes to `r`.
pub open spec fn operands_written(
    before: Memory,
    after: Memory,
    addresses: OperandsAddresses,
    operands: Operands,
    r: Result<(), VirtualMachineError>,
) -> bool {
    let dst_known = before.cell(addresses.dst_addr) is Some;
    let op0_known = before.cell(addresses.op0_addr) is Some;
    let op1_known = before.cell(addresses.op1_addr) is Some;
    exists|first: Memory| #[trigger]
        operand_effect(before, first, addresses.dst_addr, operands.dst, dst_known)
            && match operand_verdict(before, addresses.dst_addr, operands.dst, dst_known) {
            Err(e) => r == Err::<(), VirtualMachineError>(e) && after == first,
            Ok(()) => exists|second: Memory| #[trigger]
                operand_effect(first, second, addresses.op0_addr, operands.op0, op0_known)
                    && match operand_verdict(first, addresses.op0_addr, operands.op0, op0_known) {
                    Err(e) => r == Err::<(), VirtualMachineError>(e) && after == second,
                    Ok(()) => operand_effect(
                        second,
                        after,
                        addresses.op1_addr,
                        operands.op1,
                        op1_known,
                    ) && r == operand_verdict(
                        second,
                        addresses.op1_addr,
                        operands.op1,
                        op1_known,
                    ),
                },
        }
}

/// Whether writing the operands takes memory from `before` to `after` and
/// the machine to `r`: the error of the first write that is refused, else the
/// operands with their addresses.
pub open spec fn operands_stored(
    before: Memory,
    after: Memory,
    addresses: OperandsAddresses,
    operands: Operands,
    r: Result<(Operands, OperandsAddresses), VirtualMachineError>,
) -> bool {
    exists|w: Result<(), VirtualMachineError>| #[trigger]
        operands_written(before, after, addresses, operands, w) && match w {
            Err(e) => r == Err::<(Operands, OperandsAddresses), VirtualMachineError>(e),
            Ok(()) => r == Ok::<(Operands, OperandsAddresses), VirtualMachineError>(
                (operands, addresses),
            ),
        }
}

/// Whether `r` and `after` are what the machine comes to once its first and
/// second operand are found as far as they can be: an operand that is still
/// unknown fails the step, as does a result that cannot be made and a
/// destination that nothing determines; else the operands are written to
/// their cells.
pub open spec fn operands_settled(
    ctx: RunContext,
    instruction: Instruction,
    before: Memory,
    after: Memory,
    addresses: OperandsAddresses,
    op0: Option<MaybeRelocatable>,
    op1: Option<MaybeRelocatable>,
    solved: Option<MaybeRelocatable>,
    r: Result<(Operands, OperandsAddresses), VirtualMachineError>,
) -> bool {
    match (op0, op1) {
        (None, _) => r == Err::<(Operands, OperandsAddresses), VirtualMachineError>(
            VirtualMachineError::UnknownOperand(addresses.op0_addr),
        ) && after == before,
        (Some(_), None) => r == Err::<(Operands, OperandsAddresses), VirtualMachineError>(
            VirtualMachineError::UnknownOperand(addresses.op1_addr),
        ) && after == before,
        (Some(a), Some(b)) => if solved is None && !res_defined(instruction, a, b) {
            r matches Err(VirtualMachineError::Math(_)) && after == before
        } else {
            let res = if solved is Some {
                solved
            } else {
                res_of(instruction, a, b)
            };
            let dst = if before.cell(addresses.dst_addr) is Some {
                before.cell(addresses.dst_addr)
            } else {
                match instruction.opcode {
                    Opcode::AssertEq => res,
                    Opcode::Call => Some(MaybeRelocatable::RelocatableValue(ctx.fp_addr())),
                    _ => None,
                }
            };
            match dst {
                None => r == Err::<(Operands, OperandsAddresses), VirtualMachineError>(
                    VirtualMachineError::UnknownOperand(addresses.dst_addr),
                ) && after == before,
                Some(d) => operands_stored(
                    before,
                    after,
                    addresses,
                    Operands { dst: d, res, op0: a, op1: b },
                    r,
                ),
            }
        },
    }
}

/// Whether finding the operands of `instruction` on the machine `before`
/// leaves the builtins as `runners` and memory as `written`, and gives `r`. The addresses are formed from the
/// registers; the first operand is found, then the second, each from memory,
/// from the builtin that owns its cell or from the other operands; then the
/// result is made, the destination deduced where memory does not hold it, and
/// what was deduced written. The first failure ends it with its error.
#[verifier::opaque]
pub open spec fn operands_found(
    before: VirtualMachine,
    runners: Seq<BuiltinRunner>,
    written: Memory,
    instruction: Instruction,
    r: Result<(Operands, OperandsAddresses), VirtualMachineError>,
) -> bool {
    let ctx = before.run_context;
    let memory = before.memory;
    let untouched = written == memory && runners == before.builtin_runners@;
    match ctx.dst_addr(instruction) {
        Err(e) => untouched && r == Err::<(Operands, OperandsAddresses), VirtualMachineError>(e),
        Ok(dst_addr) => match ctx.op0_addr(instruction) {
            Err(e) => untouched && r == Err::<
                (Operands, OperandsAddresses),
                VirtualMachineError,
            >(e),
            Ok(op0_addr) => match ctx.op1_addr(instruction, memory.cell(op0_addr)) {
                Err(e) => untouched && r == Err::<
                    (Operands, OperandsAddresses),
                    VirtualMachineError,
                >(e),
                Ok(op1_addr) => {
                    let addresses = OperandsAddresses { dst_addr, op0_addr, op1_addr };
                    exists|
                        mid: Seq<BuiltinRunner>,
                        first: Result<
                            (Option<MaybeRelocatable>, Option<MaybeRelocatable>),
                            VirtualMachineError,
                        >,
                    | #[trigger]
                        first_operand(
                            before.builtin_runners@,
                            mid,
                            ctx,
                            instruction,
                            memory,
                            op0_addr,
                            memory.cell(dst_addr),
                            memory.cell(op1_addr),
                            first,
                        ) && match first {
                            Err(e) => r == Err::<
                                (Operands, OperandsAddresses),
                                VirtualMachineError,
                            >(e) && written == memory && runners == mid,
                            Ok((op0, solved0)) => exists|
                                second: Result<
                                    (Option<MaybeRelocatable>, Option<MaybeRelocatable>),
                                    VirtualMachineError,
                                >,
                            | #[trigger]
                                second_operand(
                                    mid,
                                    runners,
                                    instruction,
                                    memory,
                                    op1_addr,
                                    memory.cell(dst_addr),
                                    op0,
                                    second,
                                ) && match second {
                                    Err(e) => r == Err::<
                                        (Operands, OperandsAddresses),
                                        VirtualMachineError,
                                    >(e) && written == memory,
                                    Ok((op1, solved1)) => operands_settled(
                                        ctx,
                                        instruction,
                                        memory,
                                        written,
                                        addresses,
                                        op0,
                                        op1,
                                        if solved0 is Some {
                                            solved0
                                        } else {
                                            solved1
                                        },
                                        r,
                                    ),
                                },
                        }
                },
            },
        },
    }
}

/// Whether executing `instruction` takes the machine from `before` to `after`
/// with the outcome `r`: the operands are found, held to the opcode, and the
/// registers moved; then the step is counted and, where tracing is on, the
/// registers it started from are logged. The first of these that fails ends
/// the step with its error, and registers, trace and count stay; what finding
/// the operands wrote stays too.
pub open spec fn instruction_run(
    before: VirtualMachine,
    after: VirtualMachine,
    instruction: Instruction,
    r: Result<(), VirtualMachineError>,
) -> bool {
    let ctx = before.run_context;
    let unmoved = after.run_context == ctx && after.current_step == before.current_step
        && after.trace == before.trace;
    if before.current_step == usize::MAX {
        r == Err::<(), VirtualMachineError>(VirtualMachineError::RegisterOverflow) && unmoved
            && after.memory == before.memory && after.builtin_runners@ == before.builtin_runners@
    } else {
        exists|found: Result<(Operands, OperandsAddresses), VirtualMachineError>| #[trigger]
            operands_found(before, after.builtin_runners@, after.memory, instruction, found)
                && match found {
                Err(e) => r == Err::<(), VirtualMachineError>(e) && unmoved,
                Ok((operands, _)) => match opcode_verdict(ctx, instruction, operands) {
                    Err(e) => r == Err::<(), VirtualMachineError>(e) && unmoved,
                    Ok(()) => match next_context(ctx, instruction, operands) {
                        Err(e) => r == Err::<(), VirtualMachineError>(e) && unmoved,
                        Ok(next) => r is Ok && after.run_context == next && after.current_step
                            == before.current_step + 1 && match before.trace {
                            Some(log) => after.trace matches Some(longer) && longer@ == log@.push(
                                trace_entry(ctx),
                            ),
                            None => after.trace is None,
                        },
                    },
                },
            }
    }
}

/// Whether one step of the machine takes it from `before` to `after` with the
/// outcome `r`: the instruction at the program counter is fetched, decoded and
/// executed. A step that succeeds leaves the operands in memory, meets the
/// opcode's assertion, moves the registers, logs the registers it started from
/// and counts itself; a step that fails leaves registers, trace and count.
pub open spec fn stepped(
    before: VirtualMachine,
    after: VirtualMachine,
    r: Result<(), VirtualMachineError>,
) -> bool {
    &&& after.segments == before.segments
    &&& after.builtin_runners@.len() == before.builtin_runners@.len()
    &&& before.memory.extended_by(after.memory)
    &&& (after.trace is Some <==> before.trace is Some)
    &&& (current_instruction(before.run_context, before.memory) matches Err(e) ==> r == Err::<
        (),
        VirtualMachineError,
    >(e) && after.memory == before.memory && after.builtin_runners@ == before.builtin_runners@)
    &&& (current_instruction(before.run_context, before.memory) matches Ok(instruction)
        ==> instruction_run(before, after, instruction, r))
    &&& (r is Ok ==> {
        &&& current_instruction(before.run_context, before.memory) matches Ok(instruction) && (
        operands_at(before.run_context, instruction, after.memory) matches Some(operands) && is_res(
            instruction,
            operands.op0,
            operands.op1,
            operands.res,
        ) && opcode_verdict(before.run_context, instruction, operands) is Ok && next_context(
            before.run_context,
            instruction,
            operands,
        ) == Ok::<RunContext, VirtualMachineError>(after.run_context))
        &&& after.current_step == before.current_step + 1
        &&& before.trace matches Some(log) ==> after.trace matches Some(longer) && longer@
            == log@.push(trace_entry(before.run_context))
    })
    &&& (r is Err ==> after.run_context == before.run_context && after.current_step
        == before.current_step && after.trace == before.trace)
    &&& (current_instruction(before.run_context, before.memory) matches Ok(instruction) ==> {
        &&& before.current_step == usize::MAX ==> r == Err::<(), VirtualMachineError>(
            VirtualMachineError::RegisterOverflow,
        )
        &&& before.current_step < usize::MAX ==> (operands_at(
            before.run_context,
            instruction,
            before.memory,
        ) matches Some(held) ==> settled_step(
            before.run_context,
            instruction,
            held,
            r,
            after.run_context,
        ) && after.memory == before.memory)
    })
}

/// The registers as an entry of the trace.
pub open spec fn trace_entry(ctx: RunContext) -> TraceEntry {
    TraceEntry { pc: ctx.pc, ap: ctx.ap_addr(), fp: ctx.fp_addr() }
}

/// Whether a cell value counts as zero for a conditional jump.
pub open spec fn is_zero_spec(value: MaybeRelocatable) -> bool {
    value matches MaybeRelocatable::Int(num) && num@ == 0
}

/// The register that moving `base` by a cell value gives. A register moves by
/// a signed distance: an element in the upper half of the field stands for the
/// negative number that it is congruent to, so a relative jump can go back.
/// The new offset must be a machine word.
pub open spec fn moved_by(base: Relocatable, by: MaybeRelocatable) -> Result<
    Relocatable,
    VirtualMachineError,
> {
    match by {
        MaybeRelocatable::RelocatableValue(rel) => Err(
            VirtualMachineError::Math(MathError::RelocatableAdd(base, rel)),
        ),
        MaybeRelocatable::Int(num) => if 0 <= base.offset + as_int(num@) <= usize::MAX {
            Ok(
                Relocatable {
                    segment_index: base.segment_index,
                    offset: (base.offset + as_int(num@)) as usize,
                },
            )
        } else {
            Err(
                VirtualMachineError::Math(
                    MathError::RelocatableAddFelt252OffsetExceeded(base, num),
                ),
            )
        },
    }
}

/// Moves a register by a cell value, read as a signed distance.
pub fn move_by(base: &Relocatable, by: &MaybeRelocatable) -> (r: Result<
    Relocatable,
    VirtualMachineError,
>)
    ensures
        r == moved_by(*base, *by),
{
    match by {
        MaybeRelocatable::RelocatableValue(rel) => Err(
            VirtualMachineError::Math(MathError::RelocatableAdd(*base, *rel)),
        ),
        MaybeRelocatable::Int(num) => {
            num.note_canonical();
            let shifted = num.add_usize(base.offset);
            match shifted.to_usize() {
                Some(offset) => Ok(Relocatable { segment_index: base.segment_index, offset }),
                None => Err(
                    VirtualMachineError::Math(
                        MathError::RelocatableAddFelt252OffsetExceeded(*base, *num),
                    ),
                ),
            }
        },
    }
}

/// The program counter after the instruction.
pub open spec fn next_pc(ctx: RunContext, instruction: Instruction, operands: Operands) -> Result<
    Relocatable,
    VirtualMachineError,
> {
    match instruction.pc_update {
        PcUpdate::Regular => if ctx.pc.offset + instruction.size_spec() <= usize::MAX {
            Ok(
                Relocatable {
                    segment_index: ctx.pc.segment_index,
                    offset: (ctx.pc.offset + instruction.size_spec()) as usize,
                },
            )
        } else {
            Err(VirtualMachineError::RegisterOverflow)
        },
        PcUpdate::Jump => match operands.res {
            Some(MaybeRelocatable::RelocatableValue(target)) => Ok(target),
            Some(MaybeRelocatable::Int(_)) => Err(VirtualMachineError::JumpAbsNotRelocatable),
            None => Err(VirtualMachineError::UnconstrainedResJump),
        },
        PcUpdate::JumpRel => match operands.res {
            Some(MaybeRelocatable::Int(num)) => moved_by(ctx.pc, MaybeRelocatable::Int(num)),
            Some(MaybeRelocatable::RelocatableValue(_)) => Err(VirtualMachineError::JumpRelNotInt),
            None => Err(VirtualMachineError::UnconstrainedResJump),
        },
        PcUpdate::Jnz => if is_zero_spec(operands.dst) {
            if ctx.pc.offset + instruction.size_spec() <= usize::MAX {
                Ok(
                    Relocatable {
                        segment_index: ctx.pc.segment_index,
                        offset: (ctx.pc.offset + instruction.size_spec()) as usize,
                    },
                )
            } else {
                Err(VirtualMachineError::RegisterOverflow)
            }
        } else {
            moved_by(ctx.pc, operands.op1)
        },
    }
}

/// The allocation pointer after the instruction.
pub open spec fn next_ap(ctx: RunContext, instruction: Instruction, operands: Operands) -> Result<
    usize,
    VirtualMachineError,
> {
    match instruction.ap_update {
        ApUpdate::Add => match operands.res {
            Some(res) => match moved_by(ctx.ap_addr(), res) {
                Ok(addr) => Ok(addr.offset),
                Err(e) => Err(e),
            },
            None => Err(VirtualMachineError::UnconstrainedResAdd),
        },
        ApUpdate::Add1 => if ctx.ap + 1 <= usize::MAX {
            Ok((ctx.ap + 1) as usize)
        } else {
            Err(VirtualMachineError::RegisterOverflow)
        },
        ApUpdate::Add2 => if ctx.ap + 2 <= usize::MAX {
            Ok((ctx.ap + 2) as usize)
        } else {
            Err(VirtualMachineError::RegisterOverflow)
        },
        ApUpdate::Regular => Ok(ctx.ap),
    }
}

/// The frame pointer after the instruction.
pub open spec fn next_fp(ctx: RunContext, instruction: Instruction, operands: Operands) -> Result<
    usize,
    VirtualMachineError,
> {
    match instruction.fp_update {
        FpUpdate::APPlus2 => if ctx.ap + 2 <= usize::MAX {
            Ok((ctx.ap + 2) as usize)
        } else {
            Err(VirtualMachineError::RegisterOverflow)
        },
        FpUpdate::Dst => match operands.dst {
            MaybeRelocatable::RelocatableValue(rel) => Ok(rel.offset),
            MaybeRelocatable::Int(num) => if num@ <= usize::MAX {
                Ok(num@ as usize)
            } else {
                Err(VirtualMachineError::Math(MathError::Felt252ToUsizeConversion(num)))
            },
        },
        FpUpdate::Regular => Ok(ctx.fp),
    }
}

/// The registers after the instruction: the frame pointer is settled first,
/// then the allocation pointer, then the program counter, and the first that
/// cannot be settled gives the error.
pub open spec fn next_context(
    ctx: RunContext,
    instruction: Instruction,
    operands: Operands,
) -> Result<RunContext, VirtualMachineError> {
    match next_fp(ctx, instruction, operands) {
        Err(e) => Err(e),
        Ok(fp) => match next_ap(ctx, instruction, operands) {
            Err(e) => Err(e),
            Ok(ap) => match next_pc(ctx, instruction, operands) {
                Err(e) => Err(e),
                Ok(pc) => Ok(RunContext { pc, ap, fp }),
            },
        },
    }
}

/// What the opcode asserts of the operands: `assert_eq` wants the result to be
/// there and equal to the destination; `call` wants the return address in the
/// first operand and the frame pointer in the destination.
pub open spec fn opcode_verdict(
    ctx: RunContext,
    instruction: Instruction,
    operands: Operands,
) -> Result<(), VirtualMachineError> {
    match instruction.opcode {
        Opcode::AssertEq => match operands.res {
            None => Err(VirtualMachineError::UnconstrainedResAssertEq),
            Some(res) => if res != operands.dst {
                Err(VirtualMachineError::DiffAssertValues(operands.dst, res))
            } else {
                Ok(())
            },
        },
        Opcode::Call => {
            if ctx.pc.offset + instruction.size_spec() > usize::MAX {
                Err(VirtualMachineError::RegisterOverflow)
            } else {
                let return_pc = MaybeRelocatable::RelocatableValue(
                    Relocatable {
                        segment_index: ctx.pc.segment_index,
                        offset: (ctx.pc.offset + instruction.size_spec()) as usize,
                    },
                );
                let return_fp = MaybeRelocatable::RelocatableValue(ctx.fp_addr());
                if operands.op0 != return_pc {
                    Err(VirtualMachineError::CantWriteReturnPc(operands.op0, return_pc))
                } else if operands.dst != return_fp {
                    Err(VirtualMachineError::CantWriteReturnFp(operands.dst, return_fp))
                } else {
                    Ok(())
                }
            }
        },
        _ => Ok(()),
    }
}

/// The registers before one step.
#[derive(Clone, Copy, Debug, PartialEq, Eq, Structural)]
pub struct TraceEntry {
    pub pc: Relocatable,
    pub ap: Relocatable,
    pub fp: Relocatable,
}

/// The machine.
#[derive(Debug)]
pub struct VirtualMachine {
    /// The registers.
    pub run_context: RunContext,
    /// The builtin runners of the program, in the order it declares them.
    pub builtin_runners: Vec<BuiltinRunner>,
    /// The manager of the segments of `memory`.
    pub segments: MemorySegmentManager,
    /// The memory of the run.
    pub memory: Memory,
    /// The registers before each step taken, where tracing is on.
    pub trace: Option<Vec<TraceEntry>>,
    /// The steps taken.
    pub current_step: usize,
    /// Where the program was loaded, once the runner has set the machine up.
    pub _program_base: Option<MaybeRelocatable>,
}

impl VirtualMachine {
    /// A machine before its first step, without segments or builtins.
    pub fn new(trace_enabled: bool) -> (r: VirtualMachine)
        ensures
            r.run_context == (RunContext {
                pc: Relocatable { segment_index: 0, offset: 0 },
                ap: 0,
                fp: 0,
            }),
            r.builtin_runners@.len() == 0,
            r.segments.num_segments == 0,
            r.segments.num_temp_segments == 0,
            r.segments.segment_used_sizes.is_none(),
            r.memory.data@.len() == 0,
            r.memory.temp_data@.len() == 0,
            r.memory.validation_rules@.len() == 0,
            r.current_step == 0,
            r._program_base.is_none(),
            trace_enabled ==> (r.trace matches Some(t) && t@.len() == 0),
            !trace_enabled ==> r.trace.is_none(),
    {
        VirtualMachine {
            run_context: RunContext { pc: Relocatable { segment_index: 0, offset: 0 }, ap: 0, fp: 0 },
            builtin_runners: Vec::new(),
            segments: MemorySegmentManager::new(),
            memory: Memory::new(),
            trace: if trace_enabled {
                Some(Vec::new())
            } else {
                None
            },
            current_step: 0,
            _program_base: None,
        }
    }

    /// Deduces the first operand from the instruction alone or from the other
    /// two: a call takes the return address; an `assert_eq` of a sum or a product
    /// is solved for it. Returns the operand and, where it was solved for, the
    /// result; nothing where the instruction does not determine it.
    pub fn deduce_op0(
        &self,
        instruction: &Instruction,
        dst: Option<MaybeRelocatable>,
        op1: Option<MaybeRelocatable>,
    ) -> (r: Result<(Option<MaybeRelocatable>, Option<MaybeRelocatable>), VirtualMachineError>)
        ensures
            op0_solved(self.run_context, *instruction, dst, op1, r),
            r matches Ok((Some(op0), res)) ==> instruction.opcode == Opcode::AssertEq ==> dst
                is Some && op1 is Some && res == dst && is_res(
                *instruction,
                op0,
                op1.unwrap(),
                res,
            ),
    {
        match instruction.opcode {
            Opcode::Call => {
                match self.run_context.pc.add_usize(instruction.size()) {
                    Ok(return_pc) => Ok((Some(MaybeRelocatable::RelocatableValue(return_pc)), None)),
                    Err(_) => Err(VirtualMachineError::RegisterOverflow),
                }
            },
            Opcode::AssertEq => {
                match (instruction.res, dst, op1) {
                    (Res::Add, Some(dst_value), Some(op1_value)) => {
                        note_canonical(&dst_value);
                        note_canonical(&op1_value);
                        match dst_value.sub(&op1_value) {
                            Ok(op0) => {
                                proof {
                                    lemma_difference_then_sum(dst_value, op1_value, op0);
                                }
                                Ok((Some(op0), Some(dst_value)))
                            },
                            Err(e) => Err(VirtualMachineError::Math(e)),
                        }
                    },
                    (
                        Res::Mul,
                        Some(MaybeRelocatable::Int(num_dst)),
                        Some(MaybeRelocatable::Int(num_op1)),
                    ) => {
                        match num_dst.div(&num_op1) {
                            Ok(q) => Ok(
                                (
                                    Some(MaybeRelocatable::Int(q)),
                                    Some(MaybeRelocatable::Int(num_dst)),
                                ),
                            ),
                            Err(_) => Ok((None, None)),
                        }
                    },
                    _ => Ok((None, None)),
                }
            },
            _ => Ok((None, None)),
        }
    }

    /// Deduces the second operand from the other two: an `assert_eq` is solved
    /// for it. Returns the operand and the result; nothing where the
    /// instruction does not determine it.
    pub fn deduce_op1(
        &self,
        instruction: &Instruction,
        dst: Option<MaybeRelocatable>,
        op0: Option<MaybeRelocatable>,
    ) -> (r: Result<(Option<MaybeRelocatable>, Option<MaybeRelocatable>), VirtualMachineError>)
        ensures
            op1_solved(*instruction, dst, op0, r),
            r matches Ok((Some(op1), res)) ==> op0 matches Some(first) ==> is_res(
                *instruction,
                first,
                op1,
                res,
            ),
    {
        match instruction.opcode {
            Opcode::AssertEq => {
                match (instruction.res, dst, op0) {
                    (Res::Op1, Some(dst_value), _) => Ok((Some(dst_value), Some(dst_value))),
                    (Res::Add, Some(dst_value), Some(op0_value)) => {
                        note_canonical(&dst_value);
                        note_canonical(&op0_value);
                        match dst_value.sub(&op0_value) {
                            Ok(op1) => {
                                proof {
                                    lemma_difference_then_sum(dst_value, op0_value, op1);
                                }
                                Ok((Some(op1), Some(dst_value)))
                            },
                            Err(e) => Err(VirtualMachineError::Math(e)),
                        }
                    },
                    (
                        Res::Mul,
                        Some(MaybeRelocatable::Int(num_dst)),
                        Some(MaybeRelocatable::Int(num_op0)),
                    ) => {
                        match num_dst.div(&num_op0) {
                            Ok(q) => {
                                proof {
                                    law_mul_commutative(q@, num_op0@);
                                }
                                Ok(
                                    (
                                        Some(MaybeRelocatable::Int(q)),
                                        Some(MaybeRelocatable::Int(num_dst)),
                                    ),
                                )
                            },
                            Err(_) => Ok((None, None)),
                        }
                    },
                    _ => Ok((None, None)),
                }
            },
            _ => Ok((None, None)),
        }
    }

    /// Makes the result from the operands as the instruction tells: the second
    /// operand, the sum or the product; nothing where the result is
    /// unconstrained. A product of anything but two field elements is refused.
    pub fn compute_res(
        &self,
        instruction: &Instruction,
        op0: &MaybeRelocatable,
        op1: &MaybeRelocatable,
    ) -> (r: Result<Option<MaybeRelocatable>, VirtualMachineError>)
        ensures
            r matches Ok(res) ==> is_res(*instruction, *op0, *op1, res),
            instruction.res == Res::Op1 || instruction.res == Res::Unconstrained ==> r is Ok,
            r is Ok <==> res_defined(*instruction, *op0, *op1),
            r matches Err(e) ==> e matches VirtualMachineError::Math(_),
    {
        match instruction.res {
            Res::Op1 => Ok(Some(*op1)),
            Res::Add => match op0.add(op1) {
                Ok(sum) => Ok(Some(sum)),
                Err(e) => Err(VirtualMachineError::Math(e)),
            },
            Res::Mul => match (op0, op1) {
                (MaybeRelocatable::Int(a), MaybeRelocatable::Int(b)) => Ok(
                    Some(MaybeRelocatable::Int(a.mul(b))),
                ),
                _ => Err(
                    VirtualMachineError::Math(MathError::DivModWrongType(*op0, *op1)),
                ),
            },
            Res::Unconstrained => Ok(None),
        }
    }

    /// Deduces the destination: an `assert_eq` takes the result, a call the
    /// frame pointer.
    pub fn deduce_dst(&self, instruction: &Instruction, res: Option<MaybeRelocatable>) -> (r: Option<
        MaybeRelocatable,
    >)
        ensures
            r == (match instruction.opcode {
                Opcode::AssertEq => res,
                Opcode::Call => Some(MaybeRelocatable::RelocatableValue(self.run_context.fp_addr())),
                _ => None,
            }),
    {
        match instruction.opcode {
            Opcode::AssertEq => res,
            Opcode::Call => Some(MaybeRelocatable::RelocatableValue(self.run_context.get_fp())),
            _ => None,
        }
    }

    /// Holds the operands to what the opcode asserts of them.
    pub fn opcode_assertions(&self, instruction: &Instruction, operands: &Operands) -> (r: Result<
        (),
        VirtualMachineError,
    >)
        ensures
            r == opcode_verdict(self.run_context, *instruction, *operands),
    {
        match instruction.opcode {
            Opcode::AssertEq => match operands.res {
                None => Err(VirtualMachineError::UnconstrainedResAssertEq),
                Some(res) => if res != operands.dst {
                    Err(VirtualMachineError::DiffAssertValues(operands.dst, res))
                } else {
                    Ok(())
                },
            },
            Opcode::Call => {
                let return_pc = match self.run_context.pc.add_usize(instruction.size()) {
                    Ok(addr) => MaybeRelocatable::RelocatableValue(addr),
                    Err(_) => {
                        return Err(VirtualMachineError::RegisterOverflow);
                    },
                };
                let return_fp = MaybeRelocatable::RelocatableValue(self.run_context.get_fp());
                if operands.op0 != return_pc {
                    return Err(VirtualMachineError::CantWriteReturnPc(operands.op0, return_pc));
                }
                if operands.dst != return_fp {
                    return Err(VirtualMachineError::CantWriteReturnFp(operands.dst, return_fp));
                }
                Ok(())
            },
            _ => Ok(()),
        }
    }

    /// Moves the registers as the instruction tells. Either all three move or,
    /// on an error, none.
    pub fn update_registers(&mut self, instruction: &Instruction, operands: &Operands) -> (r: Result<
        (),
        VirtualMachineError,
    >)
        ensures
            match next_context(old(self).run_context, *instruction, *operands) {
                Ok(ctx) => r is Ok && final(self).run_context == ctx,
                Err(e) => r == Err::<(), VirtualMachineError>(e) && final(self).run_context == old(self).run_context,
            },
            final(self).builtin_runners == old(self).builtin_runners,
            final(self).segments == old(self).segments,
            final(self).memory == old(self).memory,
            final(self).trace == old(self).trace,
            final(self).current_step == old(self).current_step,
    {
        let ctx = self.run_context;
        let fp: usize = match instruction.fp_update {
            FpUpdate::APPlus2 => match ctx.ap.checked_add(2) {
                Some(fp) => fp,
                None => {
                    return Err(VirtualMachineError::RegisterOverflow);
                },
            },
            FpUpdate::Dst => match operands.dst {
                MaybeRelocatable::RelocatableValue(rel) => rel.offset,
                MaybeRelocatable::Int(num) => match num.to_usize() {
                    Some(fp) => fp,
                    None => {
                        return Err(
                            VirtualMachineError::Math(MathError::Felt252ToUsizeConversion(num)),
                        );
                    },
                },
            },
            FpUpdate::Regular => ctx.fp,
        };
        let ap: usize = match instruction.ap_update {
            ApUpdate::Add => match operands.res {
                Some(res) => match move_by(&ctx.get_ap(), &res) {
                    Ok(addr) => addr.offset,
                    Err(e) => {
                        return Err(e);
                    },
                },
                None => {
                    return Err(VirtualMachineError::UnconstrainedResAdd);
                },
            },
            ApUpdate::Add1 => match ctx.ap.checked_add(1) {
                Some(ap) => ap,
                None => {
                    return Err(VirtualMachineError::RegisterOverflow);
                },
            },
            ApUpdate::Add2 => match ctx.ap.checked_add(2) {
                Some(ap) => ap,
                None => {
                    return Err(VirtualMachineError::RegisterOverflow);
                },
            },
            ApUpdate::Regular => ctx.ap,
        };
        let pc: Relocatable = match instruction.pc_update {
            PcUpdate::Regular => match ctx.pc.add_usize(instruction.size()) {
                Ok(pc) => pc,
                Err(_) => {
                    return Err(VirtualMachineError::RegisterOverflow);
                },
            },
            PcUpdate::Jump => match operands.res {
                Some(MaybeRelocatable::RelocatableValue(target)) => target,
                Some(MaybeRelocatable::Int(_)) => {
                    return Err(VirtualMachineError::JumpAbsNotRelocatable);
                },
                None => {
                    return Err(VirtualMachineError::UnconstrainedResJump);
                },
            },
            PcUpdate::JumpRel => match operands.res {
                Some(MaybeRelocatable::Int(num)) => match move_by(
                    &ctx.pc,
                    &MaybeRelocatable::Int(num),
                ) {
                    Ok(pc) => pc,
                    Err(e) => {
                        return Err(e);
                    },
                },
                Some(MaybeRelocatable::RelocatableValue(_)) => {
                    return Err(VirtualMachineError::JumpRelNotInt);
                },
                None => {
                    return Err(VirtualMachineError::UnconstrainedResJump);
                },
            },
            PcUpdate::Jnz => {
                if VirtualMachine::is_zero(&operands.dst) {
                    match ctx.pc.add_usize(instruction.size()) {
                        Ok(pc) => pc,
                        Err(_) => {
                            return Err(VirtualMachineError::RegisterOverflow);
                        },
                    }
                } else {
                    match move_by(&ctx.pc, &operands.op1) {
                        Ok(pc) => pc,
                        Err(e) => {
                            return Err(e);
                        },
                    }
                }
            },
        };
        self.run_context = RunContext { pc, ap, fp };
        Ok(())
    }

    /// Whether a cell value counts as zero for a conditional jump: the field
    /// element zero does, an address does not.
    pub fn is_zero(value: &MaybeRelocatable) -> (r: bool)
        ensures
            r == is_zero_spec(*value),
    {
        match value {
            MaybeRelocatable::Int(num) => num.is_zero(),
            MaybeRelocatable::RelocatableValue(_) => false,
        }
    }

    /// Writes an operand that was deduced to its cell; an operand that was read
    /// from memory is left alone.
    fn write_operand(&mut self, addr: Relocatable, value: MaybeRelocatable, known: bool) -> (r:
        Result<(), VirtualMachineError>)
        requires
            known ==> old(self).memory.cell(addr) == Some(value),
        ensures
            final(self).run_context == old(self).run_context,
            final(self).builtin_runners == old(self).builtin_runners,
            final(self).segments == old(self).segments,
            final(self).trace == old(self).trace,
            final(self).current_step == old(self).current_step,
            old(self).memory.extended_by(final(self).memory),
            forall|a: Relocatable| a != addr ==> final(self).memory.cell(a) == old(self).memory.cell(a),
            r is Ok ==> final(self).memory.cell(addr) == Some(value),
            r matches Err(e) ==> e matches VirtualMachineError::Memory(_),
            known ==> r is Ok && final(self).memory == old(self).memory,
            r == operand_verdict(old(self).memory, addr, value, known),
            operand_effect(old(self).memory, final(self).memory, addr, value, known),
            !known ==> r == (match old(self).memory.insert_verdict(addr, value) {
                Ok(()) => Ok::<(), VirtualMachineError>(()),
                Err(e) => Err::<(), VirtualMachineError>(VirtualMachineError::Memory(e)),
            }),
    {
        if known {
            return Ok(());
        }
        match self.memory.insert(addr, value) {
            Ok(()) => Ok(()),
            Err(e) => Err(VirtualMachineError::Memory(e)),
        }
    }

    /// Finds the three operands of the instruction and its result. An operand
    /// that memory does not hold is deduced: by the builtin that owns its
    /// segment, or from the other operands as the instruction constrains them;
    /// what was deduced is written to memory. Fails where an operand stays
    /// unknown.
    pub fn compute_operands(&mut self, instruction: &Instruction) -> (r: Result<
        (Operands, OperandsAddresses),
        VirtualMachineError,
    >)
        requires
            old(self).builtins_well_formed(),
        ensures
            final(self).builtins_well_formed(),
            final(self).run_context == old(self).run_context,
            final(self).segments == old(self).segments,
            final(self).trace == old(self).trace,
            final(self).current_step == old(self).current_step,
            final(self).builtin_runners@.len() == old(self).builtin_runners@.len(),
            old(self).memory.extended_by(final(self).memory),
            operands_found(
                *old(self),
                final(self).builtin_runners@,
                final(self).memory,
                *instruction,
                r,
            ),
            r matches Ok((operands, addresses)) ==> {
                &&& old(self).run_context.dst_addr(*instruction) == Ok::<
                    Relocatable,
                    VirtualMachineError,
                >(addresses.dst_addr)
                &&& old(self).run_context.op0_addr(*instruction) == Ok::<
                    Relocatable,
                    VirtualMachineError,
                >(addresses.op0_addr)
                &&& old(self).run_context.op1_addr(
                    *instruction,
                    old(self).memory.cell(addresses.op0_addr),
                ) == Ok::<Relocatable, VirtualMachineError>(addresses.op1_addr)
                &&& final(self).memory.cell(addresses.dst_addr) == Some(operands.dst)
                &&& final(self).memory.cell(addresses.op0_addr) == Some(operands.op0)
                &&& final(self).memory.cell(addresses.op1_addr) == Some(operands.op1)
                &&& is_res(*instruction, operands.op0, operands.op1, operands.res)
                &&& forall|a: Relocatable|
                    a != addresses.dst_addr && a != addresses.op0_addr && a != addresses.op1_addr
                        ==> final(self).memory.cell(a) == old(self).memory.cell(a)
            },
            operands_at(old(self).run_context, *instruction, old(self).memory) matches Some(
                held,
            ) ==> {
                &&& r is Ok <==> res_defined(*instruction, held.op0, held.op1)
                &&& (r matches Ok((operands, _)) ==> operands == held)
                &&& (r matches Err(e) ==> e matches VirtualMachineError::Math(_))
                &&& final(self).memory == old(self).memory
                &&& final(self).builtin_runners == old(self).builtin_runners
            },
    {
        proof {
            reveal(operands_found);
        }
        let dst_addr = match self.run_context.compute_dst_addr(instruction) {
            Ok(addr) => addr,
            Err(e) => {
                return Err(e);
            },
        };
        let dst = self.memory.get(&dst_addr);
        let op0_addr = match self.run_context.compute_op0_addr(instruction) {
            Ok(addr) => addr,
            Err(e) => {
                return Err(e);
            },
        };
        let held0 = self.memory.get(&op0_addr);
        let op1_addr = match self.run_context.compute_op1_addr(instruction, held0) {
            Ok(addr) => addr,
            Err(e) => {
                return Err(e);
            },
        };
        let held1 = self.memory.get(&op1_addr);
        let ghost start = self.builtin_runners@;
        let ghost memory = self.memory;
        let first = self.find_op0(instruction, op0_addr, dst, held1);
        let ghost mid = self.builtin_runners@;
        let (op0, solved0) = match first {
            Ok(found) => found,
            Err(e) => {
                return Err(e);
            },
        };
        let second = self.find_op1(instruction, op1_addr, dst, op0);
        let (op1, solved1) = match second {
            Ok(found) => found,
            Err(e) => {
                return Err(e);
            },
        };
        let solved = if solved0.is_some() {
            solved0
        } else {
            solved1
        };
        self.settle_operands(instruction, dst_addr, op0_addr, op1_addr, op0, op1, solved)
    }

    /// Finds the first operand: the cell where it is written; else what the
    /// builtin that owns the cell deduces; else what the instruction and the
    /// other operands give. With it comes the result, where the operand was
    /// solved for.
    fn find_op0(
        &mut self,
        instruction: &Instruction,
        op0_addr: Relocatable,
        dst: Option<MaybeRelocatable>,
        op1: Option<MaybeRelocatable>,
    ) -> (out: Result<(Option<MaybeRelocatable>, Option<MaybeRelocatable>), VirtualMachineError>)
        requires
            old(self).builtins_well_formed(),
        ensures
            final(self).builtins_well_formed(),
            final(self).run_context == old(self).run_context,
            final(self).segments == old(self).segments,
            final(self).memory == old(self).memory,
            final(self).trace == old(self).trace,
            final(self).current_step == old(self).current_step,
            final(self).builtin_runners@.len() == old(self).builtin_runners@.len(),
            old(self).memory.cell(op0_addr) is Some ==> final(self).builtin_runners == old(self).builtin_runners,
            first_operand(
                old(self).builtin_runners@,
                final(self).builtin_runners@,
                old(self).run_context,
                *instruction,
                old(self).memory,
                op0_addr,
                dst,
                op1,
                out,
            ),
            out matches Ok((Some(op0), Some(res))) ==> op1 is Some && is_res(
                *instruction,
                op0,
                op1.unwrap(),
                Some(res),
            ),
    {
        match self.memory.get(&op0_addr) {
            Some(v) => Ok((Some(v), None)),
            None => {
                let found = self.deduce_memory_cell(&op0_addr);
                proof {
                    assert(asked(
                        old(self).builtin_runners@,
                        self.builtin_runners@,
                        self.memory,
                        op0_addr,
                        found,
                    ));
                }
                match found {
                    Err(e) => Err(e),
                    Ok(Some(v)) => Ok((Some(v), None)),
                    Ok(None) => self.deduce_op0(instruction, dst, op1),
                }
            },
        }
    }

    /// Finds the second operand: the cell where it is written; else what the
    /// builtin that owns the cell deduces; else what the other operands give.
    /// With it comes the result, where the operand was solved for.
    fn find_op1(
        &mut self,
        instruction: &Instruction,
        op1_addr: Relocatable,
        dst: Option<MaybeRelocatable>,
        op0: Option<MaybeRelocatable>,
    ) -> (out: Result<(Option<MaybeRelocatable>, Option<MaybeRelocatable>), VirtualMachineError>)
        requires
            old(self).builtins_well_formed(),
        ensures
            final(self).builtins_well_formed(),
            final(self).run_context == old(self).run_context,
            final(self).segments == old(self).segments,
            final(self).memory == old(self).memory,
            final(self).trace == old(self).trace,
            final(self).current_step == old(self).current_step,
            final(self).builtin_runners@.len() == old(self).builtin_runners@.len(),
            old(self).memory.cell(op1_addr) is Some ==> final(self).builtin_runners == old(self).builtin_runners,
            second_operand(
                old(self).builtin_runners@,
                final(self).builtin_runners@,
                *instruction,
                old(self).memory,
                op1_addr,
                dst,
                op0,
                out,
            ),
            out matches Ok((Some(op1), Some(res))) ==> (op0 matches Some(first) ==> is_res(
                *instruction,
                first,
                op1,
                Some(res),
            )),
    {
        match self.memory.get(&op1_addr) {
            Some(v) => Ok((Some(v), None)),
            None => {
                let found = self.deduce_memory_cell(&op1_addr);
                proof {
                    assert(asked(
                        old(self).builtin_runners@,
                        self.builtin_runners@,
                        self.memory,
                        op1_addr,
                        found,
                    ));
                }
                match found {
                    Err(e) => Err(e),
                    Ok(Some(v)) => Ok((Some(v), None)),
                    Ok(None) => self.deduce_op1(instruction, dst, op0),
                }
            },
        }
    }

    /// Makes the result from the operands found, deduces the destination where
    /// memory does not hold it, and writes what was deduced to memory.
    fn settle_operands(
        &mut self,
        instruction: &Instruction,
        dst_addr: Relocatable,
        op0_addr: Relocatable,
        op1_addr: Relocatable,
        op0: Option<MaybeRelocatable>,
        op1: Option<MaybeRelocatable>,
        solved: Option<MaybeRelocatable>,
    ) -> (r: Result<(Operands, OperandsAddresses), VirtualMachineError>)
        requires
            old(self).memory.cell(op0_addr) is Some ==> op0 == old(self).memory.cell(op0_addr),
            old(self).memory.cell(op1_addr) is Some ==> op1 == old(self).memory.cell(op1_addr),
            op0 is Some && op1 is Some && solved is Some ==> is_res(
                *instruction,
                op0.unwrap(),
                op1.unwrap(),
                solved,
            ),
        ensures
            final(self).run_context == old(self).run_context,
            final(self).builtin_runners == old(self).builtin_runners,
            final(self).segments == old(self).segments,
            final(self).trace == old(self).trace,
            final(self).current_step == old(self).current_step,
            old(self).memory.extended_by(final(self).memory),
            operands_settled(
                old(self).run_context,
                *instruction,
                old(self).memory,
                final(self).memory,
                OperandsAddresses { dst_addr, op0_addr, op1_addr },
                op0,
                op1,
                solved,
                r,
            ),
            r matches Ok((operands, addresses)) ==> {
                &&& addresses == (OperandsAddresses { dst_addr, op0_addr, op1_addr })
                &&& op0 == Some(operands.op0)
                &&& op1 == Some(operands.op1)
                &&& final(self).memory.cell(dst_addr) == Some(operands.dst)
                &&& final(self).memory.cell(op0_addr) == Some(operands.op0)
                &&& final(self).memory.cell(op1_addr) == Some(operands.op1)
                &&& is_res(*instruction, operands.op0, operands.op1, operands.res)
                &&& forall|a: Relocatable|
                    a != dst_addr && a != op0_addr && a != op1_addr ==> final(self).memory.cell(a)
                        == old(self).memory.cell(a)
            },
    {
        let ghost memory = self.memory;
        let ghost addresses = OperandsAddresses { dst_addr, op0_addr, op1_addr };
        let mut dst = self.memory.get(&dst_addr);
        let dst_known = dst.is_some();
        let op0_known = self.memory.get(&op0_addr).is_some();
        let op1_known = self.memory.get(&op1_addr).is_some();
        let op0_value = match op0 {
            Some(v) => v,
            None => {
                return Err(VirtualMachineError::UnknownOperand(op0_addr));
            },
        };
        let op1_value = match op1 {
            Some(v) => v,
            None => {
                return Err(VirtualMachineError::UnknownOperand(op1_addr));
            },
        };
        let mut res = solved;
        if res.is_none() {
            res = match self.compute_res(instruction, &op0_value, &op1_value) {
                Ok(v) => v,
                Err(e) => {
                    return Err(e);
                },
            };
        }
        proof {
            lemma_res_unique(*instruction, op0_value, op1_value, res);
        }
        if dst.is_none() {
            dst = self.deduce_dst(instruction, res);
        }
        let dst_value = match dst {
            Some(v) => v,
            None => {
                return Err(VirtualMachineError::UnknownOperand(dst_addr));
            },
        };
        let ghost operands = Operands { dst: dst_value, res, op0: op0_value, op1: op1_value };
        match self.write_operand(dst_addr, dst_value, dst_known) {
            Ok(()) => {},
            Err(e) => {
                proof {
                    assert(operands_written(
                        memory,
                        self.memory,
                        addresses,
                        operands,
                        Err::<(), VirtualMachineError>(e),
                    ));
                    assert(operands_stored(
                        memory,
                        self.memory,
                        addresses,
                        operands,
                        Err::<(Operands, OperandsAddresses), VirtualMachineError>(e),
                    ));
                }
                return Err(e);
            },
        }
        let ghost wrote_dst = self.memory;
        match self.write_operand(op0_addr, op0_value, op0_known) {
            Ok(()) => {},
            Err(e) => {
                proof {
                    assert(operand_effect(wrote_dst, self.memory, op0_addr, op0_value, op0_known));
                    assert(operands_written(
                        memory,
                        self.memory,
                        addresses,
                        operands,
                        Err::<(), VirtualMachineError>(e),
                    ));
                    assert(operands_stored(
                        memory,
                        self.memory,
                        addresses,
                        operands,
                        Err::<(Operands, OperandsAddresses), VirtualMachineError>(e),
                    ));
                }
                return Err(e);
            },
        }
        let ghost wrote_op0 = self.memory;
        let wrote = self.write_operand(op1_addr, op1_value, op1_known);
        proof {
            assert(operand_effect(wrote_dst, wrote_op0, op0_addr, op0_value, op0_known));
            assert(operands_written(memory, self.memory, addresses, operands, wrote));
        }
        match wrote {
            Ok(()) => {},
            Err(e) => {
                proof {
                    assert(operands_stored(
                        memory,
                        self.memory,
                        addresses,
                        operands,
                        Err::<(Operands, OperandsAddresses), VirtualMachineError>(e),
                    ));
                }
                return Err(e);
            },
        }
        proof {
            assert(operands_stored(
                memory,
                self.memory,
                addresses,
                operands,
                Ok::<(Operands, OperandsAddresses), VirtualMachineError>((operands, addresses)),
            ));
        }
        Ok(
            (
                Operands { dst: dst_value, res, op0: op0_value, op1: op1_value },
                OperandsAddresses { dst_addr, op0_addr, op1_addr },
            ),
        )
    }

    /// Reads and decodes the instruction at the program counter.
    pub fn decode_current_instruction(&self) -> (r: Result<Instruction, VirtualMachineError>)
        ensures
            r == current_instruction(self.run_context, self.memory),
            r matches Ok(instruction) ==> -0x8000 <= instruction.off0 < 0x8000 && -0x8000
                <= instruction.off1 < 0x8000 && -0x8000 <= instruction.off2 < 0x8000,
    {
        match self.memory.get(&self.run_context.pc) {
            Some(MaybeRelocatable::Int(word)) => match word.to_u64() {
                Some(encoded) => decode_instruction(encoded),
                None => Err(VirtualMachineError::InvalidInstructionEncoding),
            },
            _ => Err(VirtualMachineError::InstructionNonInt(self.run_context.pc)),
        }
    }

    /// Executes a decoded instruction: finds its operands, holds them to the
    /// opcode, logs the registers where tracing is on, moves the registers and
    /// counts the step. On an error the registers and the step count stay.
    pub fn run_instruction(&mut self, instruction: &Instruction) -> (r: Result<
        (),
        VirtualMachineError,
    >)
        requires
            old(self).builtins_well_formed(),
        ensures
            final(self).builtins_well_formed(),
            final(self).segments == old(self).segments,
            final(self).builtin_runners@.len() == old(self).builtin_runners@.len(),
            old(self).memory.extended_by(final(self).memory),
            final(self).trace is Some <==> old(self).trace is Some,
            instruction_run(*old(self), *final(self), *instruction, r),
            r is Ok ==> {
                &&& operands_at(old(self).run_context, *instruction, final(self).memory) matches Some(
                    operands,
                ) && is_res(*instruction, operands.op0, operands.op1, operands.res)
                    && opcode_verdict(old(self).run_context, *instruction, operands) is Ok
                    && next_context(old(self).run_context, *instruction, operands) == Ok::<
                    RunContext,
                    VirtualMachineError,
                >(final(self).run_context)
                &&& final(self).current_step == old(self).current_step + 1
                &&& old(self).trace matches Some(before) ==> final(self).trace matches Some(after)
                    && after@ == before@.push(trace_entry(old(self).run_context))
            },
            r is Err ==> final(self).run_context == old(self).run_context && final(self).current_step
                == old(self).current_step && final(self).trace == old(self).trace,
            old(self).current_step == usize::MAX ==> r == Err::<(), VirtualMachineError>(
                VirtualMachineError::RegisterOverflow,
            ),
            old(self).current_step < usize::MAX ==> (operands_at(
                old(self).run_context,
                *instruction,
                old(self).memory,
            ) matches Some(held) ==> settled_step(
                old(self).run_context,
                *instruction,
                held,
                r,
                final(self).run_context,
            ) && final(self).memory == old(self).memory),
    {
        if self.current_step == usize::MAX {
            return Err(VirtualMachineError::RegisterOverflow);
        }
        let ghost start = self.run_context;
        let found = self.compute_operands(instruction);
        proof {
            assert(operands_found(
                *old(self),
                self.builtin_runners@,
                self.memory,
                *instruction,
                found,
            ));
        }
        let (operands, addresses) = match found {
            Ok(found) => found,
            Err(e) => {
                return Err(e);
            },
        };
        proof {
            lemma_res_unique(*instruction, operands.op0, operands.op1, operands.res);
            assert(self.memory.cell(addresses.op0_addr) == Some(operands.op0));
            assert(old(self).memory.cell(addresses.op0_addr) is Some ==> old(self).memory.cell(
                addresses.op0_addr,
            ) == self.memory.cell(addresses.op0_addr));
            assert(start.op1_addr(*instruction, self.memory.cell(addresses.op0_addr)) == Ok::<
                Relocatable,
                VirtualMachineError,
            >(addresses.op1_addr));
        }
        match self.opcode_assertions(instruction, &operands) {
            Ok(()) => {},
            Err(e) => {
                return Err(e);
            },
        }
        let entry = TraceEntry {
            pc: self.run_context.pc,
            ap: self.run_context.get_ap(),
            fp: self.run_context.get_fp(),
        };
        let ghost trace_before = self.trace;
        match self.update_registers(instruction, &operands) {
            Ok(()) => {},
            Err(e) => {
                return Err(e);
            },
        }
        match &mut self.trace {
            Some(trace) => {
                trace.push(entry);
            },
            None => {},
        }
        self.current_step = self.current_step + 1;
        proof {
            assert(operands_found(
                *old(self),
                self.builtin_runners@,
                self.memory,
                *instruction,
                found,
            ));
            assert(opcode_verdict(start, *instruction, operands) is Ok);
            assert(next_context(start, *instruction, operands) == Ok::<
                RunContext,
                VirtualMachineError,
            >(self.run_context));
            assert(match old(self).trace {
                Some(log) => self.trace matches Some(longer) && longer@ == log@.push(
                    trace_entry(start),
                ),
                None => self.trace is None,
            });
        }
        Ok(())
    }

    /// One step of the machine: fetches the instruction at the program counter,
    /// decodes and executes it.
    pub fn step_instruction(&mut self) -> (r: Result<(), VirtualMachineError>)
        requires
            old(self).builtins_well_formed(),
        ensures
            final(self).builtins_well_formed(),
            stepped(*old(self), *final(self), r),
    {
        let instruction = match self.decode_current_instruction() {
            Ok(instruction) => instruction,
            Err(e) => {
                return Err(e);
            },
        };
        self.run_instruction(&instruction)
    }

    /// The first range-check builtin among the builtin runners from `from` on.
    pub open spec fn range_check_builtin(&self, from: int) -> Option<RangeCheckBuiltinRunner>
        decreases self.builtin_runners@.len() - from,
    {
        if from < 0 || from >= self.builtin_runners@.len() {
            None
        } else {
            match self.builtin_runners@[from] {
                BuiltinRunner::RangeCheck(b) => Some(b),
                _ => self.range_check_builtin(from + 1),
            }
        }
    }

    /// The range-check builtin of the program.
    pub fn get_range_check_builtin(&self) -> (r: Result<
        &RangeCheckBuiltinRunner,
        VirtualMachineError,
    >)
        ensures
            match self.range_check_builtin(0) {
                Some(b) => r matches Ok(found) && *found == b,
                None => r == Err::<&RangeCheckBuiltinRunner, VirtualMachineError>(
                    VirtualMachineError::NoRangeCheckBuiltin,
                ),
            },
    {
        let mut i: usize = 0;
        while i < self.builtin_runners.len()
            invariant
                i <= self.builtin_runners@.len(),
                self.range_check_builtin(0) == self.range_check_builtin(i as int),
            decreases self.builtin_runners@.len() - i,
        {
            match &self.builtin_runners[i] {
                BuiltinRunner::RangeCheck(b) => {
                    return Ok(b);
                },
                _ => {},
            }
            i = i + 1;
        }
        Err(VirtualMachineError::NoRangeCheckBuiltin)
    }

    /// Writes `val` to the cell at `key`: see `Memory::insert`.
    pub fn insert_value(&mut self, key: Relocatable, val: MaybeRelocatable) -> (r: Result<
        (),
        MemoryError,
    >)
        ensures
            r == old(self).memory.insert_verdict(key, val),
            old(self).memory.insert_effect(final(self).memory, key, val),
            final(self).run_context == old(self).run_context,
            final(self).builtin_runners == old(self).builtin_runners,
            final(self).segments == old(self).segments,
            final(self).trace == old(self).trace,
            final(self).current_step == old(self).current_step,
    {
        self.memory.insert(key, val)
    }

    /// Reads a cell that must hold a field element.
    pub fn get_integer(&self, key: Relocatable) -> (r: Result<Felt252, MemoryError>)
        ensures
            match self.memory.cell(key) {
                Some(MaybeRelocatable::Int(num)) => r == Ok::<Felt252, MemoryError>(num),
                Some(MaybeRelocatable::RelocatableValue(_)) => r == Err::<Felt252, MemoryError>(
                    MemoryError::ExpectedInteger(key),
                ),
                None => r == Err::<Felt252, MemoryError>(MemoryError::UnknownMemoryCell(key)),
            },
    {
        self.memory.get_integer(&key)
    }

    /// Reads a cell that must hold an address.
    pub fn get_relocatable(&self, key: Relocatable) -> (r: Result<Relocatable, MemoryError>)
        ensures
            match self.memory.cell(key) {
                Some(MaybeRelocatable::RelocatableValue(rel)) => r == Ok::<
                    Relocatable,
                    MemoryError,
                >(rel),
                Some(MaybeRelocatable::Int(_)) => r == Err::<Relocatable, MemoryError>(
                    MemoryError::ExpectedRelocatable(key),
                ),
                None => r == Err::<Relocatable, MemoryError>(MemoryError::UnknownMemoryCell(key)),
            },
    {
        self.memory.get_relocatable(&key)
    }

    /// Reads a cell.
    pub fn get_maybe(&self, key: &Relocatable) -> (r: Option<MaybeRelocatable>)
        ensures
            r == self.memory.cell(*key),
    {
        self.memory.get(key)
    }

    /// The allocation pointer as an address.
    pub fn get_ap(&self) -> (r: Relocatable)
        ensures
            r == self.run_context.ap_addr(),
    {
        self.run_context.get_ap()
    }

    /// The frame pointer as an address.
    pub fn get_fp(&self) -> (r: Relocatable)
        ensures
            r == self.run_context.fp_addr(),
    {
        self.run_context.get_fp()
    }

    /// The program counter.
    pub fn get_pc(&self) -> (r: Relocatable)
        ensures
            r == self.run_context.pc,
    {
        self.run_context.pc
    }

    /// Whether every builtin runner has the parameters of its kind.
    pub open spec fn builtins_well_formed(&self) -> bool {
        forall|i: int|
            0 <= i < self.builtin_runners@.len() ==> (#[trigger] self.builtin_runners@[i]).well_formed()
    }

    /// Whether every builtin runner has the parameters of its kind.
    pub fn check_builtins(&self) -> (r: bool)
        ensures
            r == self.builtins_well_formed(),
    {
        let mut i: usize = 0;
        while i < self.builtin_runners.len()
            invariant
                i <= self.builtin_runners@.len(),
                forall|k: int| 0 <= k < i ==> (#[trigger] self.builtin_runners@[k]).well_formed(),
            decreases self.builtin_runners@.len() - i,
        {
            if !self.builtin_runners[i].is_well_formed() {
                return false;
            }
            i = i + 1;
        }
        true
    }

    /// Asks the builtin that owns the segment of `address`, if there is one, to
    /// deduce the cell at `address`. Only that builtin may change.
    pub fn deduce_memory_cell(&mut self, address: &Relocatable) -> (r: Result<
        Option<MaybeRelocatable>,
        VirtualMachineError,
    >)
        requires
            old(self).builtins_well_formed(),
        ensures
            final(self).builtins_well_formed(),
            final(self).run_context == old(self).run_context,
            final(self).segments == old(self).segments,
            final(self).memory == old(self).memory,
            final(self).trace == old(self).trace,
            final(self).current_step == old(self).current_step,
            final(self).builtin_runners@.len() == old(self).builtin_runners@.len(),
            asked(
                old(self).builtin_runners@,
                final(self).builtin_runners@,
                old(self).memory,
                *address,
                r,
            ),
            match owner(old(self).builtin_runners@, address.segment_index, 0) {
                None => r == Ok::<Option<MaybeRelocatable>, VirtualMachineError>(None) && final(self).builtin_runners@ == old(self).builtin_runners@,
                Some(i) => {
                    &&& 0 <= i < old(self).builtin_runners@.len()
                    &&& forall|j: int|
                        0 <= j < old(self).builtin_runners@.len() && j != i ==> final(self).builtin_runners@[j] == old(self).builtin_runners@[j]
                    &&& match r {
                        Ok(v) => old(self).builtin_runners@[i].deduces(
                            final(self).builtin_runners@[i],
                            old(self).memory,
                            *address,
                            Ok(v),
                        ),
                        Err(VirtualMachineError::RunnerError(e)) => old(self).builtin_runners@[i].deduces(
                            final(self).builtin_runners@[i],
                            old(self).memory,
                            *address,
                            Err(e),
                        ),
                        Err(_) => false,
                    }
                },
            },
    {
        let i = match self.find_owner(address.segment_index) {
            Some(i) => i,
            None => {
                return Ok(None);
            },
        };
        let ghost before = self.builtin_runners@;
        assert(before[i as int].well_formed());
        let result = self.builtin_runners[i].deduce_memory_cell(address, &self.memory);
        proof {
            assert forall|j: int| 0 <= j < self.builtin_runners@.len() implies (
            #[trigger] self.builtin_runners@[j]).well_formed() by {
                if j != i {
                    assert(self.builtin_runners@[j] == before[j]);
                }
            }
        }
        match result {
            Ok(v) => Ok(v),
            Err(e) => Err(VirtualMachineError::RunnerError(e)),
        }
    }

    /// The index of the first builtin runner that owns segment `segment`.
    pub fn find_owner(&self, segment: isize) -> (r: Option<usize>)
        ensures
            r matches Some(i) ==> owner(self.builtin_runners@, segment, 0) == Some(i as int) && i
                < self.builtin_runners@.len(),
            r is None ==> owner(self.builtin_runners@, segment, 0) is None,
    {
        let mut i: usize = 0;
        while i < self.builtin_runners.len()
            invariant
                i <= self.builtin_runners@.len(),
                owner(self.builtin_runners@, segment, 0) == owner(
                    self.builtin_runners@,
                    segment,
                    i as int,
                ),
            decreases self.builtin_runners@.len() - i,
        {
            if self.builtin_runners[i].base() == segment {
                return Some(i);
            }
            i = i + 1;
        }
        None
    }
}

/// Brings to the verifier's notice that a field element in a cell is
/// canonical.
pub fn note_canonical(value: &MaybeRelocatable)
    ensures
        *value matches MaybeRelocatable::Int(x) ==> x@ < prime(),
{
    match value {
        MaybeRelocatable::Int(x) => {
            proof {
                use_type_invariant(x);
            }
        },
        _ => {},
    }
}

/// The index of the first builtin runner from `from` on that owns segment
/// `segment`.
pub open spec fn owner(builtins: Seq<BuiltinRunner>, segment: isize, from: int) -> Option<int>
    decreases builtins.len() - from,
{
    if from < 0 || from >= builtins.len() {
        None
    } else if builtins[from].base_spec() == segment {
        Some(from)
    } else {
        owner(builtins, segment, from + 1)
    }
}

} // verus!
