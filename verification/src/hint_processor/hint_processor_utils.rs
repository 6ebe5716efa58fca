//! Resolution of references against the registers and memory of the machine.

use crate::felt::Felt252;
use crate::hint_processor::hint_processor_definition::HintReference;
use crate::serde::deserialize_program::{ApTracking, OffsetValue};
use crate::types::errors::math_errors::MathError;
use crate::types::instruction::Register;
use crate::types::relocatable::{MaybeRelocatable, Relocatable};
use crate::vm::errors::hint_errors::HintError;
use crate::vm::vm_core::{move_by, moved_by, offset_addr, VirtualMachine};
use vstd::prelude::*;

verus! {

/// The allocation pointer as it was where the reference was made, seen from
/// where the hint stands: both must be tracked in one group.
pub open spec fn corrected_ap(
    ap: Relocatable,
    ref_ap_tracking: ApTracking,
    hint_ap_tracking: ApTracking,
) -> Option<Relocatable> {
    if ref_ap_tracking.group != hint_ap_tracking.group || hint_ap_tracking.offset
        < ref_ap_tracking.offset || ap.offset < hint_ap_tracking.offset - ref_ap_tracking.offset {
        None
    } else {
        Some(
            Relocatable {
                segment_index: ap.segment_index,
                offset: (ap.offset - (hint_ap_tracking.offset - ref_ap_tracking.offset)) as usize,
            },
        )
    }
}

/// See `corrected_ap`.
pub fn apply_ap_tracking_correction(
    ap: Relocatable,
    ref_ap_tracking: &ApTracking,
    hint_ap_tracking: &ApTracking,
) -> (r: Option<Relocatable>)
    ensures
        r == corrected_ap(ap, *ref_ap_tracking, *hint_ap_tracking),
{
    if ref_ap_tracking.group != hint_ap_tracking.group {
        return None;
    }
    if hint_ap_tracking.offset < ref_ap_tracking.offset {
        return None;
    }
    let ap_diff = hint_ap_tracking.offset - ref_ap_tracking.offset;
    match ap.sub_usize(ap_diff) {
        Ok(addr) => Some(addr),
        Err(_) => None,
    }
}

/// The value that one offset of a reference denotes: a register moved by the
/// offset, or the cell there where the offset is read through.
pub open spec fn offset_value(
    vm: VirtualMachine,
    reference: HintReference,
    hint_ap_tracking: ApTracking,
    offset: OffsetValue,
) -> Option<MaybeRelocatable> {
    match offset {
        OffsetValue::Reference(register, off, deref) => {
            let base = if register == Register::FP {
                Some(vm.run_context.fp_addr())
            } else {
                match reference.ap_tracking_data {
                    Some(tracking) => corrected_ap(
                        vm.run_context.ap_addr(),
                        tracking,
                        hint_ap_tracking,
                    ),
                    None => None,
                }
            };
            match base {
                Some(base_addr) => match offset_addr(base_addr, off) {
                    Ok(addr) => if deref {
                        vm.memory.cell(addr)
                    } else {
                        Some(MaybeRelocatable::RelocatableValue(addr))
                    },
                    Err(_) => None,
                },
                None => None,
            }
        },
        _ => None,
    }
}

/// See `offset_value`.
pub fn get_offset_value_reference(
    vm: &VirtualMachine,
    hint_reference: &HintReference,
    hint_ap_tracking: &ApTracking,
    offset_value: &OffsetValue,
) -> (r: Option<MaybeRelocatable>)
    ensures
        r == self::offset_value(*vm, *hint_reference, *hint_ap_tracking, *offset_value),
{
    let (register, offset, deref) = match offset_value {
        OffsetValue::Reference(register, offset, deref) => (*register, *offset, *deref),
        _ => {
            return None;
        },
    };
    let base_addr = match register {
        Register::FP => vm.run_context.get_fp(),
        Register::AP => {
            let tracking = match &hint_reference.ap_tracking_data {
                Some(tracking) => tracking,
                None => {
                    return None;
                },
            };
            match apply_ap_tracking_correction(vm.run_context.get_ap(), tracking, hint_ap_tracking) {
                Some(addr) => addr,
                None => {
                    return None;
                },
            }
        },
    };
    let addr = match base_addr.add_i32(offset) {
        Ok(addr) => addr,
        Err(_) => {
            return None;
        },
    };
    if deref {
        vm.memory.get(&addr)
    } else {
        Some(MaybeRelocatable::RelocatableValue(addr))
    }
}

/// The address that a reference denotes: its first offset must give an
/// address, which the second offset moves.
pub open spec fn reference_addr(
    vm: VirtualMachine,
    reference: HintReference,
    hint_ap_tracking: ApTracking,
) -> Option<Relocatable> {
    match offset_value(vm, reference, hint_ap_tracking, reference.offset1) {
        Some(MaybeRelocatable::RelocatableValue(first)) => match reference.offset2 {
            OffsetValue::Reference(_, _, _) => match offset_value(
                vm,
                reference,
                hint_ap_tracking,
                reference.offset2,
            ) {
                Some(MaybeRelocatable::Int(num)) => match moved_by(
                    first,
                    MaybeRelocatable::Int(num),
                ) {
                    Ok(addr) => Some(addr),
                    Err(_) => None,
                },
                _ => None,
            },
            OffsetValue::Value(value) => match offset_addr(first, value) {
                Ok(addr) => Some(addr),
                Err(_) => None,
            },
            OffsetValue::Immediate(_) => None,
        },
        _ => None,
    }
}

/// A reference that resolves keeps its address when memory is extended and
/// the registers stay.
pub proof fn lemma_reference_addr_monotone(
    before: VirtualMachine,
    after: VirtualMachine,
    reference: HintReference,
    hint_ap_tracking: ApTracking,
)
    requires
        before.memory.extended_by(after.memory),
        after.run_context == before.run_context,
        reference_addr(before, reference, hint_ap_tracking) is Some,
    ensures
        reference_addr(after, reference, hint_ap_tracking) == reference_addr(
            before,
            reference,
            hint_ap_tracking,
        ),
{
    let first_before = offset_value(before, reference, hint_ap_tracking, reference.offset1);
    let first_after = offset_value(after, reference, hint_ap_tracking, reference.offset1);
    assert(first_before is Some);
    assert(first_after == first_before);
    let second_before = offset_value(before, reference, hint_ap_tracking, reference.offset2);
    let second_after = offset_value(after, reference, hint_ap_tracking, reference.offset2);
    assert(second_before is Some ==> second_after == second_before);
}

/// See `reference_addr`.
pub fn compute_addr_from_reference(
    hint_reference: &HintReference,
    vm: &VirtualMachine,
    hint_ap_tracking: &ApTracking,
) -> (r: Option<Relocatable>)
    ensures
        r == reference_addr(*vm, *hint_reference, *hint_ap_tracking),
{
    let first = match get_offset_value_reference(
        vm,
        hint_reference,
        hint_ap_tracking,
        &hint_reference.offset1,
    ) {
        Some(MaybeRelocatable::RelocatableValue(first)) => first,
        _ => {
            return None;
        },
    };
    match &hint_reference.offset2 {
        OffsetValue::Reference(_, _, _) => {
            match get_offset_value_reference(
                vm,
                hint_reference,
                hint_ap_tracking,
                &hint_reference.offset2,
            ) {
                Some(MaybeRelocatable::Int(num)) => match move_by(
                    &first,
                    &MaybeRelocatable::Int(num),
                ) {
                    Ok(addr) => Some(addr),
                    Err(_) => None,
                },
                _ => None,
            }
        },
        OffsetValue::Value(value) => match first.add_i32(*value) {
            Ok(addr) => Some(addr),
            Err(_) => None,
        },
        OffsetValue::Immediate(_) => None,
    }
}

/// The field element that a reference denotes: the immediate of the reference,
/// or what the cell at its address holds.
pub open spec fn reference_integer(
    vm: VirtualMachine,
    reference: HintReference,
    ap_tracking: ApTracking,
) -> Result<Felt252, HintError> {
    match reference.offset1 {
        OffsetValue::Immediate(num) => Ok(num),
        _ => match reference_addr(vm, reference, ap_tracking) {
            None => Err(HintError::UnknownIdentifierInternal),
            Some(addr) => match vm.memory.cell(addr) {
                Some(MaybeRelocatable::Int(num)) => Ok(num),
                _ => Err(HintError::WrongIdentifierTypeInternal(addr)),
            },
        },
    }
}

/// See `reference_integer`.
pub fn get_integer_from_reference(
    vm: &VirtualMachine,
    hint_reference: &HintReference,
    ap_tracking: &ApTracking,
) -> (r: Result<Felt252, HintError>)
    ensures
        r == reference_integer(*vm, *hint_reference, *ap_tracking),
{
    match &hint_reference.offset1 {
        OffsetValue::Immediate(num) => {
            return Ok(*num);
        },
        _ => {},
    }
    let var_addr = match compute_addr_from_reference(hint_reference, vm, ap_tracking) {
        Some(addr) => addr,
        None => {
            return Err(HintError::UnknownIdentifierInternal);
        },
    };
    match vm.memory.get_integer(&var_addr) {
        Ok(num) => Ok(num),
        Err(_) => Err(HintError::WrongIdentifierTypeInternal(var_addr)),
    }
}

/// The address that a reference to a pointer denotes: the address of the
/// reference, or, where the reference is read through, the address in the cell
/// there.
pub open spec fn reference_ptr(
    vm: VirtualMachine,
    reference: HintReference,
    ap_tracking: ApTracking,
) -> Result<Relocatable, HintError> {
    match reference_addr(vm, reference, ap_tracking) {
        None => Err(HintError::UnknownIdentifierInternal),
        Some(addr) => if reference.dereference {
            match vm.memory.cell(addr) {
                Some(MaybeRelocatable::RelocatableValue(rel)) => Ok(rel),
                _ => Err(HintError::WrongIdentifierTypeInternal(addr)),
            }
        } else {
            Ok(addr)
        },
    }
}

/// See `reference_ptr`.
pub fn get_ptr_from_reference(
    vm: &VirtualMachine,
    hint_reference: &HintReference,
    ap_tracking: &ApTracking,
) -> (r: Result<Relocatable, HintError>)
    ensures
        r == reference_ptr(*vm, *hint_reference, *ap_tracking),
{
    let var_addr = match compute_addr_from_reference(hint_reference, vm, ap_tracking) {
        Some(addr) => addr,
        None => {
            return Err(HintError::UnknownIdentifierInternal);
        },
    };
    if hint_reference.dereference {
        match vm.memory.get_relocatable(&var_addr) {
            Ok(rel) => Ok(rel),
            Err(_) => Err(HintError::WrongIdentifierTypeInternal(var_addr)),
        }
    } else {
        Ok(var_addr)
    }
}

/// The cell value that a reference denotes.
pub open spec fn reference_value(
    vm: VirtualMachine,
    reference: HintReference,
    ap_tracking: ApTracking,
) -> Option<MaybeRelocatable> {
    match reference.offset1 {
        OffsetValue::Immediate(num) => Some(MaybeRelocatable::Int(num)),
        _ => match reference_addr(vm, reference, ap_tracking) {
            None => None,
            Some(addr) => if reference.dereference {
                vm.memory.cell(addr)
            } else {
                Some(MaybeRelocatable::RelocatableValue(addr))
            },
        },
    }
}

/// See `reference_value`.
pub fn get_maybe_relocatable_from_reference(
    vm: &VirtualMachine,
    hint_reference: &HintReference,
    ap_tracking: &ApTracking,
) -> (r: Option<MaybeRelocatable>)
    ensures
        r == reference_value(*vm, *hint_reference, *ap_tracking),
{
    match &hint_reference.offset1 {
        OffsetValue::Immediate(num) => {
            return Some(MaybeRelocatable::Int(*num));
        },
        _ => {},
    }
    let var_addr = match compute_addr_from_reference(hint_reference, vm, ap_tracking) {
        Some(addr) => addr,
        None => {
            return None;
        },
    };
    if hint_reference.dereference {
        vm.memory.get(&var_addr)
    } else {
        Some(MaybeRelocatable::RelocatableValue(var_addr))
    }
}

/// The field element as a machine word.
pub fn felt_to_usize(felt: &Felt252) -> (r: Result<usize, MathError>)
    ensures
        felt@ <= usize::MAX ==> r == Ok::<usize, MathError>(felt@ as usize),
        felt@ > usize::MAX ==> r == Err::<usize, MathError>(
            MathError::Felt252ToUsizeConversion(*felt),
        ),
{
    match felt.to_usize() {
        Some(value) => Ok(value),
        None => Err(MathError::Felt252ToUsizeConversion(*felt)),
    }
}

/// The field element as 32 bits.
pub fn felt_to_u32(felt: &Felt252) -> (r: Result<u32, MathError>)
    ensures
        felt@ <= u32::MAX ==> r == Ok::<u32, MathError>(felt@ as u32),
        felt@ > u32::MAX ==> r == Err::<u32, MathError>(MathError::Felt252ToU32Conversion(*felt)),
{
    match felt.to_u32() {
        Some(value) => Ok(value),
        None => Err(MathError::Felt252ToU32Conversion(*felt)),
    }
}

} // verus!
