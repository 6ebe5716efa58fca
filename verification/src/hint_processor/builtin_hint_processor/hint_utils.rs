//! Reading and writing the values that the names of a hint stand for.

use crate::felt::Felt252;
use crate::hint_processor::hint_processor_definition::HintReference;
use crate::hint_processor::hint_processor_utils::{
    compute_addr_from_reference, get_integer_from_reference, get_maybe_relocatable_from_reference,
    get_ptr_from_reference, lemma_reference_addr_monotone, reference_addr, reference_integer, reference_ptr, reference_value,
};
use crate::serde::deserialize_program::ApTracking;
use crate::types::errors::memory_errors::MemoryError;
use crate::types::relocatable::{MaybeRelocatable, Relocatable};
use crate::vm::errors::hint_errors::HintError;
use crate::vm::vm_core::VirtualMachine;
use vstd::prelude::*;
use vstd::string::StringExecFns;

verus! {

/// The index of the first reference called `name` from `from` on.
pub open spec fn reference_position(
    ids_data: Seq<(String, HintReference)>,
    name: Seq<char>,
    from: int,
) -> Option<int>
    decreases ids_data.len() - from,
{
    if from < 0 || from >= ids_data.len() {
        None
    } else if ids_data[from].0@ == name {
        Some(from)
    } else {
        reference_position(ids_data, name, from + 1)
    }
}

/// The reference called `name`.
pub open spec fn reference_named(ids_data: Seq<(String, HintReference)>, name: Seq<char>) -> Option<
    HintReference,
> {
    match reference_position(ids_data, name, 0) {
        Some(i) => Some(ids_data[i].1),
        None => None,
    }
}

/// Whether no name occurs twice among the references: the list is a map from
/// names to references.
pub open spec fn references_once(ids_data: Seq<(String, HintReference)>) -> bool {
    forall|i: int, j: int|
        0 <= i < j < ids_data.len() ==> (#[trigger] ids_data[i]).0@ != (#[trigger] ids_data[j]).0@
}

/// In a list that is a map, the reference found under a name is the one entry
/// of that name, wherever it stands.
pub proof fn lemma_reference_is_the_entry(
    ids_data: Seq<(String, HintReference)>,
    i: int,
    from: int,
)
    requires
        references_once(ids_data),
        0 <= from <= i < ids_data.len(),
    ensures
        reference_position(ids_data, ids_data[i].0@, from) == Some(i),
        from == 0 ==> reference_named(ids_data, ids_data[i].0@) == Some(ids_data[i].1),
    decreases i - from,
{
    if from < i {
        assert(ids_data[from].0@ != ids_data[i].0@);
        lemma_reference_is_the_entry(ids_data, i, from + 1);
    }
}

/// The reference called `var_name`.
pub fn get_reference_from_var_name<'a>(
    var_name: &str,
    ids_data: &'a Vec<(String, HintReference)>,
) -> (r: Result<&'a HintReference, HintError>)
    ensures
        match reference_named(ids_data@, var_name@) {
            Some(reference) => r matches Ok(found) && *found == reference,
            None => r matches Err(HintError::UnknownIdentifier(n)) && n@ == var_name@,
        },
{
    let wanted = String::from_str(var_name);
    let mut i: usize = 0;
    while i < ids_data.len()
        invariant
            i <= ids_data@.len(),
            wanted@ == var_name@,
            reference_position(ids_data@, var_name@, 0) == reference_position(
                ids_data@,
                var_name@,
                i as int,
            ),
        decreases ids_data@.len() - i,
    {
        if ids_data[i].0 == wanted {
            return Ok(&ids_data[i].1);
        }
        i = i + 1;
    }
    Err(HintError::UnknownIdentifier(String::from_str(var_name)))
}

/// The field element that `name` stands for.
pub open spec fn ids_integer(
    vm: VirtualMachine,
    ids_data: Seq<(String, HintReference)>,
    ap_tracking: ApTracking,
    name: Seq<char>,
) -> Option<Felt252> {
    match reference_named(ids_data, name) {
        Some(reference) => match reference_integer(vm, reference, ap_tracking) {
            Ok(num) => Some(num),
            Err(_) => None,
        },
        None => None,
    }
}

/// Whether `e` is the error of reading the field element that `name` stands
/// for: of a cell that holds no field element, that the identifier is no
/// integer, with its address; else that the identifier is unknown.
pub open spec fn integer_fault(
    vm: VirtualMachine,
    ids_data: Seq<(String, HintReference)>,
    ap_tracking: ApTracking,
    name: Seq<char>,
    e: HintError,
) -> bool {
    match reference_named(ids_data, name) {
        Some(reference) => match reference_integer(vm, reference, ap_tracking) {
            Err(HintError::WrongIdentifierTypeInternal(addr)) => e matches HintError::IdentifierNotInteger(
                n,
                a,
            ) && n@ == name && a == addr,
            _ => e matches HintError::UnknownIdentifier(n) && n@ == name,
        },
        None => e matches HintError::UnknownIdentifier(n) && n@ == name,
    }
}

/// The field element that `var_name` stands for.
pub fn get_integer_from_var_name(
    var_name: &str,
    vm: &VirtualMachine,
    ids_data: &Vec<(String, HintReference)>,
    ap_tracking: &ApTracking,
) -> (r: Result<Felt252, HintError>)
    ensures
        match ids_integer(*vm, ids_data@, *ap_tracking, var_name@) {
            Some(num) => r == Ok::<Felt252, HintError>(num),
            None => r matches Err(e) && integer_fault(*vm, ids_data@, *ap_tracking, var_name@, e),
        },
{
    let reference = match get_reference_from_var_name(var_name, ids_data) {
        Ok(reference) => reference,
        Err(e) => {
            return Err(e);
        },
    };
    match get_integer_from_reference(vm, reference, ap_tracking) {
        Ok(val) => Ok(val),
        Err(HintError::WrongIdentifierTypeInternal(var_addr)) => Err(
            HintError::IdentifierNotInteger(String::from_str(var_name), var_addr),
        ),
        Err(_) => Err(HintError::UnknownIdentifier(String::from_str(var_name))),
    }
}

/// The address that the pointer `name` holds.
pub open spec fn ids_ptr(
    vm: VirtualMachine,
    ids_data: Seq<(String, HintReference)>,
    ap_tracking: ApTracking,
    name: Seq<char>,
) -> Option<Relocatable> {
    match reference_named(ids_data, name) {
        Some(reference) => match reference_ptr(vm, reference, ap_tracking) {
            Ok(addr) => Some(addr),
            Err(_) => None,
        },
        None => None,
    }
}

/// Whether `e` is the error of reading the address that the pointer `name`
/// holds: of a cell that holds no address, that the identifier is not
/// relocatable, with its address; else that the identifier is unknown.
pub open spec fn ptr_fault(
    vm: VirtualMachine,
    ids_data: Seq<(String, HintReference)>,
    ap_tracking: ApTracking,
    name: Seq<char>,
    e: HintError,
) -> bool {
    match reference_named(ids_data, name) {
        Some(reference) => match reference_ptr(vm, reference, ap_tracking) {
            Err(HintError::WrongIdentifierTypeInternal(addr)) => e matches HintError::IdentifierNotRelocatable(
                n,
                a,
            ) && n@ == name && a == addr,
            _ => e matches HintError::UnknownIdentifier(n) && n@ == name,
        },
        None => e matches HintError::UnknownIdentifier(n) && n@ == name,
    }
}

/// The address that the pointer `var_name` holds.
pub fn get_ptr_from_var_name(
    var_name: &str,
    vm: &VirtualMachine,
    ids_data: &Vec<(String, HintReference)>,
    ap_tracking: &ApTracking,
) -> (r: Result<Relocatable, HintError>)
    ensures
        match ids_ptr(*vm, ids_data@, *ap_tracking, var_name@) {
            Some(addr) => r == Ok::<Relocatable, HintError>(addr),
            None => r matches Err(e) && ptr_fault(*vm, ids_data@, *ap_tracking, var_name@, e),
        },
{
    let reference = match get_reference_from_var_name(var_name, ids_data) {
        Ok(reference) => reference,
        Err(e) => {
            return Err(e);
        },
    };
    match get_ptr_from_reference(vm, reference, ap_tracking) {
        Ok(val) => Ok(val),
        Err(HintError::WrongIdentifierTypeInternal(var_addr)) => Err(
            HintError::IdentifierNotRelocatable(String::from_str(var_name), var_addr),
        ),
        Err(_) => Err(HintError::UnknownIdentifier(String::from_str(var_name))),
    }
}

/// The address of the cell that `name` stands for.
pub open spec fn ids_addr(
    vm: VirtualMachine,
    ids_data: Seq<(String, HintReference)>,
    ap_tracking: ApTracking,
    name: Seq<char>,
) -> Option<Relocatable> {
    match reference_named(ids_data, name) {
        Some(reference) => reference_addr(vm, reference, ap_tracking),
        None => None,
    }
}

/// A name that resolves keeps its address when memory is extended and the
/// registers stay.
pub proof fn lemma_ids_addr_monotone(
    before: VirtualMachine,
    after: VirtualMachine,
    ids_data: Seq<(String, HintReference)>,
    ap_tracking: ApTracking,
    name: Seq<char>,
)
    requires
        before.memory.extended_by(after.memory),
        after.run_context == before.run_context,
        ids_addr(before, ids_data, ap_tracking, name) is Some,
    ensures
        ids_addr(after, ids_data, ap_tracking, name) == ids_addr(
            before,
            ids_data,
            ap_tracking,
            name,
        ),
{
    lemma_reference_addr_monotone(
        before,
        after,
        reference_named(ids_data, name).unwrap(),
        ap_tracking,
    );
}

/// The address of the cell that `var_name` stands for.
pub fn get_relocatable_from_var_name(
    var_name: &str,
    vm: &VirtualMachine,
    ids_data: &Vec<(String, HintReference)>,
    ap_tracking: &ApTracking,
) -> (r: Result<Relocatable, HintError>)
    ensures
        match ids_addr(*vm, ids_data@, *ap_tracking, var_name@) {
            Some(addr) => r == Ok::<Relocatable, HintError>(addr),
            None => r matches Err(HintError::UnknownIdentifier(n)) && n@ == var_name@,
        },
{
    let reference = match get_reference_from_var_name(var_name, ids_data) {
        Ok(reference) => reference,
        Err(e) => {
            return Err(e);
        },
    };
    match compute_addr_from_reference(reference, vm, ap_tracking) {
        Some(addr) => Ok(addr),
        None => Err(HintError::UnknownIdentifier(String::from_str(var_name))),
    }
}

/// The cell value that `name` stands for.
pub open spec fn ids_value(
    vm: VirtualMachine,
    ids_data: Seq<(String, HintReference)>,
    ap_tracking: ApTracking,
    name: Seq<char>,
) -> Option<MaybeRelocatable> {
    match reference_named(ids_data, name) {
        Some(reference) => reference_value(vm, reference, ap_tracking),
        None => None,
    }
}

/// The cell value that `var_name` stands for.
pub fn get_maybe_relocatable_from_var_name(
    var_name: &str,
    vm: &VirtualMachine,
    ids_data: &Vec<(String, HintReference)>,
    ap_tracking: &ApTracking,
) -> (r: Result<MaybeRelocatable, HintError>)
    ensures
        match ids_value(*vm, ids_data@, *ap_tracking, var_name@) {
            Some(value) => r == Ok::<MaybeRelocatable, HintError>(value),
            None => r matches Err(HintError::UnknownIdentifier(n)) && n@ == var_name@,
        },
{
    let reference = match get_reference_from_var_name(var_name, ids_data) {
        Ok(reference) => reference,
        Err(e) => {
            return Err(e);
        },
    };
    match get_maybe_relocatable_from_reference(vm, reference, ap_tracking) {
        Some(value) => Ok(value),
        None => Err(HintError::UnknownIdentifier(String::from_str(var_name))),
    }
}

/// What writing `value` to the cell at `addr` comes to, as a hint sees it.
pub open spec fn write_verdict(vm: VirtualMachine, addr: Relocatable, value: MaybeRelocatable) -> Result<
    (),
    HintError,
> {
    match vm.memory.insert_verdict(addr, value) {
        Ok(()) => Ok(()),
        Err(e) => Err(HintError::Memory(e)),
    }
}

/// Whether `after` is `before` after `value` was written to the cell at `addr`.
pub open spec fn written(
    before: VirtualMachine,
    after: VirtualMachine,
    addr: Relocatable,
    value: MaybeRelocatable,
) -> bool {
    &&& before.memory.insert_effect(after.memory, addr, value)
    &&& after.run_context == before.run_context
    &&& after.builtin_runners == before.builtin_runners
    &&& after.segments == before.segments
    &&& after.trace == before.trace
    &&& after.current_step == before.current_step
}

/// What writing `value` to the cell at `addr` comes to once `first` was
/// written to the cell at `at` and accepted: the same cell takes the same
/// value only, any other cell what it took before.
pub open spec fn write_verdict_after(
    vm: VirtualMachine,
    at: Relocatable,
    first: MaybeRelocatable,
    addr: Relocatable,
    value: MaybeRelocatable,
) -> Result<(), HintError> {
    if addr == at {
        if value == first {
            Ok(())
        } else {
            Err(HintError::Memory(MemoryError::InconsistentMemory(addr, first, value)))
        }
    } else {
        write_verdict(vm, addr, value)
    }
}

/// After an accepted write, a second write comes to `write_verdict_after`.
pub proof fn lemma_write_after(
    before: VirtualMachine,
    middle: VirtualMachine,
    at: Relocatable,
    first: MaybeRelocatable,
    addr: Relocatable,
    value: MaybeRelocatable,
)
    requires
        written(before, middle, at, first),
        write_verdict(before, at, first) is Ok,
    ensures
        write_verdict(middle, addr, value) == write_verdict_after(before, at, first, addr, value),
        middle.memory.cell(at) == Some(first),
{
    assert(before.memory.insert_verdict(at, first) is Ok);
    assert(before.memory.accepts(at, first));
    assert(middle.memory.cell(at) == Some(first));
    assert(middle.memory.cell(addr) == (if addr == at {
        Some(first)
    } else {
        before.memory.cell(addr)
    }));
    assert(middle.memory.rule(addr.segment_index as int) == before.memory.rule(
        addr.segment_index as int,
    ));
}

/// Writes `value` to the cell that `var_name` stands for.
pub fn insert_value_from_var_name(
    var_name: &str,
    value: MaybeRelocatable,
    vm: &mut VirtualMachine,
    ids_data: &Vec<(String, HintReference)>,
    ap_tracking: &ApTracking,
) -> (r: Result<(), HintError>)
    ensures
        match ids_addr(*old(vm), ids_data@, *ap_tracking, var_name@) {
            Some(addr) => r == write_verdict(*old(vm), addr, value) && written(
                *old(vm),
                *final(vm),
                addr,
                value,
            ),
            None => (r matches Err(HintError::UnknownIdentifier(n)) && n@ == var_name@) && *final(vm) == *old(vm),
        },
{
    let var_address = match get_relocatable_from_var_name(var_name, vm, ids_data, ap_tracking) {
        Ok(addr) => addr,
        Err(e) => {
            return Err(e);
        },
    };
    match vm.memory.insert(var_address, value) {
        Ok(()) => Ok(()),
        Err(e) => Err(HintError::Memory(e)),
    }
}

/// Writes `value` to the cell at the allocation pointer.
pub fn insert_value_into_ap(vm: &mut VirtualMachine, value: MaybeRelocatable) -> (r: Result<
    (),
    HintError,
>)
    ensures
        r == write_verdict(*old(vm), old(vm).run_context.ap_addr(), value),
        written(*old(vm), *final(vm), old(vm).run_context.ap_addr(), value),
{
    let ap = vm.run_context.get_ap();
    match vm.memory.insert(ap, value) {
        Ok(()) => Ok(()),
        Err(e) => Err(HintError::Memory(e)),
    }
}

} // verus!
