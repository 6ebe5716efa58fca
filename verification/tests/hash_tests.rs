use cairo_vm::felt::Felt252;
use cairo_vm::types::errors::memory_errors::MemoryError;
use cairo_vm::types::relocatable::{MaybeRelocatable, Relocatable};
use cairo_vm::vm::runners::builtin_runner::HashBuiltinRunner;
use cairo_vm::vm::vm_core::VirtualMachine;
use cairo_vm::vm::vm_memory::memory::Memory;

fn felt_str(text: &str) -> Felt252 {
    Felt252::parse_bytes(text.as_bytes(), 10).expect("Couldn't parse bytes")
}

fn memory_from(cells: Vec<((isize, usize), MaybeRelocatable)>) -> Memory {
    let mut memory = Memory::new();
    for (key, value) in cells {
        while memory.data.len() <= key.0 as usize {
            memory.data.push(Vec::new());
        }
        memory.insert(Relocatable::from(key), value).unwrap();
    }
    memory
}

fn felt_cell(value: u64) -> MaybeRelocatable {
    MaybeRelocatable::Int(Felt252::new(value))
}

#[test]
fn deduce_memory_cell_pedersen_for_preset_memory_valid() {
    let memory = memory_from(vec![((0, 3), felt_cell(32)), ((0, 4), felt_cell(72)), ((0, 5), felt_cell(0))]);
    let mut builtin = HashBuiltinRunner::new(8);
    let result = builtin.deduce_memory_cell(&Relocatable::from((0, 5)), &memory);
    assert_eq!(
        result,
        Ok(Some(MaybeRelocatable::from(felt_str(
            "3270867057177188607814717243084834301278723532952411121381966378910183338911"
        ))))
    );
    assert_eq!(builtin.verified_addresses, vec![Relocatable::from((0, 5))]);
}

#[test]
fn deduce_memory_cell_pedersen_for_preset_memory_incorrect_offset() {
    let memory = memory_from(vec![((0, 4), felt_cell(32)), ((0, 5), felt_cell(72)), ((0, 6), felt_cell(0))]);
    let mut builtin = HashBuiltinRunner::new(8);
    let result = builtin.deduce_memory_cell(&Relocatable::from((0, 6)), &memory);
    assert_eq!(result, Ok(None));
}

#[test]
fn deduce_memory_cell_pedersen_for_preset_memory_no_values_to_hash() {
    let memory = memory_from(vec![((0, 4), felt_cell(72)), ((0, 5), felt_cell(0))]);
    let mut builtin = HashBuiltinRunner::new(8);
    let result = builtin.deduce_memory_cell(&Relocatable::from((0, 5)), &memory);
    assert_eq!(result, Ok(None));
}

#[test]
fn deduce_memory_cell_pedersen_for_preset_memory_already_computed() {
    let memory = memory_from(vec![((0, 3), felt_cell(32)), ((0, 4), felt_cell(72)), ((0, 5), felt_cell(0))]);
    let mut builtin = HashBuiltinRunner::new(8);
    builtin.verified_addresses = vec![Relocatable::from((0, 5))];
    let result = builtin.deduce_memory_cell(&Relocatable::from((0, 5)), &memory);
    assert_eq!(result, Ok(None));
}

#[test]
fn deduce_memory_cell_pedersen_twice_gives_the_value_once() {
    let memory = memory_from(vec![((0, 0), felt_cell(32)), ((0, 1), felt_cell(72))]);
    let mut builtin = HashBuiltinRunner::new(8);
    let first = builtin.deduce_memory_cell(&Relocatable::from((0, 2)), &memory);
    assert!(matches!(first, Ok(Some(_))));
    let second = builtin.deduce_memory_cell(&Relocatable::from((0, 2)), &memory);
    assert_eq!(second, Ok(None));
    assert_eq!(builtin.verified_addresses.len(), 1);
}

#[test]
fn hash_get_memory_accesses_missing_segment_used_sizes() {
    let builtin = HashBuiltinRunner::new(256);
    let vm = VirtualMachine::new(false);
    assert_eq!(
        builtin.get_memory_accesses(&vm),
        Err(MemoryError::MissingSegmentUsedSizes),
    );
}

#[test]
fn hash_get_memory_accesses_empty() {
    let builtin = HashBuiltinRunner::new(256);
    let mut vm = VirtualMachine::new(false);
    vm.segments.segment_used_sizes = Some(vec![0]);
    assert_eq!(builtin.get_memory_accesses(&vm), Ok(vec![]));
}

#[test]
fn hash_get_memory_accesses() {
    let builtin = HashBuiltinRunner::new(256);
    let mut vm = VirtualMachine::new(false);
    vm.segments.segment_used_sizes = Some(vec![4]);
    assert_eq!(
        builtin.get_memory_accesses(&vm),
        Ok(vec![
            (builtin.base, 0).into(),
            (builtin.base, 1).into(),
            (builtin.base, 2).into(),
            (builtin.base, 3).into(),
        ]),
    );
}
