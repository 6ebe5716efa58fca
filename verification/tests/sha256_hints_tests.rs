use cairo_vm::felt::Felt252;
use cairo_vm::hint_processor::builtin_hint_processor::math_utils::is_quad_residue;
use cairo_vm::hint_processor::builtin_hint_processor::sha256_utils::{
    sha256_finalize, sha256_input, sha256_main,
};
use cairo_vm::hint_processor::hint_processor_definition::HintReference;
use cairo_vm::serde::deserialize_program::ApTracking;
use cairo_vm::types::exec_scope::{ExecutionScopes, ScopeValue};
use cairo_vm::types::relocatable::{MaybeRelocatable, Relocatable};
use cairo_vm::vm::runners::builtin_runner::{BuiltinRunner, RangeCheckBuiltinRunner};
use cairo_vm::vm::vm_core::VirtualMachine;
use cairo_vm::vm::vm_memory::memory::Memory;

fn felt_str(text: &str) -> Felt252 {
    Felt252::parse_bytes(text.as_bytes(), 10).expect("Couldn't parse bytes")
}

fn felt_str_radix(text: &str, radix: u32) -> Felt252 {
    Felt252::parse_bytes(text.as_bytes(), radix).expect("Couldn't parse bytes")
}

fn memory_from(cells: Vec<((isize, usize), MaybeRelocatable)>) -> Memory {
    let mut memory = Memory::new();
    for (key, value) in cells {
        while memory.data.len() <= key.0 as usize {
            memory.data.push(Vec::new());
        }
        memory.insert(Relocatable::from(key), value).unwrap();
    }
    memory
}

fn check_memory(memory: &Memory, cells: Vec<((isize, usize), MaybeRelocatable)>) {
    for (key, value) in cells {
        assert_eq!(memory.get(&Relocatable::from(key)), Some(value), "at {:?}", key);
    }
}

fn add_segments(vm: &mut VirtualMachine, n: usize) {
    for _ in 0..n {
        vm.segments.add(&mut vm.memory);
    }
}

fn ids_data(names: &[&str]) -> Vec<(String, HintReference)> {
    let n = names.len() as i32;
    names
        .iter()
        .enumerate()
        .map(|(i, name)| (name.to_string(), HintReference::new_simple(i as i32 - n)))
        .collect()
}

fn vm_with_range_check() -> VirtualMachine {
    let mut vm = VirtualMachine::new(false);
    vm.builtin_runners = vec![BuiltinRunner::RangeCheck(RangeCheckBuiltinRunner::new(8, 8))];
    vm
}

fn push_pair<K, T>(list: &mut Vec<(K, T)>, key: K, value: T) {
    list.push((key, value));
}

fn scope(values: Vec<(&str, ScopeValue)>) -> ExecutionScopes {
    let mut scopes = ExecutionScopes::new();
    for (name, value) in values {
        scopes.assign_or_update_variable(name, value);
    }
    scopes
}

#[test]
fn sha256_input_one() {
        let mut vm = vm_with_range_check();
        vm.memory = memory_from(vec![((1, 1), MaybeRelocatable::Int(Felt252::new(7)))]);
        vm.run_context.fp = 2;
        let ids_data = ids_data(&["full_word", "n_bytes"]);
        assert!(matches!(sha256_input(&mut vm, &ids_data, &ApTracking::new()), Ok(())));

        check_memory(&vm.memory, vec![((1, 0), MaybeRelocatable::Int(Felt252::new(1)))]);
    }

#[test]
fn sha256_input_zero() {
        let mut vm = vm_with_range_check();
        vm.memory = memory_from(vec![((1, 1), MaybeRelocatable::Int(Felt252::new(3)))]);
        vm.run_context.fp = 2;
        let ids_data = ids_data(&["full_word", "n_bytes"]);
        assert!(matches!(sha256_input(&mut vm, &ids_data, &ApTracking::new()), Ok(())));

        check_memory(&vm.memory, vec![((1, 0), MaybeRelocatable::Int(Felt252::new(0)))]);
    }

#[test]
fn sha256_ok() {
        let mut vm = vm_with_range_check();

        vm.memory = memory_from(vec![((1, 0), MaybeRelocatable::from((2, 0))), ((1, 1), MaybeRelocatable::from((3, 0))), ((2, 0), MaybeRelocatable::Int(Felt252::new(22))), ((2, 1), MaybeRelocatable::Int(Felt252::new(22))), ((2, 2), MaybeRelocatable::Int(Felt252::new(22))), ((2, 3), MaybeRelocatable::Int(Felt252::new(22))), ((2, 4), MaybeRelocatable::Int(Felt252::new(22))), ((2, 5), MaybeRelocatable::Int(Felt252::new(22))), ((2, 6), MaybeRelocatable::Int(Felt252::new(22))), ((2, 7), MaybeRelocatable::Int(Felt252::new(22))), ((2, 8), MaybeRelocatable::Int(Felt252::new(22))), ((2, 9), MaybeRelocatable::Int(Felt252::new(22))), ((2, 10), MaybeRelocatable::Int(Felt252::new(22))), ((2, 11), MaybeRelocatable::Int(Felt252::new(22))), ((2, 12), MaybeRelocatable::Int(Felt252::new(22))), ((2, 13), MaybeRelocatable::Int(Felt252::new(22))), ((2, 14), MaybeRelocatable::Int(Felt252::new(22))), ((2, 15), MaybeRelocatable::Int(Felt252::new(22))), ((3, 9), MaybeRelocatable::Int(Felt252::new(0)))]);
        vm.run_context.fp = 2;
        let ids_data = ids_data(&["sha256_start", "output"]);
        assert!(matches!(sha256_main(&mut vm, &ids_data, &ApTracking::new()), Ok(())));

        check_memory(&vm.memory, vec![((3, 0), MaybeRelocatable::Int(Felt252::new(3704205499_u32))), ((3, 1), MaybeRelocatable::Int(Felt252::new(2308112482_u32))), ((3, 2), MaybeRelocatable::Int(Felt252::new(3022351583_u32))), ((3, 3), MaybeRelocatable::Int(Felt252::new(174314172_u32))), ((3, 4), MaybeRelocatable::Int(Felt252::new(1762869695_u32))), ((3, 5), MaybeRelocatable::Int(Felt252::new(1649521060_u32))), ((3, 6), MaybeRelocatable::Int(Felt252::new(2811202336_u32))), ((3, 7), MaybeRelocatable::Int(Felt252::new(4231099170_u32)))]);
    }

#[test]
fn sha256_finalize_writes_the_padding() {
    let mut vm = VirtualMachine::new(false);
    vm.memory = memory_from(vec![((1, 0), MaybeRelocatable::from((2, 0)))]);
    add_segments(&mut vm, 1);
    vm.run_context.fp = 1;
    let ids_data = ids_data(&["sha256_ptr_end"]);
    assert!(matches!(sha256_finalize(&mut vm, &ids_data, &ApTracking::new()), Ok(())));
    // six rounds of sixteen zeros, the initial state and the state after a block of zeros
    assert_eq!(vm.memory.data[2].len(), 6 * 32);
    check_memory(
        &vm.memory,
        vec![
            ((2, 0), MaybeRelocatable::Int(Felt252::new(0))),
            ((2, 16), MaybeRelocatable::Int(Felt252::new(0x6A09E667_u32))),
            ((2, 23), MaybeRelocatable::Int(Felt252::new(0x5BE0CD19_u32))),
            ((2, 24), MaybeRelocatable::Int(Felt252::new(3663108286_u32))),
            ((2, 31), MaybeRelocatable::Int(Felt252::new(0x1837a9d8_u32))),
            ((2, 32 + 16), MaybeRelocatable::Int(Felt252::new(0x6A09E667_u32))),
        ],
    );
}

fn quad_residue_case(x: Felt252) {
    let mut vm = vm_with_range_check();
    vm.memory = memory_from(vec![((1, 0), MaybeRelocatable::Int(x))]);
    vm.run_context.fp = 2;
    let ids_data = ids_data(&["x", "y"]);
    assert!(matches!(is_quad_residue(&mut vm, &ids_data, &ApTracking::new()), Ok(())));
    let y = vm.memory.get_integer(&Relocatable::from((1, 1))).unwrap();
    if x.is_zero() || x.is_one() {
        assert_eq!(y, x);
    } else if x.pow_felt(&Felt252::max_value().shr(1)).is_one() {
        assert_eq!(y * y, x);
    } else {
        assert_eq!(y * y * Felt252::new(3), x);
    }
}

#[test]
fn run_is_quad_residue() {
    for text in ["0", "1", "4", "5", "2", "3", "123456789123456789123456789", "99999999999999999999999"] {
        quad_residue_case(felt_str(text));
    }
}
