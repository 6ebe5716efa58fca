use cairo_vm::felt::Felt252;
use cairo_vm::hint_processor::builtin_hint_processor::ec_recover::{
    ec_recover_divmod_n_packed, ec_recover_sub_a_b,
};
use cairo_vm::hint_processor::builtin_hint_processor::uint384::{
    add_no_uint384_check, uint384_signed_nn, uint384_split_128, uint384_sqrt,
    uint384_unsigned_div_rem, uint384_unsigned_div_rem_expanded,
};
use cairo_vm::types::bignum::BigNum;
use cairo_vm::types::errors::math_errors::MathError;
use cairo_vm::hint_processor::hint_processor_definition::HintReference;
use cairo_vm::serde::deserialize_program::ApTracking;
use cairo_vm::types::errors::memory_errors::MemoryError;
use cairo_vm::types::exec_scope::{ExecutionScopes, ScopeValue};
use cairo_vm::types::relocatable::{MaybeRelocatable, Relocatable};
use cairo_vm::vm::errors::hint_errors::HintError;
use cairo_vm::vm::runners::builtin_runner::{BuiltinRunner, RangeCheckBuiltinRunner};
use cairo_vm::vm::vm_core::VirtualMachine;
use cairo_vm::vm::vm_memory::memory::Memory;

fn felt_str(text: &str) -> Felt252 {
    Felt252::parse_bytes(text.as_bytes(), 10).expect("Couldn't parse bytes")
}

fn felt_str_radix(text: &str, radix: u32) -> Felt252 {
    Felt252::parse_bytes(text.as_bytes(), radix).expect("Couldn't parse bytes")
}

fn memory_from(cells: Vec<((isize, usize), MaybeRelocatable)>) -> Memory {
    let mut memory = Memory::new();
    for (key, value) in cells {
        while memory.data.len() <= key.0 as usize {
            memory.data.push(Vec::new());
        }
        memory.insert(Relocatable::from(key), value).unwrap();
    }
    memory
}

fn check_memory(memory: &Memory, cells: Vec<((isize, usize), MaybeRelocatable)>) {
    for (key, value) in cells {
        assert_eq!(memory.get(&Relocatable::from(key)), Some(value), "at {:?}", key);
    }
}

fn add_segments(vm: &mut VirtualMachine, n: usize) {
    for _ in 0..n {
        vm.segments.add(&mut vm.memory);
    }
}

fn ids_data(names: &[&str]) -> Vec<(String, HintReference)> {
    let n = names.len() as i32;
    names
        .iter()
        .enumerate()
        .map(|(i, name)| (name.to_string(), HintReference::new_simple(i as i32 - n)))
        .collect()
}

fn vm_with_range_check() -> VirtualMachine {
    let mut vm = VirtualMachine::new(false);
    vm.builtin_runners = vec![BuiltinRunner::RangeCheck(RangeCheckBuiltinRunner::new(8, 8))];
    vm
}

fn push_pair<K, T>(list: &mut Vec<(K, T)>, key: K, value: T) {
    list.push((key, value));
}

fn scope(values: Vec<(&str, ScopeValue)>) -> ExecutionScopes {
    let mut scopes = ExecutionScopes::new();
    for (name, value) in values {
        scopes.assign_or_update_variable(name, value);
    }
    scopes
}

#[test]
fn run_unsigned_div_rem_ok() {
        let mut vm = vm_with_range_check();
        //Initialize fp
        vm.run_context.fp = 10;
        //Create hint_data
        let ids_data =
            vec![("a".to_string(), HintReference::new_simple(-9)), ("div".to_string(), HintReference::new_simple(-6)), ("quotient".to_string(), HintReference::new_simple(-3)), ("remainder".to_string(), HintReference::new_simple(0))];
        //Insert ids into memory
        vm.memory = memory_from(vec![((1, 1), MaybeRelocatable::Int(Felt252::new(83434123481193248_i128))), ((1, 2), MaybeRelocatable::Int(Felt252::new(82349321849739284_i128))), ((1, 3), MaybeRelocatable::Int(Felt252::new(839243219401320423_i128))), ((1, 4), MaybeRelocatable::Int(Felt252::new(9283430921839492319493_i128))), ((1, 5), MaybeRelocatable::Int(Felt252::new(313248123482483248_i128))), ((1, 6), MaybeRelocatable::Int(Felt252::new(3790328402913840_i128)))]);
        //Execute the hint
        assert!(matches!(uint384_unsigned_div_rem(&mut vm, &ids_data, &ApTracking::new()), Ok(())));
        //Check hint memory inserts
        check_memory(&vm.memory, vec![((1, 7), MaybeRelocatable::Int(Felt252::new(221))), ((1, 8), MaybeRelocatable::Int(Felt252::new(0))), ((1, 9), MaybeRelocatable::Int(Felt252::new(0)))]);
        assert_eq!(
            vm.memory
                .get_integer(&Relocatable::from((1, 10))).unwrap(), felt_str("340282366920936411825224315027446796751")
        );
        assert_eq!(
            vm.memory
                .get_integer(&Relocatable::from((1, 11))).unwrap(), felt_str("340282366920938463394229121463989152931")
        );
    }

#[test]
fn run_unsigned_div_rem_divide_by_zero() {
        let mut vm = vm_with_range_check();
        //Initialize fp
        vm.run_context.fp = 10;
        //Create hint_data
        let ids_data =
            vec![("a".to_string(), HintReference::new_simple(-9)), ("div".to_string(), HintReference::new_simple(-6)), ("quotient".to_string(), HintReference::new_simple(-3)), ("remainder".to_string(), HintReference::new_simple(0))];
        //Insert ids into memory
        vm.memory = memory_from(vec![((1, 1), MaybeRelocatable::Int(Felt252::new(83434123481193248_i128))), ((1, 2), MaybeRelocatable::Int(Felt252::new(82349321849739284_i128))), ((1, 3), MaybeRelocatable::Int(Felt252::new(839243219401320423_i128))), ((1, 4), MaybeRelocatable::Int(Felt252::new(0))), ((1, 5), MaybeRelocatable::Int(Felt252::new(0))), ((1, 6), MaybeRelocatable::Int(Felt252::new(0)))]);
        //Execute the hint
        assert!(matches!(uint384_unsigned_div_rem(&mut vm, &ids_data, &ApTracking::new()), Err(HintError::Math(MathError::DividedByZero))));
    }

#[test]
fn run_unsigned_div_rem_invalid_memory_insert() {
        let mut vm = vm_with_range_check();
        //Initialize fp
        vm.run_context.fp = 10;
        //Create hint_data
        let ids_data =
            vec![("a".to_string(), HintReference::new_simple(-9)), ("div".to_string(), HintReference::new_simple(-6)), ("quotient".to_string(), HintReference::new_simple(-3)), ("remainder".to_string(), HintReference::new_simple(0))];
        //Insert ids into memory
        vm.memory = memory_from(vec![((1, 1), MaybeRelocatable::Int(Felt252::new(83434123481193248_i128))), ((1, 2), MaybeRelocatable::Int(Felt252::new(82349321849739284_i128))), ((1, 3), MaybeRelocatable::Int(Felt252::new(839243219401320423_i128))), ((1, 4), MaybeRelocatable::Int(Felt252::new(9283430921839492319493_i128))), ((1, 5), MaybeRelocatable::Int(Felt252::new(313248123482483248_i128))), ((1, 6), MaybeRelocatable::Int(Felt252::new(3790328402913840_i128))), ((1, 7), MaybeRelocatable::Int(Felt252::new(2)))]);
        //Execute the hint
        assert!(matches!(uint384_unsigned_div_rem(&mut vm, &ids_data, &ApTracking::new()), Err(HintError::Memory(
                MemoryError::InconsistentMemory(
                    x,
                    y,
                    z,
                )
            )) if x == Relocatable::from((1, 7)) &&
                    y == MaybeRelocatable::from(Felt252::new(2)) &&
                    z == MaybeRelocatable::from(Felt252::new(221))));
    }

#[test]
fn run_split_128_ok() {
        let mut vm = vm_with_range_check();
        //Initialize fp
        vm.run_context.fp = 3;
        //Create hint_data
        let ids_data = ids_data(&["a", "low", "high"]);
        //Insert ids into memory
        vm.memory = memory_from(vec![((1, 0), MaybeRelocatable::Int(Felt252::new(34895349583295832495320945304_i128)))]);
        //Execute the hint
        assert!(matches!(uint384_split_128(&mut vm, &ids_data, &ApTracking::new()), Ok(())));
        //Check hint memory inserts
        check_memory(&vm.memory, vec![((1, 1), MaybeRelocatable::Int(Felt252::new(34895349583295832495320945304_i128))), ((1, 2), MaybeRelocatable::Int(Felt252::new(0)))]);
    }

#[test]
fn run_split_128_ok_big_number() {
        let mut vm = vm_with_range_check();
        //Initialize fp
        vm.run_context.fp = 3;
        //Create hint_data
        let ids_data = ids_data(&["a", "low", "high"]);
        //Insert ids into memory
        vm.segments.add(&mut vm.memory);
        vm.segments.add(&mut vm.memory);
        vm.memory
            .insert(Relocatable::from((1, 0)), MaybeRelocatable::Int(Felt252::from(u128::MAX) * Felt252::from(20_u32)))
            .unwrap();
        //Execute the hint
        assert!(matches!(uint384_split_128(&mut vm, &ids_data, &ApTracking::new()), Ok(())));
        //Check hint memory inserts
        check_memory(&vm.memory, vec![((1, 2), MaybeRelocatable::Int(Felt252::new(19)))]);
        assert_eq!(
            vm.memory
                .get_integer(&Relocatable::from((1, 1))).unwrap(), felt_str("340282366920938463463374607431768211436")
        );
    }

#[test]
fn run_split_128_invalid_memory_insert() {
        let mut vm = vm_with_range_check();
        //Initialize fp
        vm.run_context.fp = 3;
        //Create hint_data
        let ids_data = ids_data(&["a", "low", "high"]);
        //Insert ids into memory
        vm.memory = memory_from(vec![((1, 0), MaybeRelocatable::Int(Felt252::new(34895349583295832495320945304_i128))), ((1, 1), MaybeRelocatable::Int(Felt252::new(2)))]);
        //Execute the hint
        assert!(matches!(uint384_split_128(&mut vm, &ids_data, &ApTracking::new()), Err(HintError::Memory(
                MemoryError::InconsistentMemory(
                    x,
                    y,
                    z,
                )
            )) if x == Relocatable::from((1, 1)) &&
                    y == MaybeRelocatable::from(Felt252::new(2)) &&
                    z == MaybeRelocatable::from(Felt252::new(34895349583295832495320945304_i128))));
    }

#[test]
fn run_add_no_check_ok() {
        let mut vm = vm_with_range_check();
        //Initialize fp
        vm.run_context.fp = 10;
        //Create hint_data
        let ids_data = vec![("a".to_string(), HintReference::new_simple(-10)), ("b".to_string(), HintReference::new_simple(-7)), ("carry_d0".to_string(), HintReference::new_simple(-4)), ("carry_d1".to_string(), HintReference::new_simple(-3)), ("carry_d2".to_string(), HintReference::new_simple(-2))];
        //Insert ids into memory
        vm.memory = memory_from(vec![((1, 0), MaybeRelocatable::Int(Felt252::new(3789423292314891293_i128))), ((1, 1), MaybeRelocatable::Int(Felt252::new(21894))), ((1, 2), MaybeRelocatable::Int(Felt252::new(340282366920938463463374607431768211455_u128))), ((1, 3), MaybeRelocatable::Int(Felt252::new(32838232))), ((1, 4), MaybeRelocatable::Int(Felt252::new(17))), ((1, 5), MaybeRelocatable::Int(Felt252::new(8)))]);
        //Execute the hint
        assert!(matches!(add_no_uint384_check(&mut vm, &ids_data, &ApTracking::new(), &[("path.path.path.SHIFT", Felt252::one().shl(128))]
                    .into_iter()
                    .map(|(k, v)| (k.to_string(), v))
                    .collect()), Ok(())));
        //Check hint memory inserts
        check_memory(&vm.memory, vec![((1, 6), MaybeRelocatable::Int(Felt252::new(0))), ((1, 7), MaybeRelocatable::Int(Felt252::new(0))), ((1, 8), MaybeRelocatable::Int(Felt252::new(1)))]);
    }

#[test]
fn run_add_no_check_missing_constant() {
        let mut vm = vm_with_range_check();
        //Initialize fp
        vm.run_context.fp = 10;
        //Create hint_data
        let ids_data = vec![("a".to_string(), HintReference::new_simple(-10)), ("b".to_string(), HintReference::new_simple(-7)), ("carry_d0".to_string(), HintReference::new_simple(-3)), ("carry_d1".to_string(), HintReference::new_simple(-2)), ("carry_d2".to_string(), HintReference::new_simple(-1))];
        //Insert ids into memory
        vm.memory = memory_from(vec![((1, 0), MaybeRelocatable::Int(Felt252::new(3789423292314891293_i128))), ((1, 1), MaybeRelocatable::Int(Felt252::new(21894))), ((1, 2), MaybeRelocatable::Int(Felt252::new(340282366920938463463374607431768211455_u128))), ((1, 3), MaybeRelocatable::Int(Felt252::new(32838232))), ((1, 4), MaybeRelocatable::Int(Felt252::new(17))), ((1, 5), MaybeRelocatable::Int(Felt252::new(8)))]);
        //Execute the hint
        assert!(matches!(add_no_uint384_check(&mut vm, &ids_data, &ApTracking::new(), &Vec::new()), Err(HintError::MissingConstant(s)) if s == "SHIFT"));
    }

#[test]
fn run_unsigned_div_rem_expand_ok() {
        let mut vm = vm_with_range_check();
        //Initialize fp
        vm.run_context.fp = 13;
        //Create hint_data
        let ids_data =
            vec![("a".to_string(), HintReference::new_simple(-13)), ("div".to_string(), HintReference::new_simple(-10)), ("quotient".to_string(), HintReference::new_simple(-3)), ("remainder".to_string(), HintReference::new_simple(0))];
        //Insert ids into memory
        vm.memory = memory_from(vec![((1, 0), MaybeRelocatable::Int(Felt252::new(83434123481193248_i128))), ((1, 1), MaybeRelocatable::Int(Felt252::new(82349321849739284_i128))), ((1, 2), MaybeRelocatable::Int(Felt252::new(839243219401320423_i128))), ((1, 3), MaybeRelocatable::Int(Felt252::new(9283430921839492319493_i128))), ((1, 4), MaybeRelocatable::Int(Felt252::new(313248123482483248_i128))), ((1, 5), MaybeRelocatable::Int(Felt252::new(3790328402913840_i128))), ((1, 6), MaybeRelocatable::Int(Felt252::new(13))), ((1, 7), MaybeRelocatable::Int(Felt252::new(78990))), ((1, 8), MaybeRelocatable::Int(Felt252::new(109))), ((1, 9), MaybeRelocatable::Int(Felt252::new(7)))]);
        //Execute the hint
        assert!(matches!(uint384_unsigned_div_rem_expanded(&mut vm, &ids_data, &ApTracking::new()), Ok(())));
        //Check hint memory inserts
        check_memory(&vm.memory, vec![((1, 10), MaybeRelocatable::Int(Felt252::new(7699479077076334_i128))), ((1, 11), MaybeRelocatable::Int(Felt252::new(0))), ((1, 12), MaybeRelocatable::Int(Felt252::new(0)))]);
        assert_eq!(
            vm.memory
                .get_integer(&Relocatable::from((1, 13))).unwrap(), felt_str("340279955073565776659831804641277151872")
        );
        assert_eq!(
            vm.memory
                .get_integer(&Relocatable::from((1, 14))).unwrap(), felt_str("340282366920938463463356863525615958397")
        );
    }

#[test]
fn run_unsigned_div_rem_expand_divide_by_zero() {
        let mut vm = vm_with_range_check();
        //Initialize fp
        vm.run_context.fp = 13;
        //Create hint_data
        let ids_data =
            vec![("a".to_string(), HintReference::new_simple(-13)), ("div".to_string(), HintReference::new_simple(-10)), ("quotient".to_string(), HintReference::new_simple(-3)), ("remainder".to_string(), HintReference::new_simple(0))];
        //Insert ids into memory
        vm.memory = memory_from(vec![((1, 0), MaybeRelocatable::Int(Felt252::new(83434123481193248_i128))), ((1, 1), MaybeRelocatable::Int(Felt252::new(82349321849739284_i128))), ((1, 2), MaybeRelocatable::Int(Felt252::new(839243219401320423_i128))), ((1, 3), MaybeRelocatable::Int(Felt252::new(0))), ((1, 4), MaybeRelocatable::Int(Felt252::new(0))), ((1, 5), MaybeRelocatable::Int(Felt252::new(0))), ((1, 6), MaybeRelocatable::Int(Felt252::new(0))), ((1, 7), MaybeRelocatable::Int(Felt252::new(0))), ((1, 8), MaybeRelocatable::Int(Felt252::new(0))), ((1, 9), MaybeRelocatable::Int(Felt252::new(0)))]);
        //Execute the hint
        assert!(matches!(uint384_unsigned_div_rem_expanded(&mut vm, &ids_data, &ApTracking::new()), Err(HintError::Math(MathError::DividedByZero))));
    }

#[test]
fn run_sqrt_ok() {
        let mut vm = vm_with_range_check();
        //Initialize fp
        vm.run_context.fp = 5;
        //Create hint_data
        let ids_data = vec![("a".to_string(), HintReference::new_simple(-5)), ("root".to_string(), HintReference::new_simple(-2))];
        //Insert ids into memory
        vm.memory = memory_from(vec![((1, 0), MaybeRelocatable::Int(Felt252::new(83434123481193248_i128))), ((1, 1), MaybeRelocatable::Int(Felt252::new(82349321849739284_i128))), ((1, 2), MaybeRelocatable::Int(Felt252::new(839243219401320423_i128)))]);
        //Execute the hint
        assert!(matches!(uint384_sqrt(&mut vm, &ids_data, &ApTracking::new()), Ok(())));
        //Check hint memory inserts
        check_memory(&vm.memory, vec![((1, 3), MaybeRelocatable::Int(Felt252::new(100835122758113432298839930225328621183_i128))), ((1, 4), MaybeRelocatable::Int(Felt252::new(916102188))), ((1, 5), MaybeRelocatable::Int(Felt252::new(0)))]);
    }

#[test]
fn run_sqrt_assertion_fail() {
        let mut vm = vm_with_range_check();
        //Initialize fp
        vm.run_context.fp = 5;
        //Create hint_data
        let ids_data = vec![("a".to_string(), HintReference::new_simple(-5)), ("root".to_string(), HintReference::new_simple(-2))];
        //Insert ids into memory
        //Insert ids into memory
        vm.memory = memory_from(vec![((1, 0), MaybeRelocatable::Int(Felt252::new(-1))), ((1, 1), MaybeRelocatable::Int(Felt252::new(-1))), ((1, 2), MaybeRelocatable::Int(Felt252::new(-1)))]);
        //Execute the hint
        assert!(matches!(uint384_sqrt(&mut vm, &ids_data, &ApTracking::new()), Err(HintError::AssertionFailed(s)) if s == "assert 0 <= root < 2 ** 192"));
    }

#[test]
fn run_signed_nn_ok_positive() {
        let mut vm = vm_with_range_check();
        //Initialize fp
        vm.run_context.fp = 3;
        //Create hint_data
        let ids_data = vec![("a".to_string(), HintReference::new_simple(-2))];
        //Insert ids into memory
        vm.memory = memory_from(vec![((1, 3), MaybeRelocatable::Int(Felt252::new(1)))]);
        //Execute the hint
        assert!(uint384_signed_nn(&mut vm, &ids_data, &ApTracking::new()).is_ok());
        //Check hint memory inserts
        check_memory(&vm.memory, vec![((1, 0), MaybeRelocatable::Int(Felt252::new(1)))]);
    }

#[test]
fn run_signed_nn_missing_identifier() {
        let mut vm = vm_with_range_check();
        //Initialize fp
        vm.run_context.fp = 3;
        //Create hint_data
        let ids_data = vec![("a".to_string(), HintReference::new_simple(-2))];
        //Insert ids into memory
        vm.memory = memory_from(vec![((1, 1), MaybeRelocatable::Int(Felt252::new(1))), ((1, 2), MaybeRelocatable::Int(Felt252::new(1)))]);
        //Execute the hint
        assert!(matches!(uint384_signed_nn(&mut vm, &ids_data, &ApTracking::new()), Err(HintError::IdentifierHasNoMember(s1, s2)) if s1 == "a" && s2 == "d2"));
    }

#[test]
fn run_signed_nn_ok_negative() {
        let mut vm = vm_with_range_check();
        //Initialize fp
        vm.run_context.fp = 3;
        //Create hint_data
        let ids_data = vec![("a".to_string(), HintReference::new_simple(-2))];
        //Insert ids into memory
        vm.memory = memory_from(vec![((1, 3), MaybeRelocatable::Int(Felt252::new(170141183460469231731687303715884105729_u128)))]);
        //Execute the hint
        assert!(uint384_signed_nn(&mut vm, &ids_data, &ApTracking::new()).is_ok());
        //Check hint memory inserts
        check_memory(&vm.memory, vec![((1, 0), MaybeRelocatable::Int(Felt252::new(0)))]);
    }

#[test]
fn run_ec_recover_divmod_n_packed_ok() {
        let mut vm = VirtualMachine::new(false);
        let mut exec_scopes = ExecutionScopes::new();

        vm.run_context.fp = 8;
        let ids_data = vec![("n".to_string(), HintReference::new_simple(-8)), ("x".to_string(), HintReference::new_simple(-5)), ("s".to_string(), HintReference::new_simple(-2))];

        vm.memory = memory_from(vec![((1, 0), MaybeRelocatable::Int(Felt252::new(177))), ((1, 1), MaybeRelocatable::Int(Felt252::new(0))), ((1, 2), MaybeRelocatable::Int(Felt252::new(0))), ((1, 3), MaybeRelocatable::Int(Felt252::new(25))), ((1, 4), MaybeRelocatable::Int(Felt252::new(0))), ((1, 5), MaybeRelocatable::Int(Felt252::new(0))), ((1, 6), MaybeRelocatable::Int(Felt252::new(5))), ((1, 7), MaybeRelocatable::Int(Felt252::new(0))), ((1, 8), MaybeRelocatable::Int(Felt252::new(0)))]);

        assert!(ec_recover_divmod_n_packed(&mut vm, &mut exec_scopes, &ids_data, &ApTracking::new())
        .is_ok());

        { assert!(exec_scopes.get_bignum("value").unwrap().same(&BigNum::from_i128(5))); assert!(exec_scopes.get_bignum("res").unwrap().same(&BigNum::from_i128(5))); };
    }

#[test]
fn run_ec_recover_sub_a_b_ok() {
        let mut vm = VirtualMachine::new(false);
        let mut exec_scopes = ExecutionScopes::new();

        vm.run_context.fp = 8;
        let ids_data = vec![("a".to_string(), HintReference::new_simple(-8)), ("b".to_string(), HintReference::new_simple(-5))];

        vm.memory = memory_from(vec![((1, 0), MaybeRelocatable::Int(Felt252::new(100))), ((1, 1), MaybeRelocatable::Int(Felt252::new(0))), ((1, 2), MaybeRelocatable::Int(Felt252::new(0))), ((1, 3), MaybeRelocatable::Int(Felt252::new(25))), ((1, 4), MaybeRelocatable::Int(Felt252::new(0))), ((1, 5), MaybeRelocatable::Int(Felt252::new(0)))]);

        assert!(ec_recover_sub_a_b(&mut vm, &mut exec_scopes, &ids_data, &ApTracking::new())
        .is_ok());

        { assert!(exec_scopes.get_bignum("value").unwrap().same(&BigNum::from_i128(75))); assert!(exec_scopes.get_bignum("res").unwrap().same(&BigNum::from_i128(75))); };
    }
