use cairo_vm::felt::Felt252;
use cairo_vm::hint_processor::builtin_hint_processor::math_utils::{find_quad_root, write_arcs};
use cairo_vm::math_utils::{div_ceil_usize, ec_add, ec_double, safe_div_usize, sqrt};
use cairo_vm::types::bignum::BigNum;
use cairo_vm::types::errors::math_errors::MathError;
use cairo_vm::types::exec_scope::{ExecutionScopes, ScopeValue};
use cairo_vm::types::errors::memory_errors::MemoryError;
use cairo_vm::types::relocatable::{MaybeRelocatable, Relocatable};
use cairo_vm::vm::errors::hint_errors::HintError;
use cairo_vm::vm::errors::runner_errors::RunnerError;
use cairo_vm::vm::runners::builtin_runner::{
    BitwiseBuiltinRunner, BuiltinRunner, OutputBuiltinRunner,
};
use cairo_vm::vm::vm_core::VirtualMachine;
use cairo_vm::vm::vm_memory::memory::Memory;

fn felt_str(text: &str) -> Felt252 {
    Felt252::parse_bytes(text.as_bytes(), 10).expect("a decimal number")
}

fn point(x: &str, y: &str) -> (Felt252, Felt252) {
    (felt_str(x), felt_str(y))
}

const PX: &str = "2962412995502985605007699495352191122971573493113767820301112397466445942584";
const PY: &str = "214950771763870898744428659242275426967582168179217139798831865603966154129";
const QX: &str = "874739451078007766457464989774322083649278607533249481151382481072868806602";
const QY: &str = "152666792071518830868575557812948353041420400780739481342941381225525861407";

#[test]
fn exact_division_of_machine_integers() {
    assert_eq!(safe_div_usize(26, 13), Ok(2));
    assert_eq!(safe_div_usize(0, 13), Ok(0));
    assert_eq!(safe_div_usize(25, 4), Err(MathError::SafeDivFailUsize(25, 4)));
    assert_eq!(safe_div_usize(25, 0), Err(MathError::DividedByZero));
    assert_eq!(div_ceil_usize(25, 4), 7);
    assert_eq!(div_ceil_usize(24, 4), 6);
    assert_eq!(div_ceil_usize(0, 4), 0);
    assert_eq!(div_ceil_usize(usize::MAX, 1), usize::MAX);
    assert_eq!(div_ceil_usize(usize::MAX, 2), usize::MAX / 2 + 1);
}

#[test]
fn sum_of_two_points() {
    let sum = ec_add(&point(PX, PY), &point(QX, QY));
    assert_eq!(
        sum,
        Ok(point(
            "2560244282646408983542636924622498568297817976984302568174268177247627220900",
            "1953920282798264903374921629826896621772963845696406305734323863516759859513"
        ))
    );
    // the same in the other order
    assert_eq!(ec_add(&point(QX, QY), &point(PX, PY)), sum);
}

#[test]
fn sum_of_points_with_one_abscissa() {
    assert_eq!(ec_add(&point(PX, PY), &point(PX, QY)), Err(MathError::DividedByZero));
    assert_eq!(ec_add(&point(PX, PY), &point(PX, PY)), Err(MathError::DividedByZero));
}

#[test]
fn double_of_a_point() {
    assert_eq!(
        ec_double(&point(QX, QY), &Felt252::new(1)),
        Ok(point(
            "3324833730090626974525872402899302150520188025637965566623476530814354734325",
            "3147007486456030910661996439995670279305852583596209647900952752170983517249"
        ))
    );
    assert_eq!(
        ec_double(&(felt_str(QX), Felt252::zero()), &Felt252::new(1)),
        Err(MathError::DividedByZero)
    );
}

#[test]
fn square_roots_in_the_field() {
    assert_eq!(sqrt(&Felt252::new(0)), Some(Felt252::new(0)));
    assert_eq!(sqrt(&Felt252::new(1)), Some(Felt252::new(1)));
    assert_eq!(sqrt(&Felt252::new(4)), Some(Felt252::new(2)));
    assert_eq!(sqrt(&Felt252::new(9)), Some(Felt252::new(3)));
    assert_eq!(sqrt(&Felt252::new(25)), Some(Felt252::new(5)));
    assert_eq!(
        sqrt(&Felt252::new(2)),
        Some(felt_str("1120755473020101814179135767224264702961552391386192943129361948990833801454"))
    );
    assert_eq!(
        sqrt(&Felt252::new(5)),
        Some(felt_str("703125680814918687568381966029303999302590701505467922907419583337579557417"))
    );
    assert_eq!(
        sqrt(&Felt252::new(7)),
        Some(felt_str("209880913220488156313834499058596184255382000503803956865172539718143124843"))
    );
    // three has no square root in the field
    assert_eq!(sqrt(&Felt252::new(3)), None);
    let root = sqrt(&Felt252::new(-1)).unwrap();
    assert_eq!(root * root, Felt252::new(-1));
    assert!(root <= -root);
}

#[test]
fn scopes_of_the_hints() {
    let mut scopes = ExecutionScopes::new();
    assert_eq!(scopes.data.len(), 1);
    assert_eq!(scopes.get("a"), Err(HintError::VariableNotInScopeError(String::from("a"))));
    scopes.insert_value("a", ScopeValue::Felt(Felt252::new(1)));
    scopes.insert_value("n", ScopeValue::U64(7));
    assert_eq!(scopes.get("a"), Ok(Felt252::new(1)));
    assert_eq!(scopes.get_any("n"), Ok(&ScopeValue::U64(7)));
    assert_eq!(scopes.get("n"), Err(HintError::VariableNotInScopeError(String::from("n"))));
    scopes.assign_or_update_variable("a", ScopeValue::Felt(Felt252::new(2)));
    assert_eq!(scopes.get("a"), Ok(Felt252::new(2)));
    scopes.enter_scope(vec![(String::from("b"), ScopeValue::BigInt(BigNum::from_i128(-3)))]);
    assert_eq!(scopes.data.len(), 2);
    assert!(scopes.get_bignum("b").unwrap().same(&BigNum::from_i128(-3)));
    // names are looked up in the innermost scope only
    assert_eq!(scopes.get("a"), Err(HintError::VariableNotInScopeError(String::from("a"))));
    assert_eq!(
        scopes.get_bignum("a").err(),
        Some(HintError::VariableNotInScopeError(String::from("a")))
    );
    assert_eq!(scopes.exit_scope(), Ok(()));
    assert_eq!(scopes.get("a"), Ok(Felt252::new(2)));
    assert_eq!(scopes.get_any("b").err(), Some(HintError::VariableNotInScopeError(String::from("b"))));
    // the main scope stays
    assert_eq!(scopes.exit_scope(), Err(HintError::FromScopeError));
    assert_eq!(scopes.data.len(), 1);
}

fn num(value: i128) -> MaybeRelocatable {
    MaybeRelocatable::Int(Felt252::new(value))
}

fn memory_from(cells: Vec<((isize, usize), MaybeRelocatable)>) -> Memory {
    let mut memory = Memory::new();
    for (key, value) in cells {
        while memory.data.len() <= key.0 as usize {
            memory.data.push(Vec::new());
        }
        memory.insert(Relocatable::from(key), value).unwrap();
    }
    memory
}

#[test]
fn bitwise_builtin_deduces_and_xor_or() {
    let builtin = BitwiseBuiltinRunner::new(256, true);
    let memory = memory_from(vec![((0, 5), num(10)), ((0, 6), num(12))]);
    assert_eq!(builtin.deduce_memory_cell(&Relocatable::from((0, 7)), &memory), Ok(Some(num(8))));
    assert_eq!(builtin.deduce_memory_cell(&Relocatable::from((0, 8)), &memory), Ok(Some(num(6))));
    assert_eq!(builtin.deduce_memory_cell(&Relocatable::from((0, 9)), &memory), Ok(Some(num(14))));
    // the inputs are not deduced
    assert_eq!(builtin.deduce_memory_cell(&Relocatable::from((0, 5)), &memory), Ok(None));
    assert_eq!(builtin.deduce_memory_cell(&Relocatable::from((0, 6)), &memory), Ok(None));
    // nor an instance without inputs
    assert_eq!(builtin.deduce_memory_cell(&Relocatable::from((0, 2)), &memory), Ok(None));
}

#[test]
fn bitwise_builtin_waits_for_its_inputs() {
    let builtin = BitwiseBuiltinRunner::new(256, true);
    let memory = memory_from(vec![((0, 0), num(10))]);
    assert_eq!(builtin.deduce_memory_cell(&Relocatable::from((0, 2)), &memory), Ok(None));
    let memory = memory_from(vec![((0, 1), num(10))]);
    assert_eq!(builtin.deduce_memory_cell(&Relocatable::from((0, 3)), &memory), Ok(None));
    let memory = memory_from(vec![((0, 0), num(10)), ((0, 1), MaybeRelocatable::from((0, 0)))]);
    assert_eq!(builtin.deduce_memory_cell(&Relocatable::from((0, 4)), &memory), Ok(None));
}

#[test]
fn bitwise_builtin_refuses_wide_inputs() {
    let builtin = BitwiseBuiltinRunner::new(256, true);
    let wide = Felt252::new(1) << 251_u32;
    let memory = memory_from(vec![((0, 0), num(10)), ((0, 1), MaybeRelocatable::Int(wide))]);
    assert_eq!(
        builtin.deduce_memory_cell(&Relocatable::from((0, 2)), &memory),
        Err(RunnerError::IntegerBiggerThanPowerOfTwo(MaybeRelocatable::from((0, 1)), 251, wide))
    );
    let widest = (Felt252::new(1) << 251_u32) - Felt252::new(1);
    let memory = memory_from(vec![((0, 0), MaybeRelocatable::Int(widest)), ((0, 1), num(0))]);
    assert_eq!(
        builtin.deduce_memory_cell(&Relocatable::from((0, 4)), &memory),
        Ok(Some(MaybeRelocatable::Int(widest)))
    );
}

#[test]
fn builtins_by_kind() {
    let mut vm = VirtualMachine::new(false);
    let mut output = BuiltinRunner::Output(OutputBuiltinRunner::new(true));
    let mut bitwise = BuiltinRunner::Bitwise(BitwiseBuiltinRunner::new(256, false));
    output.initialize_segments(&mut vm.segments, &mut vm.memory);
    bitwise.initialize_segments(&mut vm.segments, &mut vm.memory);
    assert_eq!(output.base(), 0);
    assert_eq!(bitwise.base(), 1);
    assert_eq!(output.name(), "output");
    assert_eq!(bitwise.name(), "bitwise");
    assert_eq!(output.initial_stack(), vec![MaybeRelocatable::from((0, 0))]);
    assert_eq!(bitwise.initial_stack(), Vec::new());
    assert!(output.is_well_formed());
    assert!(bitwise.is_well_formed());
    assert_eq!(output.add_validation_rule(&mut vm.memory), Ok(()));
    assert!(vm.memory.validation_rules.iter().all(|rule| rule.is_none()));
    assert_eq!(output.get_used_cells(&vm.segments), Err(MemoryError::MissingSegmentUsedSizes));
    vm.memory.insert(Relocatable::from((0, 2)), num(1)).unwrap();
    vm.segments.compute_effective_sizes(&vm.memory);
    assert_eq!(output.get_used_cells(&vm.segments), Ok(3));
    assert_eq!(bitwise.get_used_cells(&vm.segments), Ok(0));
    assert_eq!(
        output.get_memory_accesses(&vm),
        Ok(vec![Relocatable::from((0, 0)), Relocatable::from((0, 1)), Relocatable::from((0, 2))])
    );
    assert_eq!(output.deduce_memory_cell(&Relocatable::from((0, 1)), &vm.memory), Ok(None));
    vm.builtin_runners = vec![output, bitwise];
    assert!(vm.check_builtins());
    assert_eq!(vm.find_owner(1), Some(1));
    assert_eq!(vm.find_owner(0), Some(0));
    assert_eq!(vm.find_owner(2), None);
    assert_eq!(vm.find_owner(-1), None);
    match &mut vm.builtin_runners[1] {
        BuiltinRunner::Bitwise(b) => b.cells_per_instance = 4,
        _ => unreachable!(),
    }
    assert!(!vm.check_builtins());
}

#[test]
fn roots_for_the_residue_hint() {
    assert_eq!(find_quad_root(&Felt252::new(0)), Some(Felt252::new(0)));
    assert_eq!(find_quad_root(&Felt252::new(1)), Some(Felt252::new(1)));
    assert_eq!(find_quad_root(&Felt252::new(4)), Some(Felt252::new(2)));
    assert_eq!(find_quad_root(&Felt252::new(25)), Some(Felt252::new(5)));
    // three is no square: the root is that of 3 / 3
    assert_eq!(find_quad_root(&Felt252::new(3)), Some(Felt252::new(1)));
    // twelve is no square either: the root is that of 12 / 3
    assert_eq!(find_quad_root(&Felt252::new(12)), Some(Felt252::new(2)));
    let x = Felt252::new(-1);
    let y = find_quad_root(&x).unwrap();
    assert_eq!(y * y, x);
}

#[test]
fn split_arcs_go_to_four_cells() {
    let mut vm = VirtualMachine::new(false);
    vm.segments.add(&mut vm.memory);
    let ptr = Relocatable::from((0, 2));
    let felt = |v: i128| Felt252::new(v);
    assert_eq!(write_arcs(&mut vm, ptr, felt(10), felt(11), felt(12), felt(13)), Ok(()));
    assert_eq!(vm.memory.get(&Relocatable::from((0, 2))), Some(num(11)));
    assert_eq!(vm.memory.get(&Relocatable::from((0, 3))), Some(num(10)));
    assert_eq!(vm.memory.get(&Relocatable::from((0, 4))), Some(num(13)));
    assert_eq!(vm.memory.get(&Relocatable::from((0, 5))), Some(num(12)));
    // the same values are taken again, another value is refused
    assert_eq!(write_arcs(&mut vm, ptr, felt(10), felt(11), felt(12), felt(13)), Ok(()));
    assert_eq!(
        write_arcs(&mut vm, ptr, felt(10), felt(11), felt(12), felt(14)),
        Err(HintError::Memory(MemoryError::InconsistentMemory(
            Relocatable::from((0, 4)),
            num(13),
            num(14)
        )))
    );
    let mut vm = VirtualMachine::new(false);
    assert_eq!(
        write_arcs(&mut vm, ptr, felt(10), felt(11), felt(12), felt(13)),
        Err(HintError::Memory(MemoryError::UnallocatedSegment(0, 0)))
    );
}
