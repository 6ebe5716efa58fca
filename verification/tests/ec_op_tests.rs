use cairo_vm::felt::Felt252;
use cairo_vm::types::errors::memory_errors::MemoryError;
use cairo_vm::types::instance_definitions::ec_op_instance_def::EcOpInstanceDef;
use cairo_vm::types::relocatable::{MaybeRelocatable, Relocatable};
use cairo_vm::vm::errors::runner_errors::RunnerError;
use cairo_vm::vm::runners::builtin_runner::{BuiltinRunner, EcOpBuiltinRunner};
use cairo_vm::vm::vm_core::VirtualMachine;
use cairo_vm::vm::vm_memory::memory::Memory;
use cairo_vm::serde::deserialize_program::{BuiltinName, ReferenceManager};
use cairo_vm::types::program::Program;
use cairo_vm::vm::runners::cairo_runner::CairoRunner;

fn num(value: i128) -> MaybeRelocatable {
    MaybeRelocatable::Int(Felt252::new(value))
}

fn felt_str(text: &str) -> Felt252 {
    Felt252::parse_bytes(text.as_bytes(), 10).expect("Couldn't parse bytes")
}

fn rel(segment_index: isize, offset: usize) -> MaybeRelocatable {
    MaybeRelocatable::from((segment_index, offset))
}

fn felt_cell(text: &str) -> MaybeRelocatable {
    MaybeRelocatable::Int(felt_str(text))
}

fn memory_from(cells: Vec<((isize, usize), MaybeRelocatable)>) -> Memory {
    let mut memory = Memory::new();
    for (key, value) in cells {
        while memory.data.len() <= key.0 as usize {
            memory.data.push(Vec::new());
        }
        memory.insert(Relocatable::from(key), value).unwrap();
    }
    memory
}

fn stack_memory(last: MaybeRelocatable) -> Memory {
    memory_from(vec![
        ((0, 0), rel(0, 0)),
        ((0, 1), rel(0, 1)),
        ((2, 0), rel(0, 0)),
        ((2, 1), last),
    ])
}

const BETA: &str = "3141592653589793238462643383279502884197169399375105820974944592307816406665";
const PX: &str = "2962412995502985605007699495352191122971573493113767820301112397466445942584";
const PY: &str = "214950771763870898744428659242275426967582168179217139798831865603966154129";
const QX: &str = "874739451078007766457464989774322083649278607533249481151382481072868806602";
const QY: &str = "152666792071518830868575557812948353041420400780739481342941381225525861407";
const RX: &str = "2778063437308421278851140253538604815869848682781135193774472480292420096757";
const RY: &str = "3598390311618116577316045819420613574162151407434885460365915347732568210029";

#[test]
fn get_used_instances() {
    let builtin = EcOpBuiltinRunner::new(&EcOpInstanceDef::new(10), true);
    let mut vm = VirtualMachine::new(false);
    vm.segments.segment_used_sizes = Some(vec![1]);
    assert_eq!(builtin.get_used_instances(&vm.segments), Ok(1));
}

#[test]
fn final_stack() {
    let mut builtin = EcOpBuiltinRunner::new(&EcOpInstanceDef::new(10), true);
    let mut vm = VirtualMachine::new(false);
    vm.memory = stack_memory(rel(0, 0));
    vm.segments.segment_used_sizes = Some(vec![0]);
    let pointer = Relocatable::from((2, 2));
    assert_eq!(
        builtin
            .final_stack(&vm.segments, &vm.memory, pointer)
            .unwrap(),
        Relocatable::from((2, 1))
    );
    assert_eq!(builtin.stop_ptr, Some(0));
}

#[test]
fn final_stack_error_stop_pointer() {
    let mut builtin = EcOpBuiltinRunner::new(&EcOpInstanceDef::new(10), true);
    let mut vm = VirtualMachine::new(false);
    vm.memory = stack_memory(rel(0, 0));
    vm.segments.segment_used_sizes = Some(vec![999]);
    let pointer = Relocatable::from((2, 2));
    assert_eq!(
        builtin.final_stack(&vm.segments, &vm.memory, pointer),
        Err(RunnerError::InvalidStopPointer("ec_op".to_string()))
    );
}

#[test]
fn final_stack_error_when_notincluded() {
    let mut builtin = EcOpBuiltinRunner::new(&EcOpInstanceDef::new(10), false);
    let mut vm = VirtualMachine::new(false);
    vm.memory = stack_memory(rel(0, 0));
    vm.segments.segment_used_sizes = Some(vec![0]);
    let pointer = Relocatable::from((2, 2));
    assert_eq!(
        builtin
            .final_stack(&vm.segments, &vm.memory, pointer)
            .unwrap(),
        Relocatable::from((2, 2))
    );
}

#[test]
fn final_stack_error_non_relocatable() {
    let mut builtin = EcOpBuiltinRunner::new(&EcOpInstanceDef::new(10), true);
    let mut vm = VirtualMachine::new(false);
    vm.memory = stack_memory(felt_cell("2"));
    vm.segments.segment_used_sizes = Some(vec![0]);
    let pointer = Relocatable::from((2, 2));
    assert_eq!(
        builtin.final_stack(&vm.segments, &vm.memory, pointer),
        Err(RunnerError::FinalStack)
    );
}

#[test]
fn get_allocated_memory_units_after_seven_steps() {
    let builtin = EcOpBuiltinRunner::new(&EcOpInstanceDef::new(10), true);
    let mut vm = VirtualMachine::new(false);
    vm.current_step = 10;
    assert_eq!(builtin.get_allocated_memory_units(&vm), Ok(7));
    vm.current_step = 7;
    assert_eq!(
        builtin.get_allocated_memory_units(&vm),
        Err(MemoryError::ErrorCalculatingMemoryUnits)
    );
}

#[test]
fn get_used_cells_and_allocated_size_test() {
    let builtin = EcOpBuiltinRunner::new(&EcOpInstanceDef::new(10), true);

    let mut vm = VirtualMachine::new(false);

    vm.segments.segment_used_sizes = Some(vec![0]);

    let program = Program::new(
        vec![BuiltinName::pedersen],
        vec![
            num(4612671182993129469),
            num(5189976364521848832),
            num(18446744073709551615),
            num(5199546496550207487),
            num(4612389712311386111),
            num(5198983563776393216),
            num(2),
            num(2345108766317314046),
            num(5191102247248822272),
            num(5189976364521848832),
            num(7),
            num(1226245742482522112),
            felt_cell("3618502788666131213697322783095070105623107215331596699973092056135872020470"),
            num(2345108766317314046),
        ],
        Some(8),
        Vec::new(),
        ReferenceManager { references: Vec::new() },
        Vec::new(),
        Vec::new(),
        None,
    )
    .unwrap();
    let mut cairo_runner = CairoRunner::new(program).unwrap();

    let address = cairo_runner.initialize(&mut vm).unwrap();

    cairo_runner.run_until_pc(address, &mut vm).unwrap();

    assert_eq!(builtin.get_used_cells_and_allocated_size(&vm), Ok((0, 7)));
}

#[test]
fn used_cells_must_fit_the_allocated_size() {
    let builtin = EcOpBuiltinRunner::new(&EcOpInstanceDef::new(10), true);
    let mut vm = VirtualMachine::new(false);
    vm.segments.segment_used_sizes = Some(vec![0]);
    vm.current_step = 10;
    assert_eq!(builtin.get_used_cells_and_allocated_size(&vm), Ok((0, 7)));
    vm.current_step = 9;
    assert_eq!(
        builtin.get_used_cells_and_allocated_size(&vm),
        Err(MemoryError::InsufficientAllocatedCells)
    );
    vm.current_step = 10;
    vm.segments.segment_used_sizes = Some(vec![8]);
    assert_eq!(
        builtin.get_used_cells_and_allocated_size(&vm),
        Err(MemoryError::InsufficientAllocatedCells)
    );
}

#[test]
fn point_is_on_curve_a() {
    let x = felt_str(QX);
    let y = felt_str(QY);
    let alpha = Felt252::one();
    let beta = felt_str(BETA);
    assert!(EcOpBuiltinRunner::point_on_curve(&x, &y, &alpha, &beta));
}

#[test]
fn point_is_on_curve_b() {
    let x = felt_str(
        "3139037544796708144595053687182055617920475701120786241351436619796497072089",
    );
    let y = felt_str(
        "2119589567875935397690285099786081818522144748339117565577200220779667999801",
    );
    let alpha = Felt252::one();
    let beta = felt_str(BETA);
    assert!(EcOpBuiltinRunner::point_on_curve(&x, &y, &alpha, &beta));
}

#[test]
fn point_is_not_on_curve_a() {
    let x = felt_str(
        "874739454078007766457464989774322083649278607533249481151382481072868806602",
    );
    let y = felt_str(QY);
    let alpha = Felt252::one();
    let beta = felt_str(BETA);
    assert!(!EcOpBuiltinRunner::point_on_curve(&x, &y, &alpha, &beta));
}

#[test]
fn point_is_not_on_curve_b() {
    let x = felt_str(
        "3139037544756708144595053687182055617927475701120786241351436619796497072089",
    );
    let y = felt_str(
        "2119589567875935397690885099786081818522144748339117565577200220779667999801",
    );
    let alpha = Felt252::one();
    let beta = felt_str(BETA);
    assert!(!EcOpBuiltinRunner::point_on_curve(&x, &y, &alpha, &beta));
}

#[test]
fn compute_ec_op_impl_valid_a() {
    let partial_sum = (
        felt_str("3139037544796708144595053687182055617920475701120786241351436619796497072089"),
        felt_str("2119589567875935397690285099786081818522144748339117565577200220779667999801"),
    );
    let doubled_point = (felt_str(QX), felt_str(QY));
    let m = Felt252::new(34);
    let alpha = Felt252::new(1);
    let height = 256;
    let result = EcOpBuiltinRunner::ec_op_impl(partial_sum, doubled_point, &m, &alpha, height);
    assert_eq!(
        result,
        Ok((
            felt_str(
                "1977874238339000383330315148209250828062304908491266318460063803060754089297"
            ),
            felt_str(
                "2969386888251099938335087541720168257053975603483053253007176033556822156706"
            )
        ))
    );
}

#[test]
fn compute_ec_op_impl_valid_b() {
    let partial_sum = (felt_str(PX), felt_str(PY));
    let doubled_point = (felt_str(QX), felt_str(QY));
    let m = Felt252::new(34);
    let alpha = Felt252::new(1);
    let height = 256;
    let result = EcOpBuiltinRunner::ec_op_impl(partial_sum, doubled_point, &m, &alpha, height);
    assert_eq!(result, Ok((felt_str(RX), felt_str(RY))));
}

#[test]
fn compute_ec_op_invalid_same_x_coordinate() {
    let partial_sum = (Felt252::one(), Felt252::new(9));
    let doubled_point = (Felt252::one(), Felt252::new(12));
    let m = Felt252::new(34);
    let alpha = Felt252::new(1);
    let height = 256;
    let result = EcOpBuiltinRunner::ec_op_impl(partial_sum, doubled_point, &m, &alpha, height);
    assert_eq!(
        result,
        Err(RunnerError::EcOpSameXCoordinate(
            EcOpBuiltinRunner::format_ec_op_error(&partial_sum, &m, &doubled_point)
        ))
    );
    assert_eq!(
        EcOpBuiltinRunner::format_ec_op_error(&partial_sum, &m, &doubled_point),
        format!("Cannot apply EC operation: computation reached two points with the same x coordinate. \n
    Attempting to compute P + m * Q where:\n
    P = {:?} \n
    m = {:?}\n
    Q = {:?}.", (1, 9), 34, (1, 12))
    );
}

fn preset_memory(p_y: MaybeRelocatable, with_first: bool, m: MaybeRelocatable) -> Memory {
    let mut cells = Vec::new();
    if with_first {
        cells.push(((3, 0), felt_cell(PX)));
    }
    cells.push(((3, 1), felt_cell(PY)));
    cells.push(((3, 2), felt_cell(QX)));
    cells.push(((3, 3), p_y));
    cells.push(((3, 4), m));
    cells.push(((3, 5), felt_cell(RX)));
    memory_from(cells)
}

#[test]
fn deduce_memory_cell_ec_op_for_preset_memory_valid() {
    let memory = preset_memory(felt_cell(QY), true, felt_cell("34"));
    let builtin = EcOpBuiltinRunner::new(&EcOpInstanceDef::default(), true);
    let result = builtin.deduce_memory_cell(&Relocatable::from((3, 6)), &memory);
    assert_eq!(result, Ok(Some(MaybeRelocatable::from(felt_str(RY)))));
    let result = builtin.deduce_memory_cell(&Relocatable::from((3, 5)), &memory);
    assert_eq!(result, Ok(Some(MaybeRelocatable::from(felt_str(RX)))));
}

#[test]
fn deduce_memory_cell_ec_op_for_preset_memory_unfilled_input_cells() {
    let memory = preset_memory(felt_cell(QY), false, felt_cell("34"));
    let builtin = EcOpBuiltinRunner::new(&EcOpInstanceDef::default(), true);
    let result = builtin.deduce_memory_cell(&Relocatable::from((3, 6)), &memory);
    assert_eq!(result, Ok(None));
}

#[test]
fn deduce_memory_cell_ec_op_for_preset_memory_addr_not_an_output_cell() {
    let memory = preset_memory(felt_cell(QY), true, felt_cell("34"));
    let builtin = EcOpBuiltinRunner::new(&EcOpInstanceDef::default(), true);
    let result = builtin.deduce_memory_cell(&Relocatable::from((3, 3)), &memory);
    assert_eq!(result, Ok(None));
}

#[test]
fn deduce_memory_cell_ec_op_for_preset_memory_non_integer_input() {
    let memory = preset_memory(rel(1, 2), true, felt_cell("34"));
    let builtin = EcOpBuiltinRunner::new(&EcOpInstanceDef::default(), true);
    assert_eq!(
        builtin.deduce_memory_cell(&Relocatable::from((3, 6)), &memory),
        Err(RunnerError::ExpectedInteger(MaybeRelocatable::from((3, 3))))
    );
}

#[test]
fn deduce_memory_cell_ec_op_for_preset_memory_m_over_scalar_limit() {
    let memory = preset_memory(
        felt_cell(QY),
        true,
        felt_cell("3618502788666131213697322783095070105623107215331596699973092056135872020482"),
    );
    let builtin = EcOpBuiltinRunner::new(&EcOpInstanceDef::default(), true);
    let _error = builtin.deduce_memory_cell(&Relocatable::from((3, 6)), &memory);
}

#[test]
fn deduce_memory_cell_ec_op_point_not_on_curve() {
    let memory = preset_memory(felt_cell("5"), true, felt_cell("34"));
    let builtin = EcOpBuiltinRunner::new(&EcOpInstanceDef::default(), true);
    assert_eq!(
        builtin.deduce_memory_cell(&Relocatable::from((3, 6)), &memory),
        Err(RunnerError::PointNotOnCurve(felt_str(QX), felt_str("5")))
    );
}

#[test]
fn deduce_memory_cell_ec_op_same_x_aborts() {
    // P and Q are the same point of the curve, so the first round finds them
    // on one vertical line.
    let memory = memory_from(vec![
        ((3, 0), felt_cell(QX)),
        ((3, 1), felt_cell(QY)),
        ((3, 2), felt_cell(QX)),
        ((3, 3), felt_cell(QY)),
        ((3, 4), felt_cell("34")),
    ]);
    let builtin = EcOpBuiltinRunner::new(&EcOpInstanceDef::default(), true);
    match builtin.deduce_memory_cell(&Relocatable::from((3, 5)), &memory) {
        Err(RunnerError::EcOpSameXCoordinate(_)) => {}
        Err(_) => panic!("Wrong error returned, expected RunnerError::EcOpSameXCoordinate"),
        Ok(_) => panic!("Expected deduction to fail"),
    }
}

#[test]
fn get_memory_segment_addresses() {
    let builtin = EcOpBuiltinRunner::new(&EcOpInstanceDef::default(), true);
    assert_eq!(builtin.get_memory_segment_addresses(), (0, None));
}

#[test]
fn ec_op_get_memory_accesses_missing_segment_used_sizes() {
    let builtin = BuiltinRunner::EcOp(EcOpBuiltinRunner::new(&EcOpInstanceDef::default(), true));
    let vm = VirtualMachine::new(false);
    assert_eq!(
        builtin.get_memory_accesses(&vm),
        Err(MemoryError::MissingSegmentUsedSizes),
    );
}

#[test]
fn ec_op_get_memory_accesses_empty() {
    let builtin = BuiltinRunner::EcOp(EcOpBuiltinRunner::new(&EcOpInstanceDef::default(), true));
    let mut vm = VirtualMachine::new(false);
    vm.segments.segment_used_sizes = Some(vec![0]);
    assert_eq!(builtin.get_memory_accesses(&vm), Ok(vec![]));
}

#[test]
fn ec_op_get_memory_accesses() {
    let builtin = BuiltinRunner::EcOp(EcOpBuiltinRunner::new(&EcOpInstanceDef::default(), true));
    let mut vm = VirtualMachine::new(false);
    vm.segments.segment_used_sizes = Some(vec![4]);
    assert_eq!(
        builtin.get_memory_accesses(&vm),
        Ok(vec![
            (builtin.base(), 0).into(),
            (builtin.base(), 1).into(),
            (builtin.base(), 2).into(),
            (builtin.base(), 3).into(),
        ]),
    );
}

#[test]
fn get_used_cells_missing_segment_used_sizes() {
    let builtin = BuiltinRunner::EcOp(EcOpBuiltinRunner::new(&EcOpInstanceDef::default(), true));
    let vm = VirtualMachine::new(false);
    assert_eq!(
        builtin.get_used_cells(&vm.segments),
        Err(MemoryError::MissingSegmentUsedSizes)
    );
}

#[test]
fn get_used_cells_empty() {
    let builtin = BuiltinRunner::EcOp(EcOpBuiltinRunner::new(&EcOpInstanceDef::default(), true));
    let mut vm = VirtualMachine::new(false);
    vm.segments.segment_used_sizes = Some(vec![0]);
    assert_eq!(builtin.get_used_cells(&vm.segments), Ok(0));
}

#[test]
fn get_used_cells() {
    let builtin = BuiltinRunner::EcOp(EcOpBuiltinRunner::new(&EcOpInstanceDef::default(), true));
    let mut vm = VirtualMachine::new(false);
    vm.segments.segment_used_sizes = Some(vec![4]);
    assert_eq!(builtin.get_used_cells(&vm.segments), Ok(4));
}

#[test]
fn initial_stackincluded_test() {
    let ec_op_builtin = EcOpBuiltinRunner::new(&EcOpInstanceDef::default(), true);
    assert_eq!(ec_op_builtin.initial_stack(), vec![rel(0, 0)])
}

#[test]
fn initial_stack_notincluded_test() {
    let ec_op_builtin = EcOpBuiltinRunner::new(&EcOpInstanceDef::default(), false);
    assert_eq!(ec_op_builtin.initial_stack(), Vec::new())
}
