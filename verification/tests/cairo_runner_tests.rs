use cairo_vm::felt::Felt252;
use cairo_vm::hint_processor::hint_processor_definition::HintReference;
use cairo_vm::serde::deserialize_program::{
    ApTracking, BuiltinName, OffsetValue, Reference, ReferenceManager, ValueAddress,
};
use cairo_vm::types::instruction::Register;
use cairo_vm::vm::runners::builtin_runner::{BuiltinRunner, OutputBuiltinRunner};
use cairo_vm::types::errors::memory_errors::MemoryError;
use cairo_vm::types::program::Program;
use cairo_vm::types::relocatable::{MaybeRelocatable, Relocatable};
use cairo_vm::vm::errors::runner_errors::RunnerError;
use cairo_vm::vm::errors::trace_errors::TraceError;
use cairo_vm::vm::errors::vm_errors::VirtualMachineError;
use cairo_vm::vm::runners::cairo_runner::CairoRunner;
use cairo_vm::vm::trace::trace_entry::RelocatedTraceEntry;
use cairo_vm::vm::vm_core::{TraceEntry, VirtualMachine};
use cairo_vm::vm::vm_memory::memory::Memory;

fn felt_str(text: &str) -> Felt252 {
    Felt252::parse_bytes(text.as_bytes(), 10).expect("Couldn't parse bytes")
}

fn word(text: &str) -> MaybeRelocatable {
    MaybeRelocatable::Int(felt_str(text))
}

fn num(value: i128) -> MaybeRelocatable {
    MaybeRelocatable::Int(Felt252::new(value))
}

fn rel(segment_index: isize, offset: usize) -> MaybeRelocatable {
    MaybeRelocatable::from((segment_index, offset))
}

fn relocatable(segment_index: isize, offset: usize) -> Relocatable {
    Relocatable { segment_index, offset }
}

fn program(builtins: Vec<BuiltinName>, data: Vec<MaybeRelocatable>, main: Option<usize>) -> Program {
    Program::new(
        builtins,
        data,
        main,
        Vec::new(),
        ReferenceManager { references: Vec::new() },
        Vec::new(),
        Vec::new(),
        None,
    )
    .unwrap()
}

fn memory_from(cells: Vec<((isize, usize), MaybeRelocatable)>) -> Memory {
    let mut memory = Memory::new();
    for (key, value) in cells {
        while memory.data.len() <= key.0 as usize {
            memory.data.push(Vec::new());
        }
        memory.insert(Relocatable::from(key), value).unwrap();
    }
    memory
}

fn check_memory(memory: &Memory, cells: Vec<((isize, usize), MaybeRelocatable)>) {
    for (key, value) in cells {
        assert_eq!(memory.get(&Relocatable::from(key)), Some(value), "at {:?}", key);
    }
}

fn check_trace(trace: &Vec<TraceEntry>, expected: Vec<((isize, usize), (isize, usize), (isize, usize))>) {
    assert_eq!(trace.len(), expected.len());
    for (entry, (pc, ap, fp)) in trace.iter().zip(expected) {
        assert_eq!(entry.pc, Relocatable::from(pc));
        assert_eq!(entry.ap, Relocatable::from(ap));
        assert_eq!(entry.fp, Relocatable::from(fp));
    }
}

fn function_call_data() -> Vec<MaybeRelocatable> {
    vec![
        num(5207990763031199744),
        num(2),
        num(2345108766317314046),
        num(5189976364521848832),
        num(1),
        num(1226245742482522112),
        word("3618502788666131213697322783095070105623107215331596699973092056135872020476"),
        num(2345108766317314046),
    ]
}

fn output_data() -> Vec<MaybeRelocatable> {
    vec![
        num(4612671182993129469),
        num(5198983563776393216),
        num(1),
        num(2345108766317314046),
        num(5191102247248822272),
        num(5189976364521848832),
        num(1),
        num(1226245742482522112),
        word("3618502788666131213697322783095070105623107215331596699973092056135872020474"),
        num(5189976364521848832),
        num(17),
        num(1226245742482522112),
        word("3618502788666131213697322783095070105623107215331596699973092056135872020470"),
        num(2345108766317314046),
    ]
}

fn range_check_data() -> Vec<MaybeRelocatable> {
    vec![
        num(4612671182993129469),
        num(5189976364521848832),
        num(18446744073709551615),
        num(5199546496550207487),
        num(4612389712311386111),
        num(5198983563776393216),
        num(2),
        num(2345108766317314046),
        num(5191102247248822272),
        num(5189976364521848832),
        num(7),
        num(1226245742482522112),
        word("3618502788666131213697322783095070105623107215331596699973092056135872020470"),
        num(2345108766317314046),
    ]
}

fn output_range_check_data() -> Vec<MaybeRelocatable> {
    vec![
        num(4612671182993129469),
        num(5198983563776393216),
        num(1),
        num(2345108766317314046),
        num(4612671182993129469),
        num(5189976364521848832),
        num(18446744073709551615),
        num(5199546496550207487),
        num(4612389712311386111),
        num(5198983563776393216),
        num(2),
        num(5191102247248822272),
        num(2345108766317314046),
        num(5191102247248822272),
        num(5189976364521848832),
        num(7),
        num(1226245742482522112),
        word("3618502788666131213697322783095070105623107215331596699973092056135872020469"),
        num(5191102242953854976),
        num(5193354051357474816),
        num(1226245742482522112),
        word("3618502788666131213697322783095070105623107215331596699973092056135872020461"),
        num(5193354029882638336),
        num(2345108766317314046),
    ]
}

#[test]
fn initialize_builtins_with_disordered_builtins() {
    let program = program(vec![BuiltinName::range_check, BuiltinName::output], Vec::new(), None);
    let cairo_runner = CairoRunner::new(program).unwrap();
    let mut vm = VirtualMachine::new(false);
    assert!(cairo_runner.initialize_builtins(&mut vm).is_err());
}

#[test]
fn initialize_with_disordered_builtins_allocates_nothing() {
    let program = program(
        vec![BuiltinName::range_check, BuiltinName::output],
        function_call_data(),
        Some(3),
    );
    let mut cairo_runner = CairoRunner::new(program).unwrap();
    let mut vm = VirtualMachine::new(false);
    assert_eq!(cairo_runner.initialize(&mut vm), Err(RunnerError::DisorderedBuiltins));
    assert_eq!(vm.segments.num_segments, 0);
    assert_eq!(vm.memory.data.len(), 0);
    assert!(vm.builtin_runners.is_empty());
    assert_eq!(cairo_runner.program_base, None);
}

#[test]
fn create_cairo_runner_with_ordered_but_missing_builtins() {
    let program = program(vec![BuiltinName::output, BuiltinName::ecdsa], Vec::new(), None);
    let _cairo_runner = CairoRunner::new(program);
}

#[test]
fn initialize_segments_with_base() {
    let program = program(vec![BuiltinName::output], Vec::new(), None);
    let mut cairo_runner = CairoRunner::new(program).unwrap();
    let mut vm = VirtualMachine::new(false);
    let program_base = Some(Relocatable { segment_index: 5, offset: 9 });
    vm.segments.num_segments = 6;
    cairo_runner.initialize_builtins(&mut vm).unwrap();
    cairo_runner.initialize_segments(&mut vm, program_base);
    assert_eq!(cairo_runner.program_base, Some(Relocatable { segment_index: 5, offset: 9 }));
    assert_eq!(cairo_runner.execution_base, Some(Relocatable { segment_index: 6, offset: 0 }));
    assert_eq!(vm.builtin_runners[0].name(), "output");
    assert_eq!(vm.builtin_runners[0].base(), 7);
    assert_eq!(vm.segments.num_segments, 8);
}

#[test]
fn initialize_segments_no_base() {
    let program = program(vec![BuiltinName::output], Vec::new(), None);
    let mut cairo_runner = CairoRunner::new(program).unwrap();
    let mut vm = VirtualMachine::new(false);
    cairo_runner.initialize_builtins(&mut vm).unwrap();
    cairo_runner.initialize_segments(&mut vm, None);
    assert_eq!(cairo_runner.program_base, Some(Relocatable { segment_index: 0, offset: 0 }));
    assert_eq!(cairo_runner.execution_base, Some(Relocatable { segment_index: 1, offset: 0 }));
    assert_eq!(vm.builtin_runners[0].name(), "output");
    assert_eq!(vm.builtin_runners[0].base(), 2);
    assert_eq!(vm.segments.num_segments, 3);
}

#[test]
fn initialize_state_empty_data_and_stack() {
    let program = program(vec![BuiltinName::output], Vec::new(), None);
    let mut cairo_runner = CairoRunner::new(program).unwrap();
    let mut vm = VirtualMachine::new(false);
    for _ in 0..3 {
        vm.segments.add(&mut vm.memory);
    }
    cairo_runner.program_base = Some(relocatable(1, 0));
    cairo_runner.execution_base = Some(relocatable(2, 0));
    let stack = Vec::new();
    cairo_runner.initialize_builtins(&mut vm).unwrap();
    cairo_runner.initialize_state(&mut vm, 1, &stack).unwrap();
    assert_eq!(cairo_runner.initial_pc, Some(Relocatable { segment_index: 1, offset: 1 }));
}

#[test]
fn initialize_state_some_data_empty_stack() {
    let program = program(vec![BuiltinName::output], vec![num(4), num(6)], None);
    let mut cairo_runner = CairoRunner::new(program).unwrap();
    let mut vm = VirtualMachine::new(false);
    for _ in 0..2 {
        vm.segments.add(&mut vm.memory);
    }
    cairo_runner.program_base = Some(Relocatable { segment_index: 1, offset: 0 });
    cairo_runner.execution_base = Some(relocatable(1, 0));
    let stack = Vec::new();
    cairo_runner.initialize_state(&mut vm, 1, &stack).unwrap();
    check_memory(&vm.memory, vec![((1, 0), num(4)), ((1, 1), num(6))]);
}

#[test]
fn initialize_state_empty_data_some_stack() {
    let program = program(vec![BuiltinName::output], Vec::new(), None);
    let mut cairo_runner = CairoRunner::new(program).unwrap();
    let mut vm = VirtualMachine::new(false);
    for _ in 0..3 {
        vm.segments.add(&mut vm.memory);
    }
    cairo_runner.program_base = Some(relocatable(1, 0));
    cairo_runner.execution_base = Some(relocatable(2, 0));
    let stack = vec![num(4), num(6)];
    cairo_runner.initialize_state(&mut vm, 1, &stack).unwrap();
    check_memory(&vm.memory, vec![((2, 0), num(4)), ((2, 1), num(6))]);
}

#[test]
fn initialize_state_no_program_base() {
    let program = program(vec![BuiltinName::output], Vec::new(), None);
    let mut cairo_runner = CairoRunner::new(program).unwrap();
    let mut vm = VirtualMachine::new(false);
    for _ in 0..2 {
        vm.segments.add(&mut vm.memory);
    }
    cairo_runner.execution_base = Some(Relocatable { segment_index: 2, offset: 0 });
    let stack = vec![num(4), num(6)];
    assert!(cairo_runner.initialize_state(&mut vm, 1, &stack).is_err());
}

#[test]
fn initialize_state_no_execution_base() {
    let program = program(vec![BuiltinName::output], Vec::new(), None);
    let mut cairo_runner = CairoRunner::new(program).unwrap();
    let mut vm = VirtualMachine::new(false);
    for _ in 0..2 {
        vm.segments.add(&mut vm.memory);
    }
    cairo_runner.program_base = Some(relocatable(1, 0));
    let stack = vec![num(4), num(6)];
    assert_eq!(
        cairo_runner.initialize_state(&mut vm, 1, &stack),
        Err(RunnerError::NoExecBase)
    );
}

#[test]
fn initialize_function_entrypoint_empty_stack() {
    let program = program(vec![BuiltinName::output], Vec::new(), None);
    let mut cairo_runner = CairoRunner::new(program).unwrap();
    let mut vm = VirtualMachine::new(false);
    for _ in 0..2 {
        vm.segments.add(&mut vm.memory);
    }
    cairo_runner.program_base = Some(relocatable(0, 0));
    cairo_runner.execution_base = Some(relocatable(1, 0));
    let stack = Vec::new();
    let return_fp = num(9);
    cairo_runner
        .initialize_function_entrypoint(&mut vm, 0, stack, return_fp)
        .unwrap();
    assert_eq!(cairo_runner.initial_fp, cairo_runner.initial_ap);
    assert_eq!(cairo_runner.initial_fp, Some(relocatable(1, 2)));
    check_memory(&vm.memory, vec![((1, 0), num(9)), ((1, 1), rel(2, 0))]);
}

#[test]
fn initialize_function_entrypoint_some_stack() {
    let program = program(vec![BuiltinName::output], Vec::new(), None);
    let mut cairo_runner = CairoRunner::new(program).unwrap();
    let mut vm = VirtualMachine::new(false);
    for _ in 0..2 {
        vm.segments.add(&mut vm.memory);
    }
    cairo_runner.program_base = Some(relocatable(0, 0));
    cairo_runner.execution_base = Some(relocatable(1, 0));
    let stack = vec![num(7)];
    let return_fp = num(9);
    cairo_runner
        .initialize_function_entrypoint(&mut vm, 1, stack, return_fp)
        .unwrap();
    assert_eq!(cairo_runner.initial_fp, cairo_runner.initial_ap);
    assert_eq!(cairo_runner.initial_fp, Some(relocatable(1, 3)));
    check_memory(&vm.memory, vec![((1, 0), num(7)), ((1, 1), num(9)), ((1, 2), rel(2, 0))]);
}

#[test]
fn initialize_function_entrypoint_no_execution_base() {
    let program = program(vec![BuiltinName::output], Vec::new(), None);
    let mut cairo_runner = CairoRunner::new(program).unwrap();
    let mut vm = VirtualMachine::new(false);
    let stack = vec![num(7)];
    let return_fp = num(9);
    assert_eq!(
        cairo_runner.initialize_function_entrypoint(&mut vm, 1, stack, return_fp),
        Err(RunnerError::NoExecBaseForEntrypoint)
    );
}

#[test]
fn initialize_main_entrypoint_no_main() {
    let program = program(vec![BuiltinName::output], Vec::new(), None);
    let mut cairo_runner = CairoRunner::new(program).unwrap();
    let mut vm = VirtualMachine::new(false);
    assert_eq!(
        cairo_runner.initialize_main_entrypoint(&mut vm),
        Err(RunnerError::MissingMain)
    );
}

#[test]
fn initialize_main_entrypoint() {
    let program = program(Vec::new(), Vec::new(), Some(1));
    let mut cairo_runner = CairoRunner::new(program).unwrap();
    let mut vm = VirtualMachine::new(false);
    cairo_runner.program_base = Some(relocatable(0, 0));
    cairo_runner.execution_base = Some(relocatable(0, 0));
    let return_pc = cairo_runner.initialize_main_entrypoint(&mut vm).unwrap();
    assert_eq!(return_pc, Relocatable::from((1, 0)));
}

#[test]
fn initialize_vm_no_builtins() {
    let program = program(Vec::new(), Vec::new(), Some(1));
    let mut cairo_runner = CairoRunner::new(program).unwrap();
    let mut vm = VirtualMachine::new(false);
    cairo_runner.program_base = Some(relocatable(0, 0));
    cairo_runner.initial_pc = Some(relocatable(0, 1));
    cairo_runner.initial_ap = Some(relocatable(1, 2));
    cairo_runner.initial_fp = Some(relocatable(1, 2));
    cairo_runner.initialize_vm(&mut vm).unwrap();
    assert_eq!(vm.run_context.pc, relocatable(0, 1));
    assert_eq!(vm.run_context.ap, 2);
    assert_eq!(vm.run_context.fp, 2);
    assert_eq!(vm._program_base, Some(MaybeRelocatable::from((0, 0))));
}

#[test]
fn initialize_vm_without_registers() {
    let program = program(Vec::new(), Vec::new(), Some(1));
    let mut cairo_runner = CairoRunner::new(program).unwrap();
    let mut vm = VirtualMachine::new(false);
    assert_eq!(cairo_runner.initialize_vm(&mut vm), Err(RunnerError::NoPC));
    cairo_runner.initial_pc = Some(relocatable(0, 1));
    assert_eq!(cairo_runner.initialize_vm(&mut vm), Err(RunnerError::NoAP));
    cairo_runner.initial_ap = Some(relocatable(1, 2));
    assert_eq!(cairo_runner.initialize_vm(&mut vm), Err(RunnerError::NoFP));
    cairo_runner.initial_fp = Some(relocatable(1, 2));
    assert_eq!(cairo_runner.initialize_vm(&mut vm), Err(RunnerError::NoProgBase));
}

#[test]
fn initialize_vm_with_range_check_valid() {
    let program = program(vec![BuiltinName::range_check], Vec::new(), Some(1));
    let mut cairo_runner = CairoRunner::new(program).unwrap();
    let mut vm = VirtualMachine::new(false);
    cairo_runner.initial_pc = Some(relocatable(0, 1));
    cairo_runner.initial_ap = Some(relocatable(1, 2));
    cairo_runner.initial_fp = Some(relocatable(1, 2));
    cairo_runner.initialize_builtins(&mut vm).unwrap();
    cairo_runner.initialize_segments(&mut vm, None);
    vm.memory = memory_from(vec![((2, 0), num(23)), ((2, 1), num(233))]);
    assert_eq!(vm.builtin_runners[0].name(), "range_check");
    assert_eq!(vm.builtin_runners[0].base(), 2);
    cairo_runner.initialize_vm(&mut vm).unwrap();
    assert!(vm.memory.validated_addresses.contains(&relocatable(2, 0)));
    assert!(vm.memory.validated_addresses.contains(&relocatable(2, 1)));
    assert_eq!(vm.memory.validated_addresses.len(), 2);
}

#[test]
fn initialize_vm_with_range_check_invalid() {
    let program = program(vec![BuiltinName::range_check], Vec::new(), Some(1));
    let mut cairo_runner = CairoRunner::new(program).unwrap();
    let mut vm = VirtualMachine::new(false);
    cairo_runner.initial_pc = Some(relocatable(0, 1));
    cairo_runner.initial_ap = Some(relocatable(1, 2));
    cairo_runner.initial_fp = Some(relocatable(1, 2));
    cairo_runner.initialize_builtins(&mut vm).unwrap();
    cairo_runner.initialize_segments(&mut vm, None);
    vm.memory = memory_from(vec![((2, 1), num(23)), ((2, 4), num(-1))]);
    assert_eq!(
        cairo_runner.initialize_vm(&mut vm),
        Err(RunnerError::MemoryValidationError(MemoryError::FoundNonInt))
    );
}

#[test]
fn initialize_vm_with_range_check_out_of_bounds() {
    let program = program(vec![BuiltinName::range_check], Vec::new(), Some(1));
    let mut cairo_runner = CairoRunner::new(program).unwrap();
    let mut vm = VirtualMachine::new(false);
    cairo_runner.initial_pc = Some(relocatable(0, 1));
    cairo_runner.initial_ap = Some(relocatable(1, 2));
    cairo_runner.initial_fp = Some(relocatable(1, 2));
    cairo_runner.initialize_builtins(&mut vm).unwrap();
    cairo_runner.initialize_segments(&mut vm, None);
    vm.memory = memory_from(vec![((2, 0), num(23)), ((2, 1), num(-1))]);
    assert_eq!(
        cairo_runner.initialize_vm(&mut vm),
        Err(RunnerError::MemoryValidationError(MemoryError::NumOutOfBounds))
    );
}

#[test]
fn initialization_phase_no_builtins() {
    let program = program(Vec::new(), function_call_data(), Some(3));
    let mut cairo_runner = CairoRunner::new(program).unwrap();
    let mut vm = VirtualMachine::new(false);
    cairo_runner.initialize_segments(&mut vm, None);
    cairo_runner.initialize_main_entrypoint(&mut vm).unwrap();
    cairo_runner.initialize_vm(&mut vm).unwrap();
    assert_eq!(cairo_runner.program_base, Some(relocatable(0, 0)));
    assert_eq!(cairo_runner.execution_base, Some(relocatable(1, 0)));
    assert_eq!(cairo_runner.final_pc, Some(relocatable(3, 0)));
    assert_eq!(vm.run_context.pc, relocatable(0, 3));
    assert_eq!(vm.run_context.ap, 2);
    assert_eq!(vm.run_context.fp, 2);
    let mut expected = Vec::new();
    for (i, value) in function_call_data().into_iter().enumerate() {
        expected.push(((0, i), value));
    }
    expected.push(((1, 0), rel(2, 0)));
    expected.push(((1, 1), rel(3, 0)));
    check_memory(&vm.memory, expected);
}

#[test]
fn initialization_phase_output_builtin() {
    let program = program(vec![BuiltinName::output], output_data(), Some(4));
    let mut cairo_runner = CairoRunner::new(program).unwrap();
    let mut vm = VirtualMachine::new(false);
    let end = cairo_runner.initialize(&mut vm).unwrap();
    assert_eq!(end, relocatable(4, 0));
    assert_eq!(cairo_runner.program_base, Some(relocatable(0, 0)));
    assert_eq!(cairo_runner.execution_base, Some(relocatable(1, 0)));
    assert_eq!(cairo_runner.final_pc, Some(relocatable(4, 0)));
    assert_eq!(vm.run_context.pc, relocatable(0, 4));
    assert_eq!(vm.run_context.ap, 3);
    assert_eq!(vm.run_context.fp, 3);
    check_memory(
        &vm.memory,
        vec![((1, 0), rel(2, 0)), ((1, 1), rel(3, 0)), ((1, 2), rel(4, 0))],
    );
}

#[test]
fn initialization_phase_range_check_builtin() {
    let program = program(vec![BuiltinName::range_check], range_check_data(), Some(8));
    let mut cairo_runner = CairoRunner::new(program).unwrap();
    let mut vm = VirtualMachine::new(false);
    cairo_runner.initialize(&mut vm).unwrap();
    assert_eq!(cairo_runner.program_base, Some(relocatable(0, 0)));
    assert_eq!(cairo_runner.execution_base, Some(relocatable(1, 0)));
    assert_eq!(cairo_runner.final_pc, Some(relocatable(4, 0)));
    assert_eq!(vm.run_context.pc, relocatable(0, 8));
    assert_eq!(vm.run_context.ap, 3);
    assert_eq!(vm.run_context.fp, 3);
    check_memory(
        &vm.memory,
        vec![((1, 0), rel(2, 0)), ((1, 1), rel(3, 0)), ((1, 2), rel(4, 0))],
    );
}

#[test]
fn initialize_and_run_function_call() {
    let program = program(Vec::new(), function_call_data(), Some(3));
    let mut cairo_runner = CairoRunner::new(program).unwrap();
    let mut vm = VirtualMachine::new(true);
    cairo_runner.initialize_segments(&mut vm, None);
    let end = cairo_runner.initialize_main_entrypoint(&mut vm).unwrap();
    assert_eq!(end, Relocatable::from((3, 0)));
    cairo_runner.initialize_vm(&mut vm).unwrap();
    assert_eq!(cairo_runner.run_until_pc(end, &mut vm), Ok(()));
    assert_eq!(vm.run_context.pc, Relocatable::from((3, 0)));
    assert_eq!(vm.run_context.ap, 6);
    assert_eq!(vm.run_context.fp, 0);
    let trace = vm.trace.unwrap();
    assert_eq!(trace.len(), 5);
    check_trace(
        &trace,
        vec![
            ((0, 3), (1, 2), (1, 2)),
            ((0, 5), (1, 3), (1, 2)),
            ((0, 0), (1, 5), (1, 5)),
            ((0, 2), (1, 6), (1, 5)),
            ((0, 7), (1, 6), (1, 2)),
        ],
    );
    assert_eq!(vm.current_step, 5);
}

#[test]
fn initialize_and_run_range_check_builtin() {
    let program = program(vec![BuiltinName::range_check], range_check_data(), Some(8));
    let mut cairo_runner = CairoRunner::new(program).unwrap();
    let mut vm = VirtualMachine::new(true);
    let end = cairo_runner.initialize(&mut vm).unwrap();
    assert_eq!(cairo_runner.run_until_pc(end, &mut vm), Ok(()));
    assert_eq!(vm.run_context.pc, Relocatable::from((4, 0)));
    assert_eq!(vm.run_context.ap, 10);
    assert_eq!(vm.run_context.fp, 0);
    let trace = vm.trace.as_ref().unwrap();
    assert_eq!(trace.len(), 10);
    check_trace(
        trace,
        vec![
            ((0, 8), (1, 3), (1, 3)),
            ((0, 9), (1, 4), (1, 3)),
            ((0, 11), (1, 5), (1, 3)),
            ((0, 0), (1, 7), (1, 7)),
            ((0, 1), (1, 7), (1, 7)),
            ((0, 3), (1, 8), (1, 7)),
            ((0, 4), (1, 9), (1, 7)),
            ((0, 5), (1, 9), (1, 7)),
            ((0, 7), (1, 10), (1, 7)),
            ((0, 13), (1, 10), (1, 3)),
        ],
    );
    assert_eq!(vm.builtin_runners[0].name(), "range_check");
    assert_eq!(vm.builtin_runners[0].base(), 2);
    check_memory(
        &vm.memory,
        vec![((2, 0), num(7)), ((2, 1), num(18446744073709551608_i128))],
    );
    assert_eq!(vm.memory.get(&relocatable(2, 2)), None);
}

#[test]
fn initialize_and_run_output_builtin() {
    let program = program(vec![BuiltinName::output], output_data(), Some(4));
    let mut cairo_runner = CairoRunner::new(program).unwrap();
    let mut vm = VirtualMachine::new(true);
    let end = cairo_runner.initialize(&mut vm).unwrap();
    assert_eq!(cairo_runner.run_until_pc(end, &mut vm), Ok(()));
    assert_eq!(vm.run_context.pc, Relocatable::from((4, 0)));
    assert_eq!(vm.run_context.ap, 12);
    assert_eq!(vm.run_context.fp, 0);
    let trace = vm.trace.as_ref().unwrap();
    assert_eq!(trace.len(), 12);
    check_trace(
        trace,
        vec![
            ((0, 4), (1, 3), (1, 3)),
            ((0, 5), (1, 4), (1, 3)),
            ((0, 7), (1, 5), (1, 3)),
            ((0, 0), (1, 7), (1, 7)),
            ((0, 1), (1, 7), (1, 7)),
            ((0, 3), (1, 8), (1, 7)),
            ((0, 9), (1, 8), (1, 3)),
            ((0, 11), (1, 9), (1, 3)),
            ((0, 0), (1, 11), (1, 11)),
            ((0, 1), (1, 11), (1, 11)),
            ((0, 3), (1, 12), (1, 11)),
            ((0, 13), (1, 12), (1, 3)),
        ],
    );
    assert_eq!(vm.builtin_runners[0].name(), "output");
    assert_eq!(vm.builtin_runners[0].base(), 2);
    check_memory(&vm.memory, vec![((2, 0), num(1)), ((2, 1), num(17))]);
    assert_eq!(vm.memory.get(&relocatable(2, 2)), None);
}

#[test]
fn initialize_and_run_output_range_check_builtin() {
    let program = program(
        vec![BuiltinName::output, BuiltinName::range_check],
        output_range_check_data(),
        Some(13),
    );
    let mut cairo_runner = CairoRunner::new(program).unwrap();
    let mut vm = VirtualMachine::new(true);
    cairo_runner.initialize_builtins(&mut vm).unwrap();
    cairo_runner.initialize_segments(&mut vm, None);
    let end = cairo_runner.initialize_main_entrypoint(&mut vm).unwrap();
    cairo_runner.initialize_vm(&mut vm).unwrap();
    assert_eq!(cairo_runner.run_until_pc(end, &mut vm), Ok(()));
    assert_eq!(vm.run_context.pc, Relocatable::from((5, 0)));
    assert_eq!(vm.run_context.ap, 18);
    assert_eq!(vm.run_context.fp, 0);
    let trace = vm.trace.as_ref().unwrap();
    assert_eq!(trace.len(), 18);
    check_trace(
        trace,
        vec![
            ((0, 13), (1, 4), (1, 4)),
            ((0, 14), (1, 5), (1, 4)),
            ((0, 16), (1, 6), (1, 4)),
            ((0, 4), (1, 8), (1, 8)),
            ((0, 5), (1, 8), (1, 8)),
            ((0, 7), (1, 9), (1, 8)),
            ((0, 8), (1, 10), (1, 8)),
            ((0, 9), (1, 10), (1, 8)),
            ((0, 11), (1, 11), (1, 8)),
            ((0, 12), (1, 12), (1, 8)),
            ((0, 18), (1, 12), (1, 4)),
            ((0, 19), (1, 13), (1, 4)),
            ((0, 20), (1, 14), (1, 4)),
            ((0, 0), (1, 16), (1, 16)),
            ((0, 1), (1, 16), (1, 16)),
            ((0, 3), (1, 17), (1, 16)),
            ((0, 22), (1, 17), (1, 4)),
            ((0, 23), (1, 18), (1, 4)),
        ],
    );
    assert_eq!(vm.builtin_runners[1].name(), "range_check");
    assert_eq!(vm.builtin_runners[1].base(), 3);
    check_memory(
        &vm.memory,
        vec![((3, 0), num(7)), ((3, 1), num(18446744073709551608_i128))],
    );
    assert_eq!(vm.memory.get(&relocatable(2, 2)), None);
    assert_eq!(vm.builtin_runners[0].name(), "output");
    assert_eq!(vm.builtin_runners[0].base(), 2);
    check_memory(&vm.memory, vec![((2, 0), num(7))]);
    assert_eq!(vm.memory.get(&relocatable(2, 1)), None);
}

#[test]
fn relocate_memory_with_gap() {
    let program = program(Vec::new(), Vec::new(), None);
    let mut cairo_runner = CairoRunner::new(program).unwrap();
    let mut vm = VirtualMachine::new(true);
    for _ in 0..4 {
        vm.segments.add(&mut vm.memory);
    }
    vm.memory.insert(relocatable(0, 0), num(4613515612218425347)).unwrap();
    vm.memory.insert(relocatable(0, 1), num(5)).unwrap();
    vm.memory.insert(relocatable(0, 2), num(2345108766317314046)).unwrap();
    vm.memory.insert(relocatable(1, 0), rel(2, 0)).unwrap();
    vm.memory.insert(relocatable(1, 1), rel(3, 0)).unwrap();
    vm.memory.insert(relocatable(1, 5), num(5)).unwrap();
    vm.segments.compute_effective_sizes(&vm.memory);
    let rel_table = vm
        .segments
        .relocate_segments()
        .expect("Couldn't relocate after compute effective sizes");
    assert_eq!(rel_table, vec![1, 4, 10, 10]);
    assert_eq!(cairo_runner.relocate_memory(&vm, &rel_table), Ok(()));
    assert_eq!(cairo_runner.relocated_memory[0], None);
    assert_eq!(cairo_runner.relocated_memory[1], Some(Felt252::new(4613515612218425347_i64)));
    assert_eq!(cairo_runner.relocated_memory[2], Some(Felt252::new(5)));
    assert_eq!(cairo_runner.relocated_memory[3], Some(Felt252::new(2345108766317314046_i64)));
    assert_eq!(cairo_runner.relocated_memory[4], Some(Felt252::new(10)));
    assert_eq!(cairo_runner.relocated_memory[5], Some(Felt252::new(10)));
    assert_eq!(cairo_runner.relocated_memory[6], None);
    assert_eq!(cairo_runner.relocated_memory[7], None);
    assert_eq!(cairo_runner.relocated_memory[8], None);
    assert_eq!(cairo_runner.relocated_memory[9], Some(Felt252::new(5)));
    assert_eq!(
        cairo_runner.relocate_memory(&vm, &rel_table),
        Err(MemoryError::Relocation)
    );
}

#[test]
fn initialize_run_and_relocate_output_builtin() {
    let program = program(vec![BuiltinName::output], output_data(), Some(4));
    let mut cairo_runner = CairoRunner::new(program).unwrap();
    let mut vm = VirtualMachine::new(true);
    let end = cairo_runner.initialize(&mut vm).unwrap();
    assert_eq!(cairo_runner.run_until_pc(end, &mut vm), Ok(()));
    vm.segments.compute_effective_sizes(&vm.memory);
    let rel_table = vm
        .segments
        .relocate_segments()
        .expect("Couldn't relocate after compute effective sizes");
    assert_eq!(cairo_runner.relocate_memory(&vm, &rel_table), Ok(()));
    let expected: Vec<Option<i128>> = vec![
        None,
        Some(4612671182993129469),
        Some(5198983563776393216),
        Some(1),
        Some(2345108766317314046),
        Some(5191102247248822272),
        Some(5189976364521848832),
        Some(1),
        Some(1226245742482522112),
        Some(-7),
        Some(5189976364521848832),
        Some(17),
        Some(1226245742482522112),
        Some(-11),
        Some(2345108766317314046),
        Some(27),
        Some(29),
        Some(29),
        Some(27),
        Some(1),
        Some(18),
        Some(10),
        Some(28),
        Some(17),
        Some(18),
        Some(14),
        Some(29),
        Some(1),
        Some(17),
    ];
    assert_eq!(cairo_runner.relocated_memory.len(), expected.len());
    for (i, value) in expected.iter().enumerate() {
        assert_eq!(cairo_runner.relocated_memory[i], value.map(Felt252::new), "at {}", i);
    }
}

#[test]
fn relocate_trace_output_builtin() {
    let program = program(vec![BuiltinName::output], output_data(), Some(4));
    let mut cairo_runner = CairoRunner::new(program).unwrap();
    let mut vm = VirtualMachine::new(true);
    let end = cairo_runner.initialize(&mut vm).unwrap();
    assert_eq!(cairo_runner.run_until_pc(end, &mut vm), Ok(()));
    vm.segments.compute_effective_sizes(&vm.memory);
    let rel_table = vm
        .segments
        .relocate_segments()
        .expect("Couldn't relocate after compute effective sizes");
    cairo_runner.relocate_trace(&vm, &rel_table).unwrap();
    let relocated_trace = cairo_runner.relocated_trace.clone().unwrap();
    assert_eq!(relocated_trace.len(), 12);
    let expected = vec![
        (5, 18, 18),
        (6, 19, 18),
        (8, 20, 18),
        (1, 22, 22),
        (2, 22, 22),
        (4, 23, 22),
        (10, 23, 18),
        (12, 24, 18),
        (1, 26, 26),
        (2, 26, 26),
        (4, 27, 26),
        (14, 27, 18),
    ];
    for (entry, (pc, ap, fp)) in relocated_trace.iter().zip(expected) {
        assert_eq!(*entry, RelocatedTraceEntry { pc, ap, fp });
    }
    assert_eq!(
        cairo_runner.relocate_trace(&vm, &rel_table),
        Err(TraceError::AlreadyRelocated)
    );
}

#[test]
fn relocate_twice_is_refused() {
    let program = program(vec![BuiltinName::output], output_data(), Some(4));
    let mut cairo_runner = CairoRunner::new(program).unwrap();
    let mut vm = VirtualMachine::new(true);
    let end = cairo_runner.initialize(&mut vm).unwrap();
    assert_eq!(cairo_runner.run_until_pc(end, &mut vm), Ok(()));
    assert_eq!(cairo_runner.relocate(&mut vm), Ok(()));
    assert_eq!(
        cairo_runner.relocate(&mut vm),
        Err(TraceError::MemoryError(MemoryError::Relocation))
    );
}

#[test]
fn relocate_trace_without_trace() {
    let program = program(Vec::new(), Vec::new(), None);
    let mut cairo_runner = CairoRunner::new(program).unwrap();
    let vm = VirtualMachine::new(false);
    assert_eq!(
        cairo_runner.relocate_trace(&vm, &vec![1]),
        Err(TraceError::TraceNotEnabled)
    );
}

#[test]
fn write_output_from_preset_memory() {
    let program = program(vec![BuiltinName::output], Vec::new(), None);
    let mut cairo_runner = CairoRunner::new(program).unwrap();
    let mut vm = VirtualMachine::new(false);
    cairo_runner.initialize_builtins(&mut vm).unwrap();
    cairo_runner.initialize_segments(&mut vm, None);
    assert_eq!(vm.builtin_runners[0].name(), "output");
    assert_eq!(vm.builtin_runners[0].base(), 2);
    vm.memory = memory_from(vec![((2, 0), num(1)), ((2, 1), num(2))]);
    vm.segments.segment_used_sizes = Some(vec![0, 0, 2]);
    assert_eq!(cairo_runner.get_output(&mut vm), Ok(String::from("1\n2\n")));
}

#[test]
fn write_output_from_program() {
    let program = program(vec![BuiltinName::output], output_data(), Some(4));
    let mut cairo_runner = CairoRunner::new(program).unwrap();
    let mut vm = VirtualMachine::new(false);
    let end = cairo_runner.initialize(&mut vm).unwrap();
    assert_eq!(cairo_runner.run_until_pc(end, &mut vm), Ok(()));
    assert_eq!(cairo_runner.get_output(&mut vm), Ok(String::from("1\n17\n")));
}

#[test]
fn write_output_from_preset_memory_neg_output() {
    let program = program(vec![BuiltinName::output], Vec::new(), None);
    let mut cairo_runner = CairoRunner::new(program).unwrap();
    let mut vm = VirtualMachine::new(false);
    cairo_runner.initialize_builtins(&mut vm).unwrap();
    cairo_runner.initialize_segments(&mut vm, None);
    assert_eq!(vm.builtin_runners[0].name(), "output");
    assert_eq!(vm.builtin_runners[0].base(), 2);
    vm.memory = memory_from(vec![(
        (2, 0),
        word("3270867057177188607814717243084834301278723532952411121381966378910183338911"),
    )]);
    vm.segments.segment_used_sizes = Some(vec![0, 0, 1]);
    assert_eq!(
        cairo_runner.get_output(&mut vm),
        Ok(String::from(
            "3270867057177188607814717243084834301278723532952411121381966378910183338911\n"
        ))
    );
}

#[test]
fn write_output_without_output_builtin() {
    let program = program(vec![BuiltinName::range_check], Vec::new(), None);
    let mut cairo_runner = CairoRunner::new(program).unwrap();
    let mut vm = VirtualMachine::new(false);
    cairo_runner.initialize_builtins(&mut vm).unwrap();
    assert_eq!(cairo_runner.get_output(&mut vm), Ok(String::new()));
}

#[test]
fn insert_all_builtins_in_order() {
    let program = program(
        vec![
            BuiltinName::output,
            BuiltinName::pedersen,
            BuiltinName::range_check,
            BuiltinName::bitwise,
            BuiltinName::ec_op,
        ],
        Vec::new(),
        None,
    );
    let cairo_runner = CairoRunner::new(program).unwrap();
    let mut vm = VirtualMachine::new(false);
    cairo_runner.initialize_builtins(&mut vm).unwrap();
    assert_eq!(vm.builtin_runners[0].name(), "output");
    assert_eq!(vm.builtin_runners[1].name(), "pedersen");
    assert_eq!(vm.builtin_runners[2].name(), "range_check");
    assert_eq!(vm.builtin_runners[3].name(), "bitwise");
    assert_eq!(vm.builtin_runners[4].name(), "ec_op");
}

#[test]
fn mark_as_accessed_missing_accessed_addresses() {
    let program = program(Vec::new(), Vec::new(), None);
    let mut cairo_runner = CairoRunner::new(program).unwrap();
    cairo_runner.accessed_addresses = Some(Vec::new());
    cairo_runner.mark_as_accessed((0, 0).into(), 3).unwrap();
    cairo_runner.mark_as_accessed((0, 10).into(), 2).unwrap();
    cairo_runner.mark_as_accessed((1, 1).into(), 1).unwrap();
    assert_eq!(
        cairo_runner.accessed_addresses,
        Some(vec![
            (0, 0).into(),
            (0, 1).into(),
            (0, 2).into(),
            (0, 10).into(),
            (0, 11).into(),
            (1, 1).into(),
        ])
    );
}

#[test]
fn mark_as_accessed() {
    let program = program(Vec::new(), Vec::new(), None);
    let mut cairo_runner = CairoRunner::new(program).unwrap();
    assert_eq!(
        cairo_runner.mark_as_accessed((0, 0).into(), 3),
        Err(VirtualMachineError::RunNotFinished)
    );
}

#[test]
fn run_with_hash_builtin_deduces_the_digest() {
    // [ap] = 32; ap++   [ap] = 72; ap++  and a read of the third cell of the
    // first instance through the builtin pointer at [fp - 3].
    let program = program(vec![BuiltinName::pedersen], Vec::new(), None);
    let cairo_runner = CairoRunner::new(program).unwrap();
    let mut vm = VirtualMachine::new(false);
    cairo_runner.initialize_builtins(&mut vm).unwrap();
    for _ in 0..3 {
        vm.segments.add(&mut vm.memory);
    }
    match &mut vm.builtin_runners[0] {
        cairo_vm::vm::runners::builtin_runner::BuiltinRunner::Hash(b) => b.base = 2,
        _ => panic!("expected the hash builtin"),
    }
    vm.memory.insert(relocatable(2, 0), num(32)).unwrap();
    vm.memory.insert(relocatable(2, 1), num(72)).unwrap();
    let digest = vm.deduce_memory_cell(&relocatable(2, 2)).unwrap();
    assert_eq!(
        digest,
        Some(word(
            "3270867057177188607814717243084834301278723532952411121381966378910183338911"
        ))
    );
    assert_eq!(vm.deduce_memory_cell(&relocatable(2, 2)), Ok(None));
    assert_eq!(vm.deduce_memory_cell(&relocatable(1, 2)), Ok(None));
}

#[test]
fn get_constants() {
    let program_constants = vec![
        ("MAX".to_string(), Felt252::new(300)),
        ("MIN".to_string(), Felt252::new(20)),
    ];
    let mut program = program(Vec::new(), Vec::new(), None);
    program.constants = program_constants.clone();
    let cairo_runner = CairoRunner::new(program).unwrap();
    assert_eq!(cairo_runner.get_constants(), &program_constants);
}

#[test]
fn get_memory_holes_missing_accessed_addresses() {
    let program = program(Vec::new(), Vec::new(), None);
    let cairo_runner = CairoRunner::new(program).unwrap();
    let vm = VirtualMachine::new(false);

    assert_eq!(
        cairo_runner.get_memory_holes(&vm),
        Err(MemoryError::MissingAccessedAddresses),
    );
}

#[test]
fn get_memory_holes_missing_segment_used_sizes() {
    let program = program(Vec::new(), Vec::new(), None);
    let mut cairo_runner = CairoRunner::new(program).unwrap();
    let mut vm = VirtualMachine::new(false);

    cairo_runner.accessed_addresses = Some(Vec::new());
    vm.builtin_runners = Vec::new();
    assert_eq!(
        cairo_runner.get_memory_holes(&vm),
        Err(MemoryError::MissingSegmentUsedSizes),
    );
}

#[test]
fn get_memory_holes_empty() {
    let program = program(Vec::new(), Vec::new(), None);
    let mut cairo_runner = CairoRunner::new(program).unwrap();
    let mut vm = VirtualMachine::new(false);

    cairo_runner.accessed_addresses = Some(Vec::new());
    vm.builtin_runners = Vec::new();
    vm.segments.segment_used_sizes = Some(Vec::new());
    assert_eq!(cairo_runner.get_memory_holes(&vm), Ok(0));
}

#[test]
fn get_memory_holes_empty_builtins() {
    let program = program(Vec::new(), Vec::new(), None);
    let mut cairo_runner = CairoRunner::new(program).unwrap();
    let mut vm = VirtualMachine::new(false);

    cairo_runner.accessed_addresses = Some([(0, 0).into(), (0, 2).into()].into_iter().collect());
    vm.builtin_runners = Vec::new();
    vm.segments.segment_used_sizes = Some(vec![4]);
    assert_eq!(cairo_runner.get_memory_holes(&vm), Ok(2));
}

#[test]
fn get_memory_holes_empty_accesses() {
    let program = program(Vec::new(), Vec::new(), None);
    let mut cairo_runner = CairoRunner::new(program).unwrap();
    let mut vm = VirtualMachine::new(false);

    cairo_runner.accessed_addresses = Some(Vec::new());
    vm.builtin_runners = vec![{
        let mut builtin_runner = OutputBuiltinRunner::new(true);
        builtin_runner.initialize_segments(&mut vm.segments, &mut vm.memory);

        BuiltinRunner::Output(builtin_runner)
    }];
    vm.segments.segment_used_sizes = Some(vec![4]);
    assert_eq!(cairo_runner.get_memory_holes(&vm), Ok(0));
}

#[test]
fn get_memory_holes() {
    let program = program(Vec::new(), Vec::new(), None);
    let mut cairo_runner = CairoRunner::new(program).unwrap();
    let mut vm = VirtualMachine::new(false);

    cairo_runner.accessed_addresses = Some([(1, 0).into(), (1, 2).into()].into_iter().collect());
    vm.builtin_runners = vec![{
        let mut builtin_runner = OutputBuiltinRunner::new(true);
        builtin_runner.initialize_segments(&mut vm.segments, &mut vm.memory);

        BuiltinRunner::Output(builtin_runner)
    }];
    vm.segments.segment_used_sizes = Some(vec![4, 4]);
    assert_eq!(cairo_runner.get_memory_holes(&vm), Ok(2));
}

#[test]
fn memory_holes_count_an_address_once() {
    let mut vm = VirtualMachine::new(false);
    vm.segments.segment_used_sizes = Some(vec![4, 3, 5]);
    let accessed: Vec<Relocatable> = vec![
        (0, 0).into(),
        (0, 0).into(),
        (2, 4).into(),
        (0, 3).into(),
        (2, 4).into(),
    ];
    // segment 0: 4 cells, 2 accessed; segment 1: untouched; segment 2: 5 cells, 1 accessed
    assert_eq!(vm.segments.get_memory_holes(&accessed), Ok(6));
}

#[test]
fn memory_holes_faulty_addresses() {
    let mut vm = VirtualMachine::new(false);
    vm.segments.segment_used_sizes = Some(vec![2]);
    assert_eq!(
        vm.segments.get_memory_holes(&vec![(0, 1).into(), (1, 0).into()]),
        Err(MemoryError::SegmentNotFinalized(1))
    );
    assert_eq!(
        vm.segments.get_memory_holes(&vec![(0, 3).into()]),
        Err(MemoryError::AccessedAddressOffsetBiggerThanSegmentSize((0, 3).into(), 2))
    );
    assert_eq!(
        vm.segments.get_memory_holes(&vec![(-1, 0).into()]),
        Err(MemoryError::AddressInTemporarySegment(-1))
    );
    assert_eq!(
        vm.segments.get_memory_holes(&vec![(0, 0).into(), (0, 1).into(), (0, 2).into()]),
        Err(MemoryError::SegmentHasMoreAccessedAddressesThanSize(0, 2, 3))
    );
}

#[test]
fn references_as_the_hints_use_them() {
    let mut program = program(Vec::new(), Vec::new(), None);
    program.shared_program_data.reference_manager = ReferenceManager {
        references: vec![
            Reference {
                ap_tracking_data: ApTracking { group: 1, offset: 2 },
                pc: Some(0),
                value_address: ValueAddress {
                    offset1: OffsetValue::Reference(Register::FP, -3, true),
                    offset2: OffsetValue::Value(2),
                    dereference: true,
                    value_type: String::from("felt"),
                },
            },
            Reference {
                ap_tracking_data: ApTracking { group: 3, offset: 4 },
                pc: None,
                value_address: ValueAddress {
                    offset1: OffsetValue::Reference(Register::AP, 1, false),
                    offset2: OffsetValue::Value(0),
                    dereference: false,
                    value_type: String::from("felt*"),
                },
            },
        ],
    };
    let cairo_runner = CairoRunner::new(program).unwrap();
    assert_eq!(
        cairo_runner.get_reference_list(),
        vec![
            HintReference {
                offset1: OffsetValue::Reference(Register::FP, -3, true),
                offset2: OffsetValue::Value(2),
                dereference: true,
                ap_tracking_data: None,
                cairo_type: Some(String::from("felt")),
            },
            HintReference {
                offset1: OffsetValue::Reference(Register::AP, 1, false),
                offset2: OffsetValue::Value(0),
                dereference: false,
                ap_tracking_data: Some(ApTracking { group: 3, offset: 4 }),
                cairo_type: Some(String::from("felt*")),
            },
        ]
    );
}

#[test]
fn initialize_registers_the_range_check_rule_with_its_bound() {
    let program = program(
        vec![BuiltinName::output, BuiltinName::range_check],
        output_range_check_data(),
        Some(8),
    );
    let mut cairo_runner = CairoRunner::new(program).unwrap();
    let mut vm = VirtualMachine::new(false);
    cairo_runner.initialize(&mut vm).unwrap();
    assert_eq!(vm.builtin_runners[1].name(), "range_check");
    assert_eq!(vm.builtin_runners[1].base(), 3);
    let below = felt_str("340282366920938463463374607431768211455");
    let bound = felt_str("340282366920938463463374607431768211456");
    assert_eq!(
        vm.memory.insert(relocatable(3, 0), MaybeRelocatable::Int(below)),
        Ok(())
    );
    assert_eq!(
        vm.memory.insert(relocatable(3, 1), MaybeRelocatable::Int(bound)),
        Err(MemoryError::NumOutOfBounds)
    );
    assert_eq!(
        vm.memory.insert(relocatable(3, 2), rel(1, 0)),
        Err(MemoryError::FoundNonInt)
    );
    assert_eq!(vm.memory.insert(relocatable(2, 0), MaybeRelocatable::Int(bound)), Ok(()));
}

#[test]
fn initialize_vm_refuses_a_rule_in_a_temporary_segment() {
    let program = program(vec![BuiltinName::range_check], range_check_data(), Some(8));
    let mut cairo_runner = CairoRunner::new(program).unwrap();
    let mut vm = VirtualMachine::new(false);
    cairo_runner.initialize_builtins(&mut vm).unwrap();
    cairo_runner.initialize_segments(&mut vm, None);
    cairo_runner.initial_pc = Some(relocatable(0, 0));
    cairo_runner.initial_ap = Some(relocatable(1, 0));
    cairo_runner.initial_fp = Some(relocatable(1, 0));
    match &mut vm.builtin_runners[0] {
        BuiltinRunner::RangeCheck(runner) => runner.base = -1,
        _ => panic!("the range check comes first"),
    }
    assert_eq!(
        cairo_runner.initialize_vm(&mut vm),
        Err(RunnerError::RunnerInTemporarySegment(-1))
    );
    assert_eq!(vm.run_context.pc, relocatable(0, 0));
}

#[test]
fn relocate_lays_memory_out_by_the_sizes_of_the_segments() {
    let program = program(vec![BuiltinName::range_check], range_check_data(), Some(8));
    let mut cairo_runner = CairoRunner::new(program).unwrap();
    let mut vm = VirtualMachine::new(true);
    let end = cairo_runner.initialize(&mut vm).unwrap();
    assert_eq!(cairo_runner.run_until_pc(end, &mut vm), Ok(()));
    assert_eq!(cairo_runner.relocate(&mut vm), Ok(()));
    let sizes = vm.segments.segment_used_sizes.clone().unwrap();
    let total: usize = sizes.iter().sum();
    assert_eq!(cairo_runner.relocated_memory.len(), total + 1);
    assert_eq!(cairo_runner.relocated_memory[0], None);
    let range_check_base = 1 + sizes[0] + sizes[1];
    assert_eq!(cairo_runner.relocated_memory[range_check_base], Some(Felt252::new(7)));
    let trace = cairo_runner.relocated_trace.as_ref().unwrap();
    assert_eq!(trace.len(), 10);
    assert_eq!(trace[0], RelocatedTraceEntry { pc: 9, ap: sizes[0] + 4, fp: sizes[0] + 4 });
}
