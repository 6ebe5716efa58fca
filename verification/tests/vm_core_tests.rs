use cairo_vm::felt::Felt252;
use cairo_vm::types::errors::math_errors::MathError;
use cairo_vm::types::errors::memory_errors::MemoryError;
use cairo_vm::types::instruction::{
    ApUpdate, FpUpdate, Instruction, Op1Addr, Opcode, PcUpdate, Register, Res,
};
use cairo_vm::types::relocatable::{MaybeRelocatable, Relocatable};
use cairo_vm::vm::decoding::decoder::decode_instruction;
use cairo_vm::vm::errors::vm_errors::VirtualMachineError;
use cairo_vm::vm::vm_core::{move_by, Operands, RunContext, TraceEntry, VirtualMachine};

fn num(value: i128) -> MaybeRelocatable {
    MaybeRelocatable::Int(Felt252::new(value))
}

fn rel(segment_index: isize, offset: usize) -> MaybeRelocatable {
    MaybeRelocatable::from((segment_index, offset))
}

fn at(segment_index: isize, offset: usize) -> Relocatable {
    Relocatable { segment_index, offset }
}

fn instruction() -> Instruction {
    Instruction {
        off0: 0,
        off1: 0,
        off2: 0,
        dst_register: Register::AP,
        op0_register: Register::AP,
        op1_addr: Op1Addr::AP,
        res: Res::Op1,
        pc_update: PcUpdate::Regular,
        ap_update: ApUpdate::Regular,
        fp_update: FpUpdate::Regular,
        opcode: Opcode::NOp,
    }
}

fn operands(dst: MaybeRelocatable, res: Option<MaybeRelocatable>, op0: MaybeRelocatable, op1: MaybeRelocatable) -> Operands {
    Operands { dst, res, op0, op1 }
}

fn machine(segments: usize, cells: Vec<((isize, usize), MaybeRelocatable)>) -> VirtualMachine {
    let mut vm = VirtualMachine::new(true);
    for _ in 0..segments {
        vm.segments.add(&mut vm.memory);
    }
    for (key, value) in cells {
        vm.memory.insert(Relocatable::from(key), value).unwrap();
    }
    vm
}

// The flags of an instruction word, from the lowest bit: the register of the
// destination, the register of the first operand, three bits for the source of
// the second operand, two for the result, three for the program counter, two
// for the allocation pointer, three for the opcode.

#[test]
fn decode_call_add_jump_add_imm_fp_fp() {
    let inst = decode_instruction(0x14A7800080008000).unwrap();
    assert_eq!(inst.dst_register, Register::FP);
    assert_eq!(inst.op0_register, Register::FP);
    assert_eq!(inst.op1_addr, Op1Addr::Imm);
    assert_eq!(inst.res, Res::Add);
    assert_eq!(inst.pc_update, PcUpdate::Jump);
    assert_eq!(inst.ap_update, ApUpdate::Add);
    assert_eq!(inst.opcode, Opcode::Call);
    assert_eq!(inst.fp_update, FpUpdate::APPlus2);
    assert_eq!((inst.off0, inst.off1, inst.off2), (0, 0, 0));
    assert_eq!(inst.size(), 2);
}

#[test]
fn decode_ret_add1_jump_rel_mul_fp_ap_ap() {
    let inst = decode_instruction(0x2948800080008000).unwrap();
    assert_eq!(inst.dst_register, Register::AP);
    assert_eq!(inst.op0_register, Register::AP);
    assert_eq!(inst.op1_addr, Op1Addr::FP);
    assert_eq!(inst.res, Res::Mul);
    assert_eq!(inst.pc_update, PcUpdate::JumpRel);
    assert_eq!(inst.ap_update, ApUpdate::Add1);
    assert_eq!(inst.opcode, Opcode::Ret);
    assert_eq!(inst.fp_update, FpUpdate::Dst);
    assert_eq!(inst.size(), 1);
}

#[test]
fn decode_assert_eq_add1_jnz_mul_ap_ap_ap() {
    let inst = decode_instruction(0x4A50800080008000).unwrap();
    assert_eq!(inst.dst_register, Register::AP);
    assert_eq!(inst.op0_register, Register::AP);
    assert_eq!(inst.op1_addr, Op1Addr::AP);
    assert_eq!(inst.res, Res::Mul);
    assert_eq!(inst.pc_update, PcUpdate::Jnz);
    assert_eq!(inst.ap_update, ApUpdate::Add1);
    assert_eq!(inst.opcode, Opcode::AssertEq);
    assert_eq!(inst.fp_update, FpUpdate::Regular);
}

#[test]
fn decode_defaults() {
    // jnz without a result logic leaves the result unconstrained
    let inst = decode_instruction(0x4200800080008000).unwrap();
    assert_eq!(inst.op1_addr, Op1Addr::Op0);
    assert_eq!(inst.res, Res::Unconstrained);
    assert_eq!(inst.pc_update, PcUpdate::Jnz);
    assert_eq!(inst.ap_update, ApUpdate::Regular);
    assert_eq!(inst.opcode, Opcode::AssertEq);
    // a call without an update of the allocation pointer moves it by two
    let inst = decode_instruction(0x1104800180018000).unwrap();
    assert_eq!(inst.opcode, Opcode::Call);
    assert_eq!(inst.ap_update, ApUpdate::Add2);
    assert_eq!(inst.fp_update, FpUpdate::APPlus2);
    assert_eq!(inst.pc_update, PcUpdate::JumpRel);
    assert_eq!(inst.op1_addr, Op1Addr::Imm);
    assert_eq!((inst.off0, inst.off1, inst.off2), (0, 1, 1));
    // no flag at all
    let inst = decode_instruction(0x0000800080008000).unwrap();
    assert_eq!(inst, Instruction { op1_addr: Op1Addr::Op0, ..instruction() });
}

#[test]
fn decode_offsets() {
    let inst = decode_instruction(0x0000800180007FFF).unwrap();
    assert_eq!((inst.off0, inst.off1, inst.off2), (-1, 0, 1));
    let inst = decode_instruction(0x0000FFFF00008000).unwrap();
    assert_eq!((inst.off0, inst.off1, inst.off2), (0, -32768, 32767));
    // [ap] = 5; ap++
    let inst = decode_instruction(0x480680017fff8000).unwrap();
    assert_eq!((inst.off0, inst.off1, inst.off2), (0, -1, 1));
    assert_eq!(inst.dst_register, Register::AP);
    assert_eq!(inst.op0_register, Register::FP);
    assert_eq!(inst.op1_addr, Op1Addr::Imm);
    assert_eq!(inst.res, Res::Op1);
    assert_eq!(inst.ap_update, ApUpdate::Add1);
    assert_eq!(inst.opcode, Opcode::AssertEq);
}

#[test]
fn decode_errors() {
    assert_eq!(
        decode_instruction(0x8000_8000_8000_8000),
        Err(VirtualMachineError::InvalidInstructionEncoding)
    );
    assert_eq!(
        decode_instruction(0x000C_8000_8000_8000),
        Err(VirtualMachineError::InvalidOp1Reg(3))
    );
    assert_eq!(
        decode_instruction(0x0180_8000_8000_8000),
        Err(VirtualMachineError::InvalidPcUpdate(3))
    );
    assert_eq!(decode_instruction(0x0060_8000_8000_8000), Err(VirtualMachineError::InvalidRes(3)));
    assert_eq!(
        decode_instruction(0x3000_8000_8000_8000),
        Err(VirtualMachineError::InvalidOpcode(3))
    );
    assert_eq!(
        decode_instruction(0x0C00_8000_8000_8000),
        Err(VirtualMachineError::InvalidApUpdate(3))
    );
}

#[test]
fn operand_addresses() {
    let ctx = RunContext { pc: at(0, 4), ap: 5, fp: 6 };
    let inst = Instruction {
        off0: 1,
        off1: -2,
        off2: 3,
        dst_register: Register::FP,
        op0_register: Register::AP,
        op1_addr: Op1Addr::FP,
        ..instruction()
    };
    assert_eq!(ctx.compute_dst_addr(&inst), Ok(at(1, 7)));
    assert_eq!(ctx.compute_op0_addr(&inst), Ok(at(1, 3)));
    assert_eq!(ctx.compute_op1_addr(&inst, None), Ok(at(1, 9)));
    let inst = Instruction { op1_addr: Op1Addr::AP, off2: -5, ..inst };
    assert_eq!(ctx.compute_op1_addr(&inst, None), Ok(at(1, 0)));
    let inst = Instruction { op1_addr: Op1Addr::Imm, off2: 1, ..inst };
    assert_eq!(ctx.compute_op1_addr(&inst, None), Ok(at(0, 5)));
    let inst = Instruction { op1_addr: Op1Addr::Imm, off2: 2, ..inst };
    assert_eq!(ctx.compute_op1_addr(&inst, None), Err(VirtualMachineError::ImmShouldBe1));
    let inst = Instruction { op1_addr: Op1Addr::Op0, off2: 2, ..inst };
    assert_eq!(ctx.compute_op1_addr(&inst, Some(rel(3, 4))), Ok(at(3, 6)));
    assert_eq!(ctx.compute_op1_addr(&inst, None), Err(VirtualMachineError::UnknownOp0));
    assert_eq!(
        ctx.compute_op1_addr(&inst, Some(num(4))),
        Err(VirtualMachineError::Memory(MemoryError::AddressNotRelocatable))
    );
    let inst = Instruction { off0: -7, ..inst };
    assert_eq!(
        ctx.compute_dst_addr(&inst),
        Err(VirtualMachineError::Math(MathError::RelocatableSubNegOffset(at(1, 6), 7)))
    );
    assert_eq!(ctx.get_ap(), at(1, 5));
    assert_eq!(ctx.get_fp(), at(1, 6));
    assert_eq!(ctx.get_pc(), at(0, 4));
}

#[test]
fn first_operand_is_deduced() {
    let mut vm = VirtualMachine::new(false);
    vm.run_context = RunContext { pc: at(0, 4), ap: 5, fp: 6 };
    let call = Instruction { opcode: Opcode::Call, op1_addr: Op1Addr::Imm, ..instruction() };
    assert_eq!(vm.deduce_op0(&call, None, None), Ok((Some(rel(0, 6)), None)));
    let call = Instruction { opcode: Opcode::Call, ..instruction() };
    assert_eq!(vm.deduce_op0(&call, None, None), Ok((Some(rel(0, 5)), None)));
    let add = Instruction { opcode: Opcode::AssertEq, res: Res::Add, ..instruction() };
    assert_eq!(vm.deduce_op0(&add, Some(num(7)), Some(num(3))), Ok((Some(num(4)), Some(num(7)))));
    assert_eq!(
        vm.deduce_op0(&add, Some(rel(1, 10)), Some(num(3))),
        Ok((Some(rel(1, 7)), Some(rel(1, 10))))
    );
    assert_eq!(
        vm.deduce_op0(&add, Some(rel(1, 10)), Some(rel(1, 4))),
        Ok((Some(num(6)), Some(rel(1, 10))))
    );
    assert_eq!(
        vm.deduce_op0(&add, Some(rel(1, 10)), Some(rel(2, 4))),
        Err(VirtualMachineError::Math(MathError::RelocatableSubDiffIndex(at(1, 10), at(2, 4))))
    );
    assert_eq!(vm.deduce_op0(&add, None, Some(num(3))), Ok((None, None)));
    assert_eq!(vm.deduce_op0(&add, Some(num(3)), None), Ok((None, None)));
    let mul = Instruction { opcode: Opcode::AssertEq, res: Res::Mul, ..instruction() };
    assert_eq!(vm.deduce_op0(&mul, Some(num(6)), Some(num(3))), Ok((Some(num(2)), Some(num(6)))));
    assert_eq!(
        vm.deduce_op0(&mul, Some(num(7)), Some(num(3))),
        Ok((
            Some(MaybeRelocatable::Int(Felt252::new(7).div(&Felt252::new(3)).unwrap())),
            Some(num(7))
        ))
    );
    assert_eq!(vm.deduce_op0(&mul, Some(num(6)), Some(num(0))), Ok((None, None)));
    assert_eq!(vm.deduce_op0(&mul, Some(rel(1, 6)), Some(num(3))), Ok((None, None)));
    let op1 = Instruction { opcode: Opcode::AssertEq, res: Res::Op1, ..instruction() };
    assert_eq!(vm.deduce_op0(&op1, Some(num(6)), Some(num(3))), Ok((None, None)));
    assert_eq!(vm.deduce_op0(&instruction(), Some(num(6)), Some(num(3))), Ok((None, None)));
    let ret = Instruction { opcode: Opcode::Ret, ..instruction() };
    assert_eq!(vm.deduce_op0(&ret, Some(num(6)), Some(num(3))), Ok((None, None)));
}

#[test]
fn second_operand_is_deduced() {
    let vm = VirtualMachine::new(false);
    let op1 = Instruction { opcode: Opcode::AssertEq, res: Res::Op1, ..instruction() };
    assert_eq!(vm.deduce_op1(&op1, Some(num(7)), None), Ok((Some(num(7)), Some(num(7)))));
    assert_eq!(vm.deduce_op1(&op1, None, Some(num(7))), Ok((None, None)));
    let add = Instruction { opcode: Opcode::AssertEq, res: Res::Add, ..instruction() };
    assert_eq!(vm.deduce_op1(&add, Some(num(7)), Some(num(4))), Ok((Some(num(3)), Some(num(7)))));
    assert_eq!(vm.deduce_op1(&add, Some(num(3)), Some(num(4))), Ok((Some(num(-1)), Some(num(3)))));
    assert_eq!(
        vm.deduce_op1(&add, Some(num(7)), Some(rel(1, 4))),
        Err(VirtualMachineError::Math(MathError::SubRelocatableFromInt(
            Felt252::new(7),
            at(1, 4)
        )))
    );
    assert_eq!(vm.deduce_op1(&add, Some(num(7)), None), Ok((None, None)));
    let mul = Instruction { opcode: Opcode::AssertEq, res: Res::Mul, ..instruction() };
    assert_eq!(vm.deduce_op1(&mul, Some(num(12)), Some(num(4))), Ok((Some(num(3)), Some(num(12)))));
    assert_eq!(vm.deduce_op1(&mul, Some(num(12)), Some(num(0))), Ok((None, None)));
    assert_eq!(vm.deduce_op1(&instruction(), Some(num(12)), Some(num(4))), Ok((None, None)));
    let call = Instruction { opcode: Opcode::Call, ..instruction() };
    assert_eq!(vm.deduce_op1(&call, Some(num(12)), Some(num(4))), Ok((None, None)));
}

#[test]
fn results_of_instructions() {
    let vm = VirtualMachine::new(false);
    let op1 = instruction();
    assert_eq!(vm.compute_res(&op1, &num(2), &num(3)), Ok(Some(num(3))));
    let add = Instruction { res: Res::Add, ..instruction() };
    assert_eq!(vm.compute_res(&add, &num(2), &num(3)), Ok(Some(num(5))));
    assert_eq!(vm.compute_res(&add, &num(-2), &num(3)), Ok(Some(num(1))));
    assert_eq!(vm.compute_res(&add, &rel(1, 2), &num(3)), Ok(Some(rel(1, 5))));
    assert_eq!(vm.compute_res(&add, &num(3), &rel(1, 2)), Ok(Some(rel(1, 5))));
    assert_eq!(
        vm.compute_res(&add, &rel(1, 2), &rel(1, 3)),
        Err(VirtualMachineError::Math(MathError::RelocatableAdd(at(1, 2), at(1, 3))))
    );
    assert_eq!(
        vm.compute_res(&add, &rel(1, 2), &num(-1)),
        Err(VirtualMachineError::Math(MathError::RelocatableAddFelt252OffsetExceeded(
            at(1, 2),
            Felt252::new(-1)
        )))
    );
    assert_eq!(
        vm.compute_res(&add, &rel(1, 2), &num(-3)),
        Err(VirtualMachineError::Math(MathError::RelocatableAddFelt252OffsetExceeded(
            at(1, 2),
            Felt252::new(-3)
        )))
    );
    let mul = Instruction { res: Res::Mul, ..instruction() };
    assert_eq!(vm.compute_res(&mul, &num(2), &num(3)), Ok(Some(num(6))));
    assert_eq!(vm.compute_res(&mul, &num(-1), &num(-1)), Ok(Some(num(1))));
    assert_eq!(
        vm.compute_res(&mul, &rel(1, 2), &num(3)),
        Err(VirtualMachineError::Math(MathError::DivModWrongType(rel(1, 2), num(3))))
    );
    let free = Instruction { res: Res::Unconstrained, ..instruction() };
    assert_eq!(vm.compute_res(&free, &num(2), &num(3)), Ok(None));
}

#[test]
fn destination_is_deduced() {
    let mut vm = VirtualMachine::new(false);
    vm.run_context = RunContext { pc: at(0, 4), ap: 5, fp: 6 };
    let assert_eq = Instruction { opcode: Opcode::AssertEq, ..instruction() };
    assert_eq!(vm.deduce_dst(&assert_eq, Some(num(9))), Some(num(9)));
    assert_eq!(vm.deduce_dst(&assert_eq, None), None);
    let call = Instruction { opcode: Opcode::Call, ..instruction() };
    assert_eq!(vm.deduce_dst(&call, None), Some(rel(1, 6)));
    assert_eq!(vm.deduce_dst(&instruction(), Some(num(9))), None);
    let ret = Instruction { opcode: Opcode::Ret, ..instruction() };
    assert_eq!(vm.deduce_dst(&ret, Some(num(9))), None);
}

#[test]
fn assertions_of_the_opcodes() {
    let mut vm = VirtualMachine::new(false);
    vm.run_context = RunContext { pc: at(0, 4), ap: 5, fp: 6 };
    let assert_eq = Instruction { opcode: Opcode::AssertEq, ..instruction() };
    assert_eq!(
        vm.opcode_assertions(&assert_eq, &operands(num(8), Some(num(8)), num(1), num(8))),
        Ok(())
    );
    assert_eq!(
        vm.opcode_assertions(&assert_eq, &operands(num(8), None, num(1), num(8))),
        Err(VirtualMachineError::UnconstrainedResAssertEq)
    );
    assert_eq!(
        vm.opcode_assertions(&assert_eq, &operands(num(8), Some(num(9)), num(1), num(8))),
        Err(VirtualMachineError::DiffAssertValues(num(8), num(9)))
    );
    assert_eq!(
        vm.opcode_assertions(&assert_eq, &operands(rel(1, 1), Some(rel(1, 2)), num(1), num(8))),
        Err(VirtualMachineError::DiffAssertValues(rel(1, 1), rel(1, 2)))
    );
    let call = Instruction { opcode: Opcode::Call, ..instruction() };
    assert_eq!(
        vm.opcode_assertions(&call, &operands(rel(1, 6), None, rel(0, 5), num(8))),
        Ok(())
    );
    assert_eq!(
        vm.opcode_assertions(&call, &operands(rel(1, 6), None, num(9), num(8))),
        Err(VirtualMachineError::CantWriteReturnPc(num(9), rel(0, 5)))
    );
    assert_eq!(
        vm.opcode_assertions(&call, &operands(num(6), None, rel(0, 5), num(8))),
        Err(VirtualMachineError::CantWriteReturnFp(num(6), rel(1, 6)))
    );
    assert_eq!(
        vm.opcode_assertions(&instruction(), &operands(num(6), None, num(5), num(8))),
        Ok(())
    );
    let ret = Instruction { opcode: Opcode::Ret, ..instruction() };
    assert_eq!(vm.opcode_assertions(&ret, &operands(num(6), None, num(5), num(8))), Ok(()));
}

fn updated(inst: &Instruction, ops: &Operands) -> Result<RunContext, VirtualMachineError> {
    let mut vm = VirtualMachine::new(false);
    vm.run_context = RunContext { pc: at(0, 4), ap: 5, fp: 6 };
    vm.update_registers(inst, ops).map(|()| vm.run_context)
}

#[test]
fn registers_after_an_instruction() {
    let ops = operands(num(11), Some(num(8)), num(9), num(10));
    assert_eq!(updated(&instruction(), &ops), Ok(RunContext { pc: at(0, 5), ap: 5, fp: 6 }));
    let imm = Instruction { op1_addr: Op1Addr::Imm, ..instruction() };
    assert_eq!(updated(&imm, &ops), Ok(RunContext { pc: at(0, 6), ap: 5, fp: 6 }));
    let add1 = Instruction { ap_update: ApUpdate::Add1, ..instruction() };
    assert_eq!(updated(&add1, &ops), Ok(RunContext { pc: at(0, 5), ap: 6, fp: 6 }));
    let add2 = Instruction { ap_update: ApUpdate::Add2, ..instruction() };
    assert_eq!(updated(&add2, &ops), Ok(RunContext { pc: at(0, 5), ap: 7, fp: 6 }));
    let add = Instruction { ap_update: ApUpdate::Add, ..instruction() };
    assert_eq!(updated(&add, &ops), Ok(RunContext { pc: at(0, 5), ap: 13, fp: 6 }));
    let plus2 = Instruction { fp_update: FpUpdate::APPlus2, ..instruction() };
    assert_eq!(updated(&plus2, &ops), Ok(RunContext { pc: at(0, 5), ap: 5, fp: 7 }));
    let dst = Instruction { fp_update: FpUpdate::Dst, ..instruction() };
    assert_eq!(updated(&dst, &ops), Ok(RunContext { pc: at(0, 5), ap: 5, fp: 11 }));
    let to = operands(rel(1, 3), Some(rel(0, 9)), num(9), num(10));
    assert_eq!(updated(&dst, &to), Ok(RunContext { pc: at(0, 5), ap: 5, fp: 3 }));
    let jump = Instruction { pc_update: PcUpdate::Jump, ..instruction() };
    assert_eq!(updated(&jump, &to), Ok(RunContext { pc: at(0, 9), ap: 5, fp: 6 }));
    let jump_rel = Instruction { pc_update: PcUpdate::JumpRel, ..instruction() };
    assert_eq!(updated(&jump_rel, &ops), Ok(RunContext { pc: at(0, 12), ap: 5, fp: 6 }));
    let back = operands(num(11), Some(num(-3)), num(9), num(10));
    assert_eq!(updated(&jump_rel, &back), Ok(RunContext { pc: at(0, 1), ap: 5, fp: 6 }));
    let jnz = Instruction { pc_update: PcUpdate::Jnz, ..instruction() };
    assert_eq!(updated(&jnz, &ops), Ok(RunContext { pc: at(0, 14), ap: 5, fp: 6 }));
    let zero = operands(num(0), Some(num(8)), num(9), num(10));
    assert_eq!(updated(&jnz, &zero), Ok(RunContext { pc: at(0, 5), ap: 5, fp: 6 }));
    let address = operands(rel(1, 0), Some(num(8)), num(9), num(10));
    assert_eq!(updated(&jnz, &address), Ok(RunContext { pc: at(0, 14), ap: 5, fp: 6 }));
}

#[test]
fn registers_that_cannot_be_settled() {
    let ops = operands(num(11), None, num(9), num(10));
    let add = Instruction { ap_update: ApUpdate::Add, ..instruction() };
    assert_eq!(updated(&add, &ops), Err(VirtualMachineError::UnconstrainedResAdd));
    let jump = Instruction { pc_update: PcUpdate::Jump, ..instruction() };
    assert_eq!(updated(&jump, &ops), Err(VirtualMachineError::UnconstrainedResJump));
    let jump_rel = Instruction { pc_update: PcUpdate::JumpRel, ..instruction() };
    assert_eq!(updated(&jump_rel, &ops), Err(VirtualMachineError::UnconstrainedResJump));
    let int = operands(num(11), Some(num(8)), num(9), num(10));
    assert_eq!(updated(&jump, &int), Err(VirtualMachineError::JumpAbsNotRelocatable));
    let address = operands(num(11), Some(rel(0, 8)), num(9), num(10));
    assert_eq!(updated(&jump_rel, &address), Err(VirtualMachineError::JumpRelNotInt));
    assert_eq!(
        updated(&add, &address),
        Err(VirtualMachineError::Math(MathError::RelocatableAdd(at(1, 5), at(0, 8))))
    );
    let dst = Instruction { fp_update: FpUpdate::Dst, ..instruction() };
    let huge = operands(num(-1), Some(num(8)), num(9), num(10));
    assert_eq!(
        updated(&dst, &huge),
        Err(VirtualMachineError::Math(MathError::Felt252ToUsizeConversion(Felt252::new(-1))))
    );
    let jnz = Instruction { pc_update: PcUpdate::Jnz, ..instruction() };
    let to_address = operands(num(1), Some(num(8)), num(9), rel(0, 3));
    assert_eq!(
        updated(&jnz, &to_address),
        Err(VirtualMachineError::Math(MathError::RelocatableAdd(at(0, 4), at(0, 3))))
    );
}

#[test]
fn zero_for_a_conditional_jump() {
    assert!(VirtualMachine::is_zero(&num(0)));
    assert!(!VirtualMachine::is_zero(&num(1)));
    assert!(!VirtualMachine::is_zero(&num(-1)));
    assert!(!VirtualMachine::is_zero(&rel(0, 0)));
}

#[test]
fn one_step_writes_an_immediate() {
    // [ap] = 5; ap++
    let mut vm = machine(
        2,
        vec![
            ((0, 0), num(0x480680017fff8000)),
            ((0, 1), num(5)),
            ((1, 0), rel(2, 0)),
            ((1, 1), rel(3, 0)),
        ],
    );
    vm.run_context = RunContext { pc: at(0, 0), ap: 2, fp: 2 };
    assert_eq!(vm.step_instruction(), Ok(()));
    assert_eq!(vm.run_context, RunContext { pc: at(0, 2), ap: 3, fp: 2 });
    assert_eq!(vm.memory.get(&at(1, 2)), Some(num(5)));
    assert_eq!(vm.current_step, 1);
    assert_eq!(vm.trace, Some(vec![TraceEntry { pc: at(0, 0), ap: at(1, 2), fp: at(1, 2) }]));
    // without a frame the first operand has no address
    let mut vm = machine(2, vec![((0, 0), num(0x480680017fff8000)), ((0, 1), num(5))]);
    assert_eq!(
        vm.step_instruction(),
        Err(VirtualMachineError::Math(MathError::RelocatableSubNegOffset(at(1, 0), 1)))
    );
}

#[test]
fn one_step_on_operands_in_memory() {
    // [ap] = 5; ap++ with the destination written already
    let mut vm = machine(
        2,
        vec![((0, 0), num(0x480680017fff8000)), ((0, 1), num(5)), ((1, 0), num(5)), ((1, 1), num(9))],
    );
    vm.run_context = RunContext { pc: at(0, 0), ap: 0, fp: 2 };
    let before = vm.memory.data.clone();
    assert_eq!(vm.step_instruction(), Ok(()));
    assert_eq!(vm.run_context, RunContext { pc: at(0, 2), ap: 1, fp: 2 });
    assert_eq!(vm.memory.data, before);
    // the same with another value in the destination
    let mut vm = machine(
        2,
        vec![((0, 0), num(0x480680017fff8000)), ((0, 1), num(5)), ((1, 0), num(6)), ((1, 1), num(9))],
    );
    vm.run_context = RunContext { pc: at(0, 0), ap: 0, fp: 2 };
    assert_eq!(vm.step_instruction(), Err(VirtualMachineError::DiffAssertValues(num(6), num(5))));
    assert_eq!(vm.run_context, RunContext { pc: at(0, 0), ap: 0, fp: 2 });
    assert_eq!(vm.current_step, 0);
    assert_eq!(vm.trace, Some(Vec::new()));
}

#[test]
fn steps_that_cannot_start() {
    let mut vm = machine(2, vec![((0, 0), rel(1, 0))]);
    assert_eq!(vm.step_instruction(), Err(VirtualMachineError::InstructionNonInt(at(0, 0))));
    let mut vm = machine(2, Vec::new());
    assert_eq!(vm.step_instruction(), Err(VirtualMachineError::InstructionNonInt(at(0, 0))));
    let mut vm = machine(2, vec![((0, 0), num(-1))]);
    assert_eq!(vm.step_instruction(), Err(VirtualMachineError::InvalidInstructionEncoding));
    let mut vm = machine(2, vec![((0, 0), num(0x8000_8000_8000_8000))]);
    assert_eq!(vm.step_instruction(), Err(VirtualMachineError::InvalidInstructionEncoding));
    let mut vm = machine(2, vec![((0, 0), num(0x480680017fff8000)), ((0, 1), num(5))]);
    vm.current_step = usize::MAX;
    assert_eq!(vm.step_instruction(), Err(VirtualMachineError::RegisterOverflow));
}

#[test]
fn operands_that_stay_unknown() {
    // [ap] = [fp] with neither in memory
    let inst = Instruction {
        op0_register: Register::FP,
        op1_addr: Op1Addr::FP,
        off1: 1,
        off2: 2,
        opcode: Opcode::AssertEq,
        ..instruction()
    };
    let mut vm = machine(2, vec![((1, 1), num(4))]);
    vm.run_context = RunContext { pc: at(0, 0), ap: 5, fp: 0 };
    assert_eq!(vm.run_instruction(&inst), Err(VirtualMachineError::UnknownOperand(at(1, 2))));
    // a no-operation that reads a cell which is not there
    let inst = Instruction { off0: 3, ..instruction() };
    let mut vm = machine(2, vec![((1, 0), num(4))]);
    vm.run_context = RunContext { pc: at(0, 0), ap: 0, fp: 0 };
    assert_eq!(vm.run_instruction(&inst), Err(VirtualMachineError::UnknownOperand(at(1, 3))));
    // the first operand is missing, and nothing determines it
    let inst = Instruction { off1: 3, ..instruction() };
    let mut vm = machine(2, vec![((1, 0), num(4))]);
    vm.run_context = RunContext { pc: at(0, 0), ap: 0, fp: 0 };
    assert_eq!(vm.run_instruction(&inst), Err(VirtualMachineError::UnknownOperand(at(1, 3))));
}

#[test]
fn deduced_operands_are_written() {
    // [ap] = [fp + 1] + [fp + 2], the first operand unknown: 9 = x + 4
    let inst = Instruction {
        op0_register: Register::FP,
        op1_addr: Op1Addr::FP,
        off1: 1,
        off2: 2,
        res: Res::Add,
        opcode: Opcode::AssertEq,
        ap_update: ApUpdate::Add1,
        ..instruction()
    };
    let mut vm = machine(2, vec![((1, 2), num(4)), ((1, 5), num(9))]);
    vm.run_context = RunContext { pc: at(0, 0), ap: 5, fp: 0 };
    assert_eq!(vm.run_instruction(&inst), Ok(()));
    assert_eq!(vm.memory.get(&at(1, 1)), Some(num(5)));
    assert_eq!(vm.run_context, RunContext { pc: at(0, 1), ap: 6, fp: 0 });
    // the destination unknown: x = 5 * 4
    let inst = Instruction { res: Res::Mul, ..inst };
    let mut vm = machine(2, vec![((1, 1), num(5)), ((1, 2), num(4))]);
    vm.run_context = RunContext { pc: at(0, 0), ap: 5, fp: 0 };
    assert_eq!(vm.run_instruction(&inst), Ok(()));
    assert_eq!(vm.memory.get(&at(1, 5)), Some(num(20)));
    // the second operand unknown: 20 = 5 * x
    let mut vm = machine(2, vec![((1, 1), num(5)), ((1, 5), num(20))]);
    vm.run_context = RunContext { pc: at(0, 0), ap: 5, fp: 0 };
    assert_eq!(vm.run_instruction(&inst), Ok(()));
    assert_eq!(vm.memory.get(&at(1, 2)), Some(num(4)));
}

#[test]
fn builtins_of_a_fresh_machine_are_well_formed() {
    let vm = VirtualMachine::new(false);
    assert!(vm.check_builtins());
    assert_eq!(vm.get_range_check_builtin().err(), Some(VirtualMachineError::NoRangeCheckBuiltin));
    assert_eq!(vm.find_owner(0), None);
}

#[test]
fn a_register_moves_by_a_signed_distance() {
    assert_eq!(move_by(&at(0, 4), &num(3)), Ok(at(0, 7)));
    assert_eq!(move_by(&at(0, 4), &num(-3)), Ok(at(0, 1)));
    assert_eq!(move_by(&at(0, 4), &num(-4)), Ok(at(0, 0)));
    assert_eq!(
        move_by(&at(0, 4), &num(-5)),
        Err(VirtualMachineError::Math(MathError::RelocatableAddFelt252OffsetExceeded(
            at(0, 4),
            Felt252::new(-5)
        )))
    );
    assert_eq!(
        move_by(&at(0, 4), &rel(1, 1)),
        Err(VirtualMachineError::Math(MathError::RelocatableAdd(at(0, 4), at(1, 1))))
    );
}

#[test]
fn a_sum_of_an_address_and_a_negative_element_is_refused() {
    let vm = VirtualMachine::new(false);
    let add = Instruction { res: Res::Add, ..instruction() };
    assert_eq!(
        vm.compute_res(&add, &num(-1), &rel(1, 2)),
        Err(VirtualMachineError::Math(MathError::RelocatableAddFelt252OffsetExceeded(
            at(1, 2),
            Felt252::new(-1)
        )))
    );
    let assert_add = Instruction { opcode: Opcode::AssertEq, res: Res::Add, ..instruction() };
    assert_eq!(
        vm.deduce_op0(&assert_add, Some(rel(1, 10)), Some(num(3))),
        Ok((Some(rel(1, 7)), Some(rel(1, 10))))
    );
    assert_eq!(
        vm.deduce_op0(&assert_add, Some(rel(1, 2)), Some(num(3))),
        Err(VirtualMachineError::Math(MathError::RelocatableAddFelt252OffsetExceeded(
            at(1, 2),
            Felt252::new(3)
        )))
    );
}
