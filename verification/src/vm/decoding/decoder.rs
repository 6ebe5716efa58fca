//! The layout of an instruction word: three offsets of sixteen bits, biased by
//! `2^15`, then fifteen flag bits and a zero bit.

use crate::types::instruction::{
    ApUpdate, FpUpdate, Instruction, Op1Addr, Opcode, PcUpdate, Register, Res,
};
use crate::vm::errors::vm_errors::VirtualMachineError;
use vstd::prelude::*;

verus! {

/// The field of `width` values that starts at the bit of weight `weight`.
pub open spec fn field(word: u64, weight: int, width: int) -> int {
    (word as int / weight) % width
}

/// The signed offset in the sixteen bits that start at the bit of weight
/// `weight`.
pub open spec fn offset_field(word: u64, weight: int) -> int {
    field(word, weight, 0x10000) - 0x8000
}

/// The fifteen flags of the word, and its top bit.
pub open spec fn flags(word: u64) -> int {
    word as int / 0x1_0000_0000_0000
}

/// The register that a flag bit selects.
pub open spec fn register_of(bit: int) -> Register {
    if bit == 1 {
        Register::FP
    } else {
        Register::AP
    }
}

/// What `decode_instruction` returns for an instruction word.
pub open spec fn decode_spec(word: u64) -> Result<Instruction, VirtualMachineError> {
    let f = flags(word);
    let op1_src = (f / 4) % 8;
    let res_logic = (f / 32) % 4;
    let pc_update = (f / 128) % 8;
    let ap_update = (f / 1024) % 4;
    let opcode = (f / 4096) % 8;
    if f >= 0x8000 {
        Err(VirtualMachineError::InvalidInstructionEncoding)
    } else if op1_src != 0 && op1_src != 1 && op1_src != 2 && op1_src != 4 {
        Err(VirtualMachineError::InvalidOp1Reg(op1_src as u64))
    } else if pc_update != 0 && pc_update != 1 && pc_update != 2 && pc_update != 4 {
        Err(VirtualMachineError::InvalidPcUpdate(pc_update as u64))
    } else if res_logic == 3 {
        Err(VirtualMachineError::InvalidRes(res_logic as u64))
    } else if opcode != 0 && opcode != 1 && opcode != 2 && opcode != 4 {
        Err(VirtualMachineError::InvalidOpcode(opcode as u64))
    } else if ap_update == 3 {
        Err(VirtualMachineError::InvalidApUpdate(ap_update as u64))
    } else {
        Ok(
            Instruction {
                off0: offset_field(word, 1) as i32,
                off1: offset_field(word, 0x10000) as i32,
                off2: offset_field(word, 0x1_0000_0000) as i32,
                dst_register: register_of(f % 2),
                op0_register: register_of((f / 2) % 2),
                op1_addr: if op1_src == 0 {
                    Op1Addr::Op0
                } else if op1_src == 1 {
                    Op1Addr::Imm
                } else if op1_src == 2 {
                    Op1Addr::FP
                } else {
                    Op1Addr::AP
                },
                res: if res_logic == 0 {
                    if pc_update == 4 {
                        Res::Unconstrained
                    } else {
                        Res::Op1
                    }
                } else if res_logic == 1 {
                    Res::Add
                } else {
                    Res::Mul
                },
                pc_update: if pc_update == 0 {
                    PcUpdate::Regular
                } else if pc_update == 1 {
                    PcUpdate::Jump
                } else if pc_update == 2 {
                    PcUpdate::JumpRel
                } else {
                    PcUpdate::Jnz
                },
                ap_update: if ap_update == 0 {
                    if opcode == 1 {
                        ApUpdate::Add2
                    } else {
                        ApUpdate::Regular
                    }
                } else if ap_update == 1 {
                    ApUpdate::Add
                } else {
                    ApUpdate::Add1
                },
                fp_update: if opcode == 1 {
                    FpUpdate::APPlus2
                } else if opcode == 2 {
                    FpUpdate::Dst
                } else {
                    FpUpdate::Regular
                },
                opcode: if opcode == 0 {
                    Opcode::NOp
                } else if opcode == 1 {
                    Opcode::Call
                } else if opcode == 2 {
                    Opcode::Ret
                } else {
                    Opcode::AssertEq
                },
            },
        )
    }
}

/// Decodes one offset: sixteen bits, biased by `2^15`.
fn decode_offset(raw: u64) -> (r: i32)
    requires
        raw < 0x10000,
    ensures
        r == raw - 0x8000,
        -0x8000 <= r < 0x8000,
{
    (raw as i32) - 0x8000
}

/// Decodes an instruction word. Fails on a set top bit and on flag groups that
/// select nothing.
pub fn decode_instruction(encoded_instr: u64) -> (r: Result<Instruction, VirtualMachineError>)
    ensures
        r == decode_spec(encoded_instr),
        r matches Ok(instruction) ==> -0x8000 <= instruction.off0 < 0x8000 && -0x8000
            <= instruction.off1 < 0x8000 && -0x8000 <= instruction.off2 < 0x8000,
{
    let off0 = decode_offset(encoded_instr % 0x10000);
    let off1 = decode_offset((encoded_instr / 0x10000) % 0x10000);
    let off2 = decode_offset((encoded_instr / 0x1_0000_0000) % 0x10000);
    let flags: u64 = encoded_instr / 0x1_0000_0000_0000;
    if flags >= 0x8000 {
        return Err(VirtualMachineError::InvalidInstructionEncoding);
    }
    let dst_reg_num: u64 = flags % 2;
    let op0_reg_num: u64 = (flags / 2) % 2;
    let op1_src_num: u64 = (flags / 4) % 8;
    let res_logic_num: u64 = (flags / 32) % 4;
    let pc_update_num: u64 = (flags / 128) % 8;
    let ap_update_num: u64 = (flags / 1024) % 4;
    let opcode_num: u64 = (flags / 4096) % 8;
    let dst_register = if dst_reg_num == 1 {
        Register::FP
    } else {
        Register::AP
    };
    let op0_register = if op0_reg_num == 1 {
        Register::FP
    } else {
        Register::AP
    };
    let op1_addr = match op1_src_num {
        0 => Op1Addr::Op0,
        1 => Op1Addr::Imm,
        2 => Op1Addr::FP,
        4 => Op1Addr::AP,
        _ => {
            return Err(VirtualMachineError::InvalidOp1Reg(op1_src_num));
        },
    };
    let pc_update = match pc_update_num {
        0 => PcUpdate::Regular,
        1 => PcUpdate::Jump,
        2 => PcUpdate::JumpRel,
        4 => PcUpdate::Jnz,
        _ => {
            return Err(VirtualMachineError::InvalidPcUpdate(pc_update_num));
        },
    };
    let res = match res_logic_num {
        0 => match pc_update {
            PcUpdate::Jnz => Res::Unconstrained,
            _ => Res::Op1,
        },
        1 => Res::Add,
        2 => Res::Mul,
        _ => {
            return Err(VirtualMachineError::InvalidRes(res_logic_num));
        },
    };
    let opcode = match opcode_num {
        0 => Opcode::NOp,
        1 => Opcode::Call,
        2 => Opcode::Ret,
        4 => Opcode::AssertEq,
        _ => {
            return Err(VirtualMachineError::InvalidOpcode(opcode_num));
        },
    };
    let ap_update = match ap_update_num {
        0 => match opcode {
            Opcode::Call => ApUpdate::Add2,
            _ => ApUpdate::Regular,
        },
        1 => ApUpdate::Add,
        2 => ApUpdate::Add1,
        _ => {
            return Err(VirtualMachineError::InvalidApUpdate(ap_update_num));
        },
    };
    let fp_update = match opcode {
        Opcode::Call => FpUpdate::APPlus2,
        Opcode::Ret => FpUpdate::Dst,
        _ => FpUpdate::Regular,
    };
    Ok(
        Instruction {
            off0,
            off1,
            off2,
            dst_register,
            op0_register,
            op1_addr,
            res,
            pc_update,
            ap_update,
            fp_update,
            opcode,
        },
    )
}

} // verus!
