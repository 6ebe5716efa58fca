//! The decoded form of an instruction word.

use vstd::prelude::*;

verus! {

/// One of the two registers that address the execution segment.
#[derive(Clone, Copy, Debug, PartialEq, Eq, Structural)]
pub enum Register {
    AP,
    FP,
}

/// Where the address of the second operand is taken from.
#[derive(Clone, Copy, Debug, PartialEq, Eq, Structural)]
pub enum Op1Addr {
    /// The cell after the instruction: an immediate.
    Imm,
    AP,
    FP,
    /// The address held in the first operand.
    Op0,
}

/// How the result is made from the operands.
#[derive(Clone, Copy, Debug, PartialEq, Eq, Structural)]
pub enum Res {
    Op1,
    Add,
    Mul,
    Unconstrained,
}

/// How the program counter moves.
#[derive(Clone, Copy, Debug, PartialEq, Eq, Structural)]
pub enum PcUpdate {
    Regular,
    Jump,
    JumpRel,
    Jnz,
}

/// How the allocation pointer moves.
#[derive(Clone, Copy, Debug, PartialEq, Eq, Structural)]
pub enum ApUpdate {
    Regular,
    Add,
    Add1,
    Add2,
}

/// How the frame pointer moves.
#[derive(Clone, Copy, Debug, PartialEq, Eq, Structural)]
pub enum FpUpdate {
    Regular,
    APPlus2,
    Dst,
}

/// What the instruction asserts or does beyond moving the registers.
#[derive(Clone, Copy, Debug, PartialEq, Eq, Structural)]
pub enum Opcode {
    NOp,
    AssertEq,
    Call,
    Ret,
}

/// An instruction: three signed offsets and the flags.
#[derive(Clone, Copy, Debug, PartialEq, Eq, Structural)]
pub struct Instruction {
    pub off0: i32,
    pub off1: i32,
    pub off2: i32,
    pub dst_register: Register,
    pub op0_register: Register,
    pub op1_addr: Op1Addr,
    pub res: Res,
    pub pc_update: PcUpdate,
    pub ap_update: ApUpdate,
    pub fp_update: FpUpdate,
    pub opcode: Opcode,
}

impl Instruction {
    /// The number of cells the instruction takes: two with an immediate, else
    /// one.
    pub open spec fn size_spec(&self) -> usize {
        if self.op1_addr == Op1Addr::Imm {
            2
        } else {
            1
        }
    }

    /// The number of cells the instruction takes: two with an immediate, else
    /// one.
    pub fn size(&self) -> (r: usize)
        ensures
            r == self.size_spec(),
    {
        match self.op1_addr {
            Op1Addr::Imm => 2,
            _ => 1,
        }
    }
}

} // verus!
