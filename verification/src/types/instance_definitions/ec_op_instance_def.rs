//! Parameters of the elliptic-curve operation builtin.

use vstd::prelude::*;

verus! {

/// Cells of one instance: two input points, a scalar and the output point.
pub const CELLS_PER_EC_OP: u32 = 7;

/// Input cells of one instance: two points and a scalar.
pub const INPUT_CELLS_PER_EC_OP: u32 = 5;

/// Parameters of the elliptic-curve operation builtin.
#[derive(Clone, Copy, Debug, PartialEq, Eq, Structural)]
pub struct EcOpInstanceDef {
    /// Steps of the machine per instance.
    pub ratio: u32,
    /// Rounds of double-and-add.
    pub scalar_height: u32,
    /// Bits of the scalar.
    pub scalar_bits: u32,
}

impl EcOpInstanceDef {
    /// The usual parameters: 256 rounds on 252-bit scalars, one instance every
    /// 256 steps.
    pub fn default() -> (r: EcOpInstanceDef)
        ensures
            r == (EcOpInstanceDef { ratio: 256, scalar_height: 256, scalar_bits: 252 }),
    {
        EcOpInstanceDef { ratio: 256, scalar_height: 256, scalar_bits: 252 }
    }

    /// The usual parameters with another ratio.
    pub fn new(ratio: u32) -> (r: EcOpInstanceDef)
        ensures
            r == (EcOpInstanceDef { ratio, scalar_height: 256, scalar_bits: 252 }),
    {
        EcOpInstanceDef { ratio, scalar_height: 256, scalar_bits: 252 }
    }
}

} // verus!
