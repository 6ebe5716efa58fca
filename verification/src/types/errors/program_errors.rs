//! Errors of putting a program together.

use crate::felt::PRIME_STR;
use vstd::prelude::*;
use vstd::string::StringExecFns;

verus! {

/// Why a program description cannot be made into a program.
#[derive(Debug, Clone, PartialEq, Eq)]
pub enum ProgramError {
    /// The program has no function of this name in its main scope.
    EntrypointNotFound(String),
    /// The constant of this name has no value.
    ConstWithoutValue(String),
    /// The program was compiled for this prime, which is not the field's.
    PrimeDiffers(String),
}

impl ProgramError {
    /// The sentence that tells a user of the error.
    pub open spec fn message_text(self) -> Seq<char> {
        match self {
            ProgramError::EntrypointNotFound(v) => "Entrypoint "@ + v@ + " not found"@,
            ProgramError::ConstWithoutValue(v) => "Constant "@ + v@ + " has no value"@,
            ProgramError::PrimeDiffers(v) => "Expected prime "@ + PRIME_STR@ + ", got "@ + v@,
        }
    }

    /// The sentence that tells a user of the error.
    pub fn message(&self) -> (r: String)
        ensures
            r@ == self.message_text(),
    {
        match self {
            ProgramError::EntrypointNotFound(v) => {
                let mut r = String::from_str("Entrypoint ");
                r.append(v.as_str());
                r.append(" not found");
                r
            },
            ProgramError::ConstWithoutValue(v) => {
                let mut r = String::from_str("Constant ");
                r.append(v.as_str());
                r.append(" has no value");
                r
            },
            ProgramError::PrimeDiffers(v) => {
                let mut r = String::from_str("Expected prime ");
                r.append(PRIME_STR);
                r.append(", got ");
                r.append(v.as_str());
                r
            },
        }
    }
}

} // verus!
