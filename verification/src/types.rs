//! Value types shared by the whole machine.

pub mod bignum;
pub mod errors;
pub mod exec_scope;
pub mod instance_definitions;
pub mod instruction;
pub mod program;
pub mod relocatable;
pub mod relocatable_ops;
pub mod relocatable_text;
