//! Core of a virtual machine for Cairo bytecode: the field element type, the
//! segmented memory model, the builtin runners and the runner that drives a
//! program from initialization to relocation.

pub mod felt;
pub mod hint_processor;
pub mod math_utils;
pub mod serde;
pub mod types;
pub mod vm;
