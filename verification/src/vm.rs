//! The machine: memory, builtin runners, the step loop and the runner.

pub mod decoding;
pub mod errors;
pub mod runners;
pub mod trace;
pub mod vm_core;
pub mod vm_memory;
