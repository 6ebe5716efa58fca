//! Error types of arithmetic and memory.

pub mod math_errors;
pub mod memory_errors;
pub mod program_errors;
