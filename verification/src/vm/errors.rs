//! Error types of the runner, the machine and the trace.

pub mod hint_errors;
pub mod runner_errors;
pub mod trace_errors;
pub mod vm_errors;
