//! The trace of a run.

pub mod trace_entry;
