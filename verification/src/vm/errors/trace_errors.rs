//! Errors of relocating memory and trace.

use crate::types::errors::memory_errors::MemoryError;
use vstd::prelude::*;

verus! {

/// What can go wrong when the trace is relocated.
#[derive(Clone, Copy, Debug, PartialEq, Eq, Structural)]
pub enum TraceError {
    /// The machine was run without a trace.
    TraceNotEnabled,
    /// The trace was relocated before.
    AlreadyRelocated,
    /// A register points outside the relocation table.
    NoRelocationFound,
    /// Relocating memory failed.
    MemoryError(MemoryError),
}

} // verus!
