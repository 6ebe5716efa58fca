//! Trace entries after relocation.

use crate::types::relocatable::Relocatable;
use crate::vm::errors::trace_errors::TraceError;
use vstd::prelude::*;

verus! {

/// The registers before one step, as linear addresses.
#[derive(Clone, Copy, Debug, PartialEq, Eq, Structural)]
pub struct RelocatedTraceEntry {
    pub pc: usize,
    pub ap: usize,
    pub fp: usize,
}

/// What `relocate_trace_register` returns.
pub open spec fn relocated_register(value: Relocatable, relocation_table: Seq<usize>) -> Result<
    usize,
    TraceError,
> {
    if value.segment_index < 0 || value.segment_index >= relocation_table.len()
        || relocation_table[value.segment_index as int] + value.offset > usize::MAX {
        Err(TraceError::NoRelocationFound)
    } else {
        Ok((relocation_table[value.segment_index as int] + value.offset) as usize)
    }
}

/// The linear address of a register: the start of its segment plus its offset.
/// Fails where the table has no such segment or the address does not fit in a
/// machine word.
pub fn relocate_trace_register(value: &Relocatable, relocation_table: &Vec<usize>) -> (r: Result<
    usize,
    TraceError,
>)
    ensures
        r == relocated_register(*value, relocation_table@),
{
    if value.segment_index < 0 {
        return Err(TraceError::NoRelocationFound);
    }
    let segment_index: usize = value.segment_index as usize;
    if relocation_table.len() <= segment_index {
        return Err(TraceError::NoRelocationFound);
    }
    match relocation_table[segment_index].checked_add(value.offset) {
        Some(address) => Ok(address),
        None => Err(TraceError::NoRelocationFound),
    }
}

} // verus!
