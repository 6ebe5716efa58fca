//! Segmented memory and the manager of its segments.

pub mod memory;
pub mod memory_holes;
pub mod memory_segments;
