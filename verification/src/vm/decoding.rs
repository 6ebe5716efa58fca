//! From instruction words to instructions.

pub mod decoder;
