//! The shape of a compiled program as it is read from and written to text.

pub mod deserialize_program;
pub mod deserialize_utils;
pub mod serialize_program;
