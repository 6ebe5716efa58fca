//! Hints: what they may refer to and the hints this machine knows.

pub mod builtin_hint_processor;
pub mod hint_processor_definition;
pub mod hint_processor_utils;
