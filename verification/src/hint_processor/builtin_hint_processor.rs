//! The hints this machine knows.

pub mod ec_recover;
pub mod hint_utils;
pub mod math_utils;
pub mod secp;
pub mod sha256_utils;
pub mod uint384;
