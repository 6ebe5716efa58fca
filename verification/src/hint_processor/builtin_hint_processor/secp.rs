//! Integers that hints keep in three limbs.

pub mod bigint_utils;
