//! Parameters of the builtin instances.

pub mod ec_op_instance_def;
