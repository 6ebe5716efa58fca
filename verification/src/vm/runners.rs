//! The builtin runners and the runner of whole programs.

pub mod builtin_runner;
pub mod cairo_runner;
pub mod runner_queries;
