//! A small Lisp: values, lists of shared cells, environments that closures see as they
//! are at the time of a call, and an evaluator over them.

pub mod default_environment;
pub mod interpreter;
pub mod model;
pub mod parser;

pub use default_environment::{default_env, Builtins};
