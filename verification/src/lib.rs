//! A verified CSV expression engine: a compile-once / evaluate-per-row
//! interpreter for row-level commands. An expression is parsed externally,
//! concretized once against the CSV headers (resolving column references and
//! folding constants), and then evaluated against each byte record, with
//! short-circuiting special forms, higher-order lambdas over lists, and a
//! pluggable error policy in the row driver.

pub mod convert;
pub mod driver;
pub mod error;
pub mod evaluator;
pub mod expr;
pub mod functions;
pub mod interpreter;
pub mod laws;
pub mod record;
pub mod registry;
pub mod types;
pub mod value;
