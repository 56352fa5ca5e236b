//! A primitive-function invocation layer for a relational query engine.
//!
//! A declared built-in function call (an aggregate such as a sum or a mean)
//! plus a tuple of already-materialized argument values is turned into zero or
//! more output rows. Argument bindings are resolved into canonical order,
//! one tagged value is coerced into a numeric sequence, and the call into the
//! external numeric engine is planned; a type mismatch becomes an ordinary
//! diagnostic row in a caller-owned sink instead of an uncatchable failure.
//!
//! Floating-point numbers are carried throughout as the 64 bits of their
//! IEEE-754 encoding; the external engine (a Python routine addressed as
//! `module.symbol`) is the only place where arithmetic on them happens, and
//! the caller runs that engine outside this crate.

pub mod diag;
pub mod dispatch;
pub mod registry;
pub mod value;
