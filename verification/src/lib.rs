//! A declarative operating-system provisioning library: a line-oriented
//! configuration language compiled into a closed set of typed instructions,
//! validated against a per-keyword option schema, and the idempotent
//! convergence primitives and drivers that turn each instruction into the
//! minimal work against a target root.

pub mod cfgparser;
pub mod compile;
pub mod driver;
pub mod ensure;
pub mod install;
pub mod instructions;
pub mod keywords;
pub mod manifest;
pub mod shadow;
pub mod strutil;
