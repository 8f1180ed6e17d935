//! Assembles a strongly-typed configuration value from two partial sources:
//! a TOML configuration file and a snapshot of process environment variables.
//! The merge gives environment values precedence over file values, and the
//! validation is exhaustive: every required field left without a value is
//! reported, not just the first one found.

pub mod config;
pub mod engine;
pub mod error;
pub mod laws;
pub mod schema;
pub mod source;
pub mod text;
pub mod value;
