//! Probe-engine core for a network reconnaissance tool: result modeling,
//! session aggregation, scheduling policy, and fingerprint resolution.
//!
//! The crate holds the logic of the engine as plain, verified functions over
//! plain values.  Network and database access live outside; they hand values
//! in and take values back.

pub mod aggregate;
pub mod command;
pub mod fingerprint;
pub mod host;
pub mod model;
pub mod result;
pub mod schedule;
pub mod seq_facts;
pub mod store;
pub mod text;
