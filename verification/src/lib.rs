//! Environment-variable sanitization policy engine.
//!
//! Given an invoking user's environment and an ordered list of
//! administrator-authored directives, the engine decides which variables
//! reach the command run as the target user, which are recomputed to
//! target-identity values, which are injected by the engine itself, and
//! which are silently dropped.

pub mod builder;
pub mod classify;
pub mod defaults;
pub mod entry;
pub mod envmap;
pub mod glob;
pub mod laws;
pub mod policy;
