//! The terminal multiplexer: what it is asked, and what it answers.

pub mod cmd;
pub mod invariants;
pub mod snapshot;
