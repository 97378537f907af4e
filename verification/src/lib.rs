//! latch: a project-scoped coordination ledger for agents sharing a
//! workspace.  Path claims with containment conflicts and expiry, handoff
//! tasks, notes, decisions, versioned contracts, and an append-only event
//! log that every mutation writes to; and the `status` and `context`
//! pictures drawn from them.
pub mod text;
pub mod ranking;
pub mod model;
pub mod error;
pub mod clock;
pub mod rows;
pub mod journal;
pub mod claims;
pub mod tasks;
pub mod notes;
pub mod decisions;
pub mod contracts;
pub mod events;
pub mod cli;
pub mod context;
pub mod reply;
pub mod workspace;
pub mod commands;
pub mod laws;
