//! Supervision of one ephemeral PostgreSQL container per local project.
//!
//! The crate holds the decision logic of the tool: version handling, the
//! instance ledger, port selection, and the reconciliation state machine that
//! converges a project's container toward its declared configuration.  All
//! interaction with the container daemon, the file system and the terminal is
//! left to the surrounding binary, which drives the state machine and reports
//! each outcome back as an event.

pub mod cli;
pub mod config;
pub mod laws;
pub mod ledger;
pub mod ports;
pub mod reconcile;
pub mod version;
