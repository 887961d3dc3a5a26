//! Fleet deployment coordination.
//!
//! The crate holds the decision logic of a deployment run: it expands hosts
//! and container specs into units of work, builds the commands that drive a
//! container engine, decides from each command's outcome what happens next,
//! and tallies the results into a report. Running a command is left to an
//! [`exec::Executor`] that the caller supplies.

pub mod agent;
pub mod backend;
pub mod cache;
pub mod command;
pub mod config;
pub mod converge;
pub mod coordinator;
pub mod dashboard;
pub mod docker;
pub mod engine;
pub mod exec;
pub mod fleet;
pub mod laws;
pub mod model;
pub mod plan;
pub mod readiness;
pub mod remote;
pub mod report;
pub mod shell;
pub mod summary;
pub mod text;
