//! Run a named, config-defined shell command, capture its output, and notify
//! configured webhook hooks about the outcome.
//!
//! The crate holds the logic of that pipeline: tokenizing the configured
//! command line into an argv, resolving hook names against the global
//! configuration, aggregating the child's exit status and captured output
//! into an [`executor::ExecutionResult`], building the webhook payload, and
//! dispatching one delivery per hook in order, with failures isolated per
//! hook. The surrounding process work (spawning the child, draining its
//! streams, reading configuration files, performing the HTTP POSTs) is left
//! to the binary that embeds the crate.

pub mod config;
pub mod dispatch;
pub mod executor;
pub mod text;
pub mod webhook;
