//! A build pipeline engine: pipelines, token substitution, the run state
//! machine, the worker pool of a supervisor, run logs and their readers, the
//! pipeline store, and the decisions of the server's sessions.

pub mod commands;
pub mod config;
pub mod execution;
pub mod high_avail;
pub mod logs;
pub mod messages;
pub mod monitor;
mod outside;
pub mod pipeline;
pub mod plan;
pub mod queue;
pub mod runner;
pub mod runs;
pub mod store;
pub mod tokens;
pub mod vars;
