//! Sets up a workspace in the zellij terminal multiplexer from a
//! description of its tabs.
//!
//! The library decides and never acts. [`orchestrator::Orchestrator`] names
//! one action at a time (query the sessions, start the multiplexer, send it
//! a command, pause) and takes the outcome that the caller reports;
//! [`commands::ZellijCommand::args`] gives the argument vector of a command.
//! Starting processes and sleeping is the caller's part.

pub mod commands;
pub mod decimal;
pub mod laws;
pub mod model;
pub mod orchestrator;
pub mod probe;
pub mod script;
pub mod session_config;
