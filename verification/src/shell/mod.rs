//! Shells: how commands are started, read and stopped.

pub mod args;
pub mod command;
pub mod config;
pub mod laws;
pub mod plan_laws;
pub mod process;
pub mod texts;
