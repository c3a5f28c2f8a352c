//! Commands on remote hosts: single ones, and terminals that stay open.

pub mod connect;
pub mod exchange;
pub mod laws;
pub mod output;
pub mod request_laws;
pub mod server;
pub mod types;
