//! Host operations of the goose agent: shell commands, SSH sessions, git
//! repositories, attachments and file mentions.

pub mod encoding;
pub mod git;
pub mod numbers;
pub mod order;
pub mod path_laws;
pub mod paths;
pub mod platform;
pub mod shell;
pub mod ssh;
pub mod system_ops;
pub mod text;
pub mod text_laws;
pub mod tls;
