//! Git repositories: what the output of git means, and which commands an
//! operation runs.

pub mod change_laws;
pub mod changes;
pub mod counter;
pub mod exchange;
pub mod laws;
pub mod listing;
pub mod operations;
pub mod parse;
pub mod state_laws;
pub mod types;
pub mod worktree;
pub mod worktree_laws;
