//! Files and directories of the host: listings, attachments and the files that
//! a message can mention.

pub mod attachments;
pub mod directory;
pub mod exchange;
pub mod file_laws;
pub mod laws;
pub mod mention_laws;
pub mod mentions;
pub mod types;
