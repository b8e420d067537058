//! Core of a mobile note-synchronization engine.
//!
//! The library holds the verified logic of the engine: reconstructing file
//! modification times from commit history, throttled progress reporting,
//! classifying how local and remote history relate on a pull, deciding
//! whether a sync must create a commit, summarizing repository status, and
//! the pure string and categorization helpers around the note workspace.
//! The surrounding application performs the actual network, repository and
//! filesystem work and drives it with the decisions made here.

pub mod creds;
pub mod files;
pub mod progress;
pub mod commitpush;
pub mod history;
pub mod merge;
pub mod notes;
pub mod remote;
pub mod render;
pub mod status;
pub mod strutil;
pub mod tasks;
