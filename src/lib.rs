//! Resolves short target names into repository paths, reads settings keyed
//! by directory through the ancestry of a current directory, and builds
//! editor and version control invocations.

pub mod assoc;
pub mod cli;
pub mod config;
pub mod editor;
pub mod store;
pub mod vcs;
