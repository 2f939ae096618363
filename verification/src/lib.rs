//! Background work for a git client: network jobs and the repository watcher.

pub mod ffon;
pub mod git;
pub mod job;
pub mod network;
pub mod steps;
pub mod text;
pub mod watcher;

