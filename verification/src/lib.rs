//! Repository inspection core for a desktop diff viewer.
//!
//! The library answers read-only queries about a version-control working
//! copy — working-tree diffs, commit history, branch comparisons, file
//! contents at a revision, remote provenance — and prepares the change
//! events of a debounced filesystem watcher.  The diff summarising,
//! remote-URL parsing, pagination and watcher filtering logic is verified;
//! the calls into the underlying version-control library stand behind
//! trusted wrappers.

pub mod diff;
pub mod remote;
pub mod repo;
pub mod strutil;
pub mod types;
pub mod watch;
