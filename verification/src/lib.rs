//! Core logic of a cluster release cleaner.
//!
//! The library holds everything the tool decides or computes: extracting
//! release names from labelled metadata objects, deduplicating and ordering
//! them, resolving the operator's selection, the confirmation rule, and the
//! step-by-step orchestration of the uninstall run.  The surrounding binary
//! performs the cluster queries, the interactive prompts and the subprocess
//! launches, and feeds their results back in as events.

pub mod confirm;
pub mod lister;
pub mod order;
pub mod protocol;
pub mod trace;
