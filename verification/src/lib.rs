//! Renaming image files to names proposed by a naming oracle, and undoing
//! those renames later.
//!
//! The library holds the decisions: which files are candidates, which date is
//! attached to a candidate, whether a proposed rename may proceed, and how the
//! mapping from new names to original names evolves. Reading files, asking
//! the oracle, prompting the user and renaming on disk are left to the
//! caller, which feeds the outcomes back as events.

pub mod batch;
pub mod date;
pub mod discover;
pub mod json;
pub mod laws;
pub mod oracle;
pub mod store;
pub mod text;
