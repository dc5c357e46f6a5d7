//! A small issue-tracking store: epics that own stories, kept as one snapshot.
//!
//! `model` holds the entities and the snapshot with its invariant, `snapshot` the
//! operations on a snapshot, `db` the store that reads, changes and writes snapshots
//! through a backend, and `laws` what holds over any run of operations.

pub mod db;
pub mod error;
pub mod laws;
pub mod model;
pub mod snapshot;
