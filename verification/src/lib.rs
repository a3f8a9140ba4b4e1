//! A verified core for a terminal viewer of version-control history.
//!
//! The crate parses raw first-parent log records into typed commits,
//! classifies ref decorations and subjects, computes merge-expansion
//! ranges, prepares fork-point queries for a background worker, and
//! lays text out into fixed terminal-column widths.

pub mod commit;
pub mod fork_point;
pub mod git;
pub mod icon;
pub mod error;
pub mod settings;
pub mod strutil;
pub mod text;
