//! Organizes a directory of per-title disc-image folders: each child folder's
//! disc images move into a concealed subfolder, and a playlist beside it lists
//! their new relative paths in the order they were met.
//!
//! The library holds the decisions: how paths are composed, which files count
//! as media, what each child's plan and report are, and which root entries are
//! walked. The filesystem work is left to the caller, which hands the outcomes
//! of that work back as plain values.
use vstd::prelude::*;

pub mod path;
pub mod classify;
pub mod organize;
pub mod report;
pub mod walk;
