//! Renames each subdirectory of a directory after the marker file it holds.
//!
//! The library decides what to rename; the caller lists directories and
//! performs the renames. Names are byte strings, as a file system stores them.
pub mod batch;
pub mod marker;
pub mod plan;

pub use batch::{is_affirmative, RenameBatch};
pub use marker::{find_marker, marker_base};
pub use plan::{plan_renames, rename_entry_for, DirListing, RenameEntry};
