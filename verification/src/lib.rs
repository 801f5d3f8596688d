//! GUI-independent core of a file and directory comparison tool: the
//! normalized diff model, model-backed merge sessions with undo/redo,
//! three-way merge, patch export, directory pairing and the policy tables
//! the UI consults.

use vstd::prelude::*;

pub mod hash;
pub mod ignore;
pub mod job;

pub use hash::fnv1a64;
pub mod text;
pub mod cancel;
pub mod command;
pub mod compare_prep;
pub mod conflict_nav;
pub mod diff;
pub mod diff_decoration;
pub mod document;
pub mod edit_op;
pub mod encoding;
pub mod merge;
pub mod patch;
pub mod persist;
pub mod error;
pub mod external_tool;
pub mod file_kind;
pub mod line_map;
pub mod dir;
pub mod path;
pub mod platform;
pub mod report;
