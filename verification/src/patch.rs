//! Patch export: patch documents built from the diff model and their
//! deterministic unified-diff serialization. Export never writes to the
//! user's tree.

pub mod builder;
pub mod directory;
pub mod model;
pub mod unified;

pub use builder::{hunks_from_diff, PatchOptions};
pub use model::{LineOrigin, PatchDocument, PatchFileChange, PatchFormat, PatchHunk, PatchLine, PatchSummary};
pub use unified::to_unified;
