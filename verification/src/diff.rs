//! Normalized diff model and engine.
//!
//! The `similar` crate is an implementation detail of the engine; no
//! `similar` type appears in the public model.

pub mod engine;
pub mod inline;
pub mod model;
pub mod options;
pub mod script;



pub use engine::compute_diff;
pub use inline::{inline_diff_rows, pair_over_inline_limit, refine_pair, skipped_inline_pairs};
pub use model::{
    DiffDocument, DiffHunk, DiffRow, DiffStats, DiffWarning, HunkId, HunkKind, InlineDiff,
    InlineKind, InlineSpan, LineRange, NewlineMarker, SideLine,
};
pub use options::{
    CaseSensitivity, CompareProfile, DiffAlgorithm, DiffOptions, InlineMode, NewlineCompareMode,
    WhitespaceMode,
};
