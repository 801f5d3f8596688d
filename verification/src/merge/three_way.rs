//! Three-way (base-aware) merge model: the diff3 engine, the line model
//! it works on, and the conflict-resolution session.

pub mod engine;
pub mod line;
pub mod session;

pub use engine::{diff3, MergeRegion, RegionKind};
pub use line::{render_lines, split_lines, MergeLine};
pub use session::{ConflictId, ConflictStatus, MergeConflict, ThreeWayMergeSession, ThreeWayStats};
