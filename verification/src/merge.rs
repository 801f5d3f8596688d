//! Model-backed merge sessions, three-way merge and the transaction log.

pub mod log;
pub mod session;
pub mod three_way;
pub mod transaction;

pub use log::{SessionRevision, TransactionEntry, TransactionKind, TransactionLog, UnixTimestamp};
pub use session::{HunkState, MergeHunk, MergeSession};
pub use three_way::{ConflictStatus, MergeConflict, ThreeWayMergeSession, ThreeWayStats};
pub use transaction::MergeTransaction;
