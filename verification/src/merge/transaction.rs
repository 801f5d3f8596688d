//! Merge transaction record.

use vstd::prelude::*;

use super::session::HunkState;
use crate::diff::model::{rows_view, DiffRow, HunkId, HunkKind, RowView};

verus! {

/// One reversible merge operation. The transaction stores everything needed
/// to restore the hunk exactly, so undo never reconstructs state from the
/// view layer.
#[derive(Debug, Clone)]
pub struct MergeTransaction {
    pub hunk_id: HunkId,
    /// Rows of the hunk before the operation.
    pub previous_rows: Vec<DiffRow>,
    pub previous_kind: HunkKind,
    pub previous_state: HunkState,
}

/// A transaction as values: hunk id, rows, kind and state to restore.
pub type TxnModel = (HunkId, Seq<RowView>, HunkKind, HunkState);

impl MergeTransaction {
    /// The transaction as values.
    pub open spec fn model(self) -> TxnModel {
        (self.hunk_id, rows_view(self.previous_rows@), self.previous_kind, self.previous_state)
    }
}

} // verus!
