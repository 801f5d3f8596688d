//! Text editing operation model: the descriptors that flow between an
//! editor adapter and the core when the user edits text or applies merge
//! commands. Core owns text truth; the adapter reports operations tagged
//! with the revision it observed; core acknowledges or rejects them.

use vstd::prelude::*;

verus! {

#[verifier::external_type_specification]
#[verifier::external_body]
pub struct ExSystemTime(std::time::SystemTime);

/// Copies a time value.
///
/// Trusted: `SystemTime`'s `Clone`; nothing is claimed of the copy.
pub assume_specification[ <std::time::SystemTime as Clone>::clone ](t: &std::time::SystemTime) -> std::time::SystemTime;

/// The current wall-clock time.
///
/// Trusted: wraps `SystemTime::now`; nothing is claimed of the value.
#[verifier::external_body]
fn system_now() -> std::time::SystemTime {
    std::time::SystemTime::now()
}

/// Identifies one document in the editing session.
#[derive(Debug, Clone, PartialEq, Eq, Hash)]
pub struct DocumentId(pub String);

impl DocumentId {
    /// A document id holding `id`.
    pub fn new(id: &str) -> (d: Self)
        ensures
            d.0@ == id@,
    {
        DocumentId(String::from_str(id))
    }

    /// The id text.
    pub fn as_str(&self) -> (s: &str)
        ensures
            s@ == self.0@,
    {
        self.0.as_str()
    }
}

/// Monotonically increasing document revision, starting at 0 on a clean
/// load and incremented on every accepted operation.
#[derive(Debug, Clone, Copy, PartialEq, Eq, PartialOrd, Ord, Hash, Default, Structural)]
pub struct RevisionId(pub u64);

impl RevisionId {
    /// Revision 0.
    pub fn initial() -> (r: Self)
        ensures
            r.0 == 0,
    {
        RevisionId(0)
    }

    /// The following revision.
    pub fn next(self) -> (r: Self)
        requires
            self.0 < u64::MAX,
        ensures
            r.0 == self.0 + 1,
    {
        RevisionId(self.0 + 1)
    }

    /// `true` for revision 0.
    pub fn is_initial(self) -> (b: bool)
        ensures
            b == (self.0 == 0),
    {
        self.0 == 0
    }
}

/// A unique identifier for one edit transaction.
#[derive(Debug, Clone, PartialEq, Eq, Hash)]
pub struct TransactionId(pub String);

impl TransactionId {
    /// A transaction id holding `id`.
    pub fn new(id: &str) -> (t: Self)
        ensures
            t.0@ == id@,
    {
        TransactionId(String::from_str(id))
    }
}

/// A byte offset within a document's text.
#[derive(Debug, Clone, Copy, PartialEq, Eq, PartialOrd, Ord, Default, Structural)]
pub struct TextOffset(pub usize);

impl TextOffset {
    /// Offset 0.
    pub fn zero() -> (o: Self)
        ensures
            o.0 == 0,
    {
        TextOffset(0)
    }

    /// The offset as a number.
    pub fn as_usize(self) -> (n: usize)
        ensures
            n == self.0,
    {
        self.0
    }
}

/// A byte range within a document (start inclusive, end exclusive).
#[derive(Debug, Clone, Copy, PartialEq, Eq, Structural)]
pub struct TextRange {
    pub start: TextOffset,
    pub end: TextOffset,
}

impl TextRange {
    /// The range `start..end`.
    pub fn new(start: usize, end: usize) -> (r: Self)
        requires
            start <= end,
        ensures
            r.start.0 == start,
            r.end.0 == end,
    {
        TextRange { start: TextOffset(start), end: TextOffset(end) }
    }

    /// The empty range at `offset`.
    pub fn empty_at(offset: usize) -> (r: Self)
        ensures
            r.start.0 == offset,
            r.end.0 == offset,
    {
        TextRange::new(offset, offset)
    }

    /// The number of bytes covered (0 when the end lies before the start).
    pub fn len(self) -> (n: usize)
        ensures
            n == if self.end.0 >= self.start.0 { self.end.0 - self.start.0 } else { 0 },
    {
        if self.end.0 >= self.start.0 {
            self.end.0 - self.start.0
        } else {
            0
        }
    }

    /// `true` when start and end coincide.
    pub fn is_empty(self) -> (b: bool)
        ensures
            b == (self.start.0 == self.end.0),
    {
        self.start.0 == self.end.0
    }

    /// `true` when `offset` falls within this range.
    pub fn contains(self, offset: TextOffset) -> (b: bool)
        ensures
            b == (self.start.0 <= offset.0 && offset.0 < self.end.0),
    {
        offset.0 >= self.start.0 && offset.0 < self.end.0
    }

    /// `true` when this range overlaps `other`.
    pub fn overlaps(self, other: TextRange) -> (b: bool)
        ensures
            b == (self.start.0 < other.end.0 && other.start.0 < self.end.0),
    {
        self.start.0 < other.end.0 && other.start.0 < self.end.0
    }
}

/// One atomic text edit, tagged with the revision the editor observed.
#[derive(Debug, Clone, PartialEq, Eq)]
pub enum TextEditOperation {
    /// Insert `text` at `offset`.
    Insert { document: DocumentId, base_revision: RevisionId, offset: TextOffset, text: String },
    /// Delete the text in `range`.
    Delete { document: DocumentId, base_revision: RevisionId, range: TextRange },
    /// Replace the text in `range` with `text`.
    Replace { document: DocumentId, base_revision: RevisionId, range: TextRange, text: String },
}

impl TextEditOperation {
    /// The document the operation targets.
    pub open spec fn document_spec(&self) -> DocumentId {
        match self {
            TextEditOperation::Insert { document, .. } => *document,
            TextEditOperation::Delete { document, .. } => *document,
            TextEditOperation::Replace { document, .. } => *document,
        }
    }

    /// The revision the operation was made against.
    pub open spec fn base_revision_spec(&self) -> RevisionId {
        match self {
            TextEditOperation::Insert { base_revision, .. } => *base_revision,
            TextEditOperation::Delete { base_revision, .. } => *base_revision,
            TextEditOperation::Replace { base_revision, .. } => *base_revision,
        }
    }

    /// The document the operation targets.
    pub fn document_id(&self) -> (d: &DocumentId)
        ensures
            *d == self.document_spec(),
    {
        match self {
            TextEditOperation::Insert { document, .. } => document,
            TextEditOperation::Delete { document, .. } => document,
            TextEditOperation::Replace { document, .. } => document,
        }
    }

    /// The revision the operation was made against.
    pub fn base_revision(&self) -> (r: RevisionId)
        ensures
            r == self.base_revision_spec(),
    {
        match self {
            TextEditOperation::Insert { base_revision, .. } => *base_revision,
            TextEditOperation::Delete { base_revision, .. } => *base_revision,
            TextEditOperation::Replace { base_revision, .. } => *base_revision,
        }
    }

    /// The byte range this operation affects in the pre-edit text: the
    /// empty range at an insertion point, or the deleted/replaced range.
    pub fn affected_range(&self) -> (r: TextRange)
        ensures
            self matches TextEditOperation::Insert { offset, .. } ==> r.start == offset && r.end == offset,
            self matches TextEditOperation::Delete { range, .. } ==> r == range,
            self matches TextEditOperation::Replace { range, .. } ==> r == range,
    {
        match self {
            TextEditOperation::Insert { offset, .. } => TextRange::empty_at(offset.0),
            TextEditOperation::Delete { range, .. } => *range,
            TextEditOperation::Replace { range, .. } => *range,
        }
    }

    /// Whether this operation inserts any text: an insertion or replacement
    /// whose text is not empty.
    pub fn inserts_text(&self) -> (b: bool)
        ensures
            b == match self {
                TextEditOperation::Insert { text, .. } => text@.len() > 0,
                TextEditOperation::Replace { text, .. } => text@.len() > 0,
                TextEditOperation::Delete { .. } => false,
            },
    {
        match self {
            TextEditOperation::Insert { text, .. } => !text.as_str().is_empty(),
            TextEditOperation::Replace { text, .. } => !text.as_str().is_empty(),
            TextEditOperation::Delete { .. } => false,
        }
    }

    /// Whether this operation deletes any text: a deletion or replacement
    /// with a non-empty range.
    pub fn deletes_text(&self) -> (b: bool)
        ensures
            b == match self {
                TextEditOperation::Delete { range, .. } => range.start.0 != range.end.0,
                TextEditOperation::Replace { range, .. } => range.start.0 != range.end.0,
                TextEditOperation::Insert { .. } => false,
            },
    {
        match self {
            TextEditOperation::Delete { range, .. } => !range.is_empty(),
            TextEditOperation::Replace { range, .. } => !range.is_empty(),
            TextEditOperation::Insert { .. } => false,
        }
    }
}

/// Core's acceptance response to an operation.
#[derive(Debug, Clone, PartialEq, Eq)]
pub struct OperationAck {
    pub document: DocumentId,
    pub new_revision: RevisionId,
    /// The range that changed in the post-edit text.
    pub affected_range: TextRange,
    /// `true` when the edit changes content the current diff was computed
    /// from, so a recomputation should be scheduled.
    pub diff_invalidated: bool,
}

/// Core's rejection response; the editor must reconcile with
/// `current_revision`.
#[derive(Debug, Clone, PartialEq, Eq)]
pub struct OperationReject {
    pub document: DocumentId,
    pub submitted_revision: RevisionId,
    pub current_revision: RevisionId,
    pub reason: RejectReason,
}

/// Why an operation was rejected.
#[derive(Debug, Clone, Copy, PartialEq, Eq, Structural)]
pub enum RejectReason {
    /// The base revision is stale.
    StaleRevision,
    /// The range or offset falls outside the current document.
    OutOfBounds,
    /// The document is not open or is read-only.
    DocumentNotEditable,
}

/// The result of submitting an operation.
pub type OperationResult = Result<OperationAck, OperationReject>;

/// Human-readable label for an edit transaction (for the undo menu).
#[derive(Debug, Clone, PartialEq, Eq)]
pub struct TransactionLabel(pub String);

impl TransactionLabel {
    /// A label holding `label`.
    pub fn new(label: &str) -> (l: Self)
        ensures
            l.0@ == label@,
    {
        TransactionLabel(String::from_str(label))
    }

    /// The label text.
    pub fn as_str(&self) -> (s: &str)
        ensures
            s@ == self.0@,
    {
        self.0.as_str()
    }

    /// "Apply hunk left to right".
    pub fn merge_hunk_left_to_right() -> (l: Self)
        ensures
            l.0@ == "Apply hunk left to right"@,
    {
        TransactionLabel::new("Apply hunk left to right")
    }

    /// "Apply hunk right to left".
    pub fn merge_hunk_right_to_left() -> (l: Self)
        ensures
            l.0@ == "Apply hunk right to left"@,
    {
        TransactionLabel::new("Apply hunk right to left")
    }

    /// "Edit".
    pub fn manual_edit() -> (l: Self)
        ensures
            l.0@ == "Edit"@,
    {
        TransactionLabel::new("Edit")
    }

    /// "Paste".
    pub fn paste() -> (l: Self)
        ensures
            l.0@ == "Paste"@,
    {
        TransactionLabel::new("Paste")
    }

    /// "Delete".
    pub fn delete_selection() -> (l: Self)
        ensures
            l.0@ == "Delete"@,
    {
        TransactionLabel::new("Delete")
    }
}

/// A group of operations that form a single undo unit.
#[derive(Debug, Clone)]
pub struct EditTransaction {
    pub id: TransactionId,
    pub label: TransactionLabel,
    pub operations: Vec<TextEditOperation>,
    /// The inverse operations that undo this transaction, in reverse order.
    pub inverse: Vec<TextEditOperation>,
    pub timestamp: std::time::SystemTime,
}

impl EditTransaction {
    /// A transaction stamped with the current time.
    pub fn new(
        id: TransactionId,
        label: TransactionLabel,
        operations: Vec<TextEditOperation>,
        inverse: Vec<TextEditOperation>,
    ) -> (t: Self)
        ensures
            t.id == id,
            t.label == label,
            t.operations@ == operations@,
            t.inverse@ == inverse@,
    {
        EditTransaction { id, label, operations, inverse, timestamp: system_now() }
    }

    /// `true` when this transaction contains at least one operation.
    pub fn is_empty(&self) -> (b: bool)
        ensures
            b == (self.operations@.len() > 0),
    {
        self.operations.len() > 0
    }

    /// `true` when the transaction can be undone (has inverse operations).
    pub fn is_reversible(&self) -> (b: bool)
        ensures
            b == (self.inverse@.len() > 0),
    {
        self.inverse.len() > 0
    }
}

/// An operation is compatible only when its base revision is exactly the
/// current document revision.
pub fn is_revision_compatible(op_revision: RevisionId, current_revision: RevisionId) -> (b: bool)
    ensures
        b == (op_revision.0 == current_revision.0),
{
    op_revision.0 == current_revision.0
}

} // verus!
