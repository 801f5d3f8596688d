//! Shared pieces of the comparison reports.

use vstd::prelude::*;

use crate::diff::model::HunkKind;

verus! {

/// The report label of a hunk kind.
pub open spec fn hunk_kind_text(kind: HunkKind) -> Seq<char> {
    match kind {
        HunkKind::Equal => "equal"@,
        HunkKind::Insert => "insert"@,
        HunkKind::Delete => "delete"@,
        HunkKind::Replace => "replace"@,
    }
}

/// Human-readable hunk kind label.
pub fn hunk_kind_label(kind: HunkKind) -> (s: String)
    ensures
        s@ == hunk_kind_text(kind),
{
    match kind {
        HunkKind::Equal => String::from_str("equal"),
        HunkKind::Insert => String::from_str("insert"),
        HunkKind::Delete => String::from_str("delete"),
        HunkKind::Replace => String::from_str("replace"),
    }
}

} // verus!
