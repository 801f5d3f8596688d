//! Input classification: how a file takes part in comparison, and what
//! the application may do with it once loaded. Binary content is never
//! treated as editable text; `.xlsx` goes through the spreadsheet adapter.

use vstd::prelude::*;

use crate::text::str_equal;

verus! {

/// How a file participates in comparison.
#[derive(Debug, Clone, PartialEq, Eq)]
pub enum FileKind {
    /// Decodable text; full diff/merge support.
    Text,
    /// Binary content; compared via hex preview, never merged as text.
    Binary,
    /// Excel workbook; compared through the spreadsheet adapter.
    ExcelXlsx,
    /// The path does not exist. One missing side is a valid input.
    Missing,
    /// Exists but cannot be compared (e.g. not a regular file).
    Unsupported { reason: String },
}

impl FileKind {
    /// `true` when this side can take part in a text merge and be saved.
    pub fn is_mergeable_text(&self) -> (b: bool)
        ensures
            b == (*self is Text),
    {
        matches!(self, FileKind::Text)
    }

    /// The editability class from the kind and load-time observations.
    pub fn editability(&self, had_decode_errors: bool, encoding_label: &str) -> (c: EditabilityClass)
        ensures
            c == editability_spec(*self, had_decode_errors, encoding_label@),
    {
        EditabilityClass::from_kind(self, had_decode_errors, encoding_label)
    }

    /// An identical copy of this kind.
    pub fn duplicate(&self) -> (k: Self)
        ensures
            k == *self,
    {
        match self {
            FileKind::Text => FileKind::Text,
            FileKind::Binary => FileKind::Binary,
            FileKind::ExcelXlsx => FileKind::ExcelXlsx,
            FileKind::Missing => FileKind::Missing,
            FileKind::Unsupported { reason } => FileKind::Unsupported { reason: reason.clone() },
        }
    }
}

/// What the application may do with a loaded file, ordered ascending by
/// capability.
#[derive(Debug, Clone, Copy, PartialEq, Eq, PartialOrd, Ord, Structural)]
pub enum EditabilityClass {
    /// Cannot be loaded as any useful representation.
    Unsupported,
    /// View only.
    ReadOnly,
    /// View and edit; saving needs an encoding guard.
    ReadWriteWithGuard,
    /// Full round trip: view, edit, save losslessly.
    ReadWrite,
}

/// The editability of a kind: binary, spreadsheet and missing files are
/// read-only, unsupported ones unsupported; text is read-write when it
/// decoded cleanly as UTF-8 (or with no label), and needs a save guard
/// after decode errors or under any other encoding.
pub open spec fn editability_spec(kind: FileKind, had_decode_errors: bool, label: Seq<char>) -> EditabilityClass {
    match kind {
        FileKind::Binary => EditabilityClass::ReadOnly,
        FileKind::ExcelXlsx => EditabilityClass::ReadOnly,
        FileKind::Missing => EditabilityClass::ReadOnly,
        FileKind::Unsupported { .. } => EditabilityClass::Unsupported,
        FileKind::Text => if had_decode_errors {
            EditabilityClass::ReadWriteWithGuard
        } else if label == "UTF-8"@ || label.len() == 0 {
            EditabilityClass::ReadWrite
        } else {
            EditabilityClass::ReadWriteWithGuard
        },
    }
}

impl EditabilityClass {
    /// `true` when the user may make text edits.
    pub fn is_editable(self) -> (b: bool)
        ensures
            b == (self == EditabilityClass::ReadWrite || self == EditabilityClass::ReadWriteWithGuard),
    {
        matches!(self, EditabilityClass::ReadWrite | EditabilityClass::ReadWriteWithGuard)
    }

    /// `true` when a save is permitted at all.
    pub fn is_saveable(self) -> (b: bool)
        ensures
            b == (self == EditabilityClass::ReadWrite || self == EditabilityClass::ReadWriteWithGuard),
    {
        matches!(self, EditabilityClass::ReadWrite | EditabilityClass::ReadWriteWithGuard)
    }

    /// `true` when saving requires a user-visible encoding warning.
    pub fn requires_save_guard(self) -> (b: bool)
        ensures
            b == (self == EditabilityClass::ReadWriteWithGuard),
    {
        matches!(self, EditabilityClass::ReadWriteWithGuard)
    }

    /// Derive from a kind and load observations.
    pub fn from_kind(kind: &FileKind, had_decode_errors: bool, encoding_label: &str) -> (c: Self)
        ensures
            c == editability_spec(*kind, had_decode_errors, encoding_label@),
    {
        match kind {
            FileKind::Binary => EditabilityClass::ReadOnly,
            FileKind::ExcelXlsx => EditabilityClass::ReadOnly,
            FileKind::Missing => EditabilityClass::ReadOnly,
            FileKind::Unsupported { .. } => EditabilityClass::Unsupported,
            FileKind::Text => {
                if had_decode_errors {
                    EditabilityClass::ReadWriteWithGuard
                } else if str_equal(encoding_label, "UTF-8") || encoding_label.is_empty() {
                    EditabilityClass::ReadWrite
                } else {
                    EditabilityClass::ReadWriteWithGuard
                }
            },
        }
    }
}

/// Number of leading bytes sampled for binary detection.
pub const SAMPLE_LEN: usize = 8192;

/// Classify a path from what was observed on disk: whether it exists,
/// whether it is a regular file (symlinks followed), whether its
/// extension is `xlsx` (ASCII case-insensitive), and its leading sample.
pub fn classify_observed(exists: bool, is_file: bool, xlsx_extension: bool, sample: &[u8]) -> (k: FileKind)
    ensures
        !exists ==> k is Missing,
        exists && !is_file ==> (k matches FileKind::Unsupported { reason } && reason@ == "not a regular file"@),
        exists && is_file && xlsx_extension ==> k is ExcelXlsx,
        exists && is_file && !xlsx_extension ==> (k is Binary <==> sample@.contains(0u8)),
        exists && is_file && !xlsx_extension ==> (k is Text <==> !sample@.contains(0u8)),
        exists && is_file && !xlsx_extension ==> (k is Binary || k is Text),
{
    if !exists {
        return FileKind::Missing;
    }
    if !is_file {
        return FileKind::Unsupported { reason: String::from_str("not a regular file") };
    }
    if xlsx_extension {
        return FileKind::ExcelXlsx;
    }
    let mut i: usize = 0;
    while i < sample.len()
        invariant
            exists && is_file && !xlsx_extension,
            i <= sample@.len(),
            forall|k: int| 0 <= k < i ==> sample@[k] != 0u8,
        decreases sample@.len() - i,
    {
        if sample[i] == 0 {
            assert(sample@.contains(0u8)) by {
                assert(sample@[i as int] == 0u8);
            }
            return FileKind::Binary;
        }
        i = i + 1;
    }
    assert(!sample@.contains(0u8));
    FileKind::Text
}

} // verus!
