//! Per-entry decisions of a directory-scope patch: which change each
//! differing file contributes, given its loaded kinds and diff. Walking
//! the trees and loading the files is the caller's part.

use vstd::prelude::*;

use super::builder::{diff_hunks, flatten_spec, hunk_models_of, hunks_from_diff, side_lines_spec, whole_side_lines, PatchOptions, Side};
use super::model::{line_models, PatchFileChange};
use crate::diff::model::DiffDocument;
use crate::dir::recursive::RecStatus;
use crate::file_kind::FileKind;

verus! {

/// What a directory-scope patch does with one scanned entry before any file
/// is read.
#[derive(Debug, Clone, Copy, PartialEq, Eq, Structural)]
pub enum EntryPatchStep {
    /// The entry contributes nothing.
    Skip,
    /// The entry can only be reported as a notice (a symbolic link).
    Notice,
    /// Both sides are loaded and their text diff becomes a modification.
    Modify,
    /// The right side is loaded and becomes a created file.
    Add,
    /// The left side is loaded and becomes a deleted file.
    Delete,
}

/// The step for an entry of status `status`: changed files are compared,
/// symbolic links give a notice, one-sided files are created or deleted
/// only when creation and deletion entries are requested, and everything
/// else (equal, undecided, unreadable) is skipped.
pub fn entry_patch_step(status: RecStatus, options: PatchOptions) -> (s: EntryPatchStep)
    ensures
        s == match status {
            RecStatus::Changed => EntryPatchStep::Modify,
            RecStatus::Symlink => EntryPatchStep::Notice,
            RecStatus::RightOnly => if options.include_creation_deletion { EntryPatchStep::Add } else { EntryPatchStep::Skip },
            RecStatus::LeftOnly => if options.include_creation_deletion { EntryPatchStep::Delete } else { EntryPatchStep::Skip },
            _ => EntryPatchStep::Skip,
        },
{
    match status {
        RecStatus::Changed => EntryPatchStep::Modify,
        RecStatus::Symlink => EntryPatchStep::Notice,
        RecStatus::RightOnly => if options.include_creation_deletion { EntryPatchStep::Add } else { EntryPatchStep::Skip },
        RecStatus::LeftOnly => if options.include_creation_deletion { EntryPatchStep::Delete } else { EntryPatchStep::Skip },
        _ => EntryPatchStep::Skip,
    }
}

/// Whether a loaded kind can be patched as text (text, or a spreadsheet
/// through its derived text).
pub fn is_textual(kind: &FileKind) -> (b: bool)
    ensures
        b == (*kind is Text || *kind is ExcelXlsx),
{
    matches!(kind, FileKind::Text | FileKind::ExcelXlsx)
}

/// Whether the loaded sides of an entry can be patched as text: both
/// sides for a modification, the new side for a creation, the old side
/// for a deletion (a side not loaded counts as not textual). Otherwise the
/// entry can only be reported as a notice.
pub fn text_patch_possible(step: EntryPatchStep, left: Option<FileKind>, right: Option<FileKind>) -> (b: bool)
    ensures
        b == match step {
            EntryPatchStep::Modify => (left matches Some(l) && (l is Text || l is ExcelXlsx))
                && (right matches Some(r) && (r is Text || r is ExcelXlsx)),
            EntryPatchStep::Add => right matches Some(r) && (r is Text || r is ExcelXlsx),
            EntryPatchStep::Delete => left matches Some(l) && (l is Text || l is ExcelXlsx),
            _ => false,
        },
{
    let l = match left {
        Some(k) => is_textual(&k),
        None => false,
    };
    let r = match right {
        Some(k) => is_textual(&k),
        None => false,
    };
    match step {
        EntryPatchStep::Modify => l && r,
        EntryPatchStep::Add => r,
        EntryPatchStep::Delete => l,
        _ => false,
    }
}

/// The entry of a file that cannot be patched as text: a binary notice
/// when notices are requested, nothing otherwise.
pub fn notice_change(rel: &str, options: PatchOptions) -> (r: Option<PatchFileChange>)
    ensures
        options.include_binary_notices ==> (r matches Some(PatchFileChange::BinaryNotice { path }) && path@ == rel@),
        !options.include_binary_notices ==> r is None,
{
    if options.include_binary_notices {
        Some(PatchFileChange::BinaryNotice { path: String::from_str(rel) })
    } else {
        None
    }
}

/// The entry of a file on both sides with text diff `diff`: a modification
/// with the diff's hunks, or nothing when it has none.
pub fn modify_change(rel: &str, diff: &DiffDocument, options: PatchOptions) -> (r: Option<PatchFileChange>)
    requires
        flatten_spec(diff.hunks@).len() < u32::MAX,
    ensures
        diff_hunks(*diff, options.context_lines as nat).len() == 0 ==> r is None,
        diff_hunks(*diff, options.context_lines as nat).len() > 0 ==> (r matches Some(PatchFileChange::Modify { path, hunks })
            && path@ == rel@ && hunk_models_of(hunks@) == diff_hunks(*diff, options.context_lines as nat)),
{
    let hunks = hunks_from_diff(diff, options);
    if hunks.len() == 0 {
        None
    } else {
        Some(PatchFileChange::Modify { path: String::from_str(rel), hunks })
    }
}

/// The entry of a file only on the right, from its diff against empty
/// text: an addition of its lines, or nothing when it is empty.
pub fn add_change(rel: &str, diff: &DiffDocument) -> (r: Option<PatchFileChange>)
    ensures
        side_lines_spec(flatten_spec(diff.hunks@), Side::Right).len() == 0 ==> r is None,
        side_lines_spec(flatten_spec(diff.hunks@), Side::Right).len() > 0 ==> (r matches Some(PatchFileChange::Add { path, lines })
            && path@ == rel@ && line_models(lines@) == side_lines_spec(flatten_spec(diff.hunks@), Side::Right)),
{
    let lines = whole_side_lines(diff, Side::Right);
    if lines.len() == 0 {
        None
    } else {
        Some(PatchFileChange::Add { path: String::from_str(rel), lines })
    }
}

/// The entry of a file only on the left, from its diff against empty
/// text: a deletion of its lines, or nothing when it is empty.
pub fn delete_change(rel: &str, diff: &DiffDocument) -> (r: Option<PatchFileChange>)
    ensures
        side_lines_spec(flatten_spec(diff.hunks@), Side::Left).len() == 0 ==> r is None,
        side_lines_spec(flatten_spec(diff.hunks@), Side::Left).len() > 0 ==> (r matches Some(PatchFileChange::Delete { path, lines })
            && path@ == rel@ && line_models(lines@) == side_lines_spec(flatten_spec(diff.hunks@), Side::Left)),
{
    let lines = whole_side_lines(diff, Side::Left);
    if lines.len() == 0 {
        None
    } else {
        Some(PatchFileChange::Delete { path: String::from_str(rel), lines })
    }
}

} // verus!
