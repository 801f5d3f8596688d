//! Prepared comparisons and save targets. Compared inputs and the save
//! output are different identities: normal two-file mode saves to the
//! right input, a mergetool saves to a distinct merged output. The save
//! destination has its own type so a tab never confuses what it compares
//! with what it writes.

use vstd::prelude::*;

use crate::diff::model::DiffDocument;
use crate::document::{FileFingerprint, LoadedDocument};
use crate::encoding::BomPresence;
use crate::error::{error_message, CoreError};
use crate::file_kind::{EditabilityClass, FileKind};
use crate::merge::session::MergeSession;

verus! {

/// The result of blocking comparison preparation, committed together so
/// a tab never holds mismatched pieces.
#[derive(Debug, Clone)]
pub struct PreparedCompare {
    pub left: LoadedDocument,
    pub right: LoadedDocument,
    pub diff: DiffDocument,
    pub merge: MergeSession,
    pub save_target: SaveTargetSnapshot,
    pub save_capability: SaveCapability,
}

/// Where a save will go, and whether it is possible now.
#[derive(Debug, Clone, PartialEq, Eq)]
pub struct SaveTargetSnapshot {
    pub path: std::path::PathBuf,
    pub state: SaveTargetState,
}

/// Whether the save target accepts a write, and under what precondition.
#[derive(Debug, Clone, PartialEq, Eq)]
pub enum SaveTargetState {
    Writable {
        expectation: TargetExpectation,
        encoding_label: String,
        /// The BOM to preserve on save.
        bom: BomPresence,
    },
    Blocked { reason: SaveTargetBlockReason },
}

/// The load-time precondition a save must satisfy.
#[derive(Debug, Clone, Copy, PartialEq, Eq, Structural)]
pub enum TargetExpectation {
    MustMatch(FileFingerprint),
    MustBeAbsent,
}

/// Why a target cannot be written to; each needs an explicit user choice.
#[derive(Debug, Clone, PartialEq, Eq)]
pub enum SaveTargetBlockReason {
    Binary,
    Spreadsheet,
    /// Exists but is not a plain file.
    NotAPlainFile { reason: String },
    Unreadable { message: String },
}

/// The encoding label a loaded document is saved under: its text's label,
/// or UTF-8 without text.
pub open spec fn loaded_label(doc: LoadedDocument) -> Seq<char> {
    match doc.text {
        Some(t) => t.encoding.label@,
        None => "UTF-8"@,
    }
}

/// The BOM a loaded document is saved with: its text's BOM, or none.
pub open spec fn loaded_bom(doc: LoadedDocument) -> BomPresence {
    match doc.text {
        Some(t) => t.bom,
        None => BomPresence::Absent,
    }
}

fn label_of(doc: &LoadedDocument) -> (s: String)
    ensures
        s@ == loaded_label(*doc),
{
    match &doc.text {
        Some(t) => t.encoding.label.clone(),
        None => String::from_str("UTF-8"),
    }
}

fn bom_of(doc: &LoadedDocument) -> (b: BomPresence)
    ensures
        b == loaded_bom(*doc),
{
    match &doc.text {
        Some(t) => t.bom,
        None => BomPresence::Absent,
    }
}

/// Normal two-file compare: the save target is the already loaded right
/// document. Text is writable if unchanged since load (or absent when it
/// had no fingerprint); a missing file is writable if still absent; binary,
/// spreadsheet and unsupported files are blocked.
pub fn save_target_from_loaded(path: std::path::PathBuf, doc: &LoadedDocument) -> (t: SaveTargetSnapshot)
    ensures
        t.path == path,
        doc.kind is Text ==> (t.state matches SaveTargetState::Writable { expectation, encoding_label, bom }
            && expectation == match doc.fingerprint_at_load {
                Some(fp) => TargetExpectation::MustMatch(fp),
                None => TargetExpectation::MustBeAbsent,
            }
            && encoding_label@ == loaded_label(*doc) && bom == loaded_bom(*doc)),
        doc.kind is Missing ==> (t.state matches SaveTargetState::Writable { expectation, encoding_label, bom }
            && expectation == TargetExpectation::MustBeAbsent
            && encoding_label@ == loaded_label(*doc) && bom == loaded_bom(*doc)),
        doc.kind is Binary ==> t.state == (SaveTargetState::Blocked { reason: SaveTargetBlockReason::Binary }),
        doc.kind is ExcelXlsx ==> t.state == (SaveTargetState::Blocked { reason: SaveTargetBlockReason::Spreadsheet }),
        doc.kind matches FileKind::Unsupported { reason } ==> (t.state matches SaveTargetState::Blocked {
            reason: SaveTargetBlockReason::NotAPlainFile { reason: r } } && r@ == reason@),
{
    let state = match &doc.kind {
        FileKind::Text => SaveTargetState::Writable {
            expectation: match doc.fingerprint_at_load {
                Some(fp) => TargetExpectation::MustMatch(fp),
                None => TargetExpectation::MustBeAbsent,
            },
            encoding_label: label_of(doc),
            bom: bom_of(doc),
        },
        FileKind::Missing => SaveTargetState::Writable {
            expectation: TargetExpectation::MustBeAbsent,
            encoding_label: label_of(doc),
            bom: bom_of(doc),
        },
        FileKind::Binary => SaveTargetState::Blocked { reason: SaveTargetBlockReason::Binary },
        FileKind::ExcelXlsx => SaveTargetState::Blocked { reason: SaveTargetBlockReason::Spreadsheet },
        FileKind::Unsupported { reason } => SaveTargetState::Blocked {
            reason: SaveTargetBlockReason::NotAPlainFile { reason: reason.clone() },
        },
    };
    SaveTargetSnapshot { path, state }
}

/// Mergetool mode: the save target inspected on its own, from its
/// classification and, for text, the result of loading it. A missing
/// target is writable if still absent, with the fallback label and BOM
/// (the remote input's); text that loaded is writable if unchanged, with
/// its own label and BOM (fallbacks without text); a failed load or
/// classification blocks as unreadable with the error's message.
pub fn inspect_save_target(
    path: std::path::PathBuf,
    classified: &Result<FileKind, CoreError>,
    loaded: &Option<Result<LoadedDocument, CoreError>>,
    fallback_encoding_label: &str,
    fallback_bom: BomPresence,
) -> (t: SaveTargetSnapshot)
    requires
        (classified matches Ok(FileKind::Text)) <==> loaded is Some,
        loaded matches Some(Ok(doc)) ==> doc.fingerprint_at_load is Some,
    ensures
        t.path == path,
        classified matches Ok(FileKind::Missing) ==> (t.state matches SaveTargetState::Writable { expectation, encoding_label, bom }
            && expectation == TargetExpectation::MustBeAbsent && encoding_label@ == fallback_encoding_label@ && bom == fallback_bom),
        loaded matches Some(Ok(doc)) ==> (t.state matches SaveTargetState::Writable { expectation, encoding_label, bom }
            && expectation == TargetExpectation::MustMatch(doc.fingerprint_at_load->0)
            && encoding_label@ == match doc.text { Some(tx) => tx.encoding.label@, None => fallback_encoding_label@ }
            && bom == match doc.text { Some(tx) => tx.bom, None => fallback_bom }),
        loaded matches Some(Err(e)) ==> (t.state matches SaveTargetState::Blocked {
            reason: SaveTargetBlockReason::Unreadable { message } } && message@ == error_message(*e)),
        classified matches Ok(FileKind::Binary) ==> t.state == (SaveTargetState::Blocked { reason: SaveTargetBlockReason::Binary }),
        classified matches Ok(FileKind::ExcelXlsx) ==> t.state == (SaveTargetState::Blocked { reason: SaveTargetBlockReason::Spreadsheet }),
        classified matches Ok(FileKind::Unsupported { reason }) ==> (t.state matches SaveTargetState::Blocked {
            reason: SaveTargetBlockReason::NotAPlainFile { reason: r } } && r@ == reason@),
        classified matches Err(e) ==> (t.state matches SaveTargetState::Blocked {
            reason: SaveTargetBlockReason::Unreadable { message } } && message@ == error_message(*e)),
{
    let state = match classified {
        Ok(FileKind::Missing) => SaveTargetState::Writable {
            expectation: TargetExpectation::MustBeAbsent,
            encoding_label: String::from_str(fallback_encoding_label),
            bom: fallback_bom,
        },
        Ok(FileKind::Text) => match loaded {
            Some(Ok(doc)) => {
                let fp = match doc.fingerprint_at_load {
                    Some(fp) => fp,
                    None => {
                        proof { assert(false); }
                        FileFingerprint { len: 0, modified_unix_nanos: None, digest: None }
                    },
                };
                let (encoding_label, bom) = match &doc.text {
                    Some(tx) => (tx.encoding.label.clone(), tx.bom),
                    None => (String::from_str(fallback_encoding_label), fallback_bom),
                };
                SaveTargetState::Writable { expectation: TargetExpectation::MustMatch(fp), encoding_label, bom }
            },
            Some(Err(e)) => SaveTargetState::Blocked { reason: SaveTargetBlockReason::Unreadable { message: e.message() } },
            None => {
                proof { assert(false); }
                SaveTargetState::Blocked { reason: SaveTargetBlockReason::Binary }
            },
        },
        Ok(FileKind::Binary) => SaveTargetState::Blocked { reason: SaveTargetBlockReason::Binary },
        Ok(FileKind::ExcelXlsx) => SaveTargetState::Blocked { reason: SaveTargetBlockReason::Spreadsheet },
        Ok(FileKind::Unsupported { reason }) => SaveTargetState::Blocked {
            reason: SaveTargetBlockReason::NotAPlainFile { reason: reason.clone() },
        },
        Err(e) => SaveTargetState::Blocked { reason: SaveTargetBlockReason::Unreadable { message: e.message() } },
    };
    SaveTargetSnapshot { path, state }
}

/// Whether the merge result of two loaded sides can be written to the
/// save target.
#[derive(Debug, Clone, PartialEq, Eq)]
pub enum SaveCapability {
    /// The merge result can be written directly.
    Saveable,
    /// A side needed replacement characters at decode time; saving must be
    /// blocked and explained.
    SaveableWithGuard,
    /// Cannot be saved at all, and why.
    Blocked(SaveCapabilityBlockReason),
}

impl SaveCapability {
    /// `true` for `Saveable` and `SaveableWithGuard`.
    pub fn is_saveable(&self) -> (b: bool)
        ensures
            b == !(*self is Blocked),
    {
        !matches!(self, SaveCapability::Blocked(_))
    }

    /// `true` only for `SaveableWithGuard`.
    pub fn requires_guard(&self) -> (b: bool)
        ensures
            b == (*self is SaveableWithGuard),
    {
        matches!(self, SaveCapability::SaveableWithGuard)
    }
}

/// Why a save capability is blocked.
#[derive(Debug, Clone, PartialEq, Eq)]
pub enum SaveCapabilityBlockReason {
    /// A side cannot be represented as mergeable text (binary,
    /// spreadsheet, unsupported); a missing side is empty text, not this.
    NotMergeableText,
    /// The save target itself cannot be written to.
    Target(SaveTargetBlockReason),
}

/// A side can take part in a text merge: text, or missing (empty text).
pub open spec fn mergeable(kind: FileKind) -> bool {
    kind is Text || kind is Missing
}

/// A side forces the save guard: it was decoded (not missing) and needed
/// replacement characters.
pub open spec fn needs_guard(kind: FileKind, had_decode_errors: bool) -> bool {
    !(kind is Missing) && had_decode_errors
}

/// Compose the three facts: a blocked target blocks; a non-mergeable side
/// blocks; a side with decode replacements requires the guard; otherwise
/// the result is saveable.
pub fn save_capability(
    left_kind: &FileKind,
    right_kind: &FileKind,
    left_editability: EditabilityClass,
    right_editability: EditabilityClass,
    left_had_decode_errors: bool,
    right_had_decode_errors: bool,
    target_state: &SaveTargetState,
) -> (c: SaveCapability)
    ensures
        target_state matches SaveTargetState::Blocked { reason } ==> c == SaveCapability::Blocked(SaveCapabilityBlockReason::Target(*reason)),
        target_state is Writable && !(mergeable(*left_kind) && mergeable(*right_kind))
            ==> c == SaveCapability::Blocked(SaveCapabilityBlockReason::NotMergeableText),
        target_state is Writable && mergeable(*left_kind) && mergeable(*right_kind)
            ==> c == if needs_guard(*left_kind, left_had_decode_errors) || needs_guard(*right_kind, right_had_decode_errors) {
                SaveCapability::SaveableWithGuard
            } else {
                SaveCapability::Saveable
            },
{
    if let SaveTargetState::Blocked { reason } = target_state {
        return SaveCapability::Blocked(SaveCapabilityBlockReason::Target(duplicate_reason(reason)));
    }
    let left_ok = left_kind.is_mergeable_text() || matches!(left_kind, FileKind::Missing);
    let right_ok = right_kind.is_mergeable_text() || matches!(right_kind, FileKind::Missing);
    if !left_ok || !right_ok {
        return SaveCapability::Blocked(SaveCapabilityBlockReason::NotMergeableText);
    }
    let left_guard = !matches!(left_kind, FileKind::Missing) && left_had_decode_errors;
    let right_guard = !matches!(right_kind, FileKind::Missing) && right_had_decode_errors;
    if left_guard || right_guard {
        SaveCapability::SaveableWithGuard
    } else {
        SaveCapability::Saveable
    }
}

fn duplicate_reason(r: &SaveTargetBlockReason) -> (d: SaveTargetBlockReason)
    ensures
        d == *r,
{
    match r {
        SaveTargetBlockReason::Binary => SaveTargetBlockReason::Binary,
        SaveTargetBlockReason::Spreadsheet => SaveTargetBlockReason::Spreadsheet,
        SaveTargetBlockReason::NotAPlainFile { reason } => SaveTargetBlockReason::NotAPlainFile { reason: reason.clone() },
        SaveTargetBlockReason::Unreadable { message } => SaveTargetBlockReason::Unreadable { message: message.clone() },
    }
}

} // verus!
