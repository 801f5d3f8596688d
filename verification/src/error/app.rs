//! Application-layer error envelope: a user-facing taxonomy mapped from
//! core errors, typed recovery actions, user messages and technical
//! detail, so error dialogs need no string parsing.

use vstd::prelude::*;

use super::{error_message, severity_rank, CoreError, ErrorSeverity, IoOperation};
use crate::text::{ascii_lower, to_ascii_lowercase};

verus! {

/// The taxonomy of user-facing error situations.
#[derive(Debug, Clone, Copy, PartialEq, Eq, Structural)]
pub enum AppErrorKind {
    PathNotFound,
    PathNotFile,
    PathNotDirectory,
    PermissionDenied,
    SymlinkUnsupported,
    FileReadFailed,
    FileWriteFailed,
    EncodingDetectionFailed,
    DecodeLossy,
    BinaryNotComparable,
    FileTooLarge,
    DiffFailed,
    InlineDiffTooLarge,
    SaveConflict,
    ExternalModificationDetected,
    BackupFailed,
    BackgroundJobFailed,
    BackgroundJobCancelled,
    SessionTooNew,
    SessionCorrupted,
    VcsUnavailable,
    VcsCommandFailed,
    SpreadsheetReadFailed,
    EncryptedWorkbook,
    InternalFault,
}

/// The default severity of each kind.
pub open spec fn kind_severity(k: AppErrorKind) -> ErrorSeverity {
    match k {
        AppErrorKind::PathNotFound => ErrorSeverity::Recoverable,
        AppErrorKind::PathNotFile => ErrorSeverity::Recoverable,
        AppErrorKind::PathNotDirectory => ErrorSeverity::Recoverable,
        AppErrorKind::PermissionDenied => ErrorSeverity::Recoverable,
        AppErrorKind::SymlinkUnsupported => ErrorSeverity::Recoverable,
        AppErrorKind::FileReadFailed => ErrorSeverity::Recoverable,
        AppErrorKind::FileWriteFailed => ErrorSeverity::Blocking,
        AppErrorKind::EncodingDetectionFailed => ErrorSeverity::Warning,
        AppErrorKind::DecodeLossy => ErrorSeverity::Warning,
        AppErrorKind::BinaryNotComparable => ErrorSeverity::Recoverable,
        AppErrorKind::FileTooLarge => ErrorSeverity::Recoverable,
        AppErrorKind::DiffFailed => ErrorSeverity::Recoverable,
        AppErrorKind::InlineDiffTooLarge => ErrorSeverity::Warning,
        AppErrorKind::SaveConflict => ErrorSeverity::Blocking,
        AppErrorKind::ExternalModificationDetected => ErrorSeverity::Blocking,
        AppErrorKind::BackupFailed => ErrorSeverity::Blocking,
        AppErrorKind::BackgroundJobFailed => ErrorSeverity::Blocking,
        AppErrorKind::BackgroundJobCancelled => ErrorSeverity::Warning,
        AppErrorKind::SessionTooNew => ErrorSeverity::Recoverable,
        AppErrorKind::SessionCorrupted => ErrorSeverity::Recoverable,
        AppErrorKind::VcsUnavailable => ErrorSeverity::Recoverable,
        AppErrorKind::VcsCommandFailed => ErrorSeverity::Recoverable,
        AppErrorKind::SpreadsheetReadFailed => ErrorSeverity::Recoverable,
        AppErrorKind::EncryptedWorkbook => ErrorSeverity::Recoverable,
        AppErrorKind::InternalFault => ErrorSeverity::Blocking,
    }
}

/// The default recovery actions of each kind, in button order.
pub open spec fn kind_recovery(k: AppErrorKind) -> Seq<RecoveryAction> {
    match k {
        AppErrorKind::PathNotFound => seq![RecoveryAction::ChooseAnotherFile, RecoveryAction::Dismiss],
        AppErrorKind::PathNotFile => seq![RecoveryAction::ChooseAnotherFile, RecoveryAction::Dismiss],
        AppErrorKind::PathNotDirectory => seq![RecoveryAction::ChooseAnotherFile, RecoveryAction::Dismiss],
        AppErrorKind::PermissionDenied => seq![RecoveryAction::ChooseAnotherFile, RecoveryAction::Dismiss],
        AppErrorKind::SymlinkUnsupported => seq![RecoveryAction::ChooseAnotherFile, RecoveryAction::Dismiss],
        AppErrorKind::FileReadFailed => seq![RecoveryAction::ChooseAnotherFile, RecoveryAction::Dismiss],
        AppErrorKind::FileWriteFailed => seq![RecoveryAction::SaveAs, RecoveryAction::Dismiss],
        AppErrorKind::EncodingDetectionFailed => seq![RecoveryAction::OpenAsBinary, RecoveryAction::Dismiss],
        AppErrorKind::DecodeLossy => seq![RecoveryAction::OpenAsBinary, RecoveryAction::Dismiss],
        AppErrorKind::BinaryNotComparable => seq![RecoveryAction::ChooseAnotherFile, RecoveryAction::Dismiss],
        AppErrorKind::FileTooLarge => seq![RecoveryAction::OpenLimitedDiff, RecoveryAction::OpenAsBinary, RecoveryAction::Cancel],
        AppErrorKind::DiffFailed => seq![RecoveryAction::RetryWithoutInline, RecoveryAction::Dismiss],
        AppErrorKind::InlineDiffTooLarge => seq![RecoveryAction::RetryWithoutInline, RecoveryAction::Dismiss],
        AppErrorKind::SaveConflict => seq![RecoveryAction::Reload, RecoveryAction::SaveAs, RecoveryAction::OverwriteAnyway],
        AppErrorKind::ExternalModificationDetected => seq![RecoveryAction::Reload, RecoveryAction::SaveAs, RecoveryAction::OverwriteAnyway],
        AppErrorKind::BackupFailed => seq![RecoveryAction::SaveAs, RecoveryAction::Dismiss],
        AppErrorKind::BackgroundJobFailed => seq![RecoveryAction::Retry, RecoveryAction::Dismiss],
        AppErrorKind::BackgroundJobCancelled => seq![RecoveryAction::Retry, RecoveryAction::Dismiss],
        AppErrorKind::SessionTooNew => seq![RecoveryAction::StartFresh, RecoveryAction::Dismiss],
        AppErrorKind::SessionCorrupted => seq![RecoveryAction::StartFresh, RecoveryAction::Dismiss],
        AppErrorKind::VcsUnavailable => seq![RecoveryAction::Dismiss],
        AppErrorKind::VcsCommandFailed => seq![RecoveryAction::Dismiss],
        AppErrorKind::SpreadsheetReadFailed => seq![RecoveryAction::ChooseAnotherFile, RecoveryAction::Dismiss],
        AppErrorKind::EncryptedWorkbook => seq![RecoveryAction::ChooseAnotherFile, RecoveryAction::Dismiss],
        AppErrorKind::InternalFault => seq![RecoveryAction::ReportBug, RecoveryAction::Dismiss],
    }
}

/// The name of each kind (as its variant is spelled).
pub open spec fn kind_name(k: AppErrorKind) -> Seq<char> {
    match k {
        AppErrorKind::PathNotFound => "PathNotFound"@,
        AppErrorKind::PathNotFile => "PathNotFile"@,
        AppErrorKind::PathNotDirectory => "PathNotDirectory"@,
        AppErrorKind::PermissionDenied => "PermissionDenied"@,
        AppErrorKind::SymlinkUnsupported => "SymlinkUnsupported"@,
        AppErrorKind::FileReadFailed => "FileReadFailed"@,
        AppErrorKind::FileWriteFailed => "FileWriteFailed"@,
        AppErrorKind::EncodingDetectionFailed => "EncodingDetectionFailed"@,
        AppErrorKind::DecodeLossy => "DecodeLossy"@,
        AppErrorKind::BinaryNotComparable => "BinaryNotComparable"@,
        AppErrorKind::FileTooLarge => "FileTooLarge"@,
        AppErrorKind::DiffFailed => "DiffFailed"@,
        AppErrorKind::InlineDiffTooLarge => "InlineDiffTooLarge"@,
        AppErrorKind::SaveConflict => "SaveConflict"@,
        AppErrorKind::ExternalModificationDetected => "ExternalModificationDetected"@,
        AppErrorKind::BackupFailed => "BackupFailed"@,
        AppErrorKind::BackgroundJobFailed => "BackgroundJobFailed"@,
        AppErrorKind::BackgroundJobCancelled => "BackgroundJobCancelled"@,
        AppErrorKind::SessionTooNew => "SessionTooNew"@,
        AppErrorKind::SessionCorrupted => "SessionCorrupted"@,
        AppErrorKind::VcsUnavailable => "VcsUnavailable"@,
        AppErrorKind::VcsCommandFailed => "VcsCommandFailed"@,
        AppErrorKind::SpreadsheetReadFailed => "SpreadsheetReadFailed"@,
        AppErrorKind::EncryptedWorkbook => "EncryptedWorkbook"@,
        AppErrorKind::InternalFault => "InternalFault"@,
    }
}

/// The kind a core error maps to.
pub open spec fn kind_of_core(e: CoreError) -> AppErrorKind {
    match e {
        CoreError::Io { operation, .. } => match operation {
            IoOperation::Read | IoOperation::Metadata => AppErrorKind::FileReadFailed,
            IoOperation::Write | IoOperation::Rename => AppErrorKind::FileWriteFailed,
            IoOperation::Copy => AppErrorKind::FileWriteFailed,
            IoOperation::CreateBackup => AppErrorKind::BackupFailed,
            IoOperation::ListDir => AppErrorKind::PathNotDirectory,
        },
        CoreError::InvalidPath { .. } => AppErrorKind::PathNotFound,
        CoreError::Decode { .. } => AppErrorKind::DecodeLossy,
        CoreError::Unsupported { .. } => AppErrorKind::BinaryNotComparable,
        CoreError::Conflict { .. } => AppErrorKind::ExternalModificationDetected,
        CoreError::InternalInvariant { .. } => AppErrorKind::InternalFault,
    }
}

/// The standard short and detail text of each kind.
pub open spec fn kind_message(k: AppErrorKind) -> (Seq<char>, Seq<char>) {
    match k {
        AppErrorKind::PathNotFound => ("File not found"@, "The file may have been moved or deleted."@),
        AppErrorKind::PathNotFile => ("Not a file"@, "The path exists but is not a regular file."@),
        AppErrorKind::PathNotDirectory => ("Not a directory"@, "The path exists but is not a directory."@),
        AppErrorKind::PermissionDenied => ("Permission denied"@, "ForskScope cannot read this file. Check the file permissions."@),
        AppErrorKind::SymlinkUnsupported => ("Symbolic links are not supported"@, "Follow the link manually and open the target file."@),
        AppErrorKind::FileReadFailed => ("Could not read file"@, "An I/O error occurred while reading the file."@),
        AppErrorKind::FileWriteFailed => ("Could not write file"@, "An I/O error occurred while saving."@),
        AppErrorKind::EncodingDetectionFailed => ("Encoding unknown"@, "The file encoding could not be detected."@),
        AppErrorKind::DecodeLossy => ("Decoding may be lossy"@, "Some characters could not be decoded in the detected encoding."@),
        AppErrorKind::BinaryNotComparable => ("Binary file"@, "This file cannot be compared as text."@),
        AppErrorKind::FileTooLarge => ("File is large"@, "This file may take a long time to compare."@),
        AppErrorKind::DiffFailed => ("Comparison failed"@, "An error occurred while computing the diff."@),
        AppErrorKind::InlineDiffTooLarge => ("Inline diff skipped"@, "This hunk is too large for character-level diff."@),
        AppErrorKind::SaveConflict => ("Save conflict"@, "The file was modified by another process since it was loaded."@),
        AppErrorKind::ExternalModificationDetected => ("File changed on disk"@, "The file was modified externally. Saving now would overwrite those changes."@),
        AppErrorKind::BackupFailed => ("Backup failed"@, "Could not create a backup before overwriting."@),
        AppErrorKind::BackgroundJobFailed => ("Background task failed"@, "The background comparison task encountered an error."@),
        AppErrorKind::BackgroundJobCancelled => ("Task cancelled"@, ""@),
        AppErrorKind::SessionTooNew => ("Session from newer version"@, "This session was saved by a newer version of ForskScope. Upgrade the app to open it."@),
        AppErrorKind::SessionCorrupted => ("Session file corrupted"@, "The session file could not be read. It may be from an incompatible version."@),
        AppErrorKind::VcsUnavailable => ("VCS not available"@, "No supported version control system was found at this path."@),
        AppErrorKind::VcsCommandFailed => ("VCS error"@, "A version control operation failed."@),
        AppErrorKind::SpreadsheetReadFailed => ("Could not read spreadsheet"@, "The .xlsx file could not be opened."@),
        AppErrorKind::EncryptedWorkbook => ("Encrypted workbook"@, "This spreadsheet is password-protected and cannot be compared."@),
        AppErrorKind::InternalFault => ("Internal error"@, "An unexpected error occurred. Please report this."@),
    }
}

impl AppErrorKind {
    /// The default severity of this kind.
    pub fn default_severity(self) -> (s: ErrorSeverity)
        ensures
            s == kind_severity(self),
    {
        match self {
            AppErrorKind::PathNotFound => ErrorSeverity::Recoverable,
            AppErrorKind::PathNotFile => ErrorSeverity::Recoverable,
            AppErrorKind::PathNotDirectory => ErrorSeverity::Recoverable,
            AppErrorKind::PermissionDenied => ErrorSeverity::Recoverable,
            AppErrorKind::SymlinkUnsupported => ErrorSeverity::Recoverable,
            AppErrorKind::FileReadFailed => ErrorSeverity::Recoverable,
            AppErrorKind::FileWriteFailed => ErrorSeverity::Blocking,
            AppErrorKind::EncodingDetectionFailed => ErrorSeverity::Warning,
            AppErrorKind::DecodeLossy => ErrorSeverity::Warning,
            AppErrorKind::BinaryNotComparable => ErrorSeverity::Recoverable,
            AppErrorKind::FileTooLarge => ErrorSeverity::Recoverable,
            AppErrorKind::DiffFailed => ErrorSeverity::Recoverable,
            AppErrorKind::InlineDiffTooLarge => ErrorSeverity::Warning,
            AppErrorKind::SaveConflict => ErrorSeverity::Blocking,
            AppErrorKind::ExternalModificationDetected => ErrorSeverity::Blocking,
            AppErrorKind::BackupFailed => ErrorSeverity::Blocking,
            AppErrorKind::BackgroundJobFailed => ErrorSeverity::Blocking,
            AppErrorKind::BackgroundJobCancelled => ErrorSeverity::Warning,
            AppErrorKind::SessionTooNew => ErrorSeverity::Recoverable,
            AppErrorKind::SessionCorrupted => ErrorSeverity::Recoverable,
            AppErrorKind::VcsUnavailable => ErrorSeverity::Recoverable,
            AppErrorKind::VcsCommandFailed => ErrorSeverity::Recoverable,
            AppErrorKind::SpreadsheetReadFailed => ErrorSeverity::Recoverable,
            AppErrorKind::EncryptedWorkbook => ErrorSeverity::Recoverable,
            AppErrorKind::InternalFault => ErrorSeverity::Blocking,
        }
    }

    /// The default recovery actions the UI should offer for this kind.
    pub fn default_recovery_actions(self) -> (v: Vec<RecoveryAction>)
        ensures
            v@ == kind_recovery(self),
    {
        let mut v: Vec<RecoveryAction> = Vec::new();
        match self {
            AppErrorKind::PathNotFound => {
                v.push(RecoveryAction::ChooseAnotherFile);
                v.push(RecoveryAction::Dismiss);
            },
            AppErrorKind::PathNotFile => {
                v.push(RecoveryAction::ChooseAnotherFile);
                v.push(RecoveryAction::Dismiss);
            },
            AppErrorKind::PathNotDirectory => {
                v.push(RecoveryAction::ChooseAnotherFile);
                v.push(RecoveryAction::Dismiss);
            },
            AppErrorKind::PermissionDenied => {
                v.push(RecoveryAction::ChooseAnotherFile);
                v.push(RecoveryAction::Dismiss);
            },
            AppErrorKind::SymlinkUnsupported => {
                v.push(RecoveryAction::ChooseAnotherFile);
                v.push(RecoveryAction::Dismiss);
            },
            AppErrorKind::FileReadFailed => {
                v.push(RecoveryAction::ChooseAnotherFile);
                v.push(RecoveryAction::Dismiss);
            },
            AppErrorKind::FileWriteFailed => {
                v.push(RecoveryAction::SaveAs);
                v.push(RecoveryAction::Dismiss);
            },
            AppErrorKind::EncodingDetectionFailed => {
                v.push(RecoveryAction::OpenAsBinary);
                v.push(RecoveryAction::Dismiss);
            },
            AppErrorKind::DecodeLossy => {
                v.push(RecoveryAction::OpenAsBinary);
                v.push(RecoveryAction::Dismiss);
            },
            AppErrorKind::BinaryNotComparable => {
                v.push(RecoveryAction::ChooseAnotherFile);
                v.push(RecoveryAction::Dismiss);
            },
            AppErrorKind::FileTooLarge => {
                v.push(RecoveryAction::OpenLimitedDiff);
                v.push(RecoveryAction::OpenAsBinary);
                v.push(RecoveryAction::Cancel);
            },
            AppErrorKind::DiffFailed => {
                v.push(RecoveryAction::RetryWithoutInline);
                v.push(RecoveryAction::Dismiss);
            },
            AppErrorKind::InlineDiffTooLarge => {
                v.push(RecoveryAction::RetryWithoutInline);
                v.push(RecoveryAction::Dismiss);
            },
            AppErrorKind::SaveConflict => {
                v.push(RecoveryAction::Reload);
                v.push(RecoveryAction::SaveAs);
                v.push(RecoveryAction::OverwriteAnyway);
            },
            AppErrorKind::ExternalModificationDetected => {
                v.push(RecoveryAction::Reload);
                v.push(RecoveryAction::SaveAs);
                v.push(RecoveryAction::OverwriteAnyway);
            },
            AppErrorKind::BackupFailed => {
                v.push(RecoveryAction::SaveAs);
                v.push(RecoveryAction::Dismiss);
            },
            AppErrorKind::BackgroundJobFailed => {
                v.push(RecoveryAction::Retry);
                v.push(RecoveryAction::Dismiss);
            },
            AppErrorKind::BackgroundJobCancelled => {
                v.push(RecoveryAction::Retry);
                v.push(RecoveryAction::Dismiss);
            },
            AppErrorKind::SessionTooNew => {
                v.push(RecoveryAction::StartFresh);
                v.push(RecoveryAction::Dismiss);
            },
            AppErrorKind::SessionCorrupted => {
                v.push(RecoveryAction::StartFresh);
                v.push(RecoveryAction::Dismiss);
            },
            AppErrorKind::VcsUnavailable => {
                v.push(RecoveryAction::Dismiss);
            },
            AppErrorKind::VcsCommandFailed => {
                v.push(RecoveryAction::Dismiss);
            },
            AppErrorKind::SpreadsheetReadFailed => {
                v.push(RecoveryAction::ChooseAnotherFile);
                v.push(RecoveryAction::Dismiss);
            },
            AppErrorKind::EncryptedWorkbook => {
                v.push(RecoveryAction::ChooseAnotherFile);
                v.push(RecoveryAction::Dismiss);
            },
            AppErrorKind::InternalFault => {
                v.push(RecoveryAction::ReportBug);
                v.push(RecoveryAction::Dismiss);
            },
        }
        assert(v@ =~= kind_recovery(self));
        v
    }

    /// The name of this kind, as its variant is spelled.
    pub fn name(self) -> (s: &'static str)
        ensures
            s@ == kind_name(self),
    {
        match self {
            AppErrorKind::PathNotFound => "PathNotFound",
            AppErrorKind::PathNotFile => "PathNotFile",
            AppErrorKind::PathNotDirectory => "PathNotDirectory",
            AppErrorKind::PermissionDenied => "PermissionDenied",
            AppErrorKind::SymlinkUnsupported => "SymlinkUnsupported",
            AppErrorKind::FileReadFailed => "FileReadFailed",
            AppErrorKind::FileWriteFailed => "FileWriteFailed",
            AppErrorKind::EncodingDetectionFailed => "EncodingDetectionFailed",
            AppErrorKind::DecodeLossy => "DecodeLossy",
            AppErrorKind::BinaryNotComparable => "BinaryNotComparable",
            AppErrorKind::FileTooLarge => "FileTooLarge",
            AppErrorKind::DiffFailed => "DiffFailed",
            AppErrorKind::InlineDiffTooLarge => "InlineDiffTooLarge",
            AppErrorKind::SaveConflict => "SaveConflict",
            AppErrorKind::ExternalModificationDetected => "ExternalModificationDetected",
            AppErrorKind::BackupFailed => "BackupFailed",
            AppErrorKind::BackgroundJobFailed => "BackgroundJobFailed",
            AppErrorKind::BackgroundJobCancelled => "BackgroundJobCancelled",
            AppErrorKind::SessionTooNew => "SessionTooNew",
            AppErrorKind::SessionCorrupted => "SessionCorrupted",
            AppErrorKind::VcsUnavailable => "VcsUnavailable",
            AppErrorKind::VcsCommandFailed => "VcsCommandFailed",
            AppErrorKind::SpreadsheetReadFailed => "SpreadsheetReadFailed",
            AppErrorKind::EncryptedWorkbook => "EncryptedWorkbook",
            AppErrorKind::InternalFault => "InternalFault",
        }
    }

    /// The kind a core error maps to.
    pub fn from_core(err: &CoreError) -> (k: Self)
        ensures
            k == kind_of_core(*err),
    {
        match err {
            CoreError::Io { operation, .. } => match operation {
                IoOperation::Read | IoOperation::Metadata => AppErrorKind::FileReadFailed,
                IoOperation::Write | IoOperation::Rename => AppErrorKind::FileWriteFailed,
                IoOperation::Copy => AppErrorKind::FileWriteFailed,
                IoOperation::CreateBackup => AppErrorKind::BackupFailed,
                IoOperation::ListDir => AppErrorKind::PathNotDirectory,
            },
            CoreError::InvalidPath { .. } => AppErrorKind::PathNotFound,
            CoreError::Decode { .. } => AppErrorKind::DecodeLossy,
            CoreError::Unsupported { .. } => AppErrorKind::BinaryNotComparable,
            CoreError::Conflict { .. } => AppErrorKind::ExternalModificationDetected,
            CoreError::InternalInvariant { .. } => AppErrorKind::InternalFault,
        }
    }
}

/// A typed recovery action for an error dialog button.
#[derive(Debug, Clone, Copy, PartialEq, Eq, Structural)]
pub enum RecoveryAction {
    /// Dismiss the error without taking action.
    Dismiss,
    /// Let the user pick a different file.
    ChooseAnotherFile,
    /// Reload the file from disk.
    Reload,
    /// Open a Save As dialog rather than overwriting.
    SaveAs,
    /// Overwrite despite the conflict, after explicit confirmation.
    OverwriteAnyway,
    /// Open a limited diff (e.g. without inline diff).
    OpenLimitedDiff,
    /// Open as binary / hex view.
    OpenAsBinary,
    /// Retry the operation.
    Retry,
    /// Retry without inline character diff.
    RetryWithoutInline,
    /// Cancel the current operation or dialog.
    Cancel,
    /// Open a new empty session.
    StartFresh,
    /// File a bug report.
    ReportBug,
}

/// The stable token of each action.
pub open spec fn action_token(a: RecoveryAction) -> Seq<char> {
    match a {
        RecoveryAction::Dismiss => "dismiss"@,
        RecoveryAction::ChooseAnotherFile => "choose_another_file"@,
        RecoveryAction::Reload => "reload"@,
        RecoveryAction::SaveAs => "save_as"@,
        RecoveryAction::OverwriteAnyway => "overwrite_anyway"@,
        RecoveryAction::OpenLimitedDiff => "open_limited_diff"@,
        RecoveryAction::OpenAsBinary => "open_as_binary"@,
        RecoveryAction::Retry => "retry"@,
        RecoveryAction::RetryWithoutInline => "retry_without_inline"@,
        RecoveryAction::Cancel => "cancel"@,
        RecoveryAction::StartFresh => "start_fresh"@,
        RecoveryAction::ReportBug => "report_bug"@,
    }
}

impl RecoveryAction {
    /// A stable string token for the action, for keybindings or i18n.
    pub fn token(self) -> (s: &'static str)
        ensures
            s@ == action_token(self),
    {
        match self {
            RecoveryAction::Dismiss => "dismiss",
            RecoveryAction::ChooseAnotherFile => "choose_another_file",
            RecoveryAction::Reload => "reload",
            RecoveryAction::SaveAs => "save_as",
            RecoveryAction::OverwriteAnyway => "overwrite_anyway",
            RecoveryAction::OpenLimitedDiff => "open_limited_diff",
            RecoveryAction::OpenAsBinary => "open_as_binary",
            RecoveryAction::Retry => "retry",
            RecoveryAction::RetryWithoutInline => "retry_without_inline",
            RecoveryAction::Cancel => "cancel",
            RecoveryAction::StartFresh => "start_fresh",
            RecoveryAction::ReportBug => "report_bug",
        }
    }

    /// Whether this action needs extra confirmation: overwriting anyway
    /// and starting fresh.
    pub fn is_destructive(self) -> (b: bool)
        ensures
            b == (self == RecoveryAction::OverwriteAnyway || self == RecoveryAction::StartFresh),
    {
        matches!(self, RecoveryAction::OverwriteAnyway | RecoveryAction::StartFresh)
    }
}

/// A structured user-facing message: `short` fits a toast, `detail` a
/// dialog body.
#[derive(Debug, Clone, PartialEq, Eq)]
pub struct UserMessage {
    pub short: String,
    pub detail: String,
}

impl UserMessage {
    /// A message with both parts.
    pub fn new(short: &str, detail: &str) -> (m: Self)
        ensures
            m.short@ == short@,
            m.detail@ == detail@,
    {
        UserMessage { short: String::from_str(short), detail: String::from_str(detail) }
    }

    /// A message with an empty detail.
    pub fn short_only(short: &str) -> (m: Self)
        ensures
            m.short@ == short@,
            m.detail@ == Seq::<char>::empty(),
    {
        UserMessage { short: String::from_str(short), detail: String::new() }
    }

    /// The standard message of a kind.
    pub fn for_kind(kind: AppErrorKind) -> (m: Self)
        ensures
            (m.short@, m.detail@) == kind_message(kind),
    {
        let (short, detail): (&str, &str) = match kind {
            AppErrorKind::PathNotFound => ("File not found", "The file may have been moved or deleted."),
            AppErrorKind::PathNotFile => ("Not a file", "The path exists but is not a regular file."),
            AppErrorKind::PathNotDirectory => ("Not a directory", "The path exists but is not a directory."),
            AppErrorKind::PermissionDenied => ("Permission denied", "ForskScope cannot read this file. Check the file permissions."),
            AppErrorKind::SymlinkUnsupported => ("Symbolic links are not supported", "Follow the link manually and open the target file."),
            AppErrorKind::FileReadFailed => ("Could not read file", "An I/O error occurred while reading the file."),
            AppErrorKind::FileWriteFailed => ("Could not write file", "An I/O error occurred while saving."),
            AppErrorKind::EncodingDetectionFailed => ("Encoding unknown", "The file encoding could not be detected."),
            AppErrorKind::DecodeLossy => ("Decoding may be lossy", "Some characters could not be decoded in the detected encoding."),
            AppErrorKind::BinaryNotComparable => ("Binary file", "This file cannot be compared as text."),
            AppErrorKind::FileTooLarge => ("File is large", "This file may take a long time to compare."),
            AppErrorKind::DiffFailed => ("Comparison failed", "An error occurred while computing the diff."),
            AppErrorKind::InlineDiffTooLarge => ("Inline diff skipped", "This hunk is too large for character-level diff."),
            AppErrorKind::SaveConflict => ("Save conflict", "The file was modified by another process since it was loaded."),
            AppErrorKind::ExternalModificationDetected => ("File changed on disk", "The file was modified externally. Saving now would overwrite those changes."),
            AppErrorKind::BackupFailed => ("Backup failed", "Could not create a backup before overwriting."),
            AppErrorKind::BackgroundJobFailed => ("Background task failed", "The background comparison task encountered an error."),
            AppErrorKind::BackgroundJobCancelled => ("Task cancelled", ""),
            AppErrorKind::SessionTooNew => ("Session from newer version", "This session was saved by a newer version of ForskScope. Upgrade the app to open it."),
            AppErrorKind::SessionCorrupted => ("Session file corrupted", "The session file could not be read. It may be from an incompatible version."),
            AppErrorKind::VcsUnavailable => ("VCS not available", "No supported version control system was found at this path."),
            AppErrorKind::VcsCommandFailed => ("VCS error", "A version control operation failed."),
            AppErrorKind::SpreadsheetReadFailed => ("Could not read spreadsheet", "The .xlsx file could not be opened."),
            AppErrorKind::EncryptedWorkbook => ("Encrypted workbook", "This spreadsheet is password-protected and cannot be compared."),
            AppErrorKind::InternalFault => ("Internal error", "An unexpected error occurred. Please report this."),
        };
        UserMessage::new(short, detail)
    }
}

/// Technical detail for diagnostics, never shown in the dialog body.
#[derive(Debug, Clone, PartialEq, Eq)]
pub struct TechnicalDetail {
    /// Short machine-readable code.
    pub code: String,
    /// Full detail text including paths and OS messages.
    pub detail: String,
}

impl TechnicalDetail {
    /// A detail record.
    pub fn new(code: &str, detail: &str) -> (t: Self)
        ensures
            t.code@ == code@,
            t.detail@ == detail@,
    {
        TechnicalDetail { code: String::from_str(code), detail: String::from_str(detail) }
    }
}

/// Unique identifier of one error instance, for log correlation.
#[derive(Debug, Clone, PartialEq, Eq, Hash)]
pub struct ErrorId(pub String);

/// The current time in whole milliseconds since the Unix epoch (zero for a
/// clock set before the epoch).
///
/// Trusted: wraps `SystemTime::now` and `duration_since(UNIX_EPOCH)`,
/// taking the milliseconds as `u64`; the value depends on the clock and
/// nothing is claimed of it.
#[verifier::external_body]
fn unix_millis_now() -> u64 {
    std::time::SystemTime::now().duration_since(std::time::UNIX_EPOCH).map(|d| d.as_millis() as u64).unwrap_or(0)
}

impl ErrorId {
    /// The id `err-<millis>-<pid>` of an error raised at `millis`
    /// milliseconds after the Unix epoch by process `pid`.
    pub fn from_parts(millis: u64, pid: u32) -> (id: Self)
        ensures
            id.0@ == "err-"@ + crate::text::decimal(millis as nat) + seq!['-'] + crate::text::decimal(pid as nat),
    {
        ErrorId(crate::text::tagged_id("err-", millis, pid))
    }

    /// A new id from the current time in milliseconds and the process id
    /// `pid` (the process id is the caller's to supply).
    pub fn new(pid: u32) -> (id: Self)
        ensures
            exists|ms: u64| id.0@ == "err-"@ + crate::text::decimal(ms as nat) + seq!['-'] + crate::text::decimal(pid as nat),
    {
        Self::from_parts(unix_millis_now(), pid)
    }
}

/// The structured error envelope presented to the UI.
#[derive(Debug, Clone, PartialEq, Eq)]
pub struct AppError {
    pub error_id: ErrorId,
    pub kind: AppErrorKind,
    pub severity: ErrorSeverity,
    pub message: UserMessage,
    pub technical: TechnicalDetail,
    pub recovery: Vec<RecoveryAction>,
}

impl AppError {
    /// The envelope of a core error under the standard mappings: its kind,
    /// that kind's severity, message and recovery actions, the kind name
    /// lowercased as technical code and the error's message as detail.
    /// `error_id` is the caller's fresh identifier.
    pub fn from_core(err: &CoreError, error_id: ErrorId) -> (e: Self)
        ensures
            e.error_id == error_id,
            e.kind == kind_of_core(*err),
            e.severity == kind_severity(e.kind),
            (e.message.short@, e.message.detail@) == kind_message(e.kind),
            e.recovery@ == kind_recovery(e.kind),
            e.technical.code@ == ascii_lower(kind_name(e.kind)),
            e.technical.detail@ == error_message(*err),
    {
        let kind = AppErrorKind::from_core(err);
        let code = to_ascii_lowercase(kind.name());
        let detail = err.message();
        AppError {
            error_id,
            kind,
            severity: kind.default_severity(),
            message: UserMessage::for_kind(kind),
            technical: TechnicalDetail { code, detail },
            recovery: kind.default_recovery_actions(),
        }
    }

    /// The envelope of a known kind with the given technical detail.
    pub fn new(kind: AppErrorKind, technical_detail: &str, error_id: ErrorId) -> (e: Self)
        ensures
            e.error_id == error_id,
            e.kind == kind,
            e.severity == kind_severity(kind),
            (e.message.short@, e.message.detail@) == kind_message(kind),
            e.recovery@ == kind_recovery(kind),
            e.technical.code@ == ascii_lower(kind_name(kind)),
            e.technical.detail@ == technical_detail@,
    {
        let code = to_ascii_lowercase(kind.name());
        AppError {
            error_id,
            kind,
            severity: kind.default_severity(),
            message: UserMessage::for_kind(kind),
            technical: TechnicalDetail { code, detail: String::from_str(technical_detail) },
            recovery: kind.default_recovery_actions(),
        }
    }

    /// `true` when the error blocks the user from proceeding.
    pub fn is_blocking(&self) -> (b: bool)
        ensures
            b == (severity_rank(self.severity) >= severity_rank(ErrorSeverity::Blocking)),
    {
        self.severity.rank() >= 3
    }

    /// `true` when some offered action is more than dismissing.
    pub fn is_recoverable(&self) -> (b: bool)
        ensures
            b == (self.recovery@.len() > 0 && exists|k: int| 0 <= k < self.recovery@.len() && self.recovery@[k] != RecoveryAction::Dismiss),
    {
        let mut i: usize = 0;
        while i < self.recovery.len()
            invariant
                i <= self.recovery@.len(),
                forall|k: int| 0 <= k < i ==> self.recovery@[k] == RecoveryAction::Dismiss,
            decreases self.recovery@.len() - i,
        {
            if !matches!(self.recovery[i], RecoveryAction::Dismiss) {
                return true;
            }
            i = i + 1;
        }
        false
    }
}

} // verus!
