//! Error model.
//!
//! No core operation panics for normal user-facing failures. Every error
//! carries enough context (operation, path) for the UI to render a message
//! without string parsing, and exposes its severity and a recovery hint.

use vstd::prelude::*;

use crate::text::push_str;

pub mod app;

verus! {

/// Result alias used across the core crate.
pub type CoreResult<T> = core::result::Result<T, CoreError>;

/// The filesystem operation during which an I/O error occurred.
#[derive(Debug, Clone, Copy, PartialEq, Eq, Structural)]
pub enum IoOperation {
    Read,
    Write,
    Rename,
    Copy,
    Metadata,
    ListDir,
    CreateBackup,
}

/// The display label of an I/O operation.
pub open spec fn io_operation_label(op: IoOperation) -> Seq<char> {
    match op {
        IoOperation::Read => "read"@,
        IoOperation::Write => "write"@,
        IoOperation::Rename => "rename"@,
        IoOperation::Copy => "copy"@,
        IoOperation::Metadata => "metadata"@,
        IoOperation::ListDir => "list directory"@,
        IoOperation::CreateBackup => "create backup"@,
    }
}

impl IoOperation {
    /// The display label of the operation.
    pub fn label(self) -> (s: &'static str)
        ensures
            s@ == io_operation_label(self),
    {
        match self {
            Self::Read => "read",
            Self::Write => "write",
            Self::Rename => "rename",
            Self::Copy => "copy",
            Self::Metadata => "metadata",
            Self::ListDir => "list directory",
            Self::CreateBackup => "create backup",
        }
    }
}

/// How severe an error is, used by the UI to choose the surface.
/// Ordered from least to most severe.
#[derive(Debug, Clone, Copy, PartialEq, Eq, PartialOrd, Ord, Structural)]
pub enum ErrorSeverity {
    /// The operation completed but with a note the user should see.
    Info,
    /// The operation can continue but the user should be aware.
    Warning,
    /// A user action can resolve this. The operation cannot proceed.
    Recoverable,
    /// The operation cannot proceed and no simple recovery is available.
    Blocking,
}

/// The rank of a severity in its order, least severe first.
pub open spec fn severity_rank(s: ErrorSeverity) -> int {
    match s {
        ErrorSeverity::Info => 0,
        ErrorSeverity::Warning => 1,
        ErrorSeverity::Recoverable => 2,
        ErrorSeverity::Blocking => 3,
    }
}

impl ErrorSeverity {
    /// The rank of this severity, least severe first.
    pub fn rank(self) -> (r: u8)
        ensures
            r == severity_rank(self),
    {
        match self {
            Self::Info => 0,
            Self::Warning => 1,
            Self::Recoverable => 2,
            Self::Blocking => 3,
        }
    }
}

/// A predefined recovery action the UI can offer for an error.
#[derive(Debug, Clone, Copy, PartialEq, Eq, Structural)]
pub enum RecoveryHint {
    /// Ask the user to choose a different file or directory.
    ChooseAnotherFile,
    /// Offer to reload the file from disk.
    Reload,
    /// Offer a Save As dialog rather than overwriting.
    SaveAs,
    /// Offer to overwrite despite the conflict (after confirmation).
    OverwriteAnyway,
    /// Suggest the user check filesystem permissions.
    CheckPermissions,
    /// No specific action: inform and close.
    Dismiss,
    /// Report a bug; the error should not have occurred.
    ReportBug,
}

/// Canonical core error taxonomy.
#[derive(Debug, Clone, PartialEq, Eq)]
pub enum CoreError {
    /// The supplied path is malformed or violates path policy.
    InvalidPath { path: String, reason: String },
    /// A filesystem operation failed.
    Io { path: Option<String>, operation: IoOperation, message: String },
    /// Text decoding failed or produced unusable content.
    Decode { path: Option<String>, message: String },
    /// The requested operation is not supported for this input.
    Unsupported { message: String },
    /// A safety conflict, e.g. the target file changed on disk after load.
    Conflict { message: String },
    /// An internal invariant was violated; indicates a bug, not user error.
    InternalInvariant { message: String },
}

/// The severity of an error.
pub open spec fn error_severity(e: CoreError) -> ErrorSeverity {
    match e {
        CoreError::Conflict { .. } => ErrorSeverity::Recoverable,
        CoreError::Io { operation, .. } => match operation {
            IoOperation::Read | IoOperation::ListDir | IoOperation::Metadata => ErrorSeverity::Recoverable,
            _ => ErrorSeverity::Blocking,
        },
        CoreError::InvalidPath { .. } => ErrorSeverity::Recoverable,
        CoreError::Decode { .. } => ErrorSeverity::Warning,
        CoreError::Unsupported { .. } => ErrorSeverity::Warning,
        CoreError::InternalInvariant { .. } => ErrorSeverity::Blocking,
    }
}

/// The suggested recovery for an error.
pub open spec fn error_recovery_hint(e: CoreError) -> RecoveryHint {
    match e {
        CoreError::Conflict { .. } => RecoveryHint::Reload,
        CoreError::Io { operation, .. } => match operation {
            IoOperation::Read | IoOperation::Metadata | IoOperation::ListDir => RecoveryHint::ChooseAnotherFile,
            IoOperation::Write | IoOperation::Rename => RecoveryHint::SaveAs,
            IoOperation::Copy | IoOperation::CreateBackup => RecoveryHint::CheckPermissions,
        },
        CoreError::InvalidPath { .. } => RecoveryHint::ChooseAnotherFile,
        CoreError::Decode { .. } => RecoveryHint::Dismiss,
        CoreError::Unsupported { .. } => RecoveryHint::ChooseAnotherFile,
        CoreError::InternalInvariant { .. } => RecoveryHint::ReportBug,
    }
}

/// The human-readable message of an error.
pub open spec fn error_message(e: CoreError) -> Seq<char> {
    match e {
        CoreError::InvalidPath { path, reason } => "invalid path `"@ + path@ + "`: "@ + reason@,
        CoreError::Io { path, operation, message } => match path {
            Some(p) => io_operation_label(operation) + " failed for `"@ + p@ + "`: "@ + message@,
            None => io_operation_label(operation) + " failed: "@ + message@,
        },
        CoreError::Decode { path, message } => match path {
            Some(p) => "decode failed for `"@ + p@ + "`: "@ + message@,
            None => "decode failed: "@ + message@,
        },
        CoreError::Unsupported { message } => "unsupported: "@ + message@,
        CoreError::Conflict { message } => "conflict: "@ + message@,
        CoreError::InternalInvariant { message } => "internal invariant: "@ + message@,
    }
}

impl CoreError {
    /// A conflict error with the given message.
    pub fn conflict(message: &str) -> (e: Self)
        ensures
            e matches CoreError::Conflict { message: m } && m@ == message@,
    {
        CoreError::Conflict { message: String::from_str(message) }
    }

    /// An internal-invariant error with the given message.
    pub fn internal(message: &str) -> (e: Self)
        ensures
            e matches CoreError::InternalInvariant { message: m } && m@ == message@,
    {
        CoreError::InternalInvariant { message: String::from_str(message) }
    }

    /// The severity level of this error; the UI uses it to choose a
    /// toast, inline warning, or blocking modal.
    pub fn severity(&self) -> (s: ErrorSeverity)
        ensures
            s == error_severity(*self),
    {
        match self {
            Self::Conflict { .. } => ErrorSeverity::Recoverable,
            Self::Io { operation, .. } => match operation {
                IoOperation::Read | IoOperation::ListDir | IoOperation::Metadata => ErrorSeverity::Recoverable,
                IoOperation::Write | IoOperation::Rename | IoOperation::Copy | IoOperation::CreateBackup => ErrorSeverity::Blocking,
            },
            Self::InvalidPath { .. } => ErrorSeverity::Recoverable,
            Self::Decode { .. } => ErrorSeverity::Warning,
            Self::Unsupported { .. } => ErrorSeverity::Warning,
            Self::InternalInvariant { .. } => ErrorSeverity::Blocking,
        }
    }

    /// A suggested recovery action for this error.
    pub fn recovery_hint(&self) -> (h: RecoveryHint)
        ensures
            h == error_recovery_hint(*self),
    {
        match self {
            Self::Conflict { .. } => RecoveryHint::Reload,
            Self::Io { operation, .. } => match operation {
                IoOperation::Read | IoOperation::Metadata => RecoveryHint::ChooseAnotherFile,
                IoOperation::ListDir => RecoveryHint::ChooseAnotherFile,
                IoOperation::Write | IoOperation::Rename => RecoveryHint::SaveAs,
                IoOperation::Copy => RecoveryHint::CheckPermissions,
                IoOperation::CreateBackup => RecoveryHint::CheckPermissions,
            },
            Self::InvalidPath { .. } => RecoveryHint::ChooseAnotherFile,
            Self::Decode { .. } => RecoveryHint::Dismiss,
            Self::Unsupported { .. } => RecoveryHint::ChooseAnotherFile,
            Self::InternalInvariant { .. } => RecoveryHint::ReportBug,
        }
    }

    /// `true` when the severity is at most `Recoverable`.
    pub fn is_user_recoverable(&self) -> (b: bool)
        ensures
            b == (severity_rank(error_severity(*self)) <= severity_rank(ErrorSeverity::Recoverable)),
    {
        self.severity().rank() <= ErrorSeverity::Recoverable.rank()
    }

    /// The human-readable message of this error.
    pub fn message(&self) -> (s: String)
        ensures
            s@ == error_message(*self),
    {
        let mut s = String::new();
        match self {
            Self::InvalidPath { path, reason } => {
                push_str(&mut s, "invalid path `");
                push_str(&mut s, path.as_str());
                push_str(&mut s, "`: ");
                push_str(&mut s, reason.as_str());
            },
            Self::Io { path, operation, message } => {
                push_str(&mut s, operation.label());
                match path {
                    Some(p) => {
                        push_str(&mut s, " failed for `");
                        push_str(&mut s, p.as_str());
                        push_str(&mut s, "`: ");
                    },
                    None => {
                        push_str(&mut s, " failed: ");
                    },
                }
                push_str(&mut s, message.as_str());
            },
            Self::Decode { path, message } => {
                match path {
                    Some(p) => {
                        push_str(&mut s, "decode failed for `");
                        push_str(&mut s, p.as_str());
                        push_str(&mut s, "`: ");
                    },
                    None => {
                        push_str(&mut s, "decode failed: ");
                    },
                }
                push_str(&mut s, message.as_str());
            },
            Self::Unsupported { message } => {
                push_str(&mut s, "unsupported: ");
                push_str(&mut s, message.as_str());
            },
            Self::Conflict { message } => {
                push_str(&mut s, "conflict: ");
                push_str(&mut s, message.as_str());
            },
            Self::InternalInvariant { message } => {
                push_str(&mut s, "internal invariant: ");
                push_str(&mut s, message.as_str());
            },
        }
        assert(s@ =~= error_message(*self));
        s
    }
}

} // verus!
