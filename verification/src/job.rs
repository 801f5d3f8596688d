//! Background job progress model and large-file threshold policy. Job
//! execution belongs to the UI; the core owns the data and the policy.

use vstd::prelude::*;

use crate::cancel::CancellationToken;

pub mod limits;

pub use limits::{FileSizeClass, PerformanceLimits};

verus! {

/// Bytes above which inline character diff is disabled automatically.
pub const LARGE_FILE_INLINE_DIFF_BYTES: u64 = 524288;

/// Bytes above which a file is very large and only line diff runs.
pub const VERY_LARGE_FILE_BYTES: u64 = 10485760;

/// Lines above which collapsed equal hunks are not expanded automatically.
pub const LARGE_HUNK_AUTO_EXPAND_LINES: usize = 10000;

/// Directory entries above which the deep-compare view renders virtually.
pub const LARGE_DIRECTORY_VIRTUAL_THRESHOLD: usize = 5000;

/// In-flight per-file digest tasks before back-pressure applies.
pub const DIGEST_CONCURRENCY_LIMIT: usize = 32;

/// Identifier of one background job within a session.
pub type JobId = u64;

/// Which operation a background job performs.
#[derive(Debug, Clone, Copy, PartialEq, Eq, Structural)]
pub enum JobKind {
    ReadFile,
    DecodeFile,
    LineDiff,
    InlineDiff,
    DirectoryDigest,
    SavePreflight,
    BatchCopy,
}

impl JobKind {
    /// Human-readable label for the progress UI.
    pub fn label(self) -> (s: &'static str)
        ensures
            s@ == match self {
                JobKind::ReadFile => "Reading file"@,
                JobKind::DecodeFile => "Decoding file"@,
                JobKind::LineDiff => "Computing diff"@,
                JobKind::InlineDiff => "Computing inline diff"@,
                JobKind::DirectoryDigest => "Comparing directory"@,
                JobKind::SavePreflight => "Checking save conditions"@,
                JobKind::BatchCopy => "Copying files"@,
            },
    {
        match self {
            JobKind::ReadFile => "Reading file",
            JobKind::DecodeFile => "Decoding file",
            JobKind::LineDiff => "Computing diff",
            JobKind::InlineDiff => "Computing inline diff",
            JobKind::DirectoryDigest => "Comparing directory",
            JobKind::SavePreflight => "Checking save conditions",
            JobKind::BatchCopy => "Copying files",
        }
    }
}

/// A progress snapshot of a background job; units depend on the job's
/// kind (bytes for file I/O, files for a directory digest).
#[derive(Debug, Clone, PartialEq, Eq)]
pub struct JobProgress {
    pub job_id: JobId,
    pub kind: JobKind,
    /// Short description of the current phase.
    pub phase: String,
    pub completed_units: u64,
    /// `None` while the total is unknown.
    pub total_units: Option<u64>,
    /// Whether the job responds to cancellation.
    pub cancellable: bool,
}

impl JobProgress {
    /// `true` when the total is known and reached.
    pub fn is_complete(&self) -> (b: bool)
        ensures
            b == (self.total_units matches Some(t) && self.completed_units >= t),
    {
        match self.total_units {
            Some(t) => self.completed_units >= t,
            None => false,
        }
    }
}

/// A job id paired with the job's cancellation token. Dropping the handle
/// does not cancel.
#[derive(Debug, Clone)]
pub struct JobHandle {
    pub job_id: JobId,
    token: CancellationToken,
}

impl JobHandle {
    /// The job id.
    pub closed spec fn id_spec(self) -> JobId {
        self.job_id
    }

    /// A handle for `job_id`, with a clone of its fresh token for the
    /// worker.
    pub fn new(job_id: JobId) -> (r: (Self, CancellationToken))
        ensures
            r.0.id_spec() == job_id,
    {
        let token = CancellationToken::new();
        let handle = JobHandle { job_id, token: token.clone() };
        (handle, token)
    }

    /// Signal cancellation to the worker.
    pub fn cancel(&self) {
        self.token.cancel();
    }

    /// Whether the job was cancelled. The flag is the token's shared flag,
    /// which other threads write, so no value is promised (see
    /// `CancellationToken`).
    pub fn is_cancelled(&self) -> bool {
        self.token.is_cancelled()
    }

    /// The underlying token.
    pub fn token(&self) -> &CancellationToken {
        &self.token
    }
}

} // verus!
