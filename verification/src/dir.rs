//! Directory comparison: recursive scan results, directory indices and
//! their pairing, merge plans and batch copy manifests.

pub mod path_order;
pub mod digest;
pub mod recursive;
pub mod index;
pub mod batch;
pub mod merge_plan;
pub mod listing;

pub use batch::{
    record_copy_result, BatchFailurePolicy, BatchItem, BatchManifest, CopyOutcome, EntryOutcome,
    ManifestEntry, OperationId,
};
pub use digest::{digest_step, listings_match, names_match, size_verdict, DigestOutcome, DigestStep};
pub use index::{
    pair_entries, ContentDigest, DirectoryEntryRecord, DirectoryIndex, EntryType, EqualityEvidence,
    IndexRevision, PairedEntry, PairedEntrySet,
};
pub use listing::{bytes_size, DirectoryListing, FileEntry};
pub use merge_plan::{
    execution_report, plan_operations, CopyDirection, DirectoryMergeAction, EntrySelection,
    FileOutcome, OperationPlan, OperationPlanId, OperationPreflight, PlanExecutionReport,
    PlannedFileOperation, RiskSummary, TargetProbe,
};
pub use recursive::{RecEntry, RecStatus, RecursiveMerge, RecursiveScan, RightStep, SeenKind};
