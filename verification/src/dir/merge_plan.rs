//! Directory merge planning.
//!
//! Turns a directory comparison result into a previewable operation plan.
//! The plan is reviewed before anything runs: nothing is silently
//! overwritten. Only copies are planned, never deletions. What the target
//! of each copy looks like on disk (whether it exists, whether it can be
//! written) is measured by the caller and handed in as a [`TargetProbe`]
//! per entry; running a plan is the caller's work too, and
//! [`execution_report`] turns the batch manifest it produced into a report.

use vstd::prelude::*;

use crate::dir::batch::{BatchManifest, EntryOutcome, ManifestEntry};
use crate::dir::recursive::{RecEntry, RecStatus};

verus! {

/// Direction of a batch copy.
#[derive(Debug, Clone, Copy, PartialEq, Eq, Structural)]
pub enum CopyDirection {
    /// Copy from the left root to the right root.
    LeftToRight,
    /// Copy from the right root to the left root.
    RightToLeft,
}

/// Which entries of the scan a plan includes.
#[derive(Debug, Clone, Copy, PartialEq, Eq, Structural)]
pub enum EntrySelection {
    /// All changed, one-sided and otherwise non-equal entries.
    AllNonEqual,
    /// Only entries whose content differs.
    ChangedOnly,
    /// Only entries present solely on the source side.
    SourceOnlyEntries,
}

impl Default for EntrySelection {
    fn default() -> (s: Self)
        ensures
            s == EntrySelection::AllNonEqual,
    {
        EntrySelection::AllNonEqual
    }
}

/// A single actionable directory merge operation.
#[derive(Debug, Clone, Copy, PartialEq, Eq, Structural)]
pub enum DirectoryMergeAction {
    /// Copy a file from the left root to the right root.
    CopyLeftToRight,
    /// Copy a file from the right root to the left root.
    CopyRightToLeft,
    /// No operation for this entry.
    Skip,
}

/// Pre-execution checks for one operation.
#[derive(Debug, Clone, Copy, PartialEq, Eq, Structural)]
pub struct OperationPreflight {
    /// The target already exists and will be overwritten.
    pub target_exists: bool,
    /// The target can be written (measured when the plan is made).
    pub target_writable: bool,
    /// A backup is due before overwriting.
    pub backup_required: bool,
    /// Estimated bytes to copy.
    pub estimated_bytes: u64,
}

/// What the caller found at an entry's copy target when planning.
#[derive(Debug, Clone, Copy, PartialEq, Eq, Structural)]
pub struct TargetProbe {
    /// The target path exists.
    pub exists: bool,
    /// The target, or where it does not exist yet its parent directory,
    /// is writable.
    pub writable: bool,
}

/// A single planned file operation.
#[derive(Debug, Clone)]
pub struct PlannedFileOperation {
    pub rel_path: String,
    pub action: DirectoryMergeAction,
    pub source: Option<String>,
    pub target: Option<String>,
    pub preflight: OperationPreflight,
}

/// High-level risk summary shown before a plan runs.
#[derive(Debug, Clone, Copy, Default, PartialEq, Eq)]
pub struct RiskSummary {
    pub total_files: usize,
    pub new_files: usize,
    pub overwrites: usize,
    pub estimated_bytes: u64,
    /// Files whose target is not writable when the plan is made.
    pub permission_blocks: usize,
}

/// Identifier of one operation plan.
#[derive(Debug, Clone, PartialEq, Eq)]
pub struct OperationPlanId(pub String);

impl OperationPlanId {
    /// The id `plan-<secs>-<pid>` of a plan made at `secs` seconds after
    /// the Unix epoch by process `pid`.
    pub fn from_parts(secs: u64, pid: u32) -> (id: Self)
        ensures
            id.0@ == "plan-"@ + crate::text::decimal(secs as nat) + seq!['-'] + crate::text::decimal(pid as nat),
    {
        OperationPlanId(crate::text::tagged_id("plan-", secs, pid))
    }
}

/// A previewable, executable directory merge plan.
#[derive(Debug, Clone)]
pub struct OperationPlan {
    pub id: OperationPlanId,
    pub left_root: String,
    pub right_root: String,
    pub direction: CopyDirection,
    pub operations: Vec<PlannedFileOperation>,
    pub risk_summary: RiskSummary,
}

impl OperationPlan {
    /// `true` when every copy in the plan has a writable target.
    pub fn is_safe_to_execute(&self) -> (r: bool)
        ensures
            r == (self.risk_summary.permission_blocks == 0),
    {
        self.risk_summary.permission_blocks == 0
    }
}

/// What happened to one file when a plan ran.
#[derive(Debug, Clone)]
pub enum FileOutcome {
    Copied { bytes: u64, backup_created: bool },
    Skipped { reason: String },
    Failed { error: String },
}

/// The result of running a plan.
#[derive(Debug, Clone)]
pub struct PlanExecutionReport {
    pub plan_id: OperationPlanId,
    pub succeeded: usize,
    pub failed: usize,
    pub skipped: usize,
    pub outcomes: Vec<(String, FileOutcome)>,
}

/// Whether the selection takes an entry of this status. Equal entries, and
/// entries whose comparison is still running, are never taken.
pub open spec fn selected(status: RecStatus, direction: CopyDirection, selection: EntrySelection) -> bool {
    match status {
        RecStatus::Equal | RecStatus::Computing => false,
        _ => match selection {
            EntrySelection::ChangedOnly => status == RecStatus::Changed,
            EntrySelection::SourceOnlyEntries => match direction {
                CopyDirection::LeftToRight => status == RecStatus::LeftOnly,
                CopyDirection::RightToLeft => status == RecStatus::RightOnly,
            },
            EntrySelection::AllNonEqual => true,
        },
    }
}

/// The action for a selected entry: a copy from the source side where the
/// source holds the file, a skip otherwise.
pub open spec fn planned_action(direction: CopyDirection, status: RecStatus) -> DirectoryMergeAction {
    match direction {
        CopyDirection::LeftToRight => match status {
            RecStatus::Changed | RecStatus::LeftOnly => DirectoryMergeAction::CopyLeftToRight,
            _ => DirectoryMergeAction::Skip,
        },
        CopyDirection::RightToLeft => match status {
            RecStatus::Changed | RecStatus::RightOnly => DirectoryMergeAction::CopyRightToLeft,
            _ => DirectoryMergeAction::Skip,
        },
    }
}

/// The preflight of a planned operation: a copy carries what the probe
/// found and the entry's size (left first); a skip carries nothing.
pub open spec fn planned_preflight(action: DirectoryMergeAction, e: RecEntry, probe: TargetProbe) -> OperationPreflight {
    if action == DirectoryMergeAction::Skip {
        OperationPreflight { target_exists: false, target_writable: true, backup_required: false, estimated_bytes: 0 }
    } else {
        OperationPreflight {
            target_exists: probe.exists,
            target_writable: probe.writable,
            backup_required: probe.exists,
            estimated_bytes: match e.left_size {
                Some(n) => n,
                None => match e.right_size {
                    Some(n) => n,
                    None => 0,
                },
            },
        }
    }
}

/// A planned operation without its two joined paths: relative path,
/// action and preflight.
pub type PlannedModel = (Seq<char>, DirectoryMergeAction, OperationPreflight);

/// The operations planned for the first `n` entries.
pub open spec fn planned_ops(
    entries: Seq<RecEntry>,
    probes: Seq<TargetProbe>,
    direction: CopyDirection,
    selection: EntrySelection,
    n: nat,
) -> Seq<PlannedModel>
    decreases n,
{
    if n == 0 {
        Seq::empty()
    } else {
        let before = planned_ops(entries, probes, direction, selection, (n - 1) as nat);
        let e = entries[n - 1];
        if selected(e.status, direction, selection) {
            let action = planned_action(direction, e.status);
            before.push((e.rel_path@, action, planned_preflight(action, e, probes[n - 1])))
        } else {
            before
        }
    }
}

/// The risk totals of a list of planned operations, counted over the copies:
/// files, new files, overwrites, bytes, permission blocks.
pub open spec fn risk_totals(ops: Seq<PlannedModel>) -> (nat, nat, nat, nat, nat)
    decreases ops.len(),
{
    if ops.len() == 0 {
        (0, 0, 0, 0, 0)
    } else {
        let t = risk_totals(ops.drop_last());
        let (_, action, p) = ops.last();
        if action == DirectoryMergeAction::Skip {
            t
        } else {
            (
                t.0 + 1,
                if p.target_exists { t.1 } else { t.1 + 1 },
                if p.target_exists { t.2 + 1 } else { t.2 },
                t.3 + p.estimated_bytes as nat,
                if p.target_writable { t.4 } else { t.4 + 1 },
            )
        }
    }
}

proof fn lemma_risk_totals_bounded(ops: Seq<PlannedModel>)
    ensures
        risk_totals(ops).0 <= ops.len(),
        risk_totals(ops).1 <= risk_totals(ops).0,
        risk_totals(ops).2 <= risk_totals(ops).0,
        risk_totals(ops).4 <= risk_totals(ops).0,
    decreases ops.len(),
{
    if ops.len() > 0 {
        lemma_risk_totals_bounded(ops.drop_last());
    }
}

proof fn lemma_planned_ops_len(
    entries: Seq<RecEntry>,
    probes: Seq<TargetProbe>,
    direction: CopyDirection,
    selection: EntrySelection,
    n: nat,
)
    ensures
        planned_ops(entries, probes, direction, selection, n).len() <= n,
    decreases n,
{
    if n > 0 {
        lemma_planned_ops_len(entries, probes, direction, selection, (n - 1) as nat);
    }
}

proof fn lemma_risk_bytes_monotone(
    entries: Seq<RecEntry>,
    probes: Seq<TargetProbe>,
    direction: CopyDirection,
    selection: EntrySelection,
    m: nat,
    n: nat,
)
    requires
        m <= n,
    ensures
        risk_totals(planned_ops(entries, probes, direction, selection, m)).3 <= risk_totals(
            planned_ops(entries, probes, direction, selection, n),
        ).3,
    decreases n - m,
{
    if m < n {
        lemma_risk_bytes_monotone(entries, probes, direction, selection, m, (n - 1) as nat);
        let before = planned_ops(entries, probes, direction, selection, (n - 1) as nat);
        let after = planned_ops(entries, probes, direction, selection, n);
        if after != before {
            assert(after.drop_last() =~= before);
        }
    }
}

/// `rel` is a relative path on every platform: it starts with no
/// separator and holds no drive prefix.
pub open spec fn is_relative_text(rel: Seq<char>) -> bool {
    &&& !rel.contains(':')
    &&& rel.len() > 0 ==> rel[0] != '/' && rel[0] != '\\'
}

/// `r` is `rel` joined onto `root` as `PathBuf::push` joins a relative
/// path: `rel` itself onto an empty root; appended directly after a root
/// that ends in `/`; after a plain root (no `\`, no `:`, not ending in
/// `/`) with exactly one separator between them (`/` on Unix, `\` on
/// Windows); and, where the platform decides whether the root already ends
/// in a separator (a root ending in `\`, or a bare drive such as `C:`),
/// either directly or with one separator between them.
pub open spec fn joined_onto(r: Seq<char>, root: Seq<char>, rel: Seq<char>) -> bool {
    if root.len() == 0 {
        r == rel
    } else if root.last() == '/' {
        r == root + rel
    } else if !root.contains('\\') && !root.contains(':') {
        r == root.push('/') + rel || r == root.push('\\') + rel
    } else {
        r == root + rel || r == root.push('/') + rel || r == root.push('\\') + rel
    }
}

/// `root` is a Windows verbatim path (it begins with `\\?\`). Pushing onto
/// such a path rebuilds it from its components, dropping `.` and `..` and
/// any trailing separator, so its text is not kept.
pub open spec fn verbatim_root(root: Seq<char>) -> bool {
    root.len() >= 4 && root.take(4) == seq!['\\', '\\', '?', '\\']
}

/// The text of `rel` joined onto `root`.
///
/// Trusted: wraps `Path::join`. For a relative `rel` and a root that is
/// not a verbatim path, `PathBuf::push` keeps the root's text and appends
/// `rel` as it is, putting the platform's main separator between them
/// only where the root is not empty, does not already end with a
/// separator and is not a bare drive such as `C:`. The contract claims
/// exactly that, as `joined_onto`: which separator is the main one, and
/// whether `\` and a bare drive count as separator and prefix, is left to
/// the platform. Nothing is claimed for a verbatim root, whose components
/// `push` rewrites.
#[verifier::external_body]
fn join_path(root: &str, rel: &str) -> (r: String)
    ensures
        is_relative_text(rel@) && !verbatim_root(root@) ==> joined_onto(r@, root@, rel@),
{
    std::path::Path::new(root).join(rel).to_string_lossy().into_owned()
}

/// The paths of a planned copy are joined from the roots of its direction:
/// the source from the source root, the target from the target root (for
/// a relative path and roots that are not verbatim paths).
pub open spec fn paths_follow_direction(op: PlannedFileOperation, left_root: Seq<char>, right_root: Seq<char>) -> bool {
    is_relative_text(op.rel_path@) && !verbatim_root(left_root) && !verbatim_root(right_root) ==> match op.action {
        DirectoryMergeAction::CopyLeftToRight => (op.source matches Some(s) && joined_onto(s@, left_root, op.rel_path@))
            && (op.target matches Some(t) && joined_onto(t@, right_root, op.rel_path@)),
        DirectoryMergeAction::CopyRightToLeft => (op.source matches Some(s) && joined_onto(s@, right_root, op.rel_path@))
            && (op.target matches Some(t) && joined_onto(t@, left_root, op.rel_path@)),
        DirectoryMergeAction::Skip => true,
    }
}

/// Whether the selection takes an entry of this status.
fn is_selected(status: RecStatus, direction: CopyDirection, selection: EntrySelection) -> (r: bool)
    ensures
        r == selected(status, direction, selection),
{
    match status {
        RecStatus::Equal | RecStatus::Computing => false,
        _ => match selection {
            EntrySelection::ChangedOnly => status == RecStatus::Changed,
            EntrySelection::SourceOnlyEntries => match direction {
                CopyDirection::LeftToRight => status == RecStatus::LeftOnly,
                CopyDirection::RightToLeft => status == RecStatus::RightOnly,
            },
            EntrySelection::AllNonEqual => true,
        },
    }
}

/// Builds an operation plan from a directory scan result.
///
/// `probes[i]` is what the caller found at the copy target of
/// `entries[i]`. An entry is planned when the selection takes it; it is a
/// copy from the source side where the source holds the file and a skip
/// otherwise. The risk summary counts the copies.
pub fn plan_operations(
    entries: &Vec<RecEntry>,
    left_root: &str,
    right_root: &str,
    direction: CopyDirection,
    selection: EntrySelection,
    id: OperationPlanId,
    probes: &Vec<TargetProbe>,
) -> (plan: OperationPlan)
    requires
        probes@.len() == entries@.len(),
        risk_totals(planned_ops(entries@, probes@, direction, selection, entries@.len())).3 <= u64::MAX,
    ensures
        plan.id == id,
        plan.left_root@ == left_root@,
        plan.right_root@ == right_root@,
        plan.direction == direction,
        plan.operations@.map_values(|op: PlannedFileOperation| (op.rel_path@, op.action, op.preflight))
            == planned_ops(entries@, probes@, direction, selection, entries@.len()),
        forall|i: int|
            0 <= i < plan.operations@.len() ==> ((#[trigger] plan.operations@[i]).source is Some
                <==> plan.operations@[i].action != DirectoryMergeAction::Skip) && (
            plan.operations@[i].target is Some <==> plan.operations@[i].action
                != DirectoryMergeAction::Skip),
        forall|i: int|
            0 <= i < plan.operations@.len() ==> paths_follow_direction(
                #[trigger] plan.operations@[i],
                left_root@,
                right_root@,
            ),
        ({
            let t = risk_totals(planned_ops(entries@, probes@, direction, selection, entries@.len()));
            &&& plan.risk_summary.total_files == t.0
            &&& plan.risk_summary.new_files == t.1
            &&& plan.risk_summary.overwrites == t.2
            &&& plan.risk_summary.estimated_bytes == t.3
            &&& plan.risk_summary.permission_blocks == t.4
        }),
{
    let mut operations: Vec<PlannedFileOperation> = Vec::new();
    let mut risk = RiskSummary { total_files: 0, new_files: 0, overwrites: 0, estimated_bytes: 0, permission_blocks: 0 };
    let ghost total = risk_totals(planned_ops(entries@, probes@, direction, selection, entries@.len())).3;
    let mut i: usize = 0;
    while i < entries.len()
        invariant
            i <= entries@.len(),
            probes@.len() == entries@.len(),
            total == risk_totals(planned_ops(entries@, probes@, direction, selection, entries@.len())).3,
            total <= u64::MAX,
            operations@.map_values(|op: PlannedFileOperation| (op.rel_path@, op.action, op.preflight))
                == planned_ops(entries@, probes@, direction, selection, i as nat),
            forall|j: int|
                0 <= j < operations@.len() ==> ((#[trigger] operations@[j]).source is Some
                    <==> operations@[j].action != DirectoryMergeAction::Skip) && (
                operations@[j].target is Some <==> operations@[j].action
                    != DirectoryMergeAction::Skip),
            forall|j: int|
                0 <= j < operations@.len() ==> paths_follow_direction(
                    #[trigger] operations@[j],
                    left_root@,
                    right_root@,
                ),
            ({
                let t = risk_totals(planned_ops(entries@, probes@, direction, selection, i as nat));
                &&& risk.total_files == t.0
                &&& risk.new_files == t.1
                &&& risk.overwrites == t.2
                &&& risk.estimated_bytes == t.3
                &&& risk.permission_blocks == t.4
            }),
        decreases entries@.len() - i,
    {
        let ghost before = planned_ops(entries@, probes@, direction, selection, i as nat);
        let ghost ops_before = operations@;
        proof {
            lemma_planned_ops_len(entries@, probes@, direction, selection, i as nat);
            lemma_risk_totals_bounded(before);
            lemma_risk_bytes_monotone(entries@, probes@, direction, selection, i as nat + 1, entries@.len());
        }
        let entry = &entries[i];
        if is_selected(entry.status, direction, selection) {
            let (source, target, action) = match (direction, entry.status) {
                (CopyDirection::LeftToRight, RecStatus::Changed)
                | (CopyDirection::LeftToRight, RecStatus::LeftOnly) => (
                    Some(join_path(left_root, entry.rel_path.as_str())),
                    Some(join_path(right_root, entry.rel_path.as_str())),
                    DirectoryMergeAction::CopyLeftToRight,
                ),
                (CopyDirection::RightToLeft, RecStatus::Changed)
                | (CopyDirection::RightToLeft, RecStatus::RightOnly) => (
                    Some(join_path(right_root, entry.rel_path.as_str())),
                    Some(join_path(left_root, entry.rel_path.as_str())),
                    DirectoryMergeAction::CopyRightToLeft,
                ),
                _ => (None, None, DirectoryMergeAction::Skip),
            };
            assert(action == planned_action(direction, entry.status));
            let preflight = if let DirectoryMergeAction::Skip = action {
                OperationPreflight { target_exists: false, target_writable: true, backup_required: false, estimated_bytes: 0 }
            } else {
                let probe = probes[i];
                let estimated_bytes = match entry.left_size {
                    Some(n) => n,
                    None => match entry.right_size {
                        Some(n) => n,
                        None => 0,
                    },
                };
                let ghost after = before.push((entry.rel_path@, action, planned_preflight(action, *entry, probe)));
                assert(after.drop_last() =~= before);
                assert(after == planned_ops(entries@, probes@, direction, selection, i as nat + 1));
                risk.total_files = risk.total_files + 1;
                if probe.exists {
                    risk.overwrites = risk.overwrites + 1;
                } else {
                    risk.new_files = risk.new_files + 1;
                }
                if !probe.writable {
                    risk.permission_blocks = risk.permission_blocks + 1;
                }
                risk.estimated_bytes = risk.estimated_bytes + estimated_bytes;
                OperationPreflight {
                    target_exists: probe.exists,
                    target_writable: probe.writable,
                    backup_required: probe.exists,
                    estimated_bytes,
                }
            };
            assert(preflight == planned_preflight(action, *entry, probes@[i as int]));
            let op = PlannedFileOperation { rel_path: entry.rel_path.clone(), action, source, target, preflight };
            operations.push(op);
            proof {
                let after = planned_ops(entries@, probes@, direction, selection, i as nat + 1);
                assert(after == before.push((entry.rel_path@, action, preflight)));
                assert(after.drop_last() =~= before);
                assert(operations@.map_values(|op: PlannedFileOperation| (op.rel_path@, op.action, op.preflight))
                    =~= after);
                assert forall|j: int| 0 <= j < operations@.len() implies ((#[trigger] operations@[j]).source
                    is Some <==> operations@[j].action != DirectoryMergeAction::Skip) && (
                    operations@[j].target is Some <==> operations@[j].action
                        != DirectoryMergeAction::Skip) by {
                    if j < ops_before.len() {
                        assert(operations@[j] == ops_before[j]);
                    }
                }
                assert forall|j: int| 0 <= j < operations@.len() implies paths_follow_direction(
                    #[trigger] operations@[j],
                    left_root@,
                    right_root@,
                ) by {
                    if j < ops_before.len() {
                        assert(operations@[j] == ops_before[j]);
                    }
                }
            }
        }
        i = i + 1;
    }
    OperationPlan {
        id,
        left_root: String::from_str(left_root),
        right_root: String::from_str(right_root),
        direction,
        operations,
        risk_summary: risk,
    }
}

/// How a plan's run turns into a report, for one copied operation.
pub open spec fn file_outcome_of(o: EntryOutcome) -> FileOutcome {
    match o {
        EntryOutcome::Copied { bytes, backup_path } => FileOutcome::Copied { bytes, backup_created: backup_path is Some },
        EntryOutcome::Skipped { reason } => FileOutcome::Skipped { reason },
        EntryOutcome::Failed { error } => FileOutcome::Failed { error },
    }
}

/// The operations of a plan that copy, in order: not skips, and with both
/// paths.
pub open spec fn copy_operations(ops: Seq<PlannedFileOperation>) -> Seq<PlannedFileOperation> {
    ops.filter(
        |op: PlannedFileOperation| op.action != DirectoryMergeAction::Skip && op.source is Some && op.target is Some,
    )
}

/// How many operations of a plan are skips.
pub open spec fn skip_count(ops: Seq<PlannedFileOperation>) -> nat {
    ops.filter(|op: PlannedFileOperation| op.action == DirectoryMergeAction::Skip).len()
}

fn copy_outcome(o: &EntryOutcome) -> (r: FileOutcome)
    ensures
        r == file_outcome_of(*o),
{
    match o {
        EntryOutcome::Copied { bytes, backup_path } => FileOutcome::Copied {
            bytes: *bytes,
            backup_created: backup_path.is_some(),
        },
        EntryOutcome::Skipped { reason } => FileOutcome::Skipped { reason: reason.clone() },
        EntryOutcome::Failed { error } => FileOutcome::Failed { error: error.clone() },
    }
}

/// The copy operations of a plan, in order.
pub fn copy_items(plan: &OperationPlan) -> (ops: Vec<&PlannedFileOperation>)
    ensures
        ops@.map_values(|op: &PlannedFileOperation| *op) == copy_operations(plan.operations@),
{
    let mut out: Vec<&PlannedFileOperation> = Vec::new();
    let mut i: usize = 0;
    while i < plan.operations.len()
        invariant
            i <= plan.operations@.len(),
            out@.map_values(|op: &PlannedFileOperation| *op) == copy_operations(
                plan.operations@.subrange(0, i as int),
            ),
        decreases plan.operations@.len() - i,
    {
        proof {
            reveal(Seq::filter);
            assert(plan.operations@.subrange(0, i as int + 1).drop_last() =~= plan.operations@.subrange(0, i as int));
        }
        let op = &plan.operations[i];
        let is_copy = match op.action {
            DirectoryMergeAction::Skip => false,
            _ => op.source.is_some() && op.target.is_some(),
        };
        if is_copy {
            out.push(op);
        }
        assert(out@.map_values(|op: &PlannedFileOperation| *op) =~= copy_operations(
            plan.operations@.subrange(0, i as int + 1),
        ));
        i = i + 1;
    }
    assert(plan.operations@.subrange(0, plan.operations@.len() as int) =~= plan.operations@);
    out
}

/// The report of a plan's run, from the batch manifest that copying the
/// plan's copy operations, in order, produced: each copy operation's
/// relative path beside its manifest entry's outcome (as far as both lists
/// go), the manifest's success and failure counts, and the plan's skips.
pub fn execution_report(plan: &OperationPlan, manifest: &BatchManifest) -> (r: PlanExecutionReport)
    ensures
        r.plan_id == plan.id,
        r.succeeded == manifest.succeeded_spec(),
        r.failed == manifest.failed_spec(),
        r.skipped == skip_count(plan.operations@),
        ({
            let ops = copy_operations(plan.operations@);
            let n = if ops.len() < manifest.entries@.len() { ops.len() } else { manifest.entries@.len() };
            &&& r.outcomes@.len() == n
            &&& forall|i: int|
                0 <= i < n ==> (#[trigger] r.outcomes@[i]).0@ == ops[i].rel_path@ && r.outcomes@[i].1
                    == file_outcome_of(manifest.entries@[i].outcome)
        }),
{
    let ops = copy_items(plan);
    let ghost cops = copy_operations(plan.operations@);
    assert(ops@.len() == cops.len());
    let mut outcomes: Vec<(String, FileOutcome)> = Vec::new();
    let mut i: usize = 0;
    while i < ops.len() && i < manifest.entries.len()
        invariant
            i <= ops@.len(),
            i <= manifest.entries@.len(),
            ops@.map_values(|op: &PlannedFileOperation| *op) == cops,
            outcomes@.len() == i,
            forall|j: int|
                0 <= j < i ==> (#[trigger] outcomes@[j]).0@ == cops[j].rel_path@ && outcomes@[j].1
                    == file_outcome_of(manifest.entries@[j].outcome),
        decreases ops@.len() - i,
    {
        assert(*ops@[i as int] == cops[i as int]);
        let entry: &ManifestEntry = &manifest.entries[i];
        outcomes.push((ops[i].rel_path.clone(), copy_outcome(&entry.outcome)));
        i = i + 1;
    }
    let mut skipped: usize = 0;
    let mut k: usize = 0;
    while k < plan.operations.len()
        invariant
            k <= plan.operations@.len(),
            skipped == skip_count(plan.operations@.subrange(0, k as int)),
            skipped <= k,
        decreases plan.operations@.len() - k,
    {
        proof {
            reveal(Seq::filter);
            assert(plan.operations@.subrange(0, k as int + 1).drop_last() =~= plan.operations@.subrange(0, k as int));
        }
        if let DirectoryMergeAction::Skip = plan.operations[k].action {
            skipped = skipped + 1;
        }
        k = k + 1;
    }
    assert(plan.operations@.subrange(0, plan.operations@.len() as int) =~= plan.operations@);
    PlanExecutionReport {
        plan_id: OperationPlanId(plan.id.0.clone()),
        succeeded: manifest.succeeded(),
        failed: manifest.failed(),
        skipped,
        outcomes,
    }
}

/// A plan never overwrites silently: every planned operation whose target
/// exists asks for a backup first.
pub proof fn law_overwrites_back_up(
    entries: Seq<RecEntry>,
    probes: Seq<TargetProbe>,
    direction: CopyDirection,
    selection: EntrySelection,
    n: nat,
)
    ensures
        forall|i: int|
            0 <= i < planned_ops(entries, probes, direction, selection, n).len() ==> (#[trigger] planned_ops(
                entries,
                probes,
                direction,
                selection,
                n,
            )[i]).2.target_exists ==> planned_ops(entries, probes, direction, selection, n)[i].2.backup_required,
    decreases n,
{
    if n > 0 {
        law_overwrites_back_up(entries, probes, direction, selection, (n - 1) as nat);
        let before = planned_ops(entries, probes, direction, selection, (n - 1) as nat);
        let after = planned_ops(entries, probes, direction, selection, n);
        assert forall|i: int| 0 <= i < after.len() implies (#[trigger] after[i]).2.target_exists
            ==> after[i].2.backup_required by {
            if i < before.len() {
                assert(after[i] == before[i]);
            }
        }
    }
}

/// Every copy of a plan either creates a new file or overwrites one: the
/// risk summary's files are its new files plus its overwrites.
pub proof fn law_copies_are_new_or_overwrites(ops: Seq<PlannedModel>)
    ensures
        risk_totals(ops).0 == risk_totals(ops).1 + risk_totals(ops).2,
    decreases ops.len(),
{
    if ops.len() > 0 {
        law_copies_are_new_or_overwrites(ops.drop_last());
    }
}

/// Equal entries, and entries whose comparison is still running, are never
/// planned, whatever the direction and selection.
pub proof fn law_equal_entries_are_not_planned(
    entries: Seq<RecEntry>,
    probes: Seq<TargetProbe>,
    direction: CopyDirection,
    selection: EntrySelection,
    n: nat,
)
    requires
        n <= entries.len(),
        forall|i: int| 0 <= i < entries.len() ==> ((#[trigger] entries[i]).status == RecStatus::Equal
            || entries[i].status == RecStatus::Computing),
    ensures
        planned_ops(entries, probes, direction, selection, n).len() == 0,
    decreases n,
{
    if n > 0 {
        law_equal_entries_are_not_planned(entries, probes, direction, selection, (n - 1) as nat);
        assert(entries[n - 1].status == RecStatus::Equal || entries[n - 1].status == RecStatus::Computing);
    }
}

} // verus!
