//! Batch file copy with a restore manifest.
//!
//! Copying one file is the caller's work. After each attempt the caller
//! hands the result to [`record_copy_result`], which records the entry's
//! outcome in the [`BatchManifest`] and, where the failure policy stops the
//! batch, records every remaining item as skipped. The manifest reflects
//! what actually happened, not the plan, and renders itself as JSON for the
//! backup directory so every batch can be reversed.

use vstd::prelude::*;

use crate::error::{error_message, CoreError};
use crate::external_tool::{debug_quoted, str_debug};
use crate::text::{decimal, push_decimal, push_str};

verus! {

/// Identifier of one batch operation, used in the manifest's file name.
#[derive(Debug, Clone, PartialEq, Eq)]
pub struct OperationId(pub String);

impl OperationId {
    /// The id `op-<secs>-<pid>` of an operation started at `secs` seconds
    /// after the Unix epoch by process `pid`.
    pub fn from_parts(secs: u64, pid: u32) -> (id: Self)
        ensures
            id.0@ == "op-"@ + decimal(secs as nat) + seq!['-'] + decimal(pid as nat),
    {
        OperationId(crate::text::tagged_id("op-", secs, pid))
    }

    /// A new id from the current time in seconds and the process id `pid`
    /// (the process id is the caller's to supply).
    pub fn new(pid: u32) -> (id: Self)
        ensures
            exists|secs: u64| id.0@ == "op-"@ + decimal(secs as nat) + seq!['-'] + decimal(pid as nat),
    {
        let now = crate::merge::log::UnixTimestamp::now();
        Self::from_parts(now.0, pid)
    }
}

/// What to do when one entry of a batch fails.
#[derive(Debug, Clone, Copy, PartialEq, Eq, Structural)]
pub enum BatchFailurePolicy {
    /// Stop at the first failure; later entries are not attempted.
    StopOnFirst,
    /// Go on with the remaining entries and collect every failure.
    ContinueOnFailure,
}

impl Default for BatchFailurePolicy {
    fn default() -> (p: Self)
        ensures
            p == BatchFailurePolicy::StopOnFirst,
    {
        BatchFailurePolicy::StopOnFirst
    }
}

/// One planned copy in a batch.
#[derive(Debug, Clone)]
pub struct BatchItem {
    pub src: String,
    pub dst: String,
}

/// Result of a successful single-file copy.
#[derive(Debug, Clone)]
pub struct CopyOutcome {
    pub src: String,
    pub dst: String,
    /// The backup made of the destination before it was overwritten.
    pub backup_path: Option<String>,
    pub bytes_copied: u64,
}

/// Outcome of one entry.
#[derive(Debug, Clone)]
pub enum EntryOutcome {
    Copied { bytes: u64, backup_path: Option<String> },
    Skipped { reason: String },
    Failed { error: String },
}

impl EntryOutcome {
    /// `true` for a copy that happened.
    pub fn is_success(&self) -> (r: bool)
        ensures
            r == (*self is Copied),
    {
        match self {
            EntryOutcome::Copied { .. } => true,
            _ => false,
        }
    }
}

/// Per-entry record of the manifest.
#[derive(Debug, Clone)]
pub struct ManifestEntry {
    pub src: String,
    pub dst: String,
    pub outcome: EntryOutcome,
}

/// The restore manifest of one batch.
#[derive(Debug, Clone)]
pub struct BatchManifest {
    pub operation_id: OperationId,
    pub app_version: String,
    pub created_unix_sec: u64,
    pub entries: Vec<ManifestEntry>,
    /// Where the manifest was written, once it was.
    pub manifest_path: Option<String>,
}

/// The reason recorded for items after a stopping failure.
pub open spec fn stop_reason() -> Seq<char> {
    "batch stopped on earlier failure"@
}

/// The entries of a manifest whose outcome satisfies `p`.
pub open spec fn entries_where(s: Seq<ManifestEntry>, p: spec_fn(EntryOutcome) -> bool) -> nat {
    s.filter(|e: ManifestEntry| p(e.outcome)).len()
}

/// The backup paths that a manifest's copies made, in order.
pub open spec fn backups_of(s: Seq<ManifestEntry>) -> Seq<Seq<char>>
    decreases s.len(),
{
    if s.len() == 0 {
        Seq::empty()
    } else {
        let before = backups_of(s.drop_last());
        match s.last().outcome {
            EntryOutcome::Copied { backup_path: Some(bp), .. } => before.push(bp@),
            _ => before,
        }
    }
}

/// The JSON text of one manifest entry, without the comma that follows it.
pub open spec fn entry_json(e: ManifestEntry) -> Seq<char> {
    "    {\n      \"src\": "@ + str_debug(e.src@) + ",\n      \"dst\": "@ + str_debug(e.dst@) + ",\n"@
        + match e.outcome {
        EntryOutcome::Copied { bytes, backup_path } => "      \"outcome\": \"copied\",\n      \"bytes\": "@
            + decimal(bytes as nat) + ",\n      \"backup_path\": "@ + match backup_path {
            Some(bp) => str_debug(bp@),
            None => "null"@,
        } + "\n"@,
        EntryOutcome::Skipped { reason } => "      \"outcome\": \"skipped\",\n      \"reason\": "@
            + str_debug(reason@) + "\n"@,
        EntryOutcome::Failed { error } => "      \"outcome\": \"failed\",\n      \"error\": "@
            + str_debug(error@) + "\n"@,
    } + "    }"@
}

/// The JSON text of the first `n` entries of a list of `total`, each
/// followed by a comma where another comes after it, and a line break.
pub open spec fn entries_json(s: Seq<ManifestEntry>, n: nat) -> Seq<char>
    decreases n,
{
    if n == 0 {
        Seq::empty()
    } else {
        entries_json(s, (n - 1) as nat) + entry_json(s[n - 1]) + (if n < s.len() { ","@ } else { ""@ })
            + "\n"@
    }
}

/// The JSON text of a manifest.
pub open spec fn manifest_json(m: BatchManifest) -> Seq<char> {
    "{\n  \"operation_id\": "@ + str_debug(m.operation_id.0@) + ",\n  \"app_version\": "@ + str_debug(
        m.app_version@,
    ) + ",\n  \"created_unix_sec\": "@ + decimal(m.created_unix_sec as nat) + ",\n  \"entries\": [\n"@
        + entries_json(m.entries@, m.entries@.len()) + "  ]\n}"@
}

/// The classes of outcome a manifest counts: attempted, copied, failed.
pub open spec fn outcome_class(which: u8) -> spec_fn(EntryOutcome) -> bool {
    if which == 0 {
        |o: EntryOutcome| !(o is Skipped)
    } else if which == 1 {
        |o: EntryOutcome| o is Copied
    } else {
        |o: EntryOutcome| o is Failed
    }
}

fn push_entry_json(s: &mut String, e: &ManifestEntry)
    ensures
        final(s)@ == old(s)@ + entry_json(*e),
{
    proof {
        reveal_strlit("    {\n      \"src\": ");
    }
    push_str(s, "    {\n      \"src\": ");
    push_str(s, debug_quoted(e.src.as_str()).as_str());
    push_str(s, ",\n      \"dst\": ");
    push_str(s, debug_quoted(e.dst.as_str()).as_str());
    push_str(s, ",\n");
    match &e.outcome {
        EntryOutcome::Copied { bytes, backup_path } => {
            push_str(s, "      \"outcome\": \"copied\",\n      \"bytes\": ");
            push_decimal(s, *bytes);
            push_str(s, ",\n      \"backup_path\": ");
            match backup_path {
                Some(bp) => push_str(s, debug_quoted(bp.as_str()).as_str()),
                None => push_str(s, "null"),
            }
            push_str(s, "\n");
        },
        EntryOutcome::Skipped { reason } => {
            push_str(s, "      \"outcome\": \"skipped\",\n      \"reason\": ");
            push_str(s, debug_quoted(reason.as_str()).as_str());
            push_str(s, "\n");
        },
        EntryOutcome::Failed { error } => {
            push_str(s, "      \"outcome\": \"failed\",\n      \"error\": ");
            push_str(s, debug_quoted(error.as_str()).as_str());
            push_str(s, "\n");
        },
    }
    push_str(s, "    }");
    assert(final(s)@ =~= old(s)@ + entry_json(*e));
}

impl BatchManifest {
    /// An empty manifest for a new batch.
    pub fn new(operation_id: OperationId, app_version: String, created_unix_sec: u64) -> (m: Self)
        ensures
            m.operation_id == operation_id,
            m.app_version == app_version,
            m.created_unix_sec == created_unix_sec,
            m.entries@.len() == 0,
            m.manifest_path is None,
    {
        BatchManifest { operation_id, app_version, created_unix_sec, entries: Vec::new(), manifest_path: None }
    }

    /// Entries attempted: copied or failed, not skipped.
    pub open spec fn attempted_spec(&self) -> nat {
        entries_where(self.entries@, |o: EntryOutcome| !(o is Skipped))
    }

    /// Entries copied.
    pub open spec fn succeeded_spec(&self) -> nat {
        entries_where(self.entries@, |o: EntryOutcome| o is Copied)
    }

    /// Entries that failed.
    pub open spec fn failed_spec(&self) -> nat {
        entries_where(self.entries@, |o: EntryOutcome| o is Failed)
    }

    fn count(&self, which: u8) -> (n: usize)
        requires
            which <= 2,
        ensures
            which == 0 ==> n == self.attempted_spec(),
            which == 1 ==> n == self.succeeded_spec(),
            which == 2 ==> n == self.failed_spec(),
    {
        let ghost p = outcome_class(which);
        let mut n: usize = 0;
        let mut i: usize = 0;
        while i < self.entries.len()
            invariant
                i <= self.entries@.len(),
                which <= 2,
                p == outcome_class(which),
                n <= i,
                n == self.entries@.subrange(0, i as int).filter(|e: ManifestEntry| p(e.outcome)).len(),
            decreases self.entries@.len() - i,
        {
            proof {
                reveal(Seq::filter);
                assert(self.entries@.subrange(0, i as int + 1).drop_last() =~= self.entries@.subrange(0, i as int));
            }
            let hit = match &self.entries[i].outcome {
                EntryOutcome::Copied { .. } => which <= 1,
                EntryOutcome::Skipped { .. } => false,
                EntryOutcome::Failed { .. } => which != 1,
            };
            assert(hit == p(self.entries@[i as int].outcome));
            if hit {
                n = n + 1;
            }
            i = i + 1;
        }
        assert(self.entries@.subrange(0, self.entries@.len() as int) =~= self.entries@);
        assert(outcome_class(0) == (|o: EntryOutcome| !(o is Skipped)));
        assert(outcome_class(1) == (|o: EntryOutcome| o is Copied));
        assert(outcome_class(2) == (|o: EntryOutcome| o is Failed));
        n
    }

    /// Entries attempted: copied or failed, not skipped.
    pub fn attempted(&self) -> (n: usize)
        ensures
            n == self.attempted_spec(),
    {
        self.count(0)
    }

    /// Entries copied.
    pub fn succeeded(&self) -> (n: usize)
        ensures
            n == self.succeeded_spec(),
    {
        self.count(1)
    }

    /// Entries that failed.
    pub fn failed(&self) -> (n: usize)
        ensures
            n == self.failed_spec(),
    {
        self.count(2)
    }

    /// All backup paths this batch made, for restore or cleanup.
    pub fn backup_paths(&self) -> (out: Vec<&String>)
        ensures
            out@.map_values(|p: &String| p@) == backups_of(self.entries@),
    {
        let mut out: Vec<&String> = Vec::new();
        let mut i: usize = 0;
        while i < self.entries.len()
            invariant
                i <= self.entries@.len(),
                out@.map_values(|p: &String| p@) == backups_of(self.entries@.subrange(0, i as int)),
            decreases self.entries@.len() - i,
        {
            let ghost pre = self.entries@.subrange(0, i as int + 1);
            assert(pre.drop_last() =~= self.entries@.subrange(0, i as int));
            assert(pre.last() == self.entries@[i as int]);
            if let EntryOutcome::Copied { backup_path: Some(bp), .. } = &self.entries[i].outcome {
                out.push(bp);
            }
            assert(out@.map_values(|p: &String| p@) =~= backups_of(pre));
            i = i + 1;
        }
        assert(self.entries@.subrange(0, self.entries@.len() as int) =~= self.entries@);
        out
    }

    /// The manifest as deterministic JSON text.
    pub fn to_json(&self) -> (s: String)
        ensures
            s@ == manifest_json(*self),
    {
        let mut s = String::new();
        push_str(&mut s, "{\n  \"operation_id\": ");
        push_str(&mut s, debug_quoted(self.operation_id.0.as_str()).as_str());
        push_str(&mut s, ",\n  \"app_version\": ");
        push_str(&mut s, debug_quoted(self.app_version.as_str()).as_str());
        push_str(&mut s, ",\n  \"created_unix_sec\": ");
        push_decimal(&mut s, self.created_unix_sec);
        push_str(&mut s, ",\n  \"entries\": [\n");
        let ghost head = s@;
        let n = self.entries.len();
        let mut i: usize = 0;
        while i < n
            invariant
                n == self.entries@.len(),
                i <= n,
                s@ == head + entries_json(self.entries@, i as nat),
            decreases n - i,
        {
            push_entry_json(&mut s, &self.entries[i]);
            if i + 1 < n {
                push_str(&mut s, ",");
            } else {
                push_str(&mut s, "");
            }
            push_str(&mut s, "\n");
            assert(s@ =~= head + entries_json(self.entries@, i as nat + 1));
            i = i + 1;
        }
        push_str(&mut s, "  ]\n}");
        assert(s@ =~= manifest_json(*self));
        s
    }
}

/// Records the result of copying the next item of the batch, the item at
/// the manifest's length, and says whether the batch goes on.
///
/// A success records the copy and its backup; a failure records the error
/// text. Under [`BatchFailurePolicy::StopOnFirst`] a failure also records
/// every remaining item as skipped, and the batch ends.
pub fn record_copy_result(
    manifest: &mut BatchManifest,
    items: &Vec<BatchItem>,
    result: Result<CopyOutcome, CoreError>,
    policy: BatchFailurePolicy,
) -> (more: bool)
    requires
        old(manifest).entries@.len() < items@.len(),
    ensures
        ({
            let k = old(manifest).entries@.len() as int;
            let e = final(manifest).entries@[k];
            &&& e.src@ == items@[k].src@
            &&& e.dst@ == items@[k].dst@
            &&& match result {
                Ok(c) => e.outcome == (EntryOutcome::Copied { bytes: c.bytes_copied, backup_path: c.backup_path }),
                Err(err) => e.outcome matches EntryOutcome::Failed { error } && error@ == error_message(err),
            }
        }),
        final(manifest).entries@.subrange(0, old(manifest).entries@.len() as int) == old(manifest).entries@,
        final(manifest).operation_id == old(manifest).operation_id,
        final(manifest).app_version == old(manifest).app_version,
        final(manifest).created_unix_sec == old(manifest).created_unix_sec,
        final(manifest).manifest_path == old(manifest).manifest_path,
        (result is Err && policy == BatchFailurePolicy::StopOnFirst) ==> ({
            &&& final(manifest).entries@.len() == items@.len()
            &&& forall|j: int|
                old(manifest).entries@.len() < j < items@.len() ==> {
                    let e = #[trigger] final(manifest).entries@[j];
                    &&& e.src@ == items@[j].src@
                    &&& e.dst@ == items@[j].dst@
                    &&& e.outcome matches EntryOutcome::Skipped { reason } && reason@ == stop_reason()
                }
            &&& !more
        }),
        !(result is Err && policy == BatchFailurePolicy::StopOnFirst) ==> final(manifest).entries@.len()
            == old(manifest).entries@.len() + 1 && more == (final(manifest).entries@.len()
            < items@.len()),
{
    let k = manifest.entries.len();
    let item = &items[k];
    match result {
        Ok(c) => {
            manifest.entries.push(ManifestEntry {
                src: item.src.clone(),
                dst: item.dst.clone(),
                outcome: EntryOutcome::Copied { bytes: c.bytes_copied, backup_path: c.backup_path },
            });
            assert(manifest.entries@.subrange(0, k as int) =~= old(manifest).entries@);
            manifest.entries.len() < items.len()
        },
        Err(err) => {
            manifest.entries.push(ManifestEntry {
                src: item.src.clone(),
                dst: item.dst.clone(),
                outcome: EntryOutcome::Failed { error: err.message() },
            });
            assert(manifest.entries@.subrange(0, k as int) =~= old(manifest).entries@);
            if let BatchFailurePolicy::StopOnFirst = policy {
                let mut j: usize = manifest.entries.len();
                while j < items.len()
                    invariant
                        k < j <= items@.len(),
                        manifest.entries@.len() == j,
                        manifest.entries@.subrange(0, k as int) == old(manifest).entries@,
                        manifest.entries@[k as int].src@ == items@[k as int].src@,
                        manifest.entries@[k as int].dst@ == items@[k as int].dst@,
                        manifest.entries@[k as int].outcome matches EntryOutcome::Failed { error } && error@
                            == error_message(err),
                        manifest.operation_id == old(manifest).operation_id,
                        manifest.app_version == old(manifest).app_version,
                        manifest.created_unix_sec == old(manifest).created_unix_sec,
                        manifest.manifest_path == old(manifest).manifest_path,
                        forall|q: int|
                            k < q < j ==> {
                                let e = #[trigger] manifest.entries@[q];
                                &&& e.src@ == items@[q].src@
                                &&& e.dst@ == items@[q].dst@
                                &&& e.outcome matches EntryOutcome::Skipped { reason } && reason@ == stop_reason()
                            },
                    decreases items@.len() - j,
                {
                    proof {
                        reveal_strlit("batch stopped on earlier failure");
                    }
                    let ghost before = manifest.entries@;
                    manifest.entries.push(ManifestEntry {
                        src: items[j].src.clone(),
                        dst: items[j].dst.clone(),
                        outcome: EntryOutcome::Skipped { reason: String::from_str("batch stopped on earlier failure") },
                    });
                    assert(manifest.entries@.subrange(0, k as int) =~= before.subrange(0, k as int));
                    j = j + 1;
                }
                false
            } else {
                manifest.entries.len() < items.len()
            }
        },
    }
}

/// Every attempted entry of a manifest either succeeded or failed.
pub proof fn law_attempts_succeed_or_fail(s: Seq<ManifestEntry>)
    ensures
        entries_where(s, |o: EntryOutcome| !(o is Skipped)) == entries_where(s, |o: EntryOutcome| o is Copied)
            + entries_where(s, |o: EntryOutcome| o is Failed),
    decreases s.len(),
{
    reveal(Seq::filter);
    if s.len() > 0 {
        law_attempts_succeed_or_fail(s.drop_last());
    }
}

} // verus!
