//! Transaction log: a uniform, queryable history of merge operations with
//! typed kinds, user-visible labels, timestamps and a clean-baseline
//! revision, kept alongside a session's own undo/redo stacks.

use vstd::prelude::*;

use crate::diff::model::HunkId;
use crate::merge::three_way::session::ConflictId;
use crate::text::{decimal, push_decimal, push_str};

verus! {

/// A monotonically increasing revision counter for a session. Revision 0
/// is the state before any operation; each committed operation increments
/// it.
#[derive(Debug, Clone, Copy, PartialEq, Eq, PartialOrd, Ord, Default, Hash)]
pub struct SessionRevision(pub u64);

impl SessionRevision {
    /// The initial revision, before any operation.
    pub fn initial() -> (r: Self)
        ensures
            r.0 == 0,
    {
        SessionRevision(0)
    }

    /// The following revision.
    pub fn next(self) -> (r: Self)
        requires
            self.0 < u64::MAX,
        ensures
            r.0 == self.0 + 1,
    {
        SessionRevision(self.0 + 1)
    }

    /// The display form: `r` followed by the number.
    pub fn to_display_string(&self) -> (s: String)
        ensures
            s@ == seq!['r'] + decimal(self.0 as nat),
    {
        let mut s = String::new();
        push_str(&mut s, "r");
        proof {
            reveal_strlit("r");
        }
        push_decimal(&mut s, self.0);
        s
    }
}

/// Which merge operation was performed.
#[derive(Debug, Clone, Copy, PartialEq, Eq, Structural)]
pub enum TransactionKind {
    /// Copied one hunk from the left side into the right side.
    ApplyHunkLeftToRight { hunk_id: HunkId },
    /// Reverted one previously applied hunk back to its original state.
    RevertHunk { hunk_id: HunkId },
    /// Copied all pending hunks left to right in one operation.
    ApplyAllLeftToRight,
    /// A conflict was resolved by choosing the left side.
    ResolveConflictLeft { conflict_id: ConflictId },
    /// A conflict was resolved by choosing the right side.
    ResolveConflictRight { conflict_id: ConflictId },
    /// A conflict was resolved by taking both sides (left then right).
    ResolveConflictBoth { conflict_id: ConflictId },
    /// A conflict was resolved with user-supplied text.
    ResolveConflictManual { conflict_id: ConflictId },
    /// A conflict was ignored (base content used).
    IgnoreConflict { conflict_id: ConflictId },
    /// A conflict was reopened (reset to unresolved).
    ReopenConflict { conflict_id: ConflictId },
    /// A manual text edit was committed to the result buffer.
    ManualTextEdit,
    /// An externally applied patch was accepted.
    ApplyExternalPatch,
}

/// The history-panel label of a transaction kind.
pub open spec fn kind_label(k: TransactionKind) -> Seq<char> {
    match k {
        TransactionKind::ApplyHunkLeftToRight { hunk_id } => "Apply hunk #"@ + decimal(hunk_id as nat),
        TransactionKind::RevertHunk { hunk_id } => "Revert hunk #"@ + decimal(hunk_id as nat),
        TransactionKind::ApplyAllLeftToRight => "Apply all changes"@,
        TransactionKind::ResolveConflictLeft { conflict_id } =>
            "Resolve conflict #"@ + decimal(conflict_id as nat) + " \u{2014} use left"@,
        TransactionKind::ResolveConflictRight { conflict_id } =>
            "Resolve conflict #"@ + decimal(conflict_id as nat) + " \u{2014} use right"@,
        TransactionKind::ResolveConflictBoth { conflict_id } =>
            "Resolve conflict #"@ + decimal(conflict_id as nat) + " \u{2014} use both"@,
        TransactionKind::ResolveConflictManual { conflict_id } =>
            "Resolve conflict #"@ + decimal(conflict_id as nat) + " \u{2014} manual edit"@,
        TransactionKind::IgnoreConflict { conflict_id } => "Ignore conflict #"@ + decimal(conflict_id as nat),
        TransactionKind::ReopenConflict { conflict_id } => "Reopen conflict #"@ + decimal(conflict_id as nat),
        TransactionKind::ManualTextEdit => "Manual edit"@,
        TransactionKind::ApplyExternalPatch => "Apply external patch"@,
    }
}

fn labelled(prefix: &str, n: u64, suffix: &str) -> (s: String)
    ensures
        s@ == prefix@ + decimal(n as nat) + suffix@,
{
    let mut s = String::new();
    push_str(&mut s, prefix);
    push_decimal(&mut s, n);
    push_str(&mut s, suffix);
    s
}

impl TransactionKind {
    /// Short human-readable description for the history panel.
    pub fn label(&self) -> (s: String)
        ensures
            s@ == kind_label(*self),
    {
        match *self {
            TransactionKind::ApplyHunkLeftToRight { hunk_id } => {
                let s = labelled("Apply hunk #", hunk_id, "");
                proof { reveal_strlit(""); }
                assert(s@ =~= kind_label(*self));
                s
            },
            TransactionKind::RevertHunk { hunk_id } => {
                let s = labelled("Revert hunk #", hunk_id, "");
                proof { reveal_strlit(""); }
                assert(s@ =~= kind_label(*self));
                s
            },
            TransactionKind::ApplyAllLeftToRight => String::from_str("Apply all changes"),
            TransactionKind::ResolveConflictLeft { conflict_id } =>
                labelled("Resolve conflict #", conflict_id, " \u{2014} use left"),
            TransactionKind::ResolveConflictRight { conflict_id } =>
                labelled("Resolve conflict #", conflict_id, " \u{2014} use right"),
            TransactionKind::ResolveConflictBoth { conflict_id } =>
                labelled("Resolve conflict #", conflict_id, " \u{2014} use both"),
            TransactionKind::ResolveConflictManual { conflict_id } =>
                labelled("Resolve conflict #", conflict_id, " \u{2014} manual edit"),
            TransactionKind::IgnoreConflict { conflict_id } => {
                let s = labelled("Ignore conflict #", conflict_id, "");
                proof { reveal_strlit(""); }
                assert(s@ =~= kind_label(*self));
                s
            },
            TransactionKind::ReopenConflict { conflict_id } => {
                let s = labelled("Reopen conflict #", conflict_id, "");
                proof { reveal_strlit(""); }
                assert(s@ =~= kind_label(*self));
                s
            },
            TransactionKind::ManualTextEdit => String::from_str("Manual edit"),
            TransactionKind::ApplyExternalPatch => String::from_str("Apply external patch"),
        }
    }
}

/// Unix seconds since the epoch.
#[derive(Debug, Clone, Copy, PartialEq, Eq, PartialOrd, Ord, Default, Hash)]
pub struct UnixTimestamp(pub u64);

impl UnixTimestamp {
    /// The current time in whole seconds since the Unix epoch (zero for a
    /// clock set before the epoch).
    ///
    /// Trusted: wraps `SystemTime::now` and `duration_since(UNIX_EPOCH)`;
    /// the value depends on the clock and nothing is claimed of it.
    #[verifier::external_body]
    pub fn now() -> Self {
        let secs = std::time::SystemTime::now()
            .duration_since(std::time::UNIX_EPOCH)
            .unwrap_or(std::time::Duration::ZERO)
            .as_secs();
        UnixTimestamp(secs)
    }
}

/// One entry in the transaction log.
#[derive(Debug, Clone, PartialEq, Eq)]
pub struct TransactionEntry {
    /// The revision after this transaction was applied.
    pub revision: SessionRevision,
    pub kind: TransactionKind,
    /// Human-readable label (`kind.label()`).
    pub label: String,
    pub timestamp: UnixTimestamp,
    /// Whether this entry is on the logical undo stack (`true`) or was
    /// undone and can be redone (`false`).
    pub active: bool,
}

/// An entry as values: revision, kind, label, active flag.
pub type EntryModel = (u64, TransactionKind, Seq<char>, bool);

impl TransactionEntry {
    /// The entry as values (the timestamp is left out: it comes from the
    /// clock).
    pub open spec fn model(self) -> EntryModel {
        (self.revision.0, self.kind, self.label@, self.active)
    }
}

/// The entry models of a list of entries.
pub open spec fn entry_models(es: Seq<TransactionEntry>) -> Seq<EntryModel> {
    es.map_values(|e: TransactionEntry| e.model())
}

/// The number of entries whose revision is above `saved`.
pub open spec fn count_after(es: Seq<EntryModel>, saved: u64) -> nat
    decreases es.len(),
{
    if es.len() == 0 {
        0
    } else {
        count_after(es.drop_last(), saved) + if es.last().0 > saved { 1nat } else { 0nat }
    }
}

/// A queryable log of every merge operation performed in a session.
#[derive(Debug, Clone)]
pub struct TransactionLog {
    entries: Vec<TransactionEntry>,
    current_rev: SessionRevision,
    saved_rev: SessionRevision,
    /// Points past the last active entry; entries at or above it have been
    /// undone.
    active_cursor: usize,
}

/// A log as values: entries, current revision, saved revision, cursor.
pub type LogModel = (Seq<EntryModel>, u64, u64, nat);

/// The highest revision the log has issued: that of its last entry, or 0
/// before any operation.
pub open spec fn highest_revision(m: LogModel) -> u64 {
    if m.0.len() == 0 {
        0
    } else {
        m.0.last().0
    }
}

/// The revision of the last active entry, or 0 when none is active.
pub open spec fn revision_at_cursor(es: Seq<EntryModel>, cursor: nat) -> u64 {
    if cursor == 0 {
        0
    } else {
        es[cursor - 1].0
    }
}

/// The log's shape: revisions are positive and strictly increase along the
/// entries, so the last entry carries the highest revision ever issued;
/// exactly the entries below the cursor are active; the current revision is
/// that of the last active entry; the saved revision was issued; and every
/// label is its kind's label.
pub open spec fn log_wf(m: LogModel) -> bool {
    &&& m.3 <= m.0.len()
    &&& m.1 == revision_at_cursor(m.0, m.3)
    &&& m.2 <= highest_revision(m)
    &&& forall|k: int| 0 <= k < m.0.len() ==> (#[trigger] m.0[k]).0 >= 1
    &&& forall|k: int, j: int| #![trigger m.0[k], m.0[j]] 0 <= k < j < m.0.len() ==> m.0[k].0 < m.0[j].0
    &&& forall|k: int| 0 <= k < m.0.len() ==> (#[trigger] m.0[k]).3 == (k < m.3)
    &&& forall|k: int| 0 <= k < m.0.len() ==> (#[trigger] m.0[k]).2 == kind_label(m.0[k].1)
}

/// Recording an operation: undone entries above the cursor are dropped
/// and a new active entry is appended with a revision never issued before,
/// one above the highest so far.
pub open spec fn spec_push(m: LogModel, kind: TransactionKind) -> LogModel {
    let es = m.0.subrange(0, m.3 as int);
    let r = (highest_revision(m) + 1) as u64;
    ((es.push((r, kind, kind_label(kind), true))), r, m.2, m.3 + 1)
}

/// Recording an undo: with no active entry nothing changes; otherwise the
/// last active entry becomes inactive and the current revision steps back
/// to the entry below it (or 0).
pub open spec fn spec_record_undo(m: LogModel) -> LogModel {
    if m.3 == 0 {
        m
    } else {
        let c = (m.3 - 1) as nat;
        let e = m.0[c as int];
        (m.0.update(c as int, (e.0, e.1, e.2, false)), if c == 0 { 0 } else { m.0[c - 1].0 }, m.2, c)
    }
}

/// Recording a redo: with no undone entry nothing changes; otherwise the
/// first undone entry becomes active again and its revision current.
pub open spec fn spec_record_redo(m: LogModel) -> LogModel {
    if m.3 >= m.0.len() {
        m
    } else {
        let e = m.0[m.3 as int];
        (m.0.update(m.3 as int, (e.0, e.1, e.2, true)), e.0, m.2, m.3 + 1)
    }
}

impl TransactionLog {
    /// The log as values.
    pub closed spec fn model(self) -> LogModel {
        (entry_models(self.entries@), self.current_rev.0, self.saved_rev.0, self.active_cursor as nat)
    }

    /// Validity of the log's shape.
    pub closed spec fn wf(self) -> bool {
        log_wf(self.model())
    }

    /// A well-formed log has a well-formed model, so the laws over models
    /// apply to it.
    pub proof fn lemma_wf_model(self)
        requires
            self.wf(),
        ensures
            log_wf(self.model()),
    {
    }

    /// An empty log at revision 0, saved at revision 0.
    pub fn new() -> (log: Self)
        ensures
            log.wf(),
            log.model() == (Seq::<EntryModel>::empty(), 0u64, 0u64, 0nat),
    {
        let log = TransactionLog {
            entries: Vec::new(),
            current_rev: SessionRevision::initial(),
            saved_rev: SessionRevision::initial(),
            active_cursor: 0,
        };
        assert(log.model().0 =~= Seq::<EntryModel>::empty());
        log
    }

    /// Record a new operation. Undone entries above the cursor are
    /// discarded, as a new operation after undo discards the redo branch.
    pub fn push(&mut self, kind: TransactionKind)
        requires
            old(self).wf(),
            old(self).model().3 < usize::MAX,
            highest_revision(old(self).model()) < u64::MAX,
        ensures
            final(self).wf(),
            final(self).model() == spec_push(old(self).model(), kind),
    {
        let ghost m = self.model();
        let n = self.entries.len();
        let highest = if n == 0 {
            SessionRevision::initial()
        } else {
            self.entries[n - 1].revision
        };
        proof {
            if n > 0 {
                assert(entry_models(self.entries@)[n - 1] == self.entries@[n - 1].model());
            }
        }
        self.entries.truncate(self.active_cursor);
        self.current_rev = highest.next();
        let label = kind.label();
        self.entries.push(TransactionEntry {
            revision: self.current_rev,
            kind,
            label,
            timestamp: UnixTimestamp::now(),
            active: true,
        });
        self.active_cursor = self.entries.len();
        proof {
            assert(self.model().0 =~= spec_push(m, kind).0);
            lemma_push_keeps_wf(m, kind);
        }
    }

    fn set_active(&mut self, i: usize, active: bool)
        requires
            i < old(self).entries@.len(),
        ensures
            final(self).entries@.len() == old(self).entries@.len(),
            entry_models(final(self).entries@) == entry_models(old(self).entries@).update(i as int, ({
                let e = entry_models(old(self).entries@)[i as int];
                (e.0, e.1, e.2, active)
            })),
            final(self).current_rev == old(self).current_rev,
            final(self).saved_rev == old(self).saved_rev,
            final(self).active_cursor == old(self).active_cursor,
    {
        let ghost es = entry_models(self.entries@);
        let mut placeholder = TransactionEntry {
            revision: SessionRevision(0),
            kind: TransactionKind::ManualTextEdit,
            label: String::new(),
            timestamp: UnixTimestamp(0),
            active: false,
        };
        self.entries.set_and_swap(i, &mut placeholder);
        let e = placeholder;
        self.entries.set(i, TransactionEntry {
            revision: e.revision,
            kind: e.kind,
            label: e.label,
            timestamp: e.timestamp,
            active,
        });
        assert(entry_models(self.entries@) =~= es.update(i as int, (es[i as int].0, es[i as int].1, es[i as int].2, active)));
    }

    /// Record that the most recent active operation was undone.
    pub fn record_undo(&mut self)
        requires
            old(self).wf(),
        ensures
            final(self).wf(),
            final(self).model() == spec_record_undo(old(self).model()),
    {
        if self.active_cursor == 0 {
            return;
        }
        let ghost m = self.model();
        self.active_cursor = self.active_cursor - 1;
        self.set_active(self.active_cursor, false);
        self.current_rev = if self.active_cursor == 0 {
            SessionRevision::initial()
        } else {
            self.entries[self.active_cursor - 1].revision
        };
        proof {
            let c = self.active_cursor as int;
            if c > 0 {
                assert(entry_models(self.entries@)[c - 1] == self.entries@[c - 1].model());
                assert(entry_models(self.entries@)[c - 1].0 == m.0[c - 1].0);
            }
            assert(self.model().0 =~= spec_record_undo(m).0);
            lemma_undo_redo_keep_wf(m);
        }
    }

    /// Record that the most recently undone operation was redone.
    pub fn record_redo(&mut self)
        requires
            old(self).wf(),
        ensures
            final(self).wf(),
            final(self).model() == spec_record_redo(old(self).model()),
    {
        if self.active_cursor >= self.entries.len() {
            return;
        }
        let ghost m = self.model();
        let i = self.active_cursor;
        self.set_active(i, true);
        self.current_rev = self.entries[i].revision;
        self.active_cursor = i + 1;
        proof {
            assert(entry_models(self.entries@)[i as int] == self.entries@[i as int].model());
            assert(self.model().0 =~= spec_record_redo(m).0);
            lemma_undo_redo_keep_wf(m);
        }
    }

    /// Mark the current revision as the save baseline.
    pub fn mark_saved(&mut self)
        requires
            old(self).wf(),
        ensures
            final(self).wf(),
            final(self).model() == (old(self).model().0, old(self).model().1, old(self).model().1, old(self).model().3),
    {
        self.saved_rev = self.current_rev;
    }

    /// `true` when the current revision differs from the saved one.
    pub fn is_dirty(&self) -> (b: bool)
        ensures
            b == (self.model().1 != self.model().2),
    {
        self.current_rev.0 != self.saved_rev.0
    }

    /// The current revision.
    pub fn current_revision(&self) -> (r: SessionRevision)
        ensures
            r.0 == self.model().1,
    {
        self.current_rev
    }

    /// The revision at the last save.
    pub fn saved_revision(&self) -> (r: SessionRevision)
        ensures
            r.0 == self.model().2,
    {
        self.saved_rev
    }

    /// `true` when an active entry exists.
    pub fn can_undo(&self) -> (b: bool)
        ensures
            b == (self.model().3 > 0),
    {
        self.active_cursor > 0
    }

    /// `true` when an undone entry exists.
    pub fn can_redo(&self) -> (b: bool)
        ensures
            b == (self.model().3 < self.model().0.len()),
    {
        self.active_cursor < self.entries.len()
    }

    /// Total number of entries, undone ones included.
    pub fn len(&self) -> (n: usize)
        ensures
            n == self.model().0.len(),
    {
        self.entries.len()
    }

    /// `true` when no entry was ever kept.
    pub fn is_empty(&self) -> (b: bool)
        ensures
            b == (self.model().0.len() == 0),
    {
        self.entries.len() == 0
    }

    /// All entries, undone ones included.
    pub fn all_entries(&self) -> (es: &[TransactionEntry])
        ensures
            entry_models(es@) == self.model().0,
    {
        self.entries.as_slice()
    }

    /// The active entries, in chronological order.
    pub fn active_entries(&self) -> (es: &[TransactionEntry])
        requires
            self.wf(),
        ensures
            entry_models(es@) == self.model().0.subrange(0, self.model().3 as int),
    {
        let (a, _b) = self.entries.as_slice().split_at(self.active_cursor);
        assert(entry_models(a@) =~= self.model().0.subrange(0, self.model().3 as int));
        a
    }

    /// The entries that were undone and can be redone.
    pub fn undone_entries(&self) -> (es: &[TransactionEntry])
        requires
            self.wf(),
        ensures
            entry_models(es@) == self.model().0.subrange(self.model().3 as int, self.model().0.len() as int),
    {
        let (_a, b) = self.entries.as_slice().split_at(self.active_cursor);
        assert(entry_models(b@) =~= self.model().0.subrange(self.model().3 as int, self.model().0.len() as int));
        b
    }

    /// The most recent active entry, if any.
    pub fn last_active(&self) -> (r: Option<&TransactionEntry>)
        requires
            self.wf(),
        ensures
            self.model().3 == 0 ==> r is None,
            self.model().3 > 0 ==> (r matches Some(e) && e.model() == self.model().0[self.model().3 - 1]),
    {
        if self.active_cursor == 0 {
            None
        } else {
            Some(&self.entries[self.active_cursor - 1])
        }
    }

    /// Number of active operations whose revision is above the saved one.
    pub fn active_ops_since_save(&self) -> (n: usize)
        requires
            self.wf(),
        ensures
            n == count_after(self.model().0.subrange(0, self.model().3 as int), self.model().2),
    {
        let ghost es = self.model().0;
        let mut n: usize = 0;
        let mut i: usize = 0;
        while i < self.active_cursor
            invariant
                es == self.model().0,
                self.active_cursor <= es.len(),
                i <= self.active_cursor,
                n == count_after(es.subrange(0, i as int), self.saved_rev.0),
                n <= i,
            decreases self.active_cursor - i,
        {
            assert(es.subrange(0, i as int + 1).drop_last() =~= es.subrange(0, i as int));
            if self.entries[i].revision.0 > self.saved_rev.0 {
                n = n + 1;
            }
            i = i + 1;
        }
        n
    }
}

proof fn lemma_push_keeps_wf(m: LogModel, kind: TransactionKind)
    requires
        log_wf(m),
        highest_revision(m) < u64::MAX,
    ensures
        log_wf(spec_push(m, kind)),
{
    let p = spec_push(m, kind);
    let r = (highest_revision(m) + 1) as u64;
    assert forall|k: int| 0 <= k < m.0.len() implies (#[trigger] m.0[k]).0 < r by {
        if k < m.0.len() - 1 {
            assert(m.0[k].0 < m.0[m.0.len() - 1].0);
        }
    }
    assert forall|k: int| 0 <= k < p.0.len() implies (#[trigger] p.0[k]).0 >= 1 by {
        if k < m.3 {
            assert(p.0[k] == m.0[k]);
        }
    }
    assert forall|k: int, j: int| #![trigger p.0[k], p.0[j]] 0 <= k < j < p.0.len() implies p.0[k].0 < p.0[j].0 by {
        assert(p.0[k] == m.0[k]);
        if j < m.3 {
            assert(p.0[j] == m.0[j]);
            assert(m.0[k].0 < m.0[j].0);
        }
    }
    assert forall|k: int| 0 <= k < p.0.len() implies (#[trigger] p.0[k]).3 == (k < p.3) by {
        if k < m.3 {
            assert(p.0[k] == m.0[k]);
        }
    }
    assert forall|k: int| 0 <= k < p.0.len() implies (#[trigger] p.0[k]).2 == kind_label(p.0[k].1) by {
        if k < m.3 {
            assert(p.0[k] == m.0[k]);
        }
    }
    assert(p.0.last().0 == r);
}

proof fn lemma_undo_redo_keep_wf(m: LogModel)
    requires
        log_wf(m),
    ensures
        log_wf(spec_record_undo(m)),
        log_wf(spec_record_redo(m)),
{
    let u = spec_record_undo(m);
    assert forall|k: int| 0 <= k < u.0.len() implies (#[trigger] u.0[k]).3 == (k < u.3) by {
        assert(m.0[k].3 == (k < m.3));
    }
    assert forall|k: int| 0 <= k < u.0.len() implies (#[trigger] u.0[k]).0 == m.0[k].0 && u.0[k].2 == m.0[k].2
        && u.0[k].1 == m.0[k].1 by {}
    assert forall|k: int, j: int| #![trigger u.0[k], u.0[j]] 0 <= k < j < u.0.len() implies u.0[k].0 < u.0[j].0 by {
        assert(m.0[k].0 < m.0[j].0);
    }
    if m.0.len() > 0 {
        assert(u.0.last().0 == m.0.last().0);
    }
    let r = spec_record_redo(m);
    assert forall|k: int| 0 <= k < r.0.len() implies (#[trigger] r.0[k]).3 == (k < r.3) by {
        assert(m.0[k].3 == (k < m.3));
    }
    assert forall|k: int| 0 <= k < r.0.len() implies (#[trigger] r.0[k]).0 == m.0[k].0 && r.0[k].2 == m.0[k].2
        && r.0[k].1 == m.0[k].1 by {}
    assert forall|k: int, j: int| #![trigger r.0[k], r.0[j]] 0 <= k < j < r.0.len() implies r.0[k].0 < r.0[j].0 by {
        assert(m.0[k].0 < m.0[j].0);
    }
    if m.0.len() > 0 {
        assert(r.0.last().0 == m.0.last().0);
    }
}

proof fn lemma_count_after_bounded(es: Seq<EntryModel>, saved: u64, c: nat)
    requires
        c <= es.len(),
        forall|k: int, j: int| #![trigger es[k], es[j]] 0 <= k < j < es.len() ==> es[k].0 < es[j].0,
    ensures
        c > 0 && es[c - 1].0 > saved ==> count_after(es.subrange(0, c as int), saved) > 0,
        (c == 0 || es[c - 1].0 <= saved) ==> count_after(es.subrange(0, c as int), saved) == 0,
    decreases c,
{
    if c > 0 {
        lemma_count_after_bounded(es, saved, (c - 1) as nat);
        assert(es.subrange(0, c as int).drop_last() =~= es.subrange(0, c - 1));
        if c > 1 {
            assert(es[c - 2].0 < es[c - 1].0);
        }
    } else {
        assert(es.subrange(0, 0).len() == 0);
    }
}

/// Some active operation lies after the save exactly when the current
/// revision is above the saved one.
pub proof fn law_ops_since_save(m: LogModel)
    requires
        log_wf(m),
    ensures
        count_after(m.0.subrange(0, m.3 as int), m.2) > 0 <==> m.1 > m.2,
{
    lemma_count_after_bounded(m.0, m.2, m.3);
}

/// Every push issues a revision never issued before: it is above every
/// revision in the log, the current one and the saved one, so the log is
/// dirty after any new operation, even one recorded after an undo.
pub proof fn law_push_issues_fresh_revision(m: LogModel, kind: TransactionKind)
    requires
        log_wf(m),
        highest_revision(m) < u64::MAX,
    ensures
        forall|k: int| 0 <= k < m.0.len() ==> (#[trigger] m.0[k]).0 < spec_push(m, kind).1,
        spec_push(m, kind).1 > m.1,
        spec_push(m, kind).1 > m.2,
        spec_push(m, kind).1 != spec_push(m, kind).2,
{
    let r = spec_push(m, kind).1;
    assert forall|k: int| 0 <= k < m.0.len() implies (#[trigger] m.0[k]).0 < r by {
        if k < m.0.len() - 1 {
            assert(m.0[k].0 < m.0[m.0.len() - 1].0);
        }
    }
    if m.3 > 0 {
        assert(m.0[m.3 - 1].0 < r);
    }
}

/// Undo then redo restores the log exactly; a push after an undo drops the
/// undone branch, so nothing is left to redo.
pub proof fn law_undo_redo_roundtrip(m: LogModel, kind: TransactionKind)
    requires
        log_wf(m),
    ensures
        m.3 > 0 ==> spec_record_redo(spec_record_undo(m)) == m,
        m.3 < m.0.len() ==> spec_record_undo(spec_record_redo(m)) == m,
        spec_push(m, kind).3 == spec_push(m, kind).0.len(),
        log_wf(spec_record_undo(m)),
        log_wf(spec_record_redo(m)),
        highest_revision(m) < u64::MAX ==> log_wf(spec_push(m, kind)),
{
    if m.3 > 0 {
        let u = spec_record_undo(m);
        let r = spec_record_redo(u);
        assert(r.0 =~= m.0);
    }
    if m.3 < m.0.len() {
        let r = spec_record_redo(m);
        let u = spec_record_undo(r);
        assert(u.0 =~= m.0);
    }
    lemma_undo_redo_keep_wf(m);
    if highest_revision(m) < u64::MAX {
        lemma_push_keeps_wf(m, kind);
    }
}

/// Recording an operation and then undoing it gives back the log's
/// current revision, saved revision (so its dirty state) and active
/// entries; the one undone entry is the operation, inactive; and redoing
/// it gives back the log as the push left it.
pub proof fn law_push_then_undo(m: LogModel, kind: TransactionKind)
    requires
        log_wf(m),
        highest_revision(m) < u64::MAX,
    ensures
        ({
            let p = spec_push(m, kind);
            let u = spec_record_undo(p);
            &&& u.1 == m.1
            &&& u.2 == m.2
            &&& u.3 == m.3
            &&& u.0.subrange(0, u.3 as int) == m.0.subrange(0, m.3 as int)
            &&& u.0.len() == u.3 + 1
            &&& u.0[u.3 as int].1 == kind
            &&& !u.0[u.3 as int].3
            &&& spec_record_redo(u) == p
        }),
{
    let p = spec_push(m, kind);
    let u = spec_record_undo(p);
    assert(u.0.subrange(0, u.3 as int) =~= m.0.subrange(0, m.3 as int));
    assert(spec_record_redo(u).0 =~= p.0);
}

} // verus!
