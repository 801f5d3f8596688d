//! Recursive directory comparison results.
//!
//! Walking the two trees is the caller's work. Each thing a walk meets is
//! handed to a [`RecursiveMerge`], an ordered map from relative path to
//! [`RecEntry`] that decides what the entry at that path becomes. The left
//! tree is walked first; the right walk then merges into what the left walk
//! recorded. [`RecursiveMerge::into_scan`] yields every entry, sorted by
//! relative path in component order.

use vstd::prelude::*;

use crate::dir::digest::DigestOutcome;
use crate::dir::path_order::{
    find_slot, key_seq, lemma_insert_keeps_sorted, lemma_sorted_unique, path_precedes,
    strictly_sorted,
};
use crate::error::CoreError;

verus! {

/// Status of one entry in the recursive comparison.
#[derive(Debug, Clone, Copy, PartialEq, Eq, Structural)]
pub enum RecStatus {
    Equal,
    Changed,
    LeftOnly,
    RightOnly,
    /// Exists on both sides; the byte comparison has not established a
    /// verdict (the fast listing, or a comparison that was cancelled).
    Computing,
    /// One or both sides of this path is a symbolic link, which is reported
    /// and not followed.
    Symlink,
    /// Reading this path failed. It carries no comparison result and is
    /// never treated as `Changed`.
    Unreadable,
}

/// One entry in the recursive comparison report.
#[derive(Debug, Clone, PartialEq, Eq)]
pub struct RecEntry {
    /// Path relative to both roots, components separated by `/`.
    pub rel_path: String,
    pub status: RecStatus,
    pub left_size: Option<u64>,
    pub right_size: Option<u64>,
}

/// Result of a recursive comparison scan. The two flags tell a root that
/// could not be opened apart from an empty tree.
#[derive(Debug, Clone, PartialEq, Eq, Default)]
pub struct RecursiveScan {
    pub entries: Vec<RecEntry>,
    pub left_root_unreadable: bool,
    pub right_root_unreadable: bool,
}

/// The relative paths of a list of entries are strictly sorted.
pub open spec fn entries_sorted(s: Seq<RecEntry>) -> bool {
    forall|i: int, j: int|
        0 <= i < j < s.len() ==> path_precedes(
            #[trigger] s[i].rel_path@,
            #[trigger] s[j].rel_path@,
        )
}

/// Some entry of the list has the relative path `k`.
pub open spec fn has_path(s: Seq<RecEntry>, k: Seq<char>) -> bool {
    exists|i: int| 0 <= i < s.len() && #[trigger] s[i].rel_path@ == k
}

/// A position of the list whose entry has the relative path `k`, where
/// there is one.
pub open spec fn path_index(s: Seq<RecEntry>, k: Seq<char>) -> int {
    choose|i: int| 0 <= i < s.len() && #[trigger] s[i].rel_path@ == k
}

/// The entries of a list keyed by relative path.
pub open spec fn entry_map(s: Seq<RecEntry>) -> Map<Seq<char>, RecEntry> {
    Map::new(|k: Seq<char>| has_path(s, k), |k: Seq<char>| s[path_index(s, k)])
}

/// The entry a left-tree file becomes when it is first seen.
pub open spec fn left_only_entry(rel: String, size: u64) -> RecEntry {
    RecEntry { rel_path: rel, status: RecStatus::LeftOnly, left_size: Some(size), right_size: None }
}

/// The entry a right-tree file becomes when the left tree had nothing there.
pub open spec fn right_only_entry(rel: String, size: u64) -> RecEntry {
    RecEntry { rel_path: rel, status: RecStatus::RightOnly, left_size: None, right_size: Some(size) }
}

/// The entry a symbolic link becomes.
pub open spec fn symlink_entry(rel: String) -> RecEntry {
    RecEntry { rel_path: rel, status: RecStatus::Symlink, left_size: None, right_size: None }
}

/// The status a byte comparison gives a path present on both sides. A
/// failed comparison counts as a difference; a cancelled one gives none.
pub open spec fn comparison_status(c: Result<DigestOutcome, CoreError>) -> RecStatus {
    match c {
        Ok(DigestOutcome::Equal) => RecStatus::Equal,
        Ok(DigestOutcome::Different) => RecStatus::Changed,
        Ok(DigestOutcome::Cancelled) => RecStatus::Computing,
        Err(_) => RecStatus::Changed,
    }
}

/// `e` with another status.
pub open spec fn with_status(e: RecEntry, status: RecStatus) -> RecEntry {
    RecEntry { rel_path: e.rel_path, status, left_size: e.left_size, right_size: e.right_size }
}

/// `e` with another status and the right side's size.
pub open spec fn with_right(e: RecEntry, status: RecStatus, size: u64) -> RecEntry {
    RecEntry { rel_path: e.rel_path, status, left_size: e.left_size, right_size: Some(size) }
}

/// The entry at `rel` after it is marked unreadable: an entry already there
/// keeps its sizes, and any verdict it held is withdrawn.
pub open spec fn unreadable_entry(m: Map<Seq<char>, RecEntry>, rel: String) -> RecEntry {
    if m.dom().contains(rel@) {
        with_status(m[rel@], RecStatus::Unreadable)
    } else {
        RecEntry { rel_path: rel, status: RecStatus::Unreadable, left_size: None, right_size: None }
    }
}

/// The ordered entry map that the two tree walks fill.
pub struct RecursiveMerge {
    keys: Vec<String>,
    entries: Vec<RecEntry>,
}

proof fn lemma_lookup(keys: Seq<String>, s: Seq<RecEntry>, i: int)
    requires
        keys.len() == s.len(),
        strictly_sorted(key_seq(keys)),
        forall|j: int| 0 <= j < s.len() ==> #[trigger] s[j].rel_path@ == keys[j]@,
        0 <= i < s.len(),
    ensures
        entry_map(s).dom().contains(s[i].rel_path@),
        entry_map(s)[s[i].rel_path@] == s[i],
{
    let k = s[i].rel_path@;
    assert(has_path(s, k));
    let j = path_index(s, k);
    assert(key_seq(keys)[i] == keys[i]@);
    assert(key_seq(keys)[j] == keys[j]@);
    lemma_sorted_unique(key_seq(keys), i, j);
    assert(entry_map(s).dom().contains(k));
    assert(entry_map(s)[k] == s[j]);
}

impl View for RecursiveMerge {
    type V = Map<Seq<char>, RecEntry>;

    /// The entries recorded so far, keyed by relative path.
    closed spec fn view(&self) -> Map<Seq<char>, RecEntry> {
        entry_map(self.entries@)
    }
}

/// What the walk saw of a directory entry.
#[derive(Debug, Clone, Copy, PartialEq, Eq, Structural)]
pub enum SeenKind {
    /// Its metadata could not be read.
    MetadataFailed,
    Symlink,
    Directory,
    File,
    /// Neither a link, a directory nor a regular file.
    Other,
}

/// The right walk's next action for one entry.
#[derive(Debug, Clone, Copy, PartialEq, Eq, Structural)]
pub enum RightStep {
    /// The walk was cancelled: stop.
    Stop,
    MarkUnreadable,
    RecordSymlink,
    /// Walk the subdirectory.
    Descend,
    /// Record the file without comparing (a listing).
    RecordUnchecked,
    /// Compare the file's bytes with the left file at the same path.
    Compare,
    /// Record the file; there is no readable left file to compare with.
    RecordUncompared,
    Skip,
}

impl RecursiveMerge {
    /// The keys are strictly sorted and agree with the entries' paths.
    pub closed spec fn wf(&self) -> bool {
        &&& self.keys@.len() == self.entries@.len()
        &&& strictly_sorted(key_seq(self.keys@))
        &&& forall|j: int|
            0 <= j < self.entries@.len() ==> #[trigger] self.entries@[j].rel_path@
                == self.keys@[j]@
    }

    /// An empty map.
    pub fn new() -> (m: Self)
        ensures
            m.wf(),
            m@ == Map::<Seq<char>, RecEntry>::empty(),
    {
        let m = RecursiveMerge { keys: Vec::new(), entries: Vec::new() };
        assert(m@ =~= Map::<Seq<char>, RecEntry>::empty());
        m
    }

    /// Puts `e` at the slot that `find_slot` gave for its path.
    fn put(&mut self, slot: (usize, bool), key: String, e: RecEntry)
        requires
            old(self).wf(),
            e.rel_path@ == key@,
            slot.0 <= old(self).keys@.len(),
            forall|j: int| 0 <= j < slot.0 ==> path_precedes(#[trigger] old(self).keys@[j]@, key@),
            slot.1 == (slot.0 < old(self).keys@.len() && old(self).keys@[slot.0 as int]@ == key@),
            !slot.1 ==> forall|j: int|
                slot.0 <= j < old(self).keys@.len() ==> path_precedes(
                    key@,
                    #[trigger] old(self).keys@[j]@,
                ),
        ensures
            final(self).wf(),
            final(self)@ == old(self)@.insert(key@, e),
    {
        let ghost old_keys = self.keys@;
        let ghost old_entries = self.entries@;
        let i = slot.0;
        if slot.1 {
            self.entries.set(i, e);
            proof {
                let n = self.entries@;
                assert forall|j: int| 0 <= j < n.len() implies #[trigger] n[j].rel_path@
                    == self.keys@[j]@ by {
                    if j != i {
                        assert(n[j] == old_entries[j]);
                    }
                }
                self.lemma_update_view(old_keys, old_entries, i as int, key@, e);
            }
        } else {
            proof {
                let ks = key_seq(old_keys);
                assert forall|j: int| 0 <= j < i implies path_precedes(#[trigger] ks[j], key@) by {
                    assert(ks[j] == old_keys[j]@);
                }
                assert forall|j: int| i <= j < ks.len() implies path_precedes(key@, #[trigger] ks[j]) by {
                    assert(ks[j] == old_keys[j]@);
                }
                lemma_insert_keeps_sorted(ks, i as int, key@);
                assert(key_seq(old_keys.insert(i as int, key)) =~= ks.insert(i as int, key@));
            }
            self.keys.insert(i, key);
            self.entries.insert(i, e);
            proof {
                let n = self.entries@;
                assert forall|j: int| 0 <= j < n.len() implies #[trigger] n[j].rel_path@
                    == self.keys@[j]@ by {
                    if j < i {
                        assert(n[j] == old_entries[j]);
                    } else if j > i {
                        assert(n[j] == old_entries[j - 1]);
                    }
                }
                self.lemma_insert_view(old_keys, old_entries, i as int, e);
            }
        }
    }

    proof fn lemma_update_view(
        &self,
        old_keys: Seq<String>,
        old_entries: Seq<RecEntry>,
        i: int,
        k: Seq<char>,
        e: RecEntry,
    )
        requires
            self.wf(),
            old_keys.len() == old_entries.len(),
            strictly_sorted(key_seq(old_keys)),
            forall|j: int| 0 <= j < old_entries.len() ==> #[trigger] old_entries[j].rel_path@
                == old_keys[j]@,
            self.keys@ == old_keys,
            0 <= i < old_entries.len(),
            old_keys[i]@ == k,
            e.rel_path@ == k,
            self.entries@ == old_entries.update(i, e),
        ensures
            self@ == entry_map(old_entries).insert(k, e),
    {
        let n = self.entries@;
        let nm = entry_map(n);
        let om = entry_map(old_entries);
        assert forall|p: Seq<char>| nm.dom().contains(p) <==> om.insert(k, e).dom().contains(p) by {
            if nm.dom().contains(p) {
                let j = choose|j: int| 0 <= j < n.len() && #[trigger] n[j].rel_path@ == p;
                if j != i {
                    assert(old_entries[j] == n[j]);
                    assert(has_path(old_entries, p));
                }
            }
            if om.dom().contains(p) {
                let j = choose|j: int| 0 <= j < old_entries.len() && #[trigger] old_entries[j].rel_path@ == p;
                assert(n[j].rel_path@ == p);
                assert(has_path(n, p));
            }
            if p == k {
                assert(n[i].rel_path@ == p);
                assert(has_path(n, p));
            }
        }
        assert forall|p: Seq<char>| #[trigger] nm.dom().contains(p) implies nm[p] == om.insert(k, e)[p] by {
            let j = choose|j: int| 0 <= j < n.len() && #[trigger] n[j].rel_path@ == p;
            lemma_lookup(self.keys@, n, j);
            if j != i {
                assert(old_entries[j] == n[j]);
                lemma_lookup(old_keys, old_entries, j);
                assert(key_seq(old_keys)[i] == old_keys[i]@);
                assert(key_seq(old_keys)[j] == old_keys[j]@);
                if p == k {
                    lemma_sorted_unique(key_seq(old_keys), i, j);
                }
            }
        }
        assert(nm =~= om.insert(k, e));
    }

    proof fn lemma_insert_view(&self, old_keys: Seq<String>, old_entries: Seq<RecEntry>, i: int, e: RecEntry)
        requires
            self.wf(),
            old_keys.len() == old_entries.len(),
            strictly_sorted(key_seq(old_keys)),
            forall|j: int| 0 <= j < old_entries.len() ==> #[trigger] old_entries[j].rel_path@
                == old_keys[j]@,
            0 <= i <= old_entries.len(),
            self.entries@ == old_entries.insert(i, e),
        ensures
            self@ == entry_map(old_entries).insert(e.rel_path@, e),
    {
        let k = e.rel_path@;
        let n = self.entries@;
        let nm = entry_map(n);
        let om = entry_map(old_entries);
        assert forall|p: Seq<char>| nm.dom().contains(p) <==> om.insert(k, e).dom().contains(p) by {
            if nm.dom().contains(p) {
                let j = choose|j: int| 0 <= j < n.len() && #[trigger] n[j].rel_path@ == p;
                if j < i {
                    assert(old_entries[j] == n[j]);
                    assert(has_path(old_entries, p));
                } else if j > i {
                    assert(old_entries[j - 1] == n[j]);
                    assert(has_path(old_entries, p));
                }
            }
            if om.dom().contains(p) {
                let j = choose|j: int| 0 <= j < old_entries.len() && #[trigger] old_entries[j].rel_path@ == p;
                if j < i {
                    assert(n[j].rel_path@ == p);
                } else {
                    assert(n[j + 1].rel_path@ == p);
                }
                assert(has_path(n, p));
            }
            if p == k {
                assert(n[i].rel_path@ == p);
                assert(has_path(n, p));
            }
        }
        assert forall|p: Seq<char>| #[trigger] nm.dom().contains(p) implies nm[p] == om.insert(k, e)[p] by {
            let j = choose|j: int| 0 <= j < n.len() && #[trigger] n[j].rel_path@ == p;
            lemma_lookup(self.keys@, n, j);
            assert(n[i] == e);
            if j != i {
                let oj = if j < i { j } else { j - 1 };
                assert(old_entries[oj] == n[j]);
                lemma_lookup(old_keys, old_entries, oj);
                assert(key_seq(self.keys@)[i] == self.keys@[i]@);
                assert(key_seq(self.keys@)[j] == self.keys@[j]@);
                if p == k {
                    lemma_sorted_unique(key_seq(self.keys@), i, j);
                }
            }
        }
        assert(nm =~= om.insert(k, e));
    }

    /// The index of the entry at `rel`, if there is one.
    fn locate(&self, rel: &str) -> (r: (usize, bool))
        requires
            self.wf(),
        ensures
            r.0 <= self.keys@.len(),
            forall|j: int| 0 <= j < r.0 ==> path_precedes(#[trigger] self.keys@[j]@, rel@),
            r.1 == (r.0 < self.keys@.len() && self.keys@[r.0 as int]@ == rel@),
            !r.1 ==> forall|j: int|
                r.0 <= j < self.keys@.len() ==> path_precedes(rel@, #[trigger] self.keys@[j]@),
            r.1 <==> self@.dom().contains(rel@),
            r.1 ==> self@[rel@] == self.entries@[r.0 as int],
    {
        let r = find_slot(&self.keys, rel);
        proof {
            let s = self.entries@;
            if r.1 {
                lemma_lookup(self.keys@, s, r.0 as int);
            } else if self@.dom().contains(rel@) {
                let j = choose|j: int| 0 <= j < s.len() && #[trigger] s[j].rel_path@ == rel@;
                crate::dir::path_order::lemma_path_precedes_irreflexive(rel@);
                if j < r.0 {
                    assert(path_precedes(self.keys@[j]@, rel@));
                } else {
                    assert(path_precedes(rel@, self.keys@[j]@));
                }
            }
        }
        r
    }

    /// A file met by the left walk: recorded as present on the left only,
    /// replacing whatever the path held.
    pub fn record_left_file(&mut self, rel: String, size: u64)
        requires
            old(self).wf(),
        ensures
            final(self).wf(),
            final(self)@ == old(self)@.insert(rel@, left_only_entry(rel, size)),
    {
        let slot = self.locate(rel.as_str());
        let key = rel.clone();
        let e = RecEntry { rel_path: rel, status: RecStatus::LeftOnly, left_size: Some(size), right_size: None };
        self.put(slot, key, e);
    }

    /// A symbolic link met by the left walk: recorded as such, replacing
    /// whatever the path held.
    pub fn record_symlink(&mut self, rel: String)
        requires
            old(self).wf(),
        ensures
            final(self).wf(),
            final(self)@ == old(self)@.insert(rel@, symlink_entry(rel)),
    {
        let slot = self.locate(rel.as_str());
        let key = rel.clone();
        let e = RecEntry { rel_path: rel, status: RecStatus::Symlink, left_size: None, right_size: None };
        self.put(slot, key, e);
    }

    /// A path whose metadata could not be read, or a directory that could
    /// not be opened, on either side: its entry becomes `Unreadable`,
    /// withdrawing any verdict recorded before.
    pub fn mark_unreadable(&mut self, rel: String)
        requires
            old(self).wf(),
        ensures
            final(self).wf(),
            final(self)@ == old(self)@.insert(rel@, unreadable_entry(old(self)@, rel)),
    {
        let slot = self.locate(rel.as_str());
        let key = rel.clone();
        if slot.1 {
            let i = slot.0;
            let e = RecEntry {
                rel_path: self.entries[i].rel_path.clone(),
                status: RecStatus::Unreadable,
                left_size: self.entries[i].left_size,
                right_size: self.entries[i].right_size,
            };
            self.put(slot, key, e);
        } else {
            let e = RecEntry { rel_path: rel, status: RecStatus::Unreadable, left_size: None, right_size: None };
            self.put(slot, key, e);
        }
    }

    /// A symbolic link met by the right walk: recorded only where the left
    /// walk recorded nothing.
    pub fn record_right_symlink(&mut self, rel: String)
        requires
            old(self).wf(),
        ensures
            final(self).wf(),
            old(self)@.dom().contains(rel@) ==> final(self)@ == old(self)@,
            !old(self)@.dom().contains(rel@) ==> final(self)@ == old(self)@.insert(
                rel@,
                symlink_entry(rel),
            ),
    {
        let slot = self.locate(rel.as_str());
        if !slot.1 {
            let key = rel.clone();
            let e = RecEntry { rel_path: rel, status: RecStatus::Symlink, left_size: None, right_size: None };
            self.put(slot, key, e);
        }
    }

    /// What the right walk does with one directory entry at `rel`: stop
    /// once cancelled; otherwise an entry whose metadata could not be read
    /// is marked unreadable, a symbolic link is recorded and not followed,
    /// a directory is descended into, a file is recorded unchecked in a
    /// listing without comparison, compared when a readable left file
    /// shares its path, and otherwise recorded with no comparison; anything
    /// else is skipped.
    pub fn right_entry_step(&self, rel: &str, seen: SeenKind, compare: bool, cancelled: bool) -> (s: RightStep)
        requires
            self.wf(),
        ensures
            s == if cancelled {
                RightStep::Stop
            } else {
                match seen {
                    SeenKind::MetadataFailed => RightStep::MarkUnreadable,
                    SeenKind::Symlink => RightStep::RecordSymlink,
                    SeenKind::Directory => RightStep::Descend,
                    SeenKind::Other => RightStep::Skip,
                    SeenKind::File => if !compare {
                        RightStep::RecordUnchecked
                    } else if self@.dom().contains(rel@) && self@[rel@].status != RecStatus::Unreadable {
                        RightStep::Compare
                    } else {
                        RightStep::RecordUncompared
                    },
                }
            },
    {
        if cancelled {
            return RightStep::Stop;
        }
        match seen {
            SeenKind::MetadataFailed => RightStep::MarkUnreadable,
            SeenKind::Symlink => RightStep::RecordSymlink,
            SeenKind::Directory => RightStep::Descend,
            SeenKind::Other => RightStep::Skip,
            SeenKind::File => if !compare {
                RightStep::RecordUnchecked
            } else if self.right_file_needs_comparison(rel) {
                RightStep::Compare
            } else {
                RightStep::RecordUncompared
            },
        }
    }

    /// Whether a right-tree file at `rel` must be compared byte for byte
    /// with its left counterpart: the left walk recorded the path and it is
    /// not unreadable.
    pub fn right_file_needs_comparison(&self, rel: &str) -> (r: bool)
        requires
            self.wf(),
        ensures
            r == (self@.dom().contains(rel@) && self@[rel@].status != RecStatus::Unreadable),
    {
        let slot = self.locate(rel);
        if slot.1 {
            match self.entries[slot.0].status {
                RecStatus::Unreadable => false,
                _ => true,
            }
        } else {
            false
        }
    }

    /// A file met by the right walk, with the outcome of comparing it to
    /// the left file at the same path. The outcome is read only where
    /// [`Self::right_file_needs_comparison`] holds; an unreadable entry is
    /// left as it is, never turned into a verdict.
    pub fn record_right_file(&mut self, rel: String, size: u64, comparison: Result<DigestOutcome, CoreError>)
        requires
            old(self).wf(),
        ensures
            final(self).wf(),
            !old(self)@.dom().contains(rel@) ==> final(self)@ == old(self)@.insert(
                rel@,
                right_only_entry(rel, size),
            ),
            old(self)@.dom().contains(rel@) && old(self)@[rel@].status == RecStatus::Unreadable
                ==> final(self)@ == old(self)@,
            old(self)@.dom().contains(rel@) && old(self)@[rel@].status != RecStatus::Unreadable
                ==> final(self)@ == old(self)@.insert(
                rel@,
                with_right(old(self)@[rel@], comparison_status(comparison), size),
            ),
    {
        let slot = self.locate(rel.as_str());
        let key = rel.clone();
        if slot.1 {
            let i = slot.0;
            if let RecStatus::Unreadable = self.entries[i].status {
                return;
            }
            let status = match comparison {
                Ok(DigestOutcome::Equal) => RecStatus::Equal,
                Ok(DigestOutcome::Different) => RecStatus::Changed,
                Ok(DigestOutcome::Cancelled) => RecStatus::Computing,
                Err(_) => RecStatus::Changed,
            };
            let e = RecEntry {
                rel_path: self.entries[i].rel_path.clone(),
                status,
                left_size: self.entries[i].left_size,
                right_size: Some(size),
            };
            self.put(slot, key, e);
        } else {
            let e = RecEntry { rel_path: rel, status: RecStatus::RightOnly, left_size: None, right_size: Some(size) };
            self.put(slot, key, e);
        }
    }

    /// A file met by the right walk of the fast listing, which compares no
    /// contents: a path both sides hold becomes `Computing`; an unreadable
    /// entry is left as it is.
    pub fn record_right_file_unchecked(&mut self, rel: String, size: u64)
        requires
            old(self).wf(),
        ensures
            final(self).wf(),
            !old(self)@.dom().contains(rel@) ==> final(self)@ == old(self)@.insert(
                rel@,
                right_only_entry(rel, size),
            ),
            old(self)@.dom().contains(rel@) && old(self)@[rel@].status == RecStatus::Unreadable
                ==> final(self)@ == old(self)@,
            old(self)@.dom().contains(rel@) && old(self)@[rel@].status != RecStatus::Unreadable
                ==> final(self)@ == old(self)@.insert(
                rel@,
                with_right(old(self)@[rel@], RecStatus::Computing, size),
            ),
    {
        let slot = self.locate(rel.as_str());
        let key = rel.clone();
        if slot.1 {
            let i = slot.0;
            if let RecStatus::Unreadable = self.entries[i].status {
                return;
            }
            let e = RecEntry {
                rel_path: self.entries[i].rel_path.clone(),
                status: RecStatus::Computing,
                left_size: self.entries[i].left_size,
                right_size: Some(size),
            };
            self.put(slot, key, e);
        } else {
            let e = RecEntry { rel_path: rel, status: RecStatus::RightOnly, left_size: None, right_size: Some(size) };
            self.put(slot, key, e);
        }
    }

    /// The finished scan: every recorded entry once, sorted by relative
    /// path, with the two root flags.
    pub fn into_scan(self, left_root_unreadable: bool, right_root_unreadable: bool) -> (r: RecursiveScan)
        requires
            self.wf(),
        ensures
            entries_sorted(r.entries@),
            entry_map(r.entries@) == self@,
            r.left_root_unreadable == left_root_unreadable,
            r.right_root_unreadable == right_root_unreadable,
    {
        proof {
            let s = self.entries@;
            assert forall|i: int, j: int| 0 <= i < j < s.len() implies path_precedes(
                #[trigger] s[i].rel_path@,
                #[trigger] s[j].rel_path@,
            ) by {
                assert(key_seq(self.keys@)[i] == self.keys@[i]@);
                assert(key_seq(self.keys@)[j] == self.keys@[j]@);
            }
        }
        RecursiveScan { entries: self.entries, left_root_unreadable, right_root_unreadable }
    }
}

} // verus!
