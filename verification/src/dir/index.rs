//! Directory index model and the pairing of two indices.
//!
//! A [`DirectoryIndex`] is a snapshot of one directory tree: one
//! [`DirectoryEntryRecord`] per entry, with metadata and an optional content
//! digest. [`pair_entries`] pairs two indices path by path and gives each
//! path its [`EqualityEvidence`]: a path missing on one side is one-sided;
//! an error on either side makes the comparison unreliable; differing entry
//! types are a mismatch; differing sizes decide without a digest; two
//! digests decide by comparison; otherwise equal sizes and equal modification
//! times count as equal, and anything less is still pending.
//!
//! Scanning the filesystem to build an index is the caller's work.

use vstd::prelude::*;

use crate::dir::path_order::{
    find_slot, key_seq, lemma_insert_keeps_sorted, lemma_slot_decides_membership, path_precedes,
    strictly_sorted,
};

verus! {

/// Whether a filesystem entry is a file or a directory.
#[derive(Debug, Clone, Copy, PartialEq, Eq, Structural)]
pub enum EntryType {
    File,
    Directory,
    /// Symbolic links, devices, sockets: not compared as content.
    Other,
}

/// A content digest for one file. The algorithm is named beside the hex
/// text so digests of different algorithms are never taken as comparable.
#[derive(Debug, Clone, PartialEq, Eq)]
pub struct ContentDigest {
    /// Algorithm identifier, e.g. `fnv1a64`.
    pub algorithm: String,
    /// Lower-case hex text of the raw digest bytes.
    pub hex: String,
}

/// Two digests agree: same algorithm and same hex text.
pub open spec fn digests_match(a: ContentDigest, b: ContentDigest) -> bool {
    a.algorithm@ == b.algorithm@ && a.hex@ == b.hex@
}

impl ContentDigest {
    /// A 64-bit FNV-1a digest with the given hex text.
    pub fn fnv1a64(hex: &str) -> (d: Self)
        ensures
            d.algorithm@ == "fnv1a64"@,
            d.hex@ == hex@,
    {
        ContentDigest { algorithm: String::from_str("fnv1a64"), hex: String::from_str(hex) }
    }

    /// `true` when both digests were produced by the same algorithm and the
    /// hex texts agree; digests of different algorithms never match.
    pub fn matches(&self, other: &Self) -> (r: bool)
        ensures
            r == digests_match(*self, *other),
    {
        self.algorithm == other.algorithm && self.hex == other.hex
    }
}

fn copy_digest(d: &ContentDigest) -> (c: ContentDigest)
    ensures
        c == *d,
{
    ContentDigest { algorithm: d.algorithm.clone(), hex: d.hex.clone() }
}

/// Whether two instants are the same.
///
/// Trusted: wraps `SystemTime`'s `==`, which compares the whole value; the
/// contract claims it holds exactly for equal values.
#[verifier::external_body]
fn same_instant(a: &std::time::SystemTime, b: &std::time::SystemTime) -> (r: bool)
    ensures
        r == (*a == *b),
{
    *a == *b
}

/// One entry of a [`DirectoryIndex`].
#[derive(Debug, Clone)]
pub struct DirectoryEntryRecord {
    /// Path relative to the index root, components separated by `/`.
    pub relative_path: String,
    pub entry_type: EntryType,
    /// File size in bytes; `None` for directories or on a read error.
    pub size: Option<u64>,
    /// Last-modified time, where available.
    pub modified: Option<std::time::SystemTime>,
    /// Content digest, if computed.
    pub digest: Option<ContentDigest>,
    /// A non-fatal error met while reading this entry.
    pub error: Option<String>,
}

impl DirectoryEntryRecord {
    /// `true` when this entry had a read or metadata error.
    pub fn has_error(&self) -> (r: bool)
        ensures
            r == self.error is Some,
    {
        self.error.is_some()
    }

    /// `true` when a content digest is available.
    pub fn has_digest(&self) -> (r: bool)
        ensures
            r == self.digest is Some,
    {
        self.digest.is_some()
    }
}

fn copy_record(e: &DirectoryEntryRecord) -> (c: DirectoryEntryRecord)
    ensures
        c == *e,
{
    let digest = match &e.digest {
        Some(d) => Some(copy_digest(d)),
        None => None,
    };
    let error = match &e.error {
        Some(m) => Some(m.clone()),
        None => None,
    };
    DirectoryEntryRecord {
        relative_path: e.relative_path.clone(),
        entry_type: e.entry_type,
        size: e.size,
        modified: e.modified,
        digest,
        error,
    }
}

/// Revision counter of a [`DirectoryIndex`], raised on each refresh.
#[derive(Debug, Clone, Copy, PartialEq, Eq, PartialOrd, Ord, Default)]
pub struct IndexRevision(pub u64);

impl IndexRevision {
    /// The following revision.
    pub fn next(self) -> (r: Self)
        requires
            self.0 < u64::MAX,
        ensures
            r.0 == self.0 + 1,
    {
        IndexRevision(self.0 + 1)
    }
}

/// A snapshot of one directory tree.
#[derive(Debug, Clone)]
pub struct DirectoryIndex {
    pub root: std::path::PathBuf,
    pub revision: IndexRevision,
    pub entries: Vec<DirectoryEntryRecord>,
    /// Number of entries skipped by the ignore rules.
    pub ignored_count: usize,
    /// `true` when the scan completed without being cancelled.
    pub is_complete: bool,
}

/// The first position of `s` whose record has the relative path `k`.
pub open spec fn first_with_path(s: Seq<DirectoryEntryRecord>, k: Seq<char>, i: int) -> bool {
    &&& 0 <= i < s.len()
    &&& s[i].relative_path@ == k
    &&& forall|j: int| 0 <= j < i ==> (#[trigger] s[j]).relative_path@ != k
}

/// The records of `s` of one entry type, in order.
pub open spec fn of_type(s: Seq<DirectoryEntryRecord>, t: EntryType) -> Seq<DirectoryEntryRecord> {
    s.filter(|e: DirectoryEntryRecord| e.entry_type == t)
}

impl DirectoryIndex {
    /// An index not yet scanned: revision zero, no entries, incomplete.
    pub fn empty(root: std::path::PathBuf) -> (r: Self)
        ensures
            r.root == root,
            r.revision.0 == 0,
            r.entries@.len() == 0,
            r.ignored_count == 0,
            !r.is_complete,
    {
        DirectoryIndex { root, revision: IndexRevision(0), entries: Vec::new(), ignored_count: 0, is_complete: false }
    }

    /// An index built directly from records, at revision one.
    pub fn from_records(root: std::path::PathBuf, entries: Vec<DirectoryEntryRecord>, is_complete: bool) -> (r: Self)
        ensures
            r.root == root,
            r.revision.0 == 1,
            r.entries@ == entries@,
            r.ignored_count == 0,
            r.is_complete == is_complete,
    {
        DirectoryIndex { root, revision: IndexRevision(1), entries, ignored_count: 0, is_complete }
    }

    /// The first entry with the given relative path.
    pub fn get(&self, rel: &str) -> (r: Option<&DirectoryEntryRecord>)
        ensures
            r is None <==> forall|j: int|
                0 <= j < self.entries@.len() ==> (#[trigger] self.entries@[j]).relative_path@ != rel@,
            r matches Some(e) ==> exists|i: int| first_with_path(self.entries@, rel@, i) && *e == self.entries@[i],
    {
        let mut i: usize = 0;
        while i < self.entries.len()
            invariant
                i <= self.entries@.len(),
                forall|j: int| 0 <= j < i ==> (#[trigger] self.entries@[j]).relative_path@ != rel@,
            decreases self.entries@.len() - i,
        {
            if crate::text::str_equal(self.entries[i].relative_path.as_str(), rel) {
                assert(first_with_path(self.entries@, rel@, i as int));
                return Some(&self.entries[i]);
            }
            i = i + 1;
        }
        None
    }

    fn of_type_refs(&self, t: EntryType) -> (out: Vec<&DirectoryEntryRecord>)
        ensures
            out@.map_values(|e: &DirectoryEntryRecord| *e) == of_type(self.entries@, t),
    {
        let mut out: Vec<&DirectoryEntryRecord> = Vec::new();
        let mut i: usize = 0;
        while i < self.entries.len()
            invariant
                i <= self.entries@.len(),
                out@.map_values(|e: &DirectoryEntryRecord| *e) == of_type(self.entries@.subrange(0, i as int), t),
            decreases self.entries@.len() - i,
        {
            proof {
                reveal(Seq::filter);
                assert(self.entries@.subrange(0, i as int + 1).drop_last() =~= self.entries@.subrange(0, i as int));
            }
            if self.entries[i].entry_type == t {
                out.push(&self.entries[i]);
            }
            assert(out@.map_values(|e: &DirectoryEntryRecord| *e) =~= of_type(self.entries@.subrange(0, i as int + 1), t));
            i = i + 1;
        }
        assert(self.entries@.subrange(0, self.entries@.len() as int) =~= self.entries@);
        out
    }

    /// All file entries, in order.
    pub fn files(&self) -> (out: Vec<&DirectoryEntryRecord>)
        ensures
            out@.map_values(|e: &DirectoryEntryRecord| *e) == of_type(self.entries@, EntryType::File),
    {
        self.of_type_refs(EntryType::File)
    }

    /// All directory entries, in order.
    pub fn directories(&self) -> (out: Vec<&DirectoryEntryRecord>)
        ensures
            out@.map_values(|e: &DirectoryEntryRecord| *e) == of_type(self.entries@, EntryType::Directory),
    {
        self.of_type_refs(EntryType::Directory)
    }
}

/// The evidence behind an equality determination for one path pair.
#[derive(Debug, Clone, PartialEq, Eq)]
pub enum EqualityEvidence {
    /// Both sides have identical digests of the same algorithm.
    DigestEqual,
    /// Both sides have the same size and modification time, or are both
    /// directories.
    MetadataEqual,
    /// Sizes match but no digest decides yet.
    MetadataOnly,
    /// The entry exists only on the left side.
    LeftOnly,
    /// The entry exists only on the right side.
    RightOnly,
    /// Both sides have the path with different entry types.
    TypeMismatch { left: EntryType, right: EntryType },
    /// Sizes differ: the content is different, no digest needed.
    SizeDifferent { left_size: u64, right_size: u64 },
    /// Both sides have digests that do not match.
    DigestDifferent,
    /// One or both sides had an error; the comparison is unreliable.
    Error { message: String },
    /// Comparison has not been attempted.
    Unknown,
}

/// The evidence shows equality.
pub open spec fn shows_equal(e: EqualityEvidence) -> bool {
    e is DigestEqual || e is MetadataEqual
}

/// The evidence shows a difference.
pub open spec fn shows_different(e: EqualityEvidence) -> bool {
    e is SizeDifferent || e is DigestDifferent || e is TypeMismatch || e is LeftOnly || e is RightOnly
}

/// No conclusion can be drawn yet.
pub open spec fn still_pending(e: EqualityEvidence) -> bool {
    e is MetadataOnly || e is Unknown
}

impl EqualityEvidence {
    /// `true` when the evidence conclusively shows equality.
    pub fn is_equal(&self) -> (r: bool)
        ensures
            r == shows_equal(*self),
    {
        match self {
            EqualityEvidence::DigestEqual | EqualityEvidence::MetadataEqual => true,
            _ => false,
        }
    }

    /// `true` when the evidence conclusively shows a difference.
    pub fn is_different(&self) -> (r: bool)
        ensures
            r == shows_different(*self),
    {
        match self {
            EqualityEvidence::SizeDifferent { .. } | EqualityEvidence::DigestDifferent
            | EqualityEvidence::TypeMismatch { .. } | EqualityEvidence::LeftOnly
            | EqualityEvidence::RightOnly => true,
            _ => false,
        }
    }

    /// `true` when no conclusion can be drawn yet.
    pub fn is_pending(&self) -> (r: bool)
        ensures
            r == still_pending(*self),
    {
        match self {
            EqualityEvidence::MetadataOnly | EqualityEvidence::Unknown => true,
            _ => false,
        }
    }

    /// `true` when the entry is present on both sides, whatever the verdict.
    pub fn present_on_both_sides(&self) -> (r: bool)
        ensures
            r == !(*self is LeftOnly || *self is RightOnly || *self is Unknown),
    {
        match self {
            EqualityEvidence::LeftOnly | EqualityEvidence::RightOnly | EqualityEvidence::Unknown => false,
            _ => true,
        }
    }
}

/// The evidence for one path, from the record each side holds for it.
pub open spec fn evidence_for(l: Option<DirectoryEntryRecord>, r: Option<DirectoryEntryRecord>) -> EqualityEvidence {
    match (l, r) {
        (None, None) => EqualityEvidence::Unknown,
        (Some(_), None) => EqualityEvidence::LeftOnly,
        (None, Some(_)) => EqualityEvidence::RightOnly,
        (Some(l), Some(r)) => {
            if l.error is Some || r.error is Some {
                EqualityEvidence::Error {
                    message: if l.error is Some { l.error->0 } else { r.error->0 },
                }
            } else if l.entry_type != r.entry_type {
                EqualityEvidence::TypeMismatch { left: l.entry_type, right: r.entry_type }
            } else if l.entry_type == EntryType::Directory {
                EqualityEvidence::MetadataEqual
            } else if l.size is Some && r.size is Some && l.size->0 != r.size->0 {
                EqualityEvidence::SizeDifferent { left_size: l.size->0, right_size: r.size->0 }
            } else if l.digest is Some && r.digest is Some {
                if digests_match(l.digest->0, r.digest->0) {
                    EqualityEvidence::DigestEqual
                } else {
                    EqualityEvidence::DigestDifferent
                }
            } else if l.modified is Some && r.modified is Some && l.modified->0 == r.modified->0 {
                EqualityEvidence::MetadataEqual
            } else {
                EqualityEvidence::MetadataOnly
            }
        },
    }
}

fn compute_evidence(l: Option<&DirectoryEntryRecord>, r: Option<&DirectoryEntryRecord>) -> (ev: EqualityEvidence)
    ensures
        ev == evidence_for(
            match l { Some(x) => Some(*x), None => None },
            match r { Some(x) => Some(*x), None => None },
        ),
{
    match (l, r) {
        (None, None) => EqualityEvidence::Unknown,
        (Some(_), None) => EqualityEvidence::LeftOnly,
        (None, Some(_)) => EqualityEvidence::RightOnly,
        (Some(l), Some(r)) => {
            if l.has_error() || r.has_error() {
                let message = match &l.error {
                    Some(m) => m.clone(),
                    None => match &r.error {
                        Some(m) => m.clone(),
                        None => String::new(),
                    },
                };
                return EqualityEvidence::Error { message };
            }
            if l.entry_type != r.entry_type {
                return EqualityEvidence::TypeMismatch { left: l.entry_type, right: r.entry_type };
            }
            if l.entry_type == EntryType::Directory {
                return EqualityEvidence::MetadataEqual;
            }
            if let (Some(ls), Some(rs)) = (l.size, r.size) {
                if ls != rs {
                    return EqualityEvidence::SizeDifferent { left_size: ls, right_size: rs };
                }
            }
            match (&l.digest, &r.digest) {
                (Some(ld), Some(rd)) => {
                    if ld.matches(rd) {
                        EqualityEvidence::DigestEqual
                    } else {
                        EqualityEvidence::DigestDifferent
                    }
                },
                _ => {
                    match (&l.modified, &r.modified) {
                        (Some(lm), Some(rm)) => {
                            if same_instant(lm, rm) {
                                EqualityEvidence::MetadataEqual
                            } else {
                                EqualityEvidence::MetadataOnly
                            }
                        },
                        _ => EqualityEvidence::MetadataOnly,
                    }
                },
            }
        },
    }
}

/// One path's comparison result across a left/right index pair.
#[derive(Debug, Clone)]
pub struct PairedEntry {
    pub relative_path: String,
    pub evidence: EqualityEvidence,
    pub left: Option<DirectoryEntryRecord>,
    pub right: Option<DirectoryEntryRecord>,
}

impl PairedEntry {
    /// The size of the left record, where there is one and it has a size.
    pub fn left_size(&self) -> (r: Option<u64>)
        ensures
            r == (match self.left { Some(e) => e.size, None => None }),
    {
        match &self.left {
            Some(e) => e.size,
            None => None,
        }
    }

    /// The size of the right record, where there is one and it has a size.
    pub fn right_size(&self) -> (r: Option<u64>)
        ensures
            r == (match self.right { Some(e) => e.size, None => None }),
    {
        match &self.right {
            Some(e) => e.size,
            None => None,
        }
    }
}

/// The complete paired view of two directory indices.
#[derive(Debug, Clone, Default)]
pub struct PairedEntrySet {
    pub entries: Vec<PairedEntry>,
}

/// How many paired entries satisfy `p`.
pub open spec fn count_paired(s: Seq<PairedEntry>, p: spec_fn(EqualityEvidence) -> bool) -> nat {
    s.filter(|e: PairedEntry| p(e.evidence)).len()
}

fn count_evidence(entries: &Vec<PairedEntry>, which: u8) -> (n: usize)
    requires
        which <= 4,
    ensures
        n == count_paired(entries@, evidence_class(which)),
{
    let ghost p = evidence_class(which);
    let mut n: usize = 0;
    let mut i: usize = 0;
    while i < entries.len()
        invariant
            i <= entries@.len(),
            which <= 4,
            p == evidence_class(which),
            n == entries@.subrange(0, i as int).filter(|e: PairedEntry| p(e.evidence)).len(),
        decreases entries@.len() - i,
    {
        proof {
            reveal(Seq::filter);
            assert(entries@.subrange(0, i as int + 1).drop_last() =~= entries@.subrange(0, i as int));
        }
        let ev = &entries[i].evidence;
        let hit = if which == 0 {
            ev.is_equal()
        } else if which == 1 {
            ev.is_different()
        } else if which == 2 {
            ev.is_pending()
        } else if which == 3 {
            match ev {
                EqualityEvidence::LeftOnly => true,
                _ => false,
            }
        } else {
            match ev {
                EqualityEvidence::RightOnly => true,
                _ => false,
            }
        };
        assert(hit == p(entries@[i as int].evidence));
        if hit {
            n = n + 1;
        }
        i = i + 1;
    }
    assert(entries@.subrange(0, entries@.len() as int) =~= entries@);
    n
}

/// The classes of evidence the set counts: equal, different, pending,
/// left only, right only.
pub open spec fn evidence_class(which: u8) -> spec_fn(EqualityEvidence) -> bool {
    if which == 0 {
        |e: EqualityEvidence| shows_equal(e)
    } else if which == 1 {
        |e: EqualityEvidence| shows_different(e)
    } else if which == 2 {
        |e: EqualityEvidence| still_pending(e)
    } else if which == 3 {
        |e: EqualityEvidence| e is LeftOnly
    } else {
        |e: EqualityEvidence| e is RightOnly
    }
}

impl PairedEntrySet {
    /// Entries whose evidence shows equality.
    pub fn equal_count(&self) -> (n: usize)
        ensures
            n == count_paired(self.entries@, |e: EqualityEvidence| shows_equal(e)),
    {
        let n = count_evidence(&self.entries, 0);
        assert(evidence_class(0) == (|e: EqualityEvidence| shows_equal(e)));
        n
    }

    /// Entries whose evidence shows a difference.
    pub fn different_count(&self) -> (n: usize)
        ensures
            n == count_paired(self.entries@, |e: EqualityEvidence| shows_different(e)),
    {
        let n = count_evidence(&self.entries, 1);
        assert(evidence_class(1) == (|e: EqualityEvidence| shows_different(e)));
        n
    }

    /// Entries still pending.
    pub fn pending_count(&self) -> (n: usize)
        ensures
            n == count_paired(self.entries@, |e: EqualityEvidence| still_pending(e)),
    {
        let n = count_evidence(&self.entries, 2);
        assert(evidence_class(2) == (|e: EqualityEvidence| still_pending(e)));
        n
    }

    /// Entries present on the left only.
    pub fn left_only_count(&self) -> (n: usize)
        ensures
            n == count_paired(self.entries@, |e: EqualityEvidence| e is LeftOnly),
    {
        let n = count_evidence(&self.entries, 3);
        assert(evidence_class(3) == (|e: EqualityEvidence| e is LeftOnly));
        n
    }

    /// Entries present on the right only.
    pub fn right_only_count(&self) -> (n: usize)
        ensures
            n == count_paired(self.entries@, |e: EqualityEvidence| e is RightOnly),
    {
        let n = count_evidence(&self.entries, 4);
        assert(evidence_class(4) == (|e: EqualityEvidence| e is RightOnly));
        n
    }
}

/// The relative paths of a list of records.
pub open spec fn record_paths(s: Seq<DirectoryEntryRecord>) -> Seq<Seq<char>> {
    s.map_values(|e: DirectoryEntryRecord| e.relative_path@)
}

/// The record a side holds for path `k`: the last one with that path, as
/// a map from path to record keeps the last insertion.
pub open spec fn record_for(s: Seq<DirectoryEntryRecord>, k: Seq<char>) -> Option<DirectoryEntryRecord>
    decreases s.len(),
{
    if s.len() == 0 {
        None
    } else if s.last().relative_path@ == k {
        Some(s.last())
    } else {
        record_for(s.drop_last(), k)
    }
}

/// `pair_entries` pairs exactly these paths: each path of either side once,
/// sorted in component order, with each side's record and the evidence they
/// give.
pub open spec fn pairing_of(left: Seq<DirectoryEntryRecord>, right: Seq<DirectoryEntryRecord>, out: Seq<PairedEntry>) -> bool {
    &&& forall|i: int, j: int|
        0 <= i < j < out.len() ==> path_precedes(
            #[trigger] out[i].relative_path@,
            #[trigger] out[j].relative_path@,
        )
    &&& forall|k: Seq<char>|
        record_paths(left).contains(k) || record_paths(right).contains(k) <==> exists|i: int|
            0 <= i < out.len() && #[trigger] out[i].relative_path@ == k
    &&& forall|i: int|
        0 <= i < out.len() ==> {
            let e = #[trigger] out[i];
            &&& e.left == record_for(left, e.relative_path@)
            &&& e.right == record_for(right, e.relative_path@)
            &&& e.evidence == evidence_for(e.left, e.right)
        }
}

fn last_record<'a>(s: &'a Vec<DirectoryEntryRecord>, k: &str) -> (r: Option<&'a DirectoryEntryRecord>)
    ensures
        (match r { Some(x) => Some(*x), None => None }) == record_for(s@, k@),
{
    let mut i: usize = s.len();
    assert(s@.subrange(0, s@.len() as int) =~= s@);
    while i > 0
        invariant
            i <= s@.len(),
            record_for(s@, k@) == record_for(s@.subrange(0, i as int), k@),
        decreases i,
    {
        let ghost pre = s@.subrange(0, i as int);
        assert(pre.last() == s@[i - 1]);
        assert(pre.drop_last() =~= s@.subrange(0, i - 1));
        if crate::text::str_equal(s[i - 1].relative_path.as_str(), k) {
            return Some(&s[i - 1]);
        }
        i = i - 1;
    }
    None
}

proof fn lemma_record_for_some(s: Seq<DirectoryEntryRecord>, k: Seq<char>)
    ensures
        record_for(s, k) is Some <==> record_paths(s).contains(k),
        record_for(s, k) matches Some(e) ==> e.relative_path@ == k,
    decreases s.len(),
{
    if s.len() > 0 {
        lemma_record_for_some(s.drop_last(), k);
        let rp = record_paths(s);
        let rq = record_paths(s.drop_last());
        assert(rp =~= rq.push(s.last().relative_path@));
        if rq.contains(k) {
            let j = choose|j: int| 0 <= j < rq.len() && rq[j] == k;
            assert(rp[j] == k);
        }
        if rp.contains(k) && s.last().relative_path@ != k {
            let j = choose|j: int| 0 <= j < rp.len() && rp[j] == k;
            assert(j < rq.len());
            assert(rq[j] == k);
        }
        assert(rp[rp.len() - 1] == s.last().relative_path@);
    }
}

proof fn lemma_add_one(
    ks: Seq<Seq<char>>,
    nk: Seq<Seq<char>>,
    start: Seq<Seq<char>>,
    sub: Seq<Seq<char>>,
    rel: Seq<char>,
    found: bool,
    at: int,
)
    requires
        forall|k: Seq<char>| #[trigger] ks.contains(k) <==> (start.contains(k) || sub.contains(k)),
        found <==> ks.contains(rel),
        found ==> nk == ks,
        !found ==> 0 <= at <= ks.len() && nk == ks.insert(at, rel),
    ensures
        forall|k: Seq<char>| #[trigger] nk.contains(k) <==> (start.contains(k) || sub.push(rel).contains(k)),
{
    assert forall|k: Seq<char>| #[trigger] nk.contains(k) <==> (start.contains(k) || sub.push(rel).contains(k)) by {
        let sub1 = sub.push(rel);
        assert(sub1[sub.len() as int] == rel);
        if sub.contains(k) {
            let j = choose|j: int| 0 <= j < sub.len() && sub[j] == k;
            assert(sub1[j] == k);
        }
        if sub1.contains(k) && k != rel {
            let j = choose|j: int| 0 <= j < sub1.len() && sub1[j] == k;
            assert(j < sub.len() && sub[j] == k);
        }
        if !found {
            assert(nk[at] == rel);
            if ks.contains(k) {
                let j = choose|j: int| 0 <= j < ks.len() && ks[j] == k;
                if j < at {
                    assert(nk[j] == k);
                } else {
                    assert(nk[j + 1] == k);
                }
            }
            if nk.contains(k) && k != rel {
                let j = choose|j: int| 0 <= j < nk.len() && nk[j] == k;
                if j < at {
                    assert(ks[j] == k);
                } else {
                    assert(ks[j - 1] == k);
                }
            }
        }
    }
}

/// Adds the paths of `records` to the sorted path list.
fn add_paths(paths: &mut Vec<String>, records: &Vec<DirectoryEntryRecord>)
    requires
        strictly_sorted(key_seq(old(paths)@)),
    ensures
        strictly_sorted(key_seq(final(paths)@)),
        forall|k: Seq<char>|
            #[trigger] key_seq(final(paths)@).contains(k) <==> (key_seq(old(paths)@).contains(k)
                || record_paths(records@).contains(k)),
{
    let ghost start = key_seq(paths@);
    let mut i: usize = 0;
    while i < records.len()
        invariant
            i <= records@.len(),
            strictly_sorted(key_seq(paths@)),
            forall|k: Seq<char>|
                key_seq(paths@).contains(k) <==> (start.contains(k)
                    || record_paths(records@).subrange(0, i as int).contains(k)),
        decreases records@.len() - i,
    {
        let rel = &records[i].relative_path;
        let slot = find_slot(paths, rel.as_str());
        let ghost ks = key_seq(paths@);
        proof {
            assert forall|j: int| 0 <= j < slot.0 implies path_precedes(#[trigger] ks[j], rel@) by {
                assert(ks[j] == paths@[j]@);
            }
            if !slot.1 {
                assert forall|j: int| slot.0 <= j < ks.len() implies path_precedes(rel@, #[trigger] ks[j]) by {
                    assert(ks[j] == paths@[j]@);
                }
            }
            if slot.1 {
                assert(ks[slot.0 as int] == paths@[slot.0 as int]@);
            }
            lemma_slot_decides_membership(ks, slot.0 as int, slot.1, rel@);
        }
        if !slot.1 {
            proof {
                lemma_insert_keeps_sorted(ks, slot.0 as int, rel@);
                assert(key_seq(paths@.insert(slot.0 as int, *rel)) =~= ks.insert(slot.0 as int, rel@));
            }
            paths.insert(slot.0, rel.clone());
        }
        proof {
            let rp = record_paths(records@);
            assert(rp.subrange(0, i as int + 1) =~= rp.subrange(0, i as int).push(rel@));
            if !slot.1 {
                assert(key_seq(paths@) =~= ks.insert(slot.0 as int, rel@));
            } else {
                assert(key_seq(paths@) =~= ks);
            }
            lemma_add_one(ks, key_seq(paths@), start, rp.subrange(0, i as int), rel@, slot.1, slot.0 as int);
        }
        i = i + 1;
    }
    assert(record_paths(records@).subrange(0, records@.len() as int) =~= record_paths(records@));
}

/// Pairs two directory indices and gives each relative path its evidence.
///
/// Every path of either index appears once, sorted in component order; a
/// side that lists a path twice contributes its last record for it.
pub fn pair_entries(left: &DirectoryIndex, right: &DirectoryIndex) -> (set: PairedEntrySet)
    ensures
        pairing_of(left.entries@, right.entries@, set.entries@),
{
    let mut paths: Vec<String> = Vec::new();
    add_paths(&mut paths, &left.entries);
    let ghost mid = key_seq(paths@);
    add_paths(&mut paths, &right.entries);
    let ghost ks = key_seq(paths@);
    proof {
        assert forall|k: Seq<char>| ks.contains(k) <==> (record_paths(left.entries@).contains(k)
            || record_paths(right.entries@).contains(k)) by {
            assert(ks.contains(k) <==> (mid.contains(k) || record_paths(right.entries@).contains(k)));
            assert(mid.contains(k) <==> (key_seq(Seq::<String>::empty()).contains(k)
                || record_paths(left.entries@).contains(k)));
        }
    }
    let mut entries: Vec<PairedEntry> = Vec::new();
    let mut i: usize = 0;
    while i < paths.len()
        invariant
            i <= paths@.len(),
            ks == key_seq(paths@),
            strictly_sorted(ks),
            forall|k: Seq<char>|
                ks.contains(k) <==> (record_paths(left.entries@).contains(k)
                    || record_paths(right.entries@).contains(k)),
            entries@.len() == i,
            forall|j: int| 0 <= j < i ==> (#[trigger] entries@[j]).relative_path@ == ks[j],
            forall|j: int|
                0 <= j < i ==> {
                    let e = #[trigger] entries@[j];
                    &&& e.left == record_for(left.entries@, e.relative_path@)
                    &&& e.right == record_for(right.entries@, e.relative_path@)
                    &&& e.evidence == evidence_for(e.left, e.right)
                },
        decreases paths@.len() - i,
    {
        let p = &paths[i];
        let l = last_record(&left.entries, p.as_str());
        let r = last_record(&right.entries, p.as_str());
        let evidence = compute_evidence(l, r);
        let lc = match l {
            Some(x) => Some(copy_record(x)),
            None => None,
        };
        let rc = match r {
            Some(x) => Some(copy_record(x)),
            None => None,
        };
        assert(ks[i as int] == paths@[i as int]@);
        entries.push(PairedEntry { relative_path: p.clone(), evidence, left: lc, right: rc });
        i = i + 1;
    }
    proof {
        let out = entries@;
        assert forall|k: Seq<char>|
            record_paths(left.entries@).contains(k) || record_paths(right.entries@).contains(k)
                <==> exists|i: int| 0 <= i < out.len() && #[trigger] out[i].relative_path@ == k by {
            if ks.contains(k) {
                let j = choose|j: int| 0 <= j < ks.len() && ks[j] == k;
                assert(out[j].relative_path@ == k);
            }
            if exists|i: int| 0 <= i < out.len() && #[trigger] out[i].relative_path@ == k {
                let j = choose|i: int| 0 <= i < out.len() && #[trigger] out[i].relative_path@ == k;
                assert(ks[j] == k);
            }
        }
        assert forall|i: int, j: int| 0 <= i < j < out.len() implies path_precedes(
            #[trigger] out[i].relative_path@,
            #[trigger] out[j].relative_path@,
        ) by {
            assert(ks[i] == out[i].relative_path@);
            assert(ks[j] == out[j].relative_path@);
        }
    }
    PairedEntrySet { entries }
}

/// Evidence never shows two verdicts at once: equal, different and pending
/// exclude one another, and an error is none of them.
pub proof fn law_evidence_classes_disjoint(e: EqualityEvidence)
    ensures
        !(shows_equal(e) && shows_different(e)),
        !(shows_equal(e) && still_pending(e)),
        !(shows_different(e) && still_pending(e)),
        e is Error ==> !shows_equal(e) && !shows_different(e) && !still_pending(e),
{
}

/// Pairing a path present on one side only says so, and the side that has
/// it decides which: one-sided evidence is never a verdict on content.
pub proof fn law_one_sided_paths(l: Option<DirectoryEntryRecord>, r: Option<DirectoryEntryRecord>)
    ensures
        (l is Some && r is None) <==> evidence_for(l, r) is LeftOnly,
        (l is None && r is Some) <==> evidence_for(l, r) is RightOnly,
        (l is None && r is None) <==> evidence_for(l, r) is Unknown,
{
}

} // verus!
