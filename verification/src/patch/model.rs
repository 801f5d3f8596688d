//! Patch document model: a set of file changes, serializable to a
//! deterministic unified diff. A patch never performs I/O. Paths are
//! relative, with `/` separators.

use vstd::prelude::*;

use crate::diff::model::NewlineMarker;

verus! {

/// Patch serialization format.
#[derive(Debug, Clone, Copy, PartialEq, Eq, Default, Structural)]
pub enum PatchFormat {
    /// Unified diff with `git`-compatible file headers.
    #[default]
    Unified,
}

/// The role of one line within a hunk.
#[derive(Debug, Clone, Copy, PartialEq, Eq, Structural)]
pub enum LineOrigin {
    /// Unchanged context, present on both sides.
    Context,
    /// Present on the left (old) side only.
    Delete,
    /// Present on the right (new) side only.
    Insert,
}

/// The unified-diff prefix of each origin.
pub open spec fn origin_marker(o: LineOrigin) -> char {
    match o {
        LineOrigin::Context => ' ',
        LineOrigin::Delete => '-',
        LineOrigin::Insert => '+',
    }
}

impl LineOrigin {
    /// The unified-diff prefix character.
    pub fn marker(self) -> (c: char)
        ensures
            c == origin_marker(self),
    {
        match self {
            LineOrigin::Context => ' ',
            LineOrigin::Delete => '-',
            LineOrigin::Insert => '+',
        }
    }
}

/// One line of a patch: content without terminator, plus the terminator
/// it had in its source document (`NoNewline` for a final line without
/// one).
#[derive(Debug, Clone, PartialEq, Eq)]
pub struct PatchLine {
    pub origin: LineOrigin,
    pub content: String,
    pub newline: NewlineMarker,
}

/// A patch line as values: origin, content, terminator.
pub type LineModel = (LineOrigin, Seq<char>, NewlineMarker);

impl PatchLine {
    /// The line as values.
    pub open spec fn model(self) -> LineModel {
        (self.origin, self.content@, self.newline)
    }

    /// A patch line.
    pub fn new(origin: LineOrigin, content: &str, newline: NewlineMarker) -> (l: Self)
        ensures
            l.model() == (origin, content@, newline),
    {
        PatchLine { origin, content: String::from_str(content), newline }
    }

    /// `true` when the line ended its source document without a newline.
    pub fn no_newline_at_eof(&self) -> (b: bool)
        ensures
            b == (self.newline == NewlineMarker::NoNewline),
    {
        matches!(self.newline, NewlineMarker::NoNewline)
    }

    /// An identical copy of this line.
    pub fn duplicate(&self) -> (l: Self)
        ensures
            l == *self,
    {
        PatchLine { origin: self.origin, content: self.content.clone(), newline: self.newline }
    }
}

/// The models of a list of patch lines.
pub open spec fn line_models(ls: Seq<PatchLine>) -> Seq<LineModel> {
    ls.map_values(|l: PatchLine| l.model())
}

/// One contiguous unified-diff hunk of a `Modify` change. Ranges are
/// 1-based; a side with no lines starts at the line before the change.
#[derive(Debug, Clone, PartialEq, Eq)]
pub struct PatchHunk {
    pub old_start: u32,
    pub old_len: u32,
    pub new_start: u32,
    pub new_len: u32,
    pub lines: Vec<PatchLine>,
}

/// A hunk as values: old start and length, new start and length, lines.
pub type HunkModel = (u32, u32, u32, u32, Seq<LineModel>);

impl PatchHunk {
    /// The hunk as values.
    pub open spec fn model(self) -> HunkModel {
        (self.old_start, self.old_len, self.new_start, self.new_len, line_models(self.lines@))
    }
}

/// The models of a list of hunks.
pub open spec fn hunk_models(hs: Seq<PatchHunk>) -> Seq<HunkModel> {
    hs.map_values(|h: PatchHunk| h.model())
}

/// One change to one file.
#[derive(Debug, Clone, PartialEq, Eq)]
pub enum PatchFileChange {
    /// The file exists on both sides and its text differs.
    Modify { path: String, hunks: Vec<PatchHunk> },
    /// The file exists only on the right side.
    Add { path: String, lines: Vec<PatchLine> },
    /// The file exists only on the left side.
    Delete { path: String, lines: Vec<PatchLine> },
    /// A differing file that cannot be expressed as a text patch.
    BinaryNotice { path: String },
}

/// The relative path of a change.
pub open spec fn change_path(c: PatchFileChange) -> Seq<char> {
    match c {
        PatchFileChange::Modify { path, .. } => path@,
        PatchFileChange::Add { path, .. } => path@,
        PatchFileChange::Delete { path, .. } => path@,
        PatchFileChange::BinaryNotice { path } => path@,
    }
}

/// The numbers of inserted and deleted lines of a hunk list.
pub open spec fn hunk_deltas(hs: Seq<PatchHunk>) -> (nat, nat)
    decreases hs.len(),
{
    if hs.len() == 0 {
        (0, 0)
    } else {
        let prev = hunk_deltas(hs.drop_last());
        let d = origin_counts(hs.last().lines@);
        (prev.0 + d.0, prev.1 + d.1)
    }
}

/// The numbers of inserted and deleted lines of a line list.
pub open spec fn origin_counts(ls: Seq<PatchLine>) -> (nat, nat)
    decreases ls.len(),
{
    if ls.len() == 0 {
        (0, 0)
    } else {
        let prev = origin_counts(ls.drop_last());
        match ls.last().origin {
            LineOrigin::Insert => (prev.0 + 1, prev.1),
            LineOrigin::Delete => (prev.0, prev.1 + 1),
            LineOrigin::Context => prev,
        }
    }
}

/// The (additions, deletions) a change contributes to the summary.
pub open spec fn change_deltas(c: PatchFileChange) -> (nat, nat) {
    match c {
        PatchFileChange::Modify { hunks, .. } => hunk_deltas(hunks@),
        PatchFileChange::Add { lines, .. } => (lines@.len(), 0),
        PatchFileChange::Delete { lines, .. } => (0, lines@.len()),
        PatchFileChange::BinaryNotice { .. } => (0, 0),
    }
}

impl PatchFileChange {
    /// The relative path this change targets.
    pub fn path(&self) -> (p: &String)
        ensures
            p@ == change_path(*self),
    {
        match self {
            PatchFileChange::Modify { path, .. } => path,
            PatchFileChange::Add { path, .. } => path,
            PatchFileChange::Delete { path, .. } => path,
            PatchFileChange::BinaryNotice { path } => path,
        }
    }
}

/// Aggregate patch statistics.
#[derive(Debug, Clone, Copy, PartialEq, Eq, Default, Structural)]
pub struct PatchSummary {
    pub files_changed: usize,
    pub files_added: usize,
    pub files_deleted: usize,
    pub binary_files: usize,
    pub additions: usize,
    pub deletions: usize,
}

/// The summary of a change list: counts per variant and total inserted
/// and deleted lines.
pub open spec fn summary_of(cs: Seq<PatchFileChange>) -> (nat, nat, nat, nat, nat, nat)
    decreases cs.len(),
{
    if cs.len() == 0 {
        (0, 0, 0, 0, 0, 0)
    } else {
        let p = summary_of(cs.drop_last());
        let c = cs.last();
        let d = change_deltas(c);
        (
            p.0 + if c is Modify { 1nat } else { 0nat },
            p.1 + if c is Add { 1nat } else { 0nat },
            p.2 + if c is Delete { 1nat } else { 0nat },
            p.3 + if c is BinaryNotice { 1nat } else { 0nat },
            p.4 + d.0,
            p.5 + d.1,
        )
    }
}

/// The summary record as a tuple.
pub open spec fn summary_tuple(s: PatchSummary) -> (nat, nat, nat, nat, nat, nat) {
    (s.files_changed as nat, s.files_added as nat, s.files_deleted as nat, s.binary_files as nat, s.additions as nat, s.deletions as nat)
}

/// A complete, serializable patch.
#[derive(Debug, Clone, PartialEq, Eq)]
pub struct PatchDocument {
    pub format: PatchFormat,
    pub files: Vec<PatchFileChange>,
    pub summary: PatchSummary,
}

impl PatchDocument {
    /// `true` when the patch carries no file change.
    pub fn is_empty(&self) -> (b: bool)
        ensures
            b == (self.files@.len() == 0),
    {
        self.files.len() == 0
    }
}

} // verus!
