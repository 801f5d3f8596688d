//! Normalized diff model: the contract consumed by the merge layer and UI.

use vstd::prelude::*;

use super::options::DiffOptions;
use crate::hash::{fnv1a64, fnv1a64_spec};

verus! {

/// Deterministic hunk identity within one `DiffDocument`.
pub type HunkId = u64;

/// 1-based inclusive line range on one side; `len == 0` marks an anchor
/// position with no lines on that side (pure insert/delete).
#[derive(Debug, Clone, Copy, PartialEq, Eq, Structural)]
pub struct LineRange {
    pub start: u32,
    pub len: u32,
}

impl LineRange {
    pub fn new(start: u32, len: u32) -> (r: Self)
        ensures
            r.start == start,
            r.len == len,
    {
        Self { start, len }
    }
}

/// Hunk classification.
#[derive(Debug, Clone, Copy, PartialEq, Eq, Structural)]
pub enum HunkKind {
    Equal,
    Insert,
    Delete,
    Replace,
}

impl HunkKind {
    /// `true` for every kind but `Equal`.
    pub fn is_change(self) -> (b: bool)
        ensures
            b == (self != HunkKind::Equal),
    {
        !matches!(self, Self::Equal)
    }
}

/// Original line terminator of a side line, preserved for round-trip saves.
#[derive(Debug, Clone, Copy, PartialEq, Eq, Structural)]
pub enum NewlineMarker {
    Lf,
    CrLf,
    Cr,
    /// Last line without a trailing newline.
    NoNewline,
}

/// The characters of a line terminator.
pub open spec fn newline_chars(m: NewlineMarker) -> Seq<char> {
    match m {
        NewlineMarker::Lf => seq!['\n'],
        NewlineMarker::CrLf => seq!['\r', '\n'],
        NewlineMarker::Cr => seq!['\r'],
        NewlineMarker::NoNewline => Seq::empty(),
    }
}

impl NewlineMarker {
    /// The terminator as text.
    pub fn as_str(self) -> (s: &'static str)
        ensures
            s@ == newline_chars(self),
    {
        proof {
            reveal_strlit("\n");
            reveal_strlit("\r\n");
            reveal_strlit("\r");
            reveal_strlit("");
        }
        match self {
            Self::Lf => "\n",
            Self::CrLf => "\r\n",
            Self::Cr => "\r",
            Self::NoNewline => "",
        }
    }
}

/// One line on one side of a diff row.
#[derive(Debug, Clone, PartialEq, Eq)]
pub struct SideLine {
    /// 1-based line number in the original document.
    pub original_line_number: Option<u32>,
    /// Line content without its terminator.
    pub content: String,
    pub newline: NewlineMarker,
}

/// A line rendered with its terminator.
pub open spec fn rendered_line(content: Seq<char>, newline: NewlineMarker) -> Seq<char> {
    content + newline_chars(newline)
}

impl SideLine {
    /// The line's content followed by its terminator.
    pub open spec fn rendered(self) -> Seq<char> {
        rendered_line(self.content@, self.newline)
    }

    /// An identical copy of this line.
    pub fn duplicate(&self) -> (r: Self)
        ensures
            r == *self,
    {
        SideLine {
            original_line_number: self.original_line_number,
            content: self.content.clone(),
            newline: self.newline,
        }
    }
}

/// Inline span classification (decoration only, never document truth).
#[derive(Debug, Clone, Copy, PartialEq, Eq, Structural)]
pub enum InlineKind {
    Equal,
    Insert,
    Delete,
}

/// One inline decoration span.
#[derive(Debug, Clone, PartialEq, Eq)]
pub struct InlineSpan {
    pub kind: InlineKind,
    pub text: String,
}

/// Inline decorations for one diff row.
#[derive(Debug, Clone, PartialEq, Eq, Default)]
pub struct InlineDiff {
    pub left_spans: Vec<InlineSpan>,
    pub right_spans: Vec<InlineSpan>,
}

/// One visual row pairing at most one left line with at most one right line.
#[derive(Debug, Clone, PartialEq, Eq)]
pub struct DiffRow {
    pub left: Option<SideLine>,
    pub right: Option<SideLine>,
    pub inline: Option<InlineDiff>,
}

/// One contiguous hunk.
#[derive(Debug, Clone, PartialEq, Eq)]
pub struct DiffHunk {
    pub hunk_id: HunkId,
    pub kind: HunkKind,
    pub left_range: LineRange,
    pub right_range: LineRange,
    pub rows: Vec<DiffRow>,
}

/// Aggregate statistics.
#[derive(Debug, Clone, Copy, PartialEq, Eq, Default, Structural)]
pub struct DiffStats {
    pub hunks_total: usize,
    pub hunks_changed: usize,
    pub lines_inserted: usize,
    pub lines_deleted: usize,
}

/// Non-fatal diff observations surfaced to the user.
#[derive(Debug, Clone, Copy, PartialEq, Eq, Structural)]
pub enum DiffWarning {
    LargeFilePolicyApplied,
    DeadlineExpired,
    InlineSkippedHunkTooLarge,
}

/// The normalized result of one diff computation.
#[derive(Debug, Clone)]
pub struct DiffDocument {
    /// Identity of this computation, supplied by the caller.
    pub diff_id: u64,
    pub options: DiffOptions,
    pub hunks: Vec<DiffHunk>,
    pub stats: DiffStats,
    pub warnings: Vec<DiffWarning>,
}

impl DiffDocument {
    /// An empty placeholder used while a tab is loading.
    pub fn empty() -> (d: Self)
        ensures
            d.diff_id == 0,
            d.options == DiffOptions::default_spec(),
            d.hunks@.len() == 0,
            d.stats == (DiffStats { hunks_total: 0, hunks_changed: 0, lines_inserted: 0, lines_deleted: 0 }),
            d.warnings@.len() == 0,
    {
        Self {
            diff_id: 0,
            options: DiffOptions::default(),
            hunks: Vec::new(),
            stats: DiffStats { hunks_total: 0, hunks_changed: 0, lines_inserted: 0, lines_deleted: 0 },
            warnings: Vec::new(),
        }
    }

    /// The first hunk with the given id, if any.
    pub fn hunk(&self, hunk_id: HunkId) -> (r: Option<&DiffHunk>)
        ensures
            r is None <==> forall|i: int| 0 <= i < self.hunks@.len() ==> self.hunks@[i].hunk_id != hunk_id,
            r matches Some(h) ==> exists|i: int| 0 <= i < self.hunks@.len() && *h == self.hunks@[i]
                && h.hunk_id == hunk_id
                && forall|j: int| 0 <= j < i ==> self.hunks@[j].hunk_id != hunk_id,
    {
        let mut i: usize = 0;
        while i < self.hunks.len()
            invariant
                i <= self.hunks@.len(),
                forall|j: int| 0 <= j < i ==> self.hunks@[j].hunk_id != hunk_id,
            decreases self.hunks@.len() - i,
        {
            if self.hunks[i].hunk_id == hunk_id {
                return Some(&self.hunks[i]);
            }
            i = i + 1;
        }
        None
    }

    /// `true` when both documents are identical (no changed hunk).
    pub fn is_identical(&self) -> (b: bool)
        ensures
            b == (self.stats.hunks_changed == 0),
    {
        self.stats.hunks_changed == 0
    }
}

/// Little-endian bytes of a 64-bit value.
pub open spec fn le_bytes_u64(v: u64) -> Seq<u8> {
    Seq::new(8, |i: int| ((v >> ((8 * i) as u64)) & 0xff) as u8)
}

/// Little-endian bytes of a 32-bit value.
pub open spec fn le_bytes_u32(v: u32) -> Seq<u8> {
    Seq::new(4, |i: int| ((v >> ((8 * i) as u32)) & 0xff) as u8)
}

/// The one-byte tag of a hunk kind inside a hunk id.
pub open spec fn kind_tag(kind: HunkKind) -> u8 {
    match kind {
        HunkKind::Equal => 0,
        HunkKind::Insert => 1,
        HunkKind::Delete => 2,
        HunkKind::Replace => 3,
    }
}

/// Bytes hashed for a hunk id: ordinal, kind tag, then both ranges.
pub open spec fn hunk_id_bytes(ordinal: u64, kind: HunkKind, left: LineRange, right: LineRange) -> Seq<u8> {
    le_bytes_u64(ordinal).push(kind_tag(kind)) + le_bytes_u32(left.start) + le_bytes_u32(left.len)
        + le_bytes_u32(right.start) + le_bytes_u32(right.len)
}

/// Deterministic hunk identity: `hash(ordinal, kind, left_range, right_range)`.
pub open spec fn hunk_id_spec(ordinal: u64, kind: HunkKind, left: LineRange, right: LineRange) -> u64 {
    fnv1a64_spec(hunk_id_bytes(ordinal, kind, left, right))
}

pub(crate) fn push_le_u64(buf: &mut Vec<u8>, v: u64)
    ensures
        final(buf)@ == old(buf)@ + le_bytes_u64(v),
{
    let ghost start = buf@;
    let mut i: u64 = 0;
    while i < 8
        invariant
            i <= 8,
            buf@ == start + le_bytes_u64(v).subrange(0, i as int),
        decreases 8 - i,
    {
        buf.push(((v >> (8 * i)) & 0xff) as u8);
        assert(buf@ =~= start + le_bytes_u64(v).subrange(0, i as int + 1));
        i = i + 1;
    }
    assert(le_bytes_u64(v).subrange(0, 8) =~= le_bytes_u64(v));
}

fn push_le_u32(buf: &mut Vec<u8>, v: u32)
    ensures
        final(buf)@ == old(buf)@ + le_bytes_u32(v),
{
    let ghost start = buf@;
    let mut i: u32 = 0;
    while i < 4
        invariant
            i <= 4,
            buf@ == start + le_bytes_u32(v).subrange(0, i as int),
        decreases 4 - i,
    {
        buf.push(((v >> (8 * i)) & 0xff) as u8);
        assert(buf@ =~= start + le_bytes_u32(v).subrange(0, i as int + 1));
        i = i + 1;
    }
    assert(le_bytes_u32(v).subrange(0, 4) =~= le_bytes_u32(v));
}

/// Deterministic hunk identity, unique within the one `DiffDocument` this
/// hunk belongs to: `hash(ordinal, kind, left_range, right_range)`.
pub fn hunk_id_for(ordinal: u64, kind: HunkKind, left: LineRange, right: LineRange) -> (id: HunkId)
    ensures
        id == hunk_id_spec(ordinal, kind, left, right),
{
    let mut buf: Vec<u8> = Vec::new();
    push_le_u64(&mut buf, ordinal);
    let tag: u8 = match kind {
        HunkKind::Equal => 0,
        HunkKind::Insert => 1,
        HunkKind::Delete => 2,
        HunkKind::Replace => 3,
    };
    buf.push(tag);
    push_le_u32(&mut buf, left.start);
    push_le_u32(&mut buf, left.len);
    push_le_u32(&mut buf, right.start);
    push_le_u32(&mut buf, right.len);
    assert(buf@ =~= hunk_id_bytes(ordinal, kind, left, right));
    fnv1a64(buf.as_slice())
}

} // verus!

verus! {

impl InlineSpan {
    /// An identical copy of this span.
    pub fn duplicate(&self) -> (r: Self)
        ensures
            r == *self,
    {
        InlineSpan { kind: self.kind, text: self.text.clone() }
    }
}

/// An identical copy of a span list.
pub fn duplicate_spans(v: &Vec<InlineSpan>) -> (r: Vec<InlineSpan>)
    ensures
        r@ == v@,
{
    let mut r: Vec<InlineSpan> = Vec::new();
    let mut i: usize = 0;
    while i < v.len()
        invariant
            i <= v@.len(),
            r@ == v@.subrange(0, i as int),
        decreases v@.len() - i,
    {
        r.push(v[i].duplicate());
        assert(r@ =~= v@.subrange(0, i as int + 1));
        i = i + 1;
    }
    assert(v@.subrange(0, v@.len() as int) =~= v@);
    r
}

impl InlineDiff {
    /// An identical copy of this decoration.
    pub fn duplicate(&self) -> (r: Self)
        ensures
            r.left_spans@ == self.left_spans@,
            r.right_spans@ == self.right_spans@,
    {
        InlineDiff { left_spans: duplicate_spans(&self.left_spans), right_spans: duplicate_spans(&self.right_spans) }
    }
}

/// An inline decoration as values: left and right span lists.
pub type InlineView = (Seq<InlineSpan>, Seq<InlineSpan>);

/// A row as values: left line, right line, inline decoration.
pub type RowView = (Option<SideLine>, Option<SideLine>, Option<InlineView>);

impl DiffRow {
    /// The row as values.
    pub open spec fn row_view(self) -> RowView {
        (self.left, self.right, match self.inline {
            Some(d) => Some((d.left_spans@, d.right_spans@)),
            None => None,
        })
    }

    /// An identical copy of this row.
    pub fn duplicate(&self) -> (r: Self)
        ensures
            r.row_view() == self.row_view(),
            r.left == self.left,
            r.right == self.right,
    {
        let inline = match &self.inline {
            Some(d) => Some(d.duplicate()),
            None => None,
        };
        DiffRow {
            left: match &self.left { Some(l) => Some(l.duplicate()), None => None },
            right: match &self.right { Some(l) => Some(l.duplicate()), None => None },
            inline,
        }
    }
}

/// The views of a row list.
pub open spec fn rows_view(rows: Seq<DiffRow>) -> Seq<RowView> {
    rows.map_values(|r: DiffRow| r.row_view())
}

/// An identical copy of a row list.
pub fn duplicate_rows(v: &Vec<DiffRow>) -> (r: Vec<DiffRow>)
    ensures
        rows_view(r@) == rows_view(v@),
        r@.len() == v@.len(),
        forall|i: int| 0 <= i < v@.len() ==> (#[trigger] r@[i]).left == v@[i].left && r@[i].right == v@[i].right,
{
    let mut r: Vec<DiffRow> = Vec::new();
    let mut i: usize = 0;
    while i < v.len()
        invariant
            i <= v@.len(),
            r@.len() == i,
            forall|k: int| 0 <= k < i ==> (#[trigger] r@[k]).row_view() == v@[k].row_view()
                && r@[k].left == v@[k].left && r@[k].right == v@[k].right,
        decreases v@.len() - i,
    {
        r.push(v[i].duplicate());
        i = i + 1;
    }
    assert(rows_view(r@) =~= rows_view(v@));
    r
}

} // verus!
