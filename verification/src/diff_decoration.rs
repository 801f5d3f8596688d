//! Diff decoration model: what to render for a diff, derived from a
//! `DiffDocument`, without prescribing how. Every line kind has a stable
//! CSS class token, a gutter symbol and an ARIA label; inline column
//! ranges are byte offsets, consistent with `InlineSpan`.

use vstd::prelude::*;
use vstd::string::StringSliceAdditionalSpecFns;

use crate::diff::model::{DiffDocument, DiffHunk, DiffRow, DiffWarning, HunkId, HunkKind, InlineKind, InlineSpan, RowView, rows_view};

verus! {

/// Which pane a decoration applies to.
#[derive(Debug, Clone, Copy, PartialEq, Eq, Structural)]
pub enum DiffSide {
    Left,
    Right,
}

/// Semantic state of one line.
#[derive(Debug, Clone, Copy, PartialEq, Eq, Structural)]
pub enum LineDecorationKind {
    /// Identical on both sides.
    Unchanged,
    /// Added on the right side.
    Added,
    /// Deleted from the left side.
    Deleted,
    /// Content changed (part of a replace hunk).
    Modified,
    /// A placeholder with no content on this side.
    EmptyCounterpart,
    /// Conflict line requiring resolution.
    Conflict,
    /// A merge operation has been applied to this line.
    MergeApplied,
}

impl LineDecorationKind {
    /// Stable CSS class token.
    pub fn css_class(self) -> (s: &'static str)
        ensures
            s@ == match self {
                LineDecorationKind::Unchanged => "fs-line-unchanged"@,
                LineDecorationKind::Added => "fs-line-added"@,
                LineDecorationKind::Deleted => "fs-line-deleted"@,
                LineDecorationKind::Modified => "fs-line-modified"@,
                LineDecorationKind::EmptyCounterpart => "fs-line-empty-counterpart"@,
                LineDecorationKind::Conflict => "fs-line-conflict"@,
                LineDecorationKind::MergeApplied => "fs-line-merge-applied"@,
            },
    {
        match self {
            LineDecorationKind::Unchanged => "fs-line-unchanged",
            LineDecorationKind::Added => "fs-line-added",
            LineDecorationKind::Deleted => "fs-line-deleted",
            LineDecorationKind::Modified => "fs-line-modified",
            LineDecorationKind::EmptyCounterpart => "fs-line-empty-counterpart",
            LineDecorationKind::Conflict => "fs-line-conflict",
            LineDecorationKind::MergeApplied => "fs-line-merge-applied",
        }
    }

    /// Single-character gutter symbol, a non-colour indicator.
    pub fn gutter_symbol(self) -> (c: char)
        ensures
            c == match self {
                LineDecorationKind::Unchanged => ' ',
                LineDecorationKind::Added => '+',
                LineDecorationKind::Deleted => '-',
                LineDecorationKind::Modified => '~',
                LineDecorationKind::EmptyCounterpart => '\u{b7}',
                LineDecorationKind::Conflict => '!',
                LineDecorationKind::MergeApplied => '\u{2713}',
            },
    {
        match self {
            LineDecorationKind::Unchanged => ' ',
            LineDecorationKind::Added => '+',
            LineDecorationKind::Deleted => '-',
            LineDecorationKind::Modified => '~',
            LineDecorationKind::EmptyCounterpart => '\u{b7}',
            LineDecorationKind::Conflict => '!',
            LineDecorationKind::MergeApplied => '\u{2713}',
        }
    }

    /// ARIA label for screen readers.
    pub fn aria_label(self) -> (s: &'static str)
        ensures
            s@ == match self {
                LineDecorationKind::Unchanged => "unchanged"@,
                LineDecorationKind::Added => "added"@,
                LineDecorationKind::Deleted => "deleted"@,
                LineDecorationKind::Modified => "modified"@,
                LineDecorationKind::EmptyCounterpart => "empty counterpart"@,
                LineDecorationKind::Conflict => "conflict"@,
                LineDecorationKind::MergeApplied => "merge applied"@,
            },
    {
        match self {
            LineDecorationKind::Unchanged => "unchanged",
            LineDecorationKind::Added => "added",
            LineDecorationKind::Deleted => "deleted",
            LineDecorationKind::Modified => "modified",
            LineDecorationKind::EmptyCounterpart => "empty counterpart",
            LineDecorationKind::Conflict => "conflict",
            LineDecorationKind::MergeApplied => "merge applied",
        }
    }
}

/// Decoration of one line in the diff view.
#[derive(Debug, Clone, Copy, PartialEq, Eq)]
pub struct LineDecoration {
    pub side: DiffSide,
    /// 0-based index in the aligned row sequence.
    pub row_index: usize,
    pub kind: LineDecorationKind,
    /// The hunk this decoration belongs to, if any.
    pub hunk_id: Option<HunkId>,
}

/// Semantic state of one character-level inline span.
#[derive(Debug, Clone, Copy, PartialEq, Eq, Structural)]
pub enum InlineDecorationKind {
    InsertedChars,
    DeletedChars,
    ReplacedChars,
    WhitespaceOnly,
}

impl InlineDecorationKind {
    /// Stable CSS class token.
    pub fn css_class(self) -> (s: &'static str)
        ensures
            s@ == match self {
                InlineDecorationKind::InsertedChars => "fs-inline-inserted"@,
                InlineDecorationKind::DeletedChars => "fs-inline-deleted"@,
                InlineDecorationKind::ReplacedChars => "fs-inline-replaced"@,
                InlineDecorationKind::WhitespaceOnly => "fs-inline-whitespace"@,
            },
    {
        match self {
            InlineDecorationKind::InsertedChars => "fs-inline-inserted",
            InlineDecorationKind::DeletedChars => "fs-inline-deleted",
            InlineDecorationKind::ReplacedChars => "fs-inline-replaced",
            InlineDecorationKind::WhitespaceOnly => "fs-inline-whitespace",
        }
    }
}

/// A character-level decoration span on one line.
#[derive(Debug, Clone, Copy, PartialEq, Eq)]
pub struct InlineDecoration {
    pub side: DiffSide,
    /// 0-based row index.
    pub row_index: usize,
    /// Byte offset start within the line content.
    pub start_col: usize,
    /// Byte offset end (exclusive) within the line content.
    pub end_col: usize,
    pub kind: InlineDecorationKind,
}

/// Decoration metadata of one changed hunk.
#[derive(Debug, Clone, Copy, PartialEq, Eq)]
pub struct HunkDecoration {
    pub hunk_id: HunkId,
    pub start_row_index: usize,
    pub end_row_index: usize,
    /// `true` for the focused hunk.
    pub is_focused: bool,
}

/// A non-fatal warning banner.
#[derive(Debug, Clone, PartialEq, Eq)]
pub struct DecorationWarning {
    pub message: String,
    pub kind: DecorationWarningKind,
}

/// What a warning banner is about.
#[derive(Debug, Clone, Copy, PartialEq, Eq, Structural)]
pub enum DecorationWarningKind {
    LargeFile,
    DeadlineExpired,
    InlineSkipped,
}

/// The complete decoration set for one diff view.
#[derive(Debug, Clone, Default)]
pub struct DiffDecorationSet {
    pub left: Vec<LineDecoration>,
    pub right: Vec<LineDecoration>,
    pub inline: Vec<InlineDecoration>,
    pub hunks: Vec<HunkDecoration>,
    pub warnings: Vec<DecorationWarning>,
}

/// The UTF-8 length of a string.
pub open spec fn byte_len(s: Seq<char>) -> nat {
    vstd::utf8::encode_utf8(s).len()
}

/// The total UTF-8 length of a span list.
pub open spec fn spans_bytes(spans: Seq<InlineSpan>) -> nat
    decreases spans.len(),
{
    if spans.len() == 0 {
        0
    } else {
        spans_bytes(spans.drop_last()) + byte_len(spans.last().text@)
    }
}

/// The inline decoration kind of a non-equal span on a side: deletions are
/// deleted characters, insertions inserted ones.
pub open spec fn inline_kind_of(k: InlineKind) -> InlineDecorationKind {
    match k {
        InlineKind::Delete => InlineDecorationKind::DeletedChars,
        _ => InlineDecorationKind::InsertedChars,
    }
}

/// The inline decorations of one side's spans on row `row`: one per
/// non-equal span, covering its byte range in the line.
pub open spec fn span_decorations(spans: Seq<InlineSpan>, side: DiffSide, row: usize) -> Seq<InlineDecoration>
    decreases spans.len(),
{
    if spans.len() == 0 {
        Seq::empty()
    } else {
        let prev = span_decorations(spans.drop_last(), side, row);
        let s = spans.last();
        if s.kind == InlineKind::Equal {
            prev
        } else {
            let start = spans_bytes(spans.drop_last());
            prev.push(InlineDecoration {
                side,
                row_index: row,
                start_col: start as usize,
                end_col: (start + byte_len(s.text@)) as usize,
                kind: inline_kind_of(s.kind),
            })
        }
    }
}

/// The line kinds of a row on the left and right side for a hunk kind.
pub open spec fn row_kinds(kind: HunkKind, row: RowView) -> (LineDecorationKind, LineDecorationKind) {
    match kind {
        HunkKind::Equal => (LineDecorationKind::Unchanged, LineDecorationKind::Unchanged),
        HunkKind::Insert => (LineDecorationKind::EmptyCounterpart, LineDecorationKind::Added),
        HunkKind::Delete => (LineDecorationKind::Deleted, LineDecorationKind::EmptyCounterpart),
        HunkKind::Replace => (
            if row.0 is Some { LineDecorationKind::Modified } else { LineDecorationKind::EmptyCounterpart },
            if row.1 is Some { LineDecorationKind::Modified } else { LineDecorationKind::EmptyCounterpart },
        ),
    }
}

/// Decoration state as values: left lines, right lines, inline spans,
/// hunks, next row index.
pub type DecoState = (Seq<LineDecoration>, Seq<LineDecoration>, Seq<InlineDecoration>, Seq<HunkDecoration>, nat);

/// Decorating one row of a hunk: a left line when the row has a left side
/// (or the hunk is an insertion), a right line when it has a right side
/// (or the hunk is a deletion), the inline spans of both sides, and the
/// row index advances.
pub open spec fn step_row(s: DecoState, id: HunkId, kind: HunkKind, row: RowView) -> DecoState {
    let r = s.4 as usize;
    let (lk, rk) = row_kinds(kind, row);
    let left = if row.0 is Some || kind == HunkKind::Insert {
        s.0.push(LineDecoration { side: DiffSide::Left, row_index: r, kind: lk, hunk_id: Some(id) })
    } else {
        s.0
    };
    let right = if row.1 is Some || kind == HunkKind::Delete {
        s.1.push(LineDecoration { side: DiffSide::Right, row_index: r, kind: rk, hunk_id: Some(id) })
    } else {
        s.1
    };
    let inline = match row.2 {
        Some(d) => s.2 + span_decorations(d.0, DiffSide::Left, r) + span_decorations(d.1, DiffSide::Right, r),
        None => s.2,
    };
    (left, right, inline, s.3, s.4 + 1)
}

/// Decorating the rows of a hunk in order.
pub open spec fn step_rows(s: DecoState, id: HunkId, kind: HunkKind, rows: Seq<RowView>) -> DecoState
    decreases rows.len(),
{
    if rows.len() == 0 {
        s
    } else {
        step_row(step_rows(s, id, kind, rows.drop_last()), id, kind, rows.last())
    }
}

/// Decorating one hunk: its rows, then, for a changed hunk, a hunk
/// decoration from its first row to its last (the row before the next
/// hunk, never below 0), focused when its id is the focused one.
pub open spec fn step_hunk(s: DecoState, h: DiffHunk, focused: Option<HunkId>) -> DecoState {
    let t = step_rows(s, h.hunk_id, h.kind, rows_view(h.rows@));
    if h.kind != HunkKind::Equal {
        (t.0, t.1, t.2, t.3.push(HunkDecoration {
            hunk_id: h.hunk_id,
            start_row_index: s.4 as usize,
            end_row_index: (if t.4 > 0 { t.4 - 1 } else { 0 }) as usize,
            is_focused: focused == Some(h.hunk_id),
        }), t.4)
    } else {
        t
    }
}

/// Decorating a hunk list in order, from an empty state.
pub open spec fn decorate_hunks(hs: Seq<DiffHunk>, focused: Option<HunkId>) -> DecoState
    decreases hs.len(),
{
    if hs.len() == 0 {
        (Seq::empty(), Seq::empty(), Seq::empty(), Seq::empty(), 0)
    } else {
        step_hunk(decorate_hunks(hs.drop_last(), focused), hs.last(), focused)
    }
}

/// The banner of a document warning.
pub open spec fn warning_banner(w: DiffWarning) -> (Seq<char>, DecorationWarningKind) {
    match w {
        DiffWarning::LargeFilePolicyApplied => ("Large file \u{2014} inline diff disabled."@, DecorationWarningKind::LargeFile),
        DiffWarning::DeadlineExpired => ("Diff timed out \u{2014} result may be approximate."@, DecorationWarningKind::DeadlineExpired),
        DiffWarning::InlineSkippedHunkTooLarge => ("Some hunks were too large for inline diff."@, DecorationWarningKind::InlineSkipped),
    }
}

/// The total number of rows of a hunk list.
pub open spec fn total_rows(hs: Seq<DiffHunk>) -> nat
    decreases hs.len(),
{
    if hs.len() == 0 {
        0
    } else {
        total_rows(hs.drop_last()) + hs.last().rows@.len()
    }
}

/// The sizes the decoration indices are kept in: the row count and every
/// span list's byte length fit in a machine word.
pub open spec fn decoration_fits(doc: DiffDocument) -> bool {
    &&& total_rows(doc.hunks@) < usize::MAX
    &&& forall|h: int, r: int| 0 <= h < doc.hunks@.len() && 0 <= r < doc.hunks@[h].rows@.len()
        ==> ((#[trigger] doc.hunks@[h].rows@[r]).inline matches Some(d)
            ==> spans_bytes(d.left_spans@) <= usize::MAX && spans_bytes(d.right_spans@) <= usize::MAX)
}

fn push_span_decorations(out: &mut Vec<InlineDecoration>, spans: &Vec<InlineSpan>, side: DiffSide, row: usize)
    requires
        spans_bytes(spans@) <= usize::MAX,
    ensures
        final(out)@ == old(out)@ + span_decorations(spans@, side, row),
{
    let ghost start = out@;
    let mut col: usize = 0;
    let mut i: usize = 0;
    while i < spans.len()
        invariant
            i <= spans@.len(),
            spans_bytes(spans@) <= usize::MAX,
            col == spans_bytes(spans@.subrange(0, i as int)),
            out@ == start + span_decorations(spans@.subrange(0, i as int), side, row),
        decreases spans@.len() - i,
    {
        proof {
            assert(spans@.subrange(0, i as int + 1).drop_last() =~= spans@.subrange(0, i as int));
            lemma_spans_bytes_prefix(spans@, i as int + 1);
        }
        let span = &spans[i];
        let end = col + span.text.as_str().len();
        if !matches!(span.kind, InlineKind::Equal) {
            let kind = match span.kind {
                InlineKind::Delete => InlineDecorationKind::DeletedChars,
                _ => InlineDecorationKind::InsertedChars,
            };
            out.push(InlineDecoration { side, row_index: row, start_col: col, end_col: end, kind });
        }
        assert(out@ =~= start + span_decorations(spans@.subrange(0, i as int + 1), side, row));
        col = end;
        i = i + 1;
    }
    assert(spans@.subrange(0, spans@.len() as int) =~= spans@);
}

proof fn lemma_spans_bytes_prefix(spans: Seq<InlineSpan>, k: int)
    requires
        0 <= k <= spans.len(),
    ensures
        spans_bytes(spans.subrange(0, k)) <= spans_bytes(spans),
    decreases spans.len(),
{
    if k < spans.len() {
        lemma_spans_bytes_prefix(spans.drop_last(), k);
        assert(spans.drop_last().subrange(0, k) =~= spans.subrange(0, k));
    } else {
        assert(spans.subrange(0, k) =~= spans);
    }
}

fn decorate_row(set: &mut DiffDecorationSet, id: HunkId, kind: HunkKind, row: &DiffRow, row_index: usize)
    requires
        (row.inline matches Some(d) ==> spans_bytes(d.left_spans@) <= usize::MAX && spans_bytes(d.right_spans@) <= usize::MAX),
    ensures
        ({
            let s = step_row((old(set).left@, old(set).right@, old(set).inline@, old(set).hunks@, row_index as nat), id, kind, row.row_view());
            &&& final(set).left@ == s.0
            &&& final(set).right@ == s.1
            &&& final(set).inline@ == s.2
            &&& final(set).hunks@ == old(set).hunks@
            &&& final(set).warnings@ == old(set).warnings@
        }),
{
    let (lkind, rkind) = match kind {
        HunkKind::Equal => (LineDecorationKind::Unchanged, LineDecorationKind::Unchanged),
        HunkKind::Insert => (LineDecorationKind::EmptyCounterpart, LineDecorationKind::Added),
        HunkKind::Delete => (LineDecorationKind::Deleted, LineDecorationKind::EmptyCounterpart),
        HunkKind::Replace => (
            if row.left.is_some() { LineDecorationKind::Modified } else { LineDecorationKind::EmptyCounterpart },
            if row.right.is_some() { LineDecorationKind::Modified } else { LineDecorationKind::EmptyCounterpart },
        ),
    };
    if row.left.is_some() || matches!(kind, HunkKind::Insert) {
        set.left.push(LineDecoration { side: DiffSide::Left, row_index, kind: lkind, hunk_id: Some(id) });
    }
    if row.right.is_some() || matches!(kind, HunkKind::Delete) {
        set.right.push(LineDecoration { side: DiffSide::Right, row_index, kind: rkind, hunk_id: Some(id) });
    }
    match &row.inline {
        Some(d) => {
            let ghost before = set.inline@;
            push_span_decorations(&mut set.inline, &d.left_spans, DiffSide::Left, row_index);
            push_span_decorations(&mut set.inline, &d.right_spans, DiffSide::Right, row_index);
            assert(set.inline@ =~= before + span_decorations(d.left_spans@, DiffSide::Left, row_index)
                + span_decorations(d.right_spans@, DiffSide::Right, row_index));
        },
        None => {},
    }
}

proof fn lemma_total_rows_prefix(hs: Seq<DiffHunk>, k: int)
    requires
        0 <= k <= hs.len(),
    ensures
        total_rows(hs.subrange(0, k)) <= total_rows(hs),
    decreases hs.len(),
{
    if k < hs.len() {
        lemma_total_rows_prefix(hs.drop_last(), k);
        assert(hs.drop_last().subrange(0, k) =~= hs.subrange(0, k));
    } else {
        assert(hs.subrange(0, k) =~= hs);
    }
}

proof fn lemma_step_rows_index(s: DecoState, id: HunkId, kind: HunkKind, rows: Seq<RowView>)
    ensures
        step_rows(s, id, kind, rows).4 == s.4 + rows.len(),
        step_rows(s, id, kind, rows).3 == s.3,
    decreases rows.len(),
{
    if rows.len() > 0 {
        lemma_step_rows_index(s, id, kind, rows.drop_last());
    }
}

proof fn lemma_decorate_index(hs: Seq<DiffHunk>, focused: Option<HunkId>)
    ensures
        decorate_hunks(hs, focused).4 == total_rows(hs),
    decreases hs.len(),
{
    if hs.len() > 0 {
        lemma_decorate_index(hs.drop_last(), focused);
        lemma_step_rows_index(decorate_hunks(hs.drop_last(), focused), hs.last().hunk_id, hs.last().kind, rows_view(hs.last().rows@));
    }
}

impl DiffDecorationSet {
    /// The decoration set of a document: line, inline and hunk decorations
    /// in row order (rows numbered across all hunks), then one banner per
    /// document warning. `focused_hunk_id` marks the navigated hunk.
    pub fn from_diff(doc: &DiffDocument, focused_hunk_id: Option<HunkId>) -> (set: Self)
        requires
            decoration_fits(*doc),
        ensures
            ({
                let s = decorate_hunks(doc.hunks@, focused_hunk_id);
                &&& set.left@ == s.0
                &&& set.right@ == s.1
                &&& set.inline@ == s.2
                &&& set.hunks@ == s.3
            }),
            set.warnings@.len() == doc.warnings@.len(),
            forall|k: int| 0 <= k < doc.warnings@.len() ==> (#[trigger] set.warnings@[k]).message@ == warning_banner(doc.warnings@[k]).0
                && set.warnings@[k].kind == warning_banner(doc.warnings@[k]).1,
    {
        let mut set = DiffDecorationSet {
            left: Vec::new(),
            right: Vec::new(),
            inline: Vec::new(),
            hunks: Vec::new(),
            warnings: Vec::new(),
        };
        let ghost hs = doc.hunks@;
        let mut row_index: usize = 0;
        let mut h: usize = 0;
        proof {
            assert(hs.subrange(0, 0) =~= Seq::<DiffHunk>::empty());
            assert(set.left@ =~= Seq::<LineDecoration>::empty());
            assert(set.right@ =~= Seq::<LineDecoration>::empty());
            assert(set.inline@ =~= Seq::<InlineDecoration>::empty());
            assert(set.hunks@ =~= Seq::<HunkDecoration>::empty());
        }
        while h < doc.hunks.len()
            invariant
                hs == doc.hunks@,
                decoration_fits(*doc),
                h <= hs.len(),
                ({
                    let s = decorate_hunks(hs.subrange(0, h as int), focused_hunk_id);
                    &&& set.left@ == s.0
                    &&& set.right@ == s.1
                    &&& set.inline@ == s.2
                    &&& set.hunks@ == s.3
                    &&& row_index == s.4
                }),
                set.warnings@.len() == 0,
            decreases hs.len() - h,
        {
            let hunk = &doc.hunks[h];
            let ghost s0: DecoState = (set.left@, set.right@, set.inline@, set.hunks@, row_index as nat);
            proof {
                assert(hs.subrange(0, h as int + 1).drop_last() =~= hs.subrange(0, h as int));
                lemma_decorate_index(hs.subrange(0, h as int), focused_hunk_id);
                lemma_total_rows_prefix(hs, h as int + 1);
                assert(total_rows(hs.subrange(0, h as int + 1)) == total_rows(hs.subrange(0, h as int)) + hunk.rows@.len());
            }
            let hunk_start = row_index;
            let mut r: usize = 0;
            while r < hunk.rows.len()
                invariant
                    hs == doc.hunks@,
                    decoration_fits(*doc),
                    h < hs.len(),
                    *hunk == hs[h as int],
                    r <= hunk.rows@.len(),
                    s0.4 + hunk.rows@.len() < usize::MAX,
                    ({
                        let s = step_rows(s0, hunk.hunk_id, hunk.kind, rows_view(hunk.rows@).subrange(0, r as int));
                        &&& set.left@ == s.0
                        &&& set.right@ == s.1
                        &&& set.inline@ == s.2
                        &&& set.hunks@ == s.3
                        &&& row_index == s.4
                    }),
                    set.warnings@.len() == 0,
                decreases hunk.rows@.len() - r,
            {
                proof {
                    assert(rows_view(hunk.rows@).subrange(0, r as int + 1).drop_last() =~= rows_view(hunk.rows@).subrange(0, r as int));
                    lemma_step_rows_index(s0, hunk.hunk_id, hunk.kind, rows_view(hunk.rows@).subrange(0, r as int));
                    assert(doc.hunks@[h as int].rows@[r as int] == hunk.rows@[r as int]);
                }
                decorate_row(&mut set, hunk.hunk_id, hunk.kind, &hunk.rows[r], row_index);
                row_index = row_index + 1;
                r = r + 1;
            }
            proof {
                assert(rows_view(hunk.rows@).subrange(0, hunk.rows@.len() as int) =~= rows_view(hunk.rows@));
                lemma_step_rows_index(s0, hunk.hunk_id, hunk.kind, rows_view(hunk.rows@));
            }
            let hunk_end: usize = if row_index > 0 { row_index - 1 } else { 0 };
            if hunk.kind.is_change() {
                let focused = match focused_hunk_id {
                    Some(f) => f == hunk.hunk_id,
                    None => false,
                };
                set.hunks.push(HunkDecoration {
                    hunk_id: hunk.hunk_id,
                    start_row_index: hunk_start,
                    end_row_index: hunk_end,
                    is_focused: focused,
                });
            }
            h = h + 1;
        }
        proof {
            assert(hs.subrange(0, hs.len() as int) =~= hs);
        }
        let mut w: usize = 0;
        while w < doc.warnings.len()
            invariant
                w <= doc.warnings@.len(),
                set.warnings@.len() == w,
                forall|k: int| 0 <= k < w ==> (#[trigger] set.warnings@[k]).message@ == warning_banner(doc.warnings@[k]).0
                    && set.warnings@[k].kind == warning_banner(doc.warnings@[k]).1,
                ({
                    let s = decorate_hunks(doc.hunks@, focused_hunk_id);
                    &&& set.left@ == s.0
                    &&& set.right@ == s.1
                    &&& set.inline@ == s.2
                    &&& set.hunks@ == s.3
                }),
            decreases doc.warnings@.len() - w,
        {
            let (msg, kind): (&str, DecorationWarningKind) = match doc.warnings[w] {
                DiffWarning::LargeFilePolicyApplied => ("Large file \u{2014} inline diff disabled.", DecorationWarningKind::LargeFile),
                DiffWarning::DeadlineExpired => ("Diff timed out \u{2014} result may be approximate.", DecorationWarningKind::DeadlineExpired),
                DiffWarning::InlineSkippedHunkTooLarge => ("Some hunks were too large for inline diff.", DecorationWarningKind::InlineSkipped),
            };
            set.warnings.push(DecorationWarning { message: String::from_str(msg), kind });
            w = w + 1;
        }
        set
    }

    /// Number of changed hunks in this decoration set.
    pub fn changed_hunk_count(&self) -> (n: usize)
        ensures
            n == self.hunks@.len(),
    {
        self.hunks.len()
    }

    /// `true` when there is no changed hunk.
    pub fn is_empty(&self) -> (b: bool)
        ensures
            b == (self.hunks@.len() == 0),
    {
        self.hunks.len() == 0
    }
}

} // verus!
