//! Line map: the aligned row sequence of a diff, pairing at most one left
//! line with at most one right line per row, for aligned rendering,
//! synchronized scrolling and the mini hunk map. It holds line numbers
//! and row ids, never text.

use vstd::prelude::*;

use crate::diff::engine::hunk_well_shaped;
use crate::diff::model::{DiffDocument, DiffHunk, HunkId, HunkKind, RowView, rows_view};
use crate::diff::options::DiffOptions;

verus! {

/// Stable row identity within a `LineMap`.
#[derive(Debug, Clone, Copy, PartialEq, Eq, Hash, Structural)]
pub struct RowId(pub u32);

/// A reference to one side's line.
#[derive(Debug, Clone, Copy, PartialEq, Eq, Structural)]
pub struct LineSpan {
    /// 1-based line number in the original document.
    pub original_line: u32,
    /// 0-based row index in the aligned sequence.
    pub row_index: usize,
}

/// Semantic state of one aligned row.
#[derive(Debug, Clone, Copy, PartialEq, Eq, Structural)]
pub enum RowState {
    Equal,
    Inserted,
    Deleted,
    Modified,
    Conflict,
    /// Row of an equal hunk that is currently collapsed.
    Collapsed,
    Unknown,
}

/// Whether a row state is a visible change.
pub open spec fn state_changed(s: RowState) -> bool {
    s == RowState::Inserted || s == RowState::Deleted || s == RowState::Modified || s == RowState::Conflict
}

impl RowState {
    /// The single-character gutter symbol.
    pub fn gutter_symbol(self) -> (c: char)
        ensures
            c == match self {
                RowState::Equal => '=',
                RowState::Inserted => '+',
                RowState::Deleted => '-',
                RowState::Modified => '~',
                RowState::Conflict => '!',
                RowState::Collapsed => '\u{2026}',
                RowState::Unknown => '?',
            },
    {
        match self {
            RowState::Equal => '=',
            RowState::Inserted => '+',
            RowState::Deleted => '-',
            RowState::Modified => '~',
            RowState::Conflict => '!',
            RowState::Collapsed => '\u{2026}',
            RowState::Unknown => '?',
        }
    }

    /// `true` when this row is a visible change.
    pub fn is_changed(self) -> (b: bool)
        ensures
            b == state_changed(self),
    {
        matches!(self, RowState::Inserted | RowState::Deleted | RowState::Modified | RowState::Conflict)
    }
}

/// One row of the aligned line map.
#[derive(Debug, Clone, Copy, PartialEq, Eq, Structural)]
pub struct AlignedRow {
    pub row_id: RowId,
    /// Left line; `None` for insert-only rows.
    pub left: Option<LineSpan>,
    /// Right line; `None` for delete-only rows.
    pub right: Option<LineSpan>,
    pub state: RowState,
    /// The hunk this row belongs to.
    pub hunk_id: Option<HunkId>,
}

impl AlignedRow {
    /// `true` when both sides have a line.
    pub fn is_paired(&self) -> (b: bool)
        ensures
            b == (self.left is Some && self.right is Some),
    {
        self.left.is_some() && self.right.is_some()
    }
}

/// The complete aligned row sequence of a comparison.
#[derive(Debug, Clone)]
pub struct LineMap {
    pub rows: Vec<AlignedRow>,
    /// Total changed rows.
    pub changed_row_count: usize,
}

/// The row state of a hunk kind.
pub open spec fn state_of(kind: HunkKind) -> RowState {
    match kind {
        HunkKind::Equal => RowState::Equal,
        HunkKind::Insert => RowState::Inserted,
        HunkKind::Delete => RowState::Deleted,
        HunkKind::Replace => RowState::Modified,
    }
}

/// Line-map state as values: rows so far, changed count, next left line
/// number, next right line number.
pub type MapState = (Seq<AlignedRow>, nat, nat, nat);

/// Mapping one diff row: it gets the next row id; each present side gets
/// the side's next line number (which then advances); changed hunks count
/// the row as changed.
pub open spec fn map_row(s: MapState, id: HunkId, kind: HunkKind, row: RowView) -> MapState {
    let r = s.0.len();
    let left = if row.0 is Some { Some(LineSpan { original_line: s.2 as u32, row_index: r as usize }) } else { None };
    let right = if row.1 is Some { Some(LineSpan { original_line: s.3 as u32, row_index: r as usize }) } else { None };
    (
        s.0.push(AlignedRow { row_id: RowId(r as u32), left, right, state: state_of(kind), hunk_id: Some(id) }),
        s.1 + if state_changed(state_of(kind)) { 1nat } else { 0nat },
        s.2 + if row.0 is Some { 1nat } else { 0nat },
        s.3 + if row.1 is Some { 1nat } else { 0nat },
    )
}

/// Mapping the rows of one hunk in order.
pub open spec fn map_rows(s: MapState, id: HunkId, kind: HunkKind, rows: Seq<RowView>) -> MapState
    decreases rows.len(),
{
    if rows.len() == 0 {
        s
    } else {
        map_row(map_rows(s, id, kind, rows.drop_last()), id, kind, rows.last())
    }
}

/// Mapping a hunk list in order, from line numbers 1 and 1.
pub open spec fn map_hunks(hs: Seq<DiffHunk>) -> MapState
    decreases hs.len(),
{
    if hs.len() == 0 {
        (Seq::empty(), 0, 1, 1)
    } else {
        let h = hs.last();
        map_rows(map_hunks(hs.drop_last()), h.hunk_id, h.kind, rows_view(h.rows@))
    }
}

/// The total number of rows of a hunk list.
pub open spec fn row_count(hs: Seq<DiffHunk>) -> nat
    decreases hs.len(),
{
    if hs.len() == 0 {
        0
    } else {
        row_count(hs.drop_last()) + hs.last().rows@.len()
    }
}

proof fn lemma_map_rows_bounds(s: MapState, id: HunkId, kind: HunkKind, rows: Seq<RowView>)
    ensures
        map_rows(s, id, kind, rows).0.len() == s.0.len() + rows.len(),
        map_rows(s, id, kind, rows).1 <= s.1 + rows.len(),
        map_rows(s, id, kind, rows).2 <= s.2 + rows.len(),
        map_rows(s, id, kind, rows).3 <= s.3 + rows.len(),
    decreases rows.len(),
{
    if rows.len() > 0 {
        lemma_map_rows_bounds(s, id, kind, rows.drop_last());
    }
}

proof fn lemma_map_hunks_bounds(hs: Seq<DiffHunk>)
    ensures
        map_hunks(hs).0.len() == row_count(hs),
        map_hunks(hs).1 <= row_count(hs),
        map_hunks(hs).2 <= row_count(hs) + 1,
        map_hunks(hs).3 <= row_count(hs) + 1,
    decreases hs.len(),
{
    if hs.len() > 0 {
        lemma_map_hunks_bounds(hs.drop_last());
        let h = hs.last();
        lemma_map_rows_bounds(map_hunks(hs.drop_last()), h.hunk_id, h.kind, rows_view(h.rows@));
    }
}

proof fn lemma_row_count_prefix(hs: Seq<DiffHunk>, k: int)
    requires
        0 <= k <= hs.len(),
    ensures
        row_count(hs.subrange(0, k)) <= row_count(hs),
    decreases hs.len(),
{
    if k < hs.len() {
        lemma_row_count_prefix(hs.drop_last(), k);
        assert(hs.drop_last().subrange(0, k) =~= hs.subrange(0, k));
    } else {
        assert(hs.subrange(0, k) =~= hs);
    }
}

/// A row's state agrees with the sides it has: an equal row pairs two
/// lines, an inserted row has only a right line, a deleted row only a left
/// line, and every row is equal, inserted, deleted or modified.
pub open spec fn state_fits_sides(r: AlignedRow) -> bool {
    &&& r.state == RowState::Equal ==> r.left is Some && r.right is Some
    &&& r.state == RowState::Inserted ==> r.left is None && r.right is Some
    &&& r.state == RowState::Deleted ==> r.left is Some && r.right is None
    &&& r.state == RowState::Equal || r.state == RowState::Inserted || r.state == RowState::Deleted
        || r.state == RowState::Modified
}

/// The sides a diff row of a hunk of `kind` has.
spec fn sides_fit_kind(kind: HunkKind, row: RowView) -> bool {
    &&& kind == HunkKind::Equal ==> row.0 is Some && row.1 is Some
    &&& kind == HunkKind::Insert ==> row.0 is None && row.1 is Some
    &&& kind == HunkKind::Delete ==> row.0 is Some && row.1 is None
}

proof fn lemma_map_rows_fit(s: MapState, id: HunkId, kind: HunkKind, rows: Seq<RowView>)
    requires
        forall|i: int| 0 <= i < s.0.len() ==> state_fits_sides(#[trigger] s.0[i]),
        forall|i: int| 0 <= i < rows.len() ==> sides_fit_kind(kind, #[trigger] rows[i]),
    ensures
        forall|i: int| 0 <= i < map_rows(s, id, kind, rows).0.len()
            ==> state_fits_sides(#[trigger] map_rows(s, id, kind, rows).0[i]),
    decreases rows.len(),
{
    if rows.len() > 0 {
        let pre = rows.drop_last();
        assert forall|i: int| 0 <= i < pre.len() implies sides_fit_kind(kind, #[trigger] pre[i]) by {
            assert(pre[i] == rows[i]);
        }
        lemma_map_rows_fit(s, id, kind, pre);
        let t = map_rows(s, id, kind, pre);
        assert(sides_fit_kind(kind, rows[rows.len() - 1]));
        let u = map_row(t, id, kind, rows.last());
        assert forall|i: int| 0 <= i < u.0.len() implies state_fits_sides(#[trigger] u.0[i]) by {
            if i < t.0.len() {
                assert(u.0[i] == t.0[i]);
            }
        }
    }
}

/// In the line map of a well-shaped diff, every row's state agrees with the
/// sides it has: a row with only a right line is inserted (or part of a
/// modification), a row with only a left line is deleted (or part of a
/// modification), an inserted row has only a right line and a deleted row
/// only a left line.
pub proof fn law_row_states_follow_sides(hs: Seq<DiffHunk>, o: DiffOptions)
    requires
        forall|k: int| 0 <= k < hs.len() ==> hunk_well_shaped(#[trigger] hs[k], k, o),
    ensures
        forall|i: int| 0 <= i < map_hunks(hs).0.len() ==> {
            let r = #[trigger] map_hunks(hs).0[i];
            &&& state_fits_sides(r)
            &&& r.left is None && r.right is Some ==> r.state == RowState::Inserted || r.state == RowState::Modified
            &&& r.left is Some && r.right is None ==> r.state == RowState::Deleted || r.state == RowState::Modified
        },
    decreases hs.len(),
{
    if hs.len() > 0 {
        let pre = hs.drop_last();
        assert forall|k: int| 0 <= k < pre.len() implies hunk_well_shaped(#[trigger] pre[k], k, o) by {
            assert(pre[k] == hs[k]);
        }
        law_row_states_follow_sides(pre, o);
        let h = hs.last();
        assert(hunk_well_shaped(hs[hs.len() - 1], hs.len() - 1, o));
        let rv = rows_view(h.rows@);
        assert forall|i: int| 0 <= i < rv.len() implies sides_fit_kind(h.kind, #[trigger] rv[i]) by {
            assert(rv[i] == h.rows@[i].row_view());
            assert(h.rows@[i].left is Some <==> i < h.left_range.len as int);
            assert(h.rows@[i].right is Some <==> i < h.right_range.len as int);
        }
        lemma_map_rows_fit(map_hunks(pre), h.hunk_id, h.kind, rv);
    }
}

/// The number of rows with a left line.
pub open spec fn left_count(rows: Seq<AlignedRow>) -> nat
    decreases rows.len(),
{
    if rows.len() == 0 {
        0
    } else {
        left_count(rows.drop_last()) + if rows.last().left is Some { 1nat } else { 0nat }
    }
}

/// The number of rows with a right line.
pub open spec fn right_count(rows: Seq<AlignedRow>) -> nat
    decreases rows.len(),
{
    if rows.len() == 0 {
        0
    } else {
        right_count(rows.drop_last()) + if rows.last().right is Some { 1nat } else { 0nat }
    }
}

/// Row `i` has id `i`, and each of its lines points back at row `i` and
/// has the 1-based number of that side's line: one more than the lines of
/// that side in the rows above it.
pub open spec fn row_numbered(rows: Seq<AlignedRow>, i: int) -> bool {
    &&& rows[i].row_id == RowId(i as u32)
    &&& rows[i].left matches Some(l) ==> l.original_line as nat == left_count(rows.take(i)) + 1 && l.row_index == i
    &&& rows[i].right matches Some(r) ==> r.original_line as nat == right_count(rows.take(i)) + 1 && r.row_index == i
}

proof fn lemma_counts_bounded(rows: Seq<AlignedRow>)
    ensures
        left_count(rows) <= rows.len(),
        right_count(rows) <= rows.len(),
    decreases rows.len(),
{
    if rows.len() > 0 {
        lemma_counts_bounded(rows.drop_last());
    }
}

proof fn lemma_map_rows_numbered(s: MapState, id: HunkId, kind: HunkKind, rows: Seq<RowView>)
    requires
        s.0.len() + rows.len() < u32::MAX,
        s.2 == left_count(s.0) + 1,
        s.3 == right_count(s.0) + 1,
        forall|i: int| 0 <= i < s.0.len() ==> row_numbered(s.0, i),
    ensures
        ({
            let t = map_rows(s, id, kind, rows);
            &&& t.2 == left_count(t.0) + 1
            &&& t.3 == right_count(t.0) + 1
            &&& forall|i: int| 0 <= i < t.0.len() ==> row_numbered(t.0, i)
        }),
    decreases rows.len(),
{
    if rows.len() > 0 {
        lemma_map_rows_numbered(s, id, kind, rows.drop_last());
        lemma_map_rows_bounds(s, id, kind, rows.drop_last());
        let t = map_rows(s, id, kind, rows.drop_last());
        lemma_counts_bounded(t.0);
        let u = map_row(t, id, kind, rows.last());
        assert(u.0.drop_last() =~= t.0);
        assert(u.0.take(t.0.len() as int) =~= t.0);
        assert forall|i: int| 0 <= i < u.0.len() implies row_numbered(u.0, i) by {
            if i < t.0.len() {
                assert(row_numbered(t.0, i));
                assert(u.0[i] == t.0[i]);
                assert(u.0.take(i) =~= t.0.take(i));
            } else {
                assert(u.0[i].row_id == RowId(i as u32));
                assert(i == t.0.len());
                assert(u.0.take(i) == t.0);
                assert(t.2 < u32::MAX && t.3 < u32::MAX);
                assert(u.0[i].left matches Some(l) ==> l.original_line == t.2 as u32 && l.row_index == i);
                assert(u.0[i].right matches Some(r) ==> r.original_line == t.3 as u32 && r.row_index == i);
            }
        }
    }
}

/// In the line map of a diff, row `i` has id `i`, and each line of a row
/// points back at its row and carries its side's 1-based line number: the
/// left lines are numbered 1, 2, 3, ... down the rows, and so are the right
/// lines, each side on its own.
pub proof fn law_rows_number_each_side(hs: Seq<DiffHunk>)
    requires
        row_count(hs) < u32::MAX,
    ensures
        map_hunks(hs).2 == left_count(map_hunks(hs).0) + 1,
        map_hunks(hs).3 == right_count(map_hunks(hs).0) + 1,
        forall|i: int| 0 <= i < map_hunks(hs).0.len() ==> row_numbered(map_hunks(hs).0, i),
    decreases hs.len(),
{
    if hs.len() > 0 {
        let pre = hs.drop_last();
        lemma_row_count_prefix(hs, hs.len() - 1);
        assert(hs.subrange(0, hs.len() - 1) =~= pre);
        law_rows_number_each_side(pre);
        lemma_map_hunks_bounds(pre);
        let h = hs.last();
        lemma_map_rows_numbered(map_hunks(pre), h.hunk_id, h.kind, rows_view(h.rows@));
    } else {
        assert(map_hunks(hs).0 =~= Seq::<AlignedRow>::empty());
    }
}

/// `i` is the first changed row at or after `from`.
pub open spec fn is_next_changed(rows: Seq<AlignedRow>, from: int, i: int) -> bool {
    &&& from <= i < rows.len()
    &&& state_changed(rows[i].state)
    &&& forall|j: int| from <= j < i ==> !state_changed(#[trigger] rows[j].state)
}

/// `i` is the last changed row before `from`.
pub open spec fn is_prev_changed(rows: Seq<AlignedRow>, from: int, i: int) -> bool {
    &&& 0 <= i < from && i < rows.len()
    &&& state_changed(rows[i].state)
    &&& forall|j: int| i < j < from && j < rows.len() ==> !state_changed(#[trigger] rows[j].state)
}

impl LineMap {
    /// The line map of a document: one aligned row per diff row, in order,
    /// numbered from 0, with original line numbers counted per side from 1.
    pub fn from_diff(doc: &DiffDocument) -> (m: Self)
        requires
            row_count(doc.hunks@) < u32::MAX,
        ensures
            m.rows@ == map_hunks(doc.hunks@).0,
            m.changed_row_count == map_hunks(doc.hunks@).1,
    {
        let ghost hs = doc.hunks@;
        let mut rows: Vec<AlignedRow> = Vec::new();
        let mut row_idx: u32 = 0;
        let mut changed: usize = 0;
        let mut left_num: u32 = 1;
        let mut right_num: u32 = 1;
        let mut h: usize = 0;
        proof {
            assert(hs.subrange(0, 0) =~= Seq::<DiffHunk>::empty());
            assert(rows@ =~= Seq::<AlignedRow>::empty());
        }
        while h < doc.hunks.len()
            invariant
                hs == doc.hunks@,
                row_count(hs) < u32::MAX,
                h <= hs.len(),
                map_hunks(hs.subrange(0, h as int)) == (rows@, changed as nat, left_num as nat, right_num as nat),
                row_idx == rows@.len(),
            decreases hs.len() - h,
        {
            let hunk = &doc.hunks[h];
            let ghost s0: MapState = (rows@, changed as nat, left_num as nat, right_num as nat);
            proof {
                assert(hs.subrange(0, h as int + 1).drop_last() =~= hs.subrange(0, h as int));
                lemma_map_hunks_bounds(hs.subrange(0, h as int));
                lemma_row_count_prefix(hs, h as int + 1);
                assert(row_count(hs.subrange(0, h as int + 1)) == row_count(hs.subrange(0, h as int)) + hunk.rows@.len());
            }
            let state = match hunk.kind {
                HunkKind::Equal => RowState::Equal,
                HunkKind::Insert => RowState::Inserted,
                HunkKind::Delete => RowState::Deleted,
                HunkKind::Replace => RowState::Modified,
            };
            let mut r: usize = 0;
            while r < hunk.rows.len()
                invariant
                    hs == doc.hunks@,
                    h < hs.len(),
                    *hunk == hs[h as int],
                    state == state_of(hunk.kind),
                    r <= hunk.rows@.len(),
                    s0.0.len() + hunk.rows@.len() < u32::MAX,
                    s0.1 <= s0.0.len(),
                    s0.2 <= s0.0.len() + 1,
                    s0.3 <= s0.0.len() + 1,
                    map_rows(s0, hunk.hunk_id, hunk.kind, rows_view(hunk.rows@).subrange(0, r as int))
                        == (rows@, changed as nat, left_num as nat, right_num as nat),
                    row_idx == rows@.len(),
                decreases hunk.rows@.len() - r,
            {
                proof {
                    assert(rows_view(hunk.rows@).subrange(0, r as int + 1).drop_last() =~= rows_view(hunk.rows@).subrange(0, r as int));
                    lemma_map_rows_bounds(s0, hunk.hunk_id, hunk.kind, rows_view(hunk.rows@).subrange(0, r as int));
                }
                let row = &hunk.rows[r];
                let left = if row.left.is_some() {
                    let s = LineSpan { original_line: left_num, row_index: row_idx as usize };
                    left_num = left_num + 1;
                    Some(s)
                } else {
                    None
                };
                let right = if row.right.is_some() {
                    let s = LineSpan { original_line: right_num, row_index: row_idx as usize };
                    right_num = right_num + 1;
                    Some(s)
                } else {
                    None
                };
                if state.is_changed() {
                    changed = changed + 1;
                }
                rows.push(AlignedRow { row_id: RowId(row_idx), left, right, state, hunk_id: Some(hunk.hunk_id) });
                row_idx = row_idx + 1;
                r = r + 1;
            }
            proof {
                assert(rows_view(hunk.rows@).subrange(0, hunk.rows@.len() as int) =~= rows_view(hunk.rows@));
            }
            h = h + 1;
        }
        proof {
            assert(hs.subrange(0, hs.len() as int) =~= hs);
        }
        LineMap { rows, changed_row_count: changed }
    }

    /// The row with id `id` (ids are row positions).
    pub fn row(&self, id: RowId) -> (r: Option<&AlignedRow>)
        ensures
            id.0 < self.rows@.len() ==> r == Some(&self.rows@[id.0 as int]),
            id.0 >= self.rows@.len() ==> r is None,
    {
        let i = id.0 as usize;
        if i < self.rows.len() {
            Some(&self.rows[i])
        } else {
            None
        }
    }

    /// All changed rows, in order.
    pub fn changed_rows(&self) -> (out: Vec<&AlignedRow>)
        ensures
            out@.map_values(|r: &AlignedRow| *r) == self.rows@.filter(|r: AlignedRow| state_changed(r.state)),
    {
        let mut out: Vec<&AlignedRow> = Vec::new();
        let mut i: usize = 0;
        while i < self.rows.len()
            invariant
                i <= self.rows@.len(),
                out@.map_values(|r: &AlignedRow| *r) == self.rows@.subrange(0, i as int).filter(|r: AlignedRow| state_changed(r.state)),
            decreases self.rows@.len() - i,
        {
            proof {
                reveal(Seq::filter);
                assert(self.rows@.subrange(0, i as int + 1).drop_last() =~= self.rows@.subrange(0, i as int));
            }
            if self.rows[i].state.is_changed() {
                out.push(&self.rows[i]);
            }
            assert(out@.map_values(|r: &AlignedRow| *r) =~= self.rows@.subrange(0, i as int + 1).filter(|r: AlignedRow| state_changed(r.state)));
            i = i + 1;
        }
        assert(self.rows@.subrange(0, self.rows@.len() as int) =~= self.rows@);
        out
    }

    /// The first changed row at or after `from_row_index`.
    pub fn next_changed_row(&self, from_row_index: usize) -> (r: Option<&AlignedRow>)
        ensures
            r is None <==> forall|j: int| from_row_index <= j < self.rows@.len() ==> !state_changed(#[trigger] self.rows@[j].state),
            r matches Some(row) ==> exists|i: int| is_next_changed(self.rows@, from_row_index as int, i) && *row == self.rows@[i],
    {
        let mut i = from_row_index;
        while i < self.rows.len()
            invariant
                from_row_index <= i,
                forall|j: int| from_row_index <= j < i && j < self.rows@.len() ==> !state_changed(#[trigger] self.rows@[j].state),
            decreases self.rows@.len() - i,
        {
            if self.rows[i].state.is_changed() {
                assert(is_next_changed(self.rows@, from_row_index as int, i as int));
                return Some(&self.rows[i]);
            }
            i = i + 1;
        }
        None
    }

    /// The last changed row before `from_row_index`.
    pub fn prev_changed_row(&self, from_row_index: usize) -> (r: Option<&AlignedRow>)
        ensures
            r is None <==> forall|j: int| 0 <= j < from_row_index && j < self.rows@.len() ==> !state_changed(#[trigger] self.rows@[j].state),
            r matches Some(row) ==> exists|i: int| is_prev_changed(self.rows@, from_row_index as int, i) && *row == self.rows@[i],
    {
        let mut i: usize = if from_row_index < self.rows.len() { from_row_index } else { self.rows.len() };
        while i > 0
            invariant
                i <= self.rows@.len(),
                i <= from_row_index,
                forall|j: int| i <= j < from_row_index && j < self.rows@.len() ==> !state_changed(#[trigger] self.rows@[j].state),
            decreases i,
        {
            if self.rows[i - 1].state.is_changed() {
                assert(is_prev_changed(self.rows@, from_row_index as int, i - 1));
                return Some(&self.rows[i - 1]);
            }
            i = i - 1;
        }
        None
    }

    /// `true` when there is no changed row.
    pub fn is_identical(&self) -> (b: bool)
        ensures
            b == (self.changed_row_count == 0),
    {
        self.changed_row_count == 0
    }
}

/// One segment of the mini hunk map.
#[derive(Debug, Clone, Copy, PartialEq, Eq, Structural)]
pub struct MiniMapSegment {
    pub state: RowState,
    /// Number of rows this segment covers.
    pub weight: u32,
    pub hunk_id: Option<HunkId>,
}

/// The mini map of a row list: consecutive rows with the same state and
/// hunk id merge into one segment whose weight is their count.
pub open spec fn mini_map(rows: Seq<AlignedRow>) -> Seq<MiniMapSegment>
    decreases rows.len(),
{
    if rows.len() == 0 {
        Seq::empty()
    } else {
        let prev = mini_map(rows.drop_last());
        let r = rows.last();
        if prev.len() > 0 && prev.last().state == r.state && prev.last().hunk_id == r.hunk_id {
            prev.update(prev.len() - 1, MiniMapSegment { state: r.state, weight: (prev.last().weight + 1) as u32, hunk_id: r.hunk_id })
        } else {
            prev.push(MiniMapSegment { state: r.state, weight: 1, hunk_id: r.hunk_id })
        }
    }
}

/// The sum of the weights of a segment list.
pub open spec fn total_weight(segs: Seq<MiniMapSegment>) -> nat
    decreases segs.len(),
{
    if segs.len() == 0 {
        0
    } else {
        total_weight(segs.drop_last()) + segs.last().weight as nat
    }
}

proof fn lemma_mini_map_weight(rows: Seq<AlignedRow>)
    requires
        rows.len() < u32::MAX,
    ensures
        total_weight(mini_map(rows)) == rows.len(),
        forall|k: int| 0 <= k < mini_map(rows).len() ==> (#[trigger] mini_map(rows)[k]).weight <= rows.len(),
    decreases rows.len(),
{
    if rows.len() > 0 {
        let prev = mini_map(rows.drop_last());
        lemma_mini_map_weight(rows.drop_last());
        let r = rows.last();
        if prev.len() > 0 && prev.last().state == r.state && prev.last().hunk_id == r.hunk_id {
            let n = prev.update(prev.len() - 1, MiniMapSegment { state: r.state, weight: (prev.last().weight + 1) as u32, hunk_id: r.hunk_id });
            assert(n.drop_last() =~= prev.drop_last());
            assert(total_weight(prev) == total_weight(prev.drop_last()) + prev.last().weight);
        } else {
            assert(prev.push(MiniMapSegment { state: r.state, weight: 1, hunk_id: r.hunk_id }).drop_last() =~= prev);
        }
    }
}

/// The mini map of a line map: consecutive rows with the same state and
/// hunk id merge into one segment; weights are row counts.
pub fn build_mini_map(map: &LineMap) -> (segs: Vec<MiniMapSegment>)
    requires
        map.rows@.len() < u32::MAX,
    ensures
        segs@ == mini_map(map.rows@),
{
    let mut segs: Vec<MiniMapSegment> = Vec::new();
    let mut i: usize = 0;
    while i < map.rows.len()
        invariant
            i <= map.rows@.len(),
            map.rows@.len() < u32::MAX,
            segs@ == mini_map(map.rows@.subrange(0, i as int)),
        decreases map.rows@.len() - i,
    {
        let row = map.rows[i];
        proof {
            assert(map.rows@.subrange(0, i as int + 1).drop_last() =~= map.rows@.subrange(0, i as int));
            lemma_mini_map_weight(map.rows@.subrange(0, i as int));
        }
        let n = segs.len();
        if n > 0 && segs[n - 1].state == row.state && segs[n - 1].hunk_id == row.hunk_id {
            let last = segs[n - 1];
            proof {
                assert(last.weight <= i);
            }
            segs.set(n - 1, MiniMapSegment { state: last.state, weight: last.weight + 1, hunk_id: last.hunk_id });
        } else {
            segs.push(MiniMapSegment { state: row.state, weight: 1, hunk_id: row.hunk_id });
        }
        i = i + 1;
    }
    assert(map.rows@.subrange(0, map.rows@.len() as int) =~= map.rows@);
    segs
}

} // verus!
