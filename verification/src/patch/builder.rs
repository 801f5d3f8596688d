//! Build patch documents from the normalized diff model: the diff rows
//! are flattened into a context/delete/insert line stream, which is
//! grouped into unified-diff hunks with a configurable amount of context.
//! No I/O, no diff-engine types.

use vstd::prelude::*;

use super::model::{
    change_deltas, hunk_deltas, line_models, origin_counts, summary_of, summary_tuple, HunkModel, LineModel,
    LineOrigin, PatchDocument, PatchFileChange, PatchFormat, PatchHunk, PatchLine, PatchSummary,
};
use crate::diff::engine::{hunk_well_shaped, hunks_left, rows_left};
use crate::diff::model::{DiffDocument, DiffHunk, DiffRow, HunkKind, NewlineMarker, RowView, SideLine, rows_view};
use crate::diff::options::DiffOptions;

verus! {

/// Options controlling patch generation.
#[derive(Debug, Clone, Copy)]
pub struct PatchOptions {
    /// Context lines kept around each change (default 3).
    pub context_lines: usize,
    /// Emit whole-file add/delete entries for one-sided files.
    pub include_creation_deletion: bool,
    /// Emit notices for differing binary files.
    pub include_binary_notices: bool,
}

impl Default for PatchOptions {
    /// Three context lines, creations and deletions included, binary
    /// notices left out.
    fn default() -> (o: Self)
        ensures
            o.context_lines == 3,
            o.include_creation_deletion,
            !o.include_binary_notices,
    {
        PatchOptions { context_lines: 3, include_creation_deletion: true, include_binary_notices: false }
    }
}

/// A side line as a patch line of the given origin.
pub open spec fn side_model(o: LineOrigin, l: SideLine) -> LineModel {
    (o, l.content@, l.newline)
}

/// The context line of an equal row: its left line, else its right line.
pub open spec fn context_lines(rows: Seq<RowView>) -> Seq<LineModel>
    decreases rows.len(),
{
    if rows.len() == 0 {
        Seq::empty()
    } else {
        let prev = context_lines(rows.drop_last());
        let r = rows.last();
        match r.0 {
            Some(l) => prev.push(side_model(LineOrigin::Context, l)),
            None => match r.1 {
                Some(l) => prev.push(side_model(LineOrigin::Context, l)),
                None => prev,
            },
        }
    }
}

/// The left lines of rows, as deletions.
pub open spec fn deleted_lines(rows: Seq<RowView>) -> Seq<LineModel>
    decreases rows.len(),
{
    if rows.len() == 0 {
        Seq::empty()
    } else {
        let prev = deleted_lines(rows.drop_last());
        match rows.last().0 {
            Some(l) => prev.push(side_model(LineOrigin::Delete, l)),
            None => prev,
        }
    }
}

/// The right lines of rows, as insertions.
pub open spec fn inserted_lines(rows: Seq<RowView>) -> Seq<LineModel>
    decreases rows.len(),
{
    if rows.len() == 0 {
        Seq::empty()
    } else {
        let prev = inserted_lines(rows.drop_last());
        match rows.last().1 {
            Some(l) => prev.push(side_model(LineOrigin::Insert, l)),
            None => prev,
        }
    }
}

/// The line stream of one hunk: context lines for an equal hunk; all
/// deletions then all insertions for a change.
pub open spec fn hunk_stream(h: DiffHunk) -> Seq<LineModel> {
    let rows = rows_view(h.rows@);
    if h.kind == HunkKind::Equal {
        context_lines(rows)
    } else {
        deleted_lines(rows) + inserted_lines(rows)
    }
}

/// The line stream of a whole diff.
pub open spec fn flatten_spec(hs: Seq<DiffHunk>) -> Seq<LineModel>
    decreases hs.len(),
{
    if hs.len() == 0 {
        Seq::empty()
    } else {
        flatten_spec(hs.drop_last()) + hunk_stream(hs.last())
    }
}

/// Lines present on the old side (context and deletions).
pub open spec fn old_count(ls: Seq<LineModel>) -> nat
    decreases ls.len(),
{
    if ls.len() == 0 {
        0
    } else {
        old_count(ls.drop_last()) + if ls.last().0 != LineOrigin::Insert { 1nat } else { 0nat }
    }
}

/// Lines present on the new side (context and insertions).
pub open spec fn new_count(ls: Seq<LineModel>) -> nat
    decreases ls.len(),
{
    if ls.len() == 0 {
        0
    } else {
        new_count(ls.drop_last()) + if ls.last().0 != LineOrigin::Delete { 1nat } else { 0nat }
    }
}

/// Adding a change's window `(lo, hi)`: it extends the last window when it
/// touches or overlaps it, otherwise it starts a new one.
pub open spec fn merge_window(ws: Seq<(int, int)>, lo: int, hi: int) -> Seq<(int, int)> {
    if ws.len() > 0 && lo <= ws.last().1 + 1 {
        ws.update(ws.len() - 1, (ws.last().0, if hi > ws.last().1 { hi } else { ws.last().1 }))
    } else {
        ws.push((lo, hi))
    }
}

/// The hunk windows of the first `k` lines: each change at `i` claims
/// `i - context ..= i + context`, clamped to the stream.
pub open spec fn windows_upto(flat: Seq<LineModel>, context: nat, k: nat) -> Seq<(int, int)>
    decreases k,
{
    if k == 0 {
        Seq::empty()
    } else {
        let i = (k - 1) as nat;
        let prev = windows_upto(flat, context, i);
        if flat[i as int].0 != LineOrigin::Context {
            let lo: int = if i >= context { i - context } else { 0int };
            let hi: int = if i + context <= flat.len() - 1 { (i + context) as int } else { flat.len() - 1 };
            merge_window(prev, lo, hi)
        } else {
            prev
        }
    }
}

/// Unified-diff convention for an empty side: start at the line before.
pub open spec fn normalize_start(start: nat, len: nat) -> nat {
    if len == 0 { if start > 0 { (start - 1) as nat } else { 0 } } else { start }
}

/// The hunk of window `lo ..= hi`: its lines, and on each side the
/// 1-based start (lines before the window, plus one) and length.
pub open spec fn window_hunk(flat: Seq<LineModel>, lo: int, hi: int) -> HunkModel {
    let before = flat.subrange(0, lo);
    let inside = flat.subrange(lo, hi + 1);
    (
        normalize_start(old_count(before) + 1, old_count(inside)) as u32,
        old_count(inside) as u32,
        normalize_start(new_count(before) + 1, new_count(inside)) as u32,
        new_count(inside) as u32,
        inside,
    )
}

/// The hunks of a line stream with `context` lines of context.
pub open spec fn coalesce_spec(flat: Seq<LineModel>, context: nat) -> Seq<HunkModel> {
    windows_upto(flat, context, flat.len()).map_values(|w: (int, int)| window_hunk(flat, w.0, w.1))
}

/// The hunks of a diff.
pub open spec fn diff_hunks(diff: DiffDocument, context: nat) -> Seq<HunkModel> {
    coalesce_spec(flatten_spec(diff.hunks@), context)
}

/// The old side of a line list: its context and deleted lines, as content
/// and terminator, in order.
pub open spec fn old_side(ls: Seq<LineModel>) -> Seq<(Seq<char>, NewlineMarker)>
    decreases ls.len(),
{
    if ls.len() == 0 {
        Seq::empty()
    } else {
        old_side(ls.drop_last()) + if ls.last().0 != LineOrigin::Insert {
            seq![(ls.last().1, ls.last().2)]
        } else {
            Seq::empty()
        }
    }
}

/// Side lines as content and terminator, in order.
pub open spec fn side_texts(ls: Seq<SideLine>) -> Seq<(Seq<char>, NewlineMarker)> {
    ls.map_values(|l: SideLine| (l.content@, l.newline))
}

proof fn lemma_old_side_concat(x: Seq<LineModel>, y: Seq<LineModel>)
    ensures
        old_side(x + y) == old_side(x) + old_side(y),
        old_side(x).len() == old_count(x),
    decreases y.len(),
{
    if y.len() == 0 {
        assert(x + y =~= x);
        assert(old_side(x) + old_side(y) =~= old_side(x));
        lemma_old_side_len(x);
    } else {
        lemma_old_side_concat(x, y.drop_last());
        assert((x + y).drop_last() =~= x + y.drop_last());
        assert((x + y).last() == y.last());
        assert(old_side(x + y) =~= old_side(x) + old_side(y));
    }
}

proof fn lemma_old_side_len(x: Seq<LineModel>)
    ensures
        old_side(x).len() == old_count(x),
    decreases x.len(),
{
    if x.len() > 0 {
        lemma_old_side_len(x.drop_last());
    }
}

proof fn lemma_old_side_single(m: LineModel)
    ensures
        old_side(seq![m]) == if m.0 != LineOrigin::Insert { seq![(m.1, m.2)] } else { Seq::<(Seq<char>, NewlineMarker)>::empty() },
{
    assert(seq![m].drop_last() =~= Seq::<LineModel>::empty());
    assert(seq![m].last() == m);
    assert(old_side(Seq::<LineModel>::empty()) == Seq::<(Seq<char>, NewlineMarker)>::empty());
    assert(Seq::<(Seq<char>, NewlineMarker)>::empty() + seq![(m.1, m.2)] =~= seq![(m.1, m.2)]);
    assert(Seq::<(Seq<char>, NewlineMarker)>::empty() + Seq::<(Seq<char>, NewlineMarker)>::empty() =~= Seq::<(Seq<char>, NewlineMarker)>::empty());
}

proof fn lemma_rows_old_side(rs: Seq<DiffRow>, equal: bool)
    requires
        equal ==> forall|i: int| 0 <= i < rs.len() ==> (#[trigger] rs[i]).left is Some,
    ensures
        equal ==> old_side(context_lines(rows_view(rs))) == side_texts(rows_left(rs)),
        old_side(deleted_lines(rows_view(rs))) == side_texts(rows_left(rs)),
        old_side(inserted_lines(rows_view(rs))) == Seq::<(Seq<char>, NewlineMarker)>::empty(),
    decreases rs.len(),
{
    if rs.len() == 0 {
        assert(side_texts(rows_left(rs)) =~= Seq::<(Seq<char>, NewlineMarker)>::empty());
    } else {
        let pre = rs.drop_last();
        assert forall|i: int| 0 <= i < pre.len() && equal implies (#[trigger] pre[i]).left is Some by {
            assert(pre[i] == rs[i]);
        }
        lemma_rows_old_side(pre, equal);
        let rv = rows_view(rs);
        assert(rv.drop_last() =~= rows_view(pre));
        assert(rv.last() == rs.last().row_view());
        assert(rs.last() == rs[rs.len() - 1]);
        let lt = match rs.last().left {
            Some(l) => seq![l],
            None => Seq::<SideLine>::empty(),
        };
        assert(side_texts(rows_left(rs)) =~= side_texts(rows_left(pre)) + side_texts(lt));
        match rs.last().left {
            Some(l) => {
                let m = side_model(LineOrigin::Delete, l);
                lemma_old_side_concat(deleted_lines(rows_view(pre)), seq![m]);
                assert(deleted_lines(rows_view(pre)) + seq![m] =~= deleted_lines(rv));
                lemma_old_side_single(m);
                assert(old_side(seq![m]) =~= side_texts(lt));
                if equal {
                    let c = side_model(LineOrigin::Context, l);
                    lemma_old_side_concat(context_lines(rows_view(pre)), seq![c]);
                    assert(context_lines(rows_view(pre)) + seq![c] =~= context_lines(rv));
                    lemma_old_side_single(c);
                    assert(old_side(seq![c]) =~= side_texts(lt));
                }
            },
            None => {
                assert(deleted_lines(rv) == deleted_lines(rows_view(pre)));
                assert(side_texts(lt) =~= Seq::<(Seq<char>, NewlineMarker)>::empty());
                assert(side_texts(rows_left(pre)) + side_texts(lt) =~= side_texts(rows_left(pre)));
            },
        }
        match rs.last().right {
            Some(l) => {
                let m = side_model(LineOrigin::Insert, l);
                lemma_old_side_concat(inserted_lines(rows_view(pre)), seq![m]);
                assert(inserted_lines(rows_view(pre)) + seq![m] =~= inserted_lines(rv));
                lemma_old_side_single(m);
            },
            None => {
                assert(inserted_lines(rv) == inserted_lines(rows_view(pre)));
            },
        }
    }
}

proof fn lemma_flat_old_side(hs: Seq<DiffHunk>, o: DiffOptions)
    requires
        forall|k: int| 0 <= k < hs.len() ==> hunk_well_shaped(#[trigger] hs[k], k, o),
    ensures
        old_side(flatten_spec(hs)) == side_texts(hunks_left(hs)),
    decreases hs.len(),
{
    if hs.len() == 0 {
        assert(side_texts(hunks_left(hs)) =~= Seq::<(Seq<char>, NewlineMarker)>::empty());
    } else {
        let pre = hs.drop_last();
        assert forall|k: int| 0 <= k < pre.len() implies hunk_well_shaped(#[trigger] pre[k], k, o) by {
            assert(pre[k] == hs[k]);
        }
        lemma_flat_old_side(pre, o);
        let h = hs.last();
        assert(hunk_well_shaped(hs[hs.len() - 1], hs.len() - 1, o));
        let equal = h.kind == HunkKind::Equal;
        assert forall|i: int| 0 <= i < h.rows@.len() && equal implies (#[trigger] h.rows@[i]).left is Some by {
            assert(h.rows@[i].left is Some <==> i < h.left_range.len as int);
        }
        lemma_rows_old_side(h.rows@, equal);
        lemma_old_side_concat(flatten_spec(pre), hunk_stream(h));
        let rv = rows_view(h.rows@);
        if !equal {
            lemma_old_side_concat(deleted_lines(rv), inserted_lines(rv));
            assert(old_side(deleted_lines(rv)) + Seq::<(Seq<char>, NewlineMarker)>::empty() =~= old_side(deleted_lines(rv)));
        }
        assert(side_texts(hunks_left(hs)) =~= side_texts(hunks_left(pre)) + side_texts(rows_left(h.rows@)));
    }
}

proof fn lemma_windows_in_stream(flat: Seq<LineModel>, context: nat, k: nat)
    requires
        k <= flat.len(),
    ensures
        forall|j: int| 0 <= j < windows_upto(flat, context, k).len()
            ==> 0 <= (#[trigger] windows_upto(flat, context, k)[j]).0 <= windows_upto(flat, context, k)[j].1 < flat.len(),
    decreases k,
{
    if k > 0 {
        let i = (k - 1) as nat;
        lemma_windows_in_stream(flat, context, i);
        let prev = windows_upto(flat, context, i);
        if flat[i as int].0 != LineOrigin::Context {
            let lo: int = if i >= context { i - context } else { 0int };
            let hi: int = if i + context <= flat.len() - 1 { (i + context) as int } else { flat.len() - 1 };
            let cur = merge_window(prev, lo, hi);
            assert(cur == windows_upto(flat, context, k));
            assert forall|j: int| 0 <= j < cur.len() implies 0 <= (#[trigger] cur[j]).0 <= cur[j].1 < flat.len() by {
                if j < prev.len() && !(prev.len() > 0 && lo <= prev.last().1 + 1 && j == prev.len() - 1) {
                    assert(cur[j] == prev[j]);
                } else if j < prev.len() {
                    assert(prev[j] == prev.last());
                }
            }
        }
    }
}

/// Each hunk of a well-shaped diff lines up with the left text: when its
/// old length is not zero, its context and deleted lines are, in order, the
/// left lines numbered from its old start on (1-based), as many as its old
/// length; when it is zero, the hunk has no such line. This is what lets
/// the patch apply to the left text.
pub proof fn law_hunk_old_side_is_left_run(hs: Seq<DiffHunk>, o: DiffOptions, context: nat, k: int)
    requires
        forall|j: int| 0 <= j < hs.len() ==> hunk_well_shaped(#[trigger] hs[j], j, o),
        flatten_spec(hs).len() < u32::MAX,
        0 <= k < coalesce_spec(flatten_spec(hs), context).len(),
    ensures
        ({
            let w = coalesce_spec(flatten_spec(hs), context)[k];
            &&& w.1 > 0 ==> old_side(w.4) == side_texts(hunks_left(hs)).subrange(w.0 as int - 1, w.0 as int - 1 + w.1 as int)
            &&& w.1 == 0 ==> old_side(w.4).len() == 0
        }),
{
    let flat = flatten_spec(hs);
    lemma_windows_in_stream(flat, context, flat.len());
    let ws = windows_upto(flat, context, flat.len());
    let (lo, hi) = ws[k];
    assert(coalesce_spec(flat, context)[k] == window_hunk(flat, lo, hi));
    let before = flat.subrange(0, lo);
    let inside = flat.subrange(lo, hi + 1);
    let after = flat.subrange(hi + 1, flat.len() as int);
    assert(flat =~= before + inside + after);
    lemma_old_side_concat(before, inside);
    lemma_old_side_concat(before + inside, after);
    lemma_old_side_concat(inside, after);
    lemma_counts_le(inside);
    lemma_flat_old_side(hs, o);
    let left = side_texts(hunks_left(hs));
    assert(old_side(inside) =~= left.subrange(old_count(before) as int, (old_count(before) + old_count(inside)) as int));
    lemma_counts_le(before);
    let w = window_hunk(flat, lo, hi);
    assert(w.4 == inside);
    assert(w.1 as nat == old_count(inside));
    if old_count(inside) > 0 {
        assert(w.0 as int == old_count(before) + 1);
    }
}

fn side_line(o: LineOrigin, l: &SideLine) -> (p: PatchLine)
    ensures
        p.model() == side_model(o, *l),
{
    PatchLine { origin: o, content: l.content.clone(), newline: l.newline }
}

fn flatten(diff: &DiffDocument) -> (out: Vec<PatchLine>)
    ensures
        line_models(out@) == flatten_spec(diff.hunks@),
{
    let ghost hs = diff.hunks@;
    let mut out: Vec<PatchLine> = Vec::new();
    let mut h: usize = 0;
    assert(line_models(out@) =~= flatten_spec(hs.subrange(0, 0)));
    while h < diff.hunks.len()
        invariant
            hs == diff.hunks@,
            h <= hs.len(),
            line_models(out@) == flatten_spec(hs.subrange(0, h as int)),
        decreases hs.len() - h,
    {
        let hunk = &diff.hunks[h];
        let ghost before = line_models(out@);
        let ghost rows = rows_view(hunk.rows@);
        proof {
            assert(hs.subrange(0, h as int + 1).drop_last() =~= hs.subrange(0, h as int));
        }
        if matches!(hunk.kind, HunkKind::Equal) {
            let mut r: usize = 0;
            while r < hunk.rows.len()
                invariant
                    rows == rows_view(hunk.rows@),
                    r <= hunk.rows@.len(),
                    line_models(out@) == before + context_lines(rows.subrange(0, r as int)),
                decreases hunk.rows@.len() - r,
            {
                proof {
                    assert(rows.subrange(0, r as int + 1).drop_last() =~= rows.subrange(0, r as int));
                    assert(rows[r as int] == hunk.rows@[r as int].row_view());
                    assert(rows.subrange(0, r as int + 1).last() == rows[r as int]);
                }
                let row = &hunk.rows[r];
                let ghost prev_out = line_models(out@);
                let ghost cur = rows.subrange(0, r as int + 1);
                match &row.left {
                    Some(l) => {
                        out.push(side_line(LineOrigin::Context, l));
                        assert(context_lines(cur) == context_lines(cur.drop_last()).push(side_model(LineOrigin::Context, *l)));
                        assert(line_models(out@) =~= prev_out.push(side_model(LineOrigin::Context, *l)));
                    },
                    None => match &row.right {
                        Some(l) => {
                            out.push(side_line(LineOrigin::Context, l));
                            assert(context_lines(cur) == context_lines(cur.drop_last()).push(side_model(LineOrigin::Context, *l)));
                            assert(line_models(out@) =~= prev_out.push(side_model(LineOrigin::Context, *l)));
                        },
                        None => {
                            assert(context_lines(cur) == context_lines(cur.drop_last()));
                        },
                    },
                }
                assert(line_models(out@) =~= before + context_lines(rows.subrange(0, r as int + 1)));
                r = r + 1;
            }
            assert(rows.subrange(0, rows.len() as int) =~= rows);
        } else {
            let mut r: usize = 0;
            while r < hunk.rows.len()
                invariant
                    rows == rows_view(hunk.rows@),
                    r <= hunk.rows@.len(),
                    line_models(out@) == before + deleted_lines(rows.subrange(0, r as int)),
                decreases hunk.rows@.len() - r,
            {
                proof {
                    assert(rows.subrange(0, r as int + 1).drop_last() =~= rows.subrange(0, r as int));
                    assert(rows[r as int] == hunk.rows@[r as int].row_view());
                    assert(rows.subrange(0, r as int + 1).last() == rows[r as int]);
                }
                let ghost prev_out = line_models(out@);
                let ghost cur = rows.subrange(0, r as int + 1);
                match &hunk.rows[r].left {
                    Some(l) => {
                        out.push(side_line(LineOrigin::Delete, l));
                        assert(deleted_lines(cur) == deleted_lines(cur.drop_last()).push(side_model(LineOrigin::Delete, *l)));
                        assert(line_models(out@) =~= prev_out.push(side_model(LineOrigin::Delete, *l)));
                    },
                    None => {
                        assert(deleted_lines(cur) == deleted_lines(cur.drop_last()));
                    },
                }
                assert(line_models(out@) =~= before + deleted_lines(rows.subrange(0, r as int + 1)));
                r = r + 1;
            }
            assert(rows.subrange(0, rows.len() as int) =~= rows);
            let ghost mid = line_models(out@);
            let mut r: usize = 0;
            while r < hunk.rows.len()
                invariant
                    rows == rows_view(hunk.rows@),
                    r <= hunk.rows@.len(),
                    line_models(out@) == mid + inserted_lines(rows.subrange(0, r as int)),
                decreases hunk.rows@.len() - r,
            {
                proof {
                    assert(rows.subrange(0, r as int + 1).drop_last() =~= rows.subrange(0, r as int));
                    assert(rows[r as int] == hunk.rows@[r as int].row_view());
                    assert(rows.subrange(0, r as int + 1).last() == rows[r as int]);
                }
                let ghost prev_out = line_models(out@);
                let ghost cur = rows.subrange(0, r as int + 1);
                match &hunk.rows[r].right {
                    Some(l) => {
                        out.push(side_line(LineOrigin::Insert, l));
                        assert(inserted_lines(cur) == inserted_lines(cur.drop_last()).push(side_model(LineOrigin::Insert, *l)));
                        assert(line_models(out@) =~= prev_out.push(side_model(LineOrigin::Insert, *l)));
                    },
                    None => {
                        assert(inserted_lines(cur) == inserted_lines(cur.drop_last()));
                    },
                }
                assert(line_models(out@) =~= mid + inserted_lines(rows.subrange(0, r as int + 1)));
                r = r + 1;
            }
            assert(line_models(out@) =~= before + (deleted_lines(rows) + inserted_lines(rows)));
        }
        h = h + 1;
    }
    assert(hs.subrange(0, hs.len() as int) =~= hs);
    out
}

/// Windows are ordered, within the stream, and separated by a gap.
pub open spec fn windows_ok(ws: Seq<(int, int)>, n: int) -> bool {
    &&& forall|k: int| 0 <= k < ws.len() ==> 0 <= (#[trigger] ws[k]).0 <= ws[k].1 < n
    &&& forall|k: int, j: int| #![trigger ws[k], ws[j]] 0 <= k && j == k + 1 && j < ws.len() ==> ws[k].1 + 1 < ws[j].0
}

fn compute_windows(flat: &Vec<PatchLine>, context: usize) -> (ws: Vec<(usize, usize)>)
    ensures
        ws@.map_values(|w: (usize, usize)| (w.0 as int, w.1 as int)) == windows_upto(line_models(flat@), context as nat, flat@.len()),
        windows_ok(ws@.map_values(|w: (usize, usize)| (w.0 as int, w.1 as int)), flat@.len() as int),
{
    let ghost fl = line_models(flat@);
    let n = flat.len();
    let mut ws: Vec<(usize, usize)> = Vec::new();
    let mut i: usize = 0;
    assert(ws@.map_values(|w: (usize, usize)| (w.0 as int, w.1 as int)) =~= Seq::<(int, int)>::empty());
    while i < n
        invariant
            fl == line_models(flat@),
            n == flat@.len(),
            i <= n,
            ws@.map_values(|w: (usize, usize)| (w.0 as int, w.1 as int)) == windows_upto(fl, context as nat, i as nat),
            windows_ok(ws@.map_values(|w: (usize, usize)| (w.0 as int, w.1 as int)), n as int),
            ws@.len() > 0 ==> ws@.last().1 < i + context + 1 || ws@.last().1 == n - 1,
            ws@.len() > 0 ==> ws@.last().0 <= i,
        decreases n - i,
    {
        let ghost before = ws@.map_values(|w: (usize, usize)| (w.0 as int, w.1 as int));
        if !matches!(flat[i].origin, LineOrigin::Context) {
            let lo = if i >= context { i - context } else { 0 };
            let hi = if context <= n - 1 - i { i + context } else { n - 1 };
            let m = ws.len();
            proof {
                if m > 0 {
                    assert(before[m - 1] == (ws@[m - 1].0 as int, ws@[m - 1].1 as int));
                    assert(ws@[m - 1].1 < n);
                }
            }
            if m > 0 && lo <= ws[m - 1].1 + 1 {
                let last = ws[m - 1];
                let new_hi = if hi > last.1 { hi } else { last.1 };
                ws.set(m - 1, (last.0, new_hi));
                proof {
                    assert(ws@.map_values(|w: (usize, usize)| (w.0 as int, w.1 as int)) =~= merge_window(before, lo as int, hi as int));
                    let s = ws@.map_values(|w: (usize, usize)| (w.0 as int, w.1 as int));
                    assert forall|k: int, j: int| #![trigger s[k], s[j]] 0 <= k && j == k + 1 && j < s.len() implies s[k].1 + 1 < s[j].0 by {
                        assert(s[k] == before[k]);
                        assert(s[j].0 == before[j].0);
                    }
                }
            } else {
                ws.push((lo, hi));
                proof {
                    assert(ws@.map_values(|w: (usize, usize)| (w.0 as int, w.1 as int)) =~= merge_window(before, lo as int, hi as int));
                    let s = ws@.map_values(|w: (usize, usize)| (w.0 as int, w.1 as int));
                    assert forall|k: int, j: int| #![trigger s[k], s[j]] 0 <= k && j == k + 1 && j < s.len() implies s[k].1 + 1 < s[j].0 by {
                        if j < s.len() - 1 {
                            assert(s[k] == before[k]);
                            assert(s[j] == before[j]);
                        }
                    }
                }
            }
        }
        proof {
            assert(fl[i as int] == flat@[i as int].model());
        }
        i = i + 1;
    }
    ws
}

proof fn lemma_counts_push(ls: Seq<LineModel>, l: LineModel)
    ensures
        old_count(ls.push(l)) == old_count(ls) + if l.0 != LineOrigin::Insert { 1nat } else { 0nat },
        new_count(ls.push(l)) == new_count(ls) + if l.0 != LineOrigin::Delete { 1nat } else { 0nat },
{
    assert(ls.push(l).drop_last() =~= ls);
}

proof fn lemma_counts_le(ls: Seq<LineModel>)
    ensures
        old_count(ls) <= ls.len(),
        new_count(ls) <= ls.len(),
    decreases ls.len(),
{
    if ls.len() > 0 {
        lemma_counts_le(ls.drop_last());
    }
}

/// The lengths of a hunk count its lines: the old length its context and
/// deleted lines, the new length its context and inserted lines.
pub open spec fn hunk_counts_agree(h: PatchHunk) -> bool {
    &&& h.old_len == old_count(line_models(h.lines@))
    &&& h.new_len == new_count(line_models(h.lines@))
}

fn window_hunk_exec(flat: &Vec<PatchLine>, lo: usize, hi: usize, old_line: u32, new_line: u32) -> (h: PatchHunk)
    requires
        lo <= hi < flat@.len(),
        flat@.len() < u32::MAX,
        old_line == old_count(line_models(flat@).subrange(0, lo as int)) + 1,
        new_line == new_count(line_models(flat@).subrange(0, lo as int)) + 1,
    ensures
        h.model() == window_hunk(line_models(flat@), lo as int, hi as int),
        hunk_counts_agree(h),
{
    let ghost fl = line_models(flat@);
    let mut lines: Vec<PatchLine> = Vec::new();
    let mut old_len: u32 = 0;
    let mut new_len: u32 = 0;
    let mut k = lo;
    proof {
        lemma_counts_le(fl.subrange(0, lo as int));
        assert(fl.subrange(lo as int, lo as int) =~= Seq::<LineModel>::empty());
    }
    while k <= hi
        invariant
            fl == line_models(flat@),
            lo <= k <= hi + 1,
            hi < flat@.len() < u32::MAX,
            line_models(lines@) == fl.subrange(lo as int, k as int),
            old_len == old_count(fl.subrange(lo as int, k as int)),
            new_len == new_count(fl.subrange(lo as int, k as int)),
            old_len <= k - lo,
            new_len <= k - lo,
        decreases hi + 1 - k,
    {
        let l = &flat[k];
        proof {
            assert(fl.subrange(lo as int, k as int + 1) =~= fl.subrange(lo as int, k as int).push(fl[k as int]));
            lemma_counts_push(fl.subrange(lo as int, k as int), fl[k as int]);
            assert(fl[k as int] == l.model());
        }
        match l.origin {
            LineOrigin::Context => {
                old_len = old_len + 1;
                new_len = new_len + 1;
            },
            LineOrigin::Delete => old_len = old_len + 1,
            LineOrigin::Insert => new_len = new_len + 1,
        }
        lines.push(l.duplicate());
        assert(line_models(lines@) =~= fl.subrange(lo as int, k as int + 1));
        k = k + 1;
    }
    let (old_start, old_len) = if old_len == 0 {
        (if old_line > 0 { old_line - 1 } else { 0 }, 0)
    } else {
        (old_line, old_len)
    };
    let (new_start, new_len) = if new_len == 0 {
        (if new_line > 0 { new_line - 1 } else { 0 }, 0)
    } else {
        (new_line, new_len)
    };
    PatchHunk { old_start, old_len, new_start, new_len, lines }
}

/// The total number of lines of a hunk list.
pub open spec fn total_lines(hs: Seq<HunkModel>) -> nat
    decreases hs.len(),
{
    if hs.len() == 0 {
        0
    } else {
        total_lines(hs.drop_last()) + hs.last().4.len()
    }
}

fn coalesce(flat: &Vec<PatchLine>, context: usize) -> (hunks: Vec<PatchHunk>)
    requires
        flat@.len() < u32::MAX,
    ensures
        hunk_models_of(hunks@) == coalesce_spec(line_models(flat@), context as nat),
        total_lines(hunk_models_of(hunks@)) <= flat@.len(),
        forall|k: int| 0 <= k < hunks@.len() ==> hunk_counts_agree(#[trigger] hunks@[k]),
{
    let ghost fl = line_models(flat@);
    let ws = compute_windows(flat, context);
    let ghost wv = ws@.map_values(|w: (usize, usize)| (w.0 as int, w.1 as int));
    let mut hunks: Vec<PatchHunk> = Vec::new();
    let mut old_line: u32 = 1;
    let mut new_line: u32 = 1;
    let mut cursor: usize = 0;
    let mut w: usize = 0;
    proof {
        assert(fl.subrange(0, 0) =~= Seq::<LineModel>::empty());
        assert(hunk_models_of(hunks@) =~= Seq::<HunkModel>::empty());
    }
    while w < ws.len()
        invariant
            fl == line_models(flat@),
            flat@.len() < u32::MAX,
            wv == ws@.map_values(|w: (usize, usize)| (w.0 as int, w.1 as int)),
            wv == windows_upto(fl, context as nat, flat@.len()),
            windows_ok(wv, flat@.len() as int),
            w <= ws@.len(),
            cursor <= flat@.len(),
            w < ws@.len() ==> cursor <= ws@[w as int].0,
            old_line == old_count(fl.subrange(0, cursor as int)) + 1,
            new_line == new_count(fl.subrange(0, cursor as int)) + 1,
            hunk_models_of(hunks@) == wv.subrange(0, w as int).map_values(|x: (int, int)| window_hunk(fl, x.0, x.1)),
            total_lines(hunk_models_of(hunks@)) <= cursor,
            forall|k: int| 0 <= k < hunks@.len() ==> hunk_counts_agree(#[trigger] hunks@[k]),
        decreases ws@.len() - w,
    {
        let (lo, hi) = ws[w];
        proof {
            assert(wv[w as int] == (lo as int, hi as int));
            lemma_counts_le(fl.subrange(0, cursor as int));
        }
        while cursor < lo
            invariant
                fl == line_models(flat@),
                flat@.len() < u32::MAX,
                cursor <= lo < flat@.len(),
                old_line == old_count(fl.subrange(0, cursor as int)) + 1,
                new_line == new_count(fl.subrange(0, cursor as int)) + 1,
            decreases lo - cursor,
        {
            proof {
                assert(fl.subrange(0, cursor as int + 1) =~= fl.subrange(0, cursor as int).push(fl[cursor as int]));
                lemma_counts_push(fl.subrange(0, cursor as int), fl[cursor as int]);
                lemma_counts_le(fl.subrange(0, cursor as int));
                assert(fl[cursor as int] == flat@[cursor as int].model());
            }
            match flat[cursor].origin {
                LineOrigin::Context => {
                    old_line = old_line + 1;
                    new_line = new_line + 1;
                },
                LineOrigin::Delete => old_line = old_line + 1,
                LineOrigin::Insert => new_line = new_line + 1,
            }
            cursor = cursor + 1;
        }
        let hunk = window_hunk_exec(flat, lo, hi, old_line, new_line);
        let ghost before = hunk_models_of(hunks@);
        hunks.push(hunk);
        proof {
            assert(hunk_models_of(hunks@) =~= before.push(hunk.model()));
            assert(hunk_models_of(hunks@).drop_last() =~= before);
            assert(wv.subrange(0, w as int + 1).map_values(|x: (int, int)| window_hunk(fl, x.0, x.1))
                =~= wv.subrange(0, w as int).map_values(|x: (int, int)| window_hunk(fl, x.0, x.1)).push(window_hunk(fl, lo as int, hi as int)));
        }
        // Advance the counters over the hunk's own lines.
        while cursor <= hi
            invariant
                fl == line_models(flat@),
                flat@.len() < u32::MAX,
                lo <= cursor <= hi + 1,
                hi < flat@.len(),
                old_line == old_count(fl.subrange(0, cursor as int)) + 1,
                new_line == new_count(fl.subrange(0, cursor as int)) + 1,
            decreases hi + 1 - cursor,
        {
            proof {
                assert(fl.subrange(0, cursor as int + 1) =~= fl.subrange(0, cursor as int).push(fl[cursor as int]));
                lemma_counts_push(fl.subrange(0, cursor as int), fl[cursor as int]);
                lemma_counts_le(fl.subrange(0, cursor as int));
                assert(fl[cursor as int] == flat@[cursor as int].model());
            }
            match flat[cursor].origin {
                LineOrigin::Context => {
                    old_line = old_line + 1;
                    new_line = new_line + 1;
                },
                LineOrigin::Delete => old_line = old_line + 1,
                LineOrigin::Insert => new_line = new_line + 1,
            }
            cursor = cursor + 1;
        }
        proof {
            if w + 1 < ws@.len() {
                assert(wv[w as int].1 + 1 < wv[w as int + 1].0);
            }
        }
        w = w + 1;
    }
    proof {
        assert(wv.subrange(0, wv.len() as int) =~= wv);
    }
    hunks
}

/// The hunk models of a list of hunks (as `model()`).
pub open spec fn hunk_models_of(hs: Seq<PatchHunk>) -> Seq<HunkModel> {
    hs.map_values(|h: PatchHunk| h.model())
}

/// The unified-diff hunks of one modified file; empty when the documents
/// are identical.
pub fn hunks_from_diff(diff: &DiffDocument, options: PatchOptions) -> (hs: Vec<PatchHunk>)
    requires
        flatten_spec(diff.hunks@).len() < u32::MAX,
    ensures
        hunk_models_of(hs@) == diff_hunks(*diff, options.context_lines as nat),
        forall|k: int| 0 <= k < hs@.len() ==> hunk_counts_agree(#[trigger] hs@[k]),
{
    let flat = flatten(diff);
    coalesce(&flat, options.context_lines)
}


proof fn lemma_origin_counts_le(ls: Seq<PatchLine>)
    ensures
        origin_counts(ls).0 + origin_counts(ls).1 <= ls.len(),
    decreases ls.len(),
{
    if ls.len() > 0 {
        lemma_origin_counts_le(ls.drop_last());
    }
}

proof fn lemma_hunk_deltas_le(hs: Seq<PatchHunk>)
    ensures
        hunk_deltas(hs).0 + hunk_deltas(hs).1 <= total_lines(hunk_models_of(hs)),
    decreases hs.len(),
{
    if hs.len() > 0 {
        lemma_hunk_deltas_le(hs.drop_last());
        lemma_origin_counts_le(hs.last().lines@);
        assert(hunk_models_of(hs).drop_last() =~= hunk_models_of(hs.drop_last()));
        assert(hunk_models_of(hs).last().4.len() == hs.last().lines@.len());
    }
}

/// The summary counts fit in machine words.
pub open spec fn summary_fits(files: Seq<PatchFileChange>) -> bool {
    summary_of(files).4 <= usize::MAX && summary_of(files).5 <= usize::MAX
}

proof fn lemma_summary_counts(files: Seq<PatchFileChange>)
    ensures
        summary_of(files).0 + summary_of(files).1 + summary_of(files).2 + summary_of(files).3 == files.len(),
    decreases files.len(),
{
    if files.len() > 0 {
        lemma_summary_counts(files.drop_last());
    }
}

fn line_count_deltas(lines: &Vec<PatchLine>) -> (r: (usize, usize))
    ensures
        (r.0 as nat, r.1 as nat) == origin_counts(lines@),
{
    let mut add: usize = 0;
    let mut del: usize = 0;
    let mut i: usize = 0;
    while i < lines.len()
        invariant
            i <= lines@.len(),
            (add as nat, del as nat) == origin_counts(lines@.subrange(0, i as int)),
            add + del <= i,
        decreases lines@.len() - i,
    {
        proof {
            assert(lines@.subrange(0, i as int + 1).drop_last() =~= lines@.subrange(0, i as int));
        }
        match lines[i].origin {
            LineOrigin::Insert => add = add + 1,
            LineOrigin::Delete => del = del + 1,
            LineOrigin::Context => {},
        }
        i = i + 1;
    }
    assert(lines@.subrange(0, lines@.len() as int) =~= lines@);
    (add, del)
}

fn change_line_deltas(change: &PatchFileChange) -> (r: (u128, u128))
    ensures
        (r.0 as nat, r.1 as nat) == change_deltas(*change),
{
    match change {
        PatchFileChange::Modify { hunks, .. } => {
            let mut add: u128 = 0;
            let mut del: u128 = 0;
            let mut i: usize = 0;
            while i < hunks.len()
                invariant
                    i <= hunks@.len(),
                    (add as nat, del as nat) == hunk_deltas(hunks@.subrange(0, i as int)),
                    add <= i * 0xFFFF_FFFF_FFFF_FFFF,
                    del <= i * 0xFFFF_FFFF_FFFF_FFFF,
                decreases hunks@.len() - i,
            {
                proof {
                    assert(hunks@.subrange(0, i as int + 1).drop_last() =~= hunks@.subrange(0, i as int));
                }
                let (a, d) = line_count_deltas(&hunks[i].lines);
                assert(i * 0xFFFF_FFFF_FFFF_FFFF + 0xFFFF_FFFF_FFFF_FFFF <= u128::MAX) by (nonlinear_arith)
                    requires i <= 0xFFFF_FFFF_FFFF_FFFF;
                add = add + a as u128;
                del = del + d as u128;
                assert((i + 1) * 0xFFFF_FFFF_FFFF_FFFF == i * 0xFFFF_FFFF_FFFF_FFFF + 0xFFFF_FFFF_FFFF_FFFF) by (nonlinear_arith);
                i = i + 1;
            }
            assert(hunks@.subrange(0, hunks@.len() as int) =~= hunks@);
            (add, del)
        },
        PatchFileChange::Add { lines, .. } => (lines.len() as u128, 0),
        PatchFileChange::Delete { lines, .. } => (0, lines.len() as u128),
        PatchFileChange::BinaryNotice { .. } => (0, 0),
    }
}

impl PatchDocument {
    /// A unified patch of `files`, with the summary computed from them:
    /// per-variant file counts and total inserted and deleted lines.
    pub fn from_files(files: Vec<PatchFileChange>) -> (d: Self)
        requires
            summary_fits(files@),
        ensures
            d.format == PatchFormat::Unified,
            d.files@ == files@,
            summary_tuple(d.summary) == summary_of(files@),
    {
        let mut s = PatchSummary { files_changed: 0, files_added: 0, files_deleted: 0, binary_files: 0, additions: 0, deletions: 0 };
        let mut i: usize = 0;
        proof {
            lemma_summary_counts(files@);
        }
        while i < files.len()
            invariant
                i <= files@.len(),
                summary_fits(files@),
                summary_tuple(s) == summary_of(files@.subrange(0, i as int)),
                s.files_changed + s.files_added + s.files_deleted + s.binary_files == i,
            decreases files@.len() - i,
        {
            proof {
                assert(files@.subrange(0, i as int + 1).drop_last() =~= files@.subrange(0, i as int));
                lemma_summary_prefix(files@, i as int + 1);
            }
            let (add, del) = change_line_deltas(&files[i]);
            s.additions = (s.additions as u128 + add) as usize;
            s.deletions = (s.deletions as u128 + del) as usize;
            match &files[i] {
                PatchFileChange::Modify { .. } => s.files_changed = s.files_changed + 1,
                PatchFileChange::Add { .. } => s.files_added = s.files_added + 1,
                PatchFileChange::Delete { .. } => s.files_deleted = s.files_deleted + 1,
                PatchFileChange::BinaryNotice { .. } => s.binary_files = s.binary_files + 1,
            }
            i = i + 1;
        }
        assert(files@.subrange(0, files@.len() as int) =~= files@);
        PatchDocument { format: PatchFormat::Unified, files, summary: s }
    }
}

proof fn lemma_summary_prefix(files: Seq<PatchFileChange>, k: int)
    requires
        0 <= k <= files.len(),
    ensures
        summary_of(files.subrange(0, k)).4 <= summary_of(files).4,
        summary_of(files.subrange(0, k)).5 <= summary_of(files).5,
    decreases files.len(),
{
    if k < files.len() {
        lemma_summary_prefix(files.drop_last(), k);
        assert(files.drop_last().subrange(0, k) =~= files.subrange(0, k));
    } else {
        assert(files.subrange(0, k) =~= files);
    }
}

/// A single-file `Modify` patch of a two-file comparison, or `None` when
/// the inputs are identical (no hunk).
pub fn patch_from_file_diff(rel_path: &str, diff: &DiffDocument, options: PatchOptions) -> (r: Option<PatchDocument>)
    requires
        flatten_spec(diff.hunks@).len() < u32::MAX,
    ensures
        diff_hunks(*diff, options.context_lines as nat).len() == 0 ==> r is None,
        diff_hunks(*diff, options.context_lines as nat).len() > 0 ==> (r matches Some(d)
            && d.files@.len() == 1
            && (d.files@[0] matches PatchFileChange::Modify { path, hunks } && path@ == rel_path@
                && hunk_models_of(hunks@) == diff_hunks(*diff, options.context_lines as nat)
                && forall|k: int| 0 <= k < hunks@.len() ==> hunk_counts_agree(#[trigger] hunks@[k]))
            && summary_tuple(d.summary) == summary_of(d.files@)),
{
    let flat = flatten(diff);
    let hunks = coalesce(&flat, options.context_lines);
    if hunks.len() == 0 {
        return None;
    }
    let ghost hs = hunks@;
    let change = PatchFileChange::Modify { path: String::from_str(rel_path), hunks };
    let files = vec![change];
    proof {
        lemma_hunk_deltas_le(hs);
        assert(files@.drop_last() =~= Seq::<PatchFileChange>::empty());
        assert(summary_of(Seq::<PatchFileChange>::empty()) == (0nat, 0nat, 0nat, 0nat, 0nat, 0nat));
        assert(summary_of(files@.drop_last()) == (0nat, 0nat, 0nat, 0nat, 0nat, 0nat));
        assert(line_models(flat@).len() == flat@.len());
        assert(files@.last() == change);
        assert(change_deltas(change) == hunk_deltas(hs));
        assert(summary_of(files@).4 == hunk_deltas(hs).0);
        assert(summary_of(files@).5 == hunk_deltas(hs).1);
    }
    Some(PatchDocument::from_files(files))
}

/// Which side a whole-file entry reads.
#[derive(Debug, Clone, Copy, PartialEq, Eq, Structural)]
pub enum Side {
    Left,
    Right,
}

/// The lines of one side of a line stream, as a whole-file entry's lines:
/// the left side (context and deletions) as deletions, or the right side
/// (context and insertions) as insertions.
pub open spec fn side_lines_spec(flat: Seq<LineModel>, side: Side) -> Seq<LineModel>
    decreases flat.len(),
{
    if flat.len() == 0 {
        Seq::empty()
    } else {
        let prev = side_lines_spec(flat.drop_last(), side);
        let l = flat.last();
        match side {
            Side::Left => if l.0 != LineOrigin::Insert { prev.push((LineOrigin::Delete, l.1, l.2)) } else { prev },
            Side::Right => if l.0 != LineOrigin::Delete { prev.push((LineOrigin::Insert, l.1, l.2)) } else { prev },
        }
    }
}

/// Whole-file lines for an add (right side) or delete (left side) entry.
pub fn whole_side_lines(diff: &DiffDocument, side: Side) -> (lines: Vec<PatchLine>)
    ensures
        line_models(lines@) == side_lines_spec(flatten_spec(diff.hunks@), side),
{
    let flat = flatten(diff);
    let ghost fl = line_models(flat@);
    let mut out: Vec<PatchLine> = Vec::new();
    let mut i: usize = 0;
    assert(line_models(out@) =~= side_lines_spec(fl.subrange(0, 0), side));
    while i < flat.len()
        invariant
            fl == line_models(flat@),
            i <= flat@.len(),
            line_models(out@) == side_lines_spec(fl.subrange(0, i as int), side),
        decreases flat@.len() - i,
    {
        proof {
            assert(fl.subrange(0, i as int + 1).drop_last() =~= fl.subrange(0, i as int));
            assert(fl[i as int] == flat@[i as int].model());
        }
        let l = &flat[i];
        let keep = match side {
            Side::Left => !matches!(l.origin, LineOrigin::Insert),
            Side::Right => !matches!(l.origin, LineOrigin::Delete),
        };
        if keep {
            let origin = match side {
                Side::Left => LineOrigin::Delete,
                Side::Right => LineOrigin::Insert,
            };
            out.push(PatchLine { origin, content: l.content.clone(), newline: l.newline });
        }
        assert(line_models(out@) =~= side_lines_spec(fl.subrange(0, i as int + 1), side));
        i = i + 1;
    }
    assert(fl.subrange(0, fl.len() as int) =~= fl);
    out
}

} // verus!
