//! Diff engine over `similar`.
//!
//! Lines are split by the engine itself, preserving `\n`, `\r\n` and `\r`
//! terminators so that newline-style changes are visible and merge results
//! round-trip the original line endings. The diff runs over a per-line key
//! to which the ignore options apply.

use vstd::prelude::*;

use super::inline::{inline_diff_rows, inline_fits_row, row_over_limit};
use super::model::{
    hunk_id_for, hunk_id_spec, newline_chars, DiffDocument, DiffHunk, DiffRow, DiffStats,
    DiffWarning, HunkKind, LineRange, NewlineMarker, SideLine,
};
use super::options::{DiffAlgorithm, DiffOptions, InlineMode};
use super::script::{deadline_after, diff_keys, elapsed_exceeds, now, similar_line_ops, strings_view, valid_edit_script, EditOp};
use crate::merge::three_way::engine::copy_lines;
use crate::merge::three_way::line::{render_spec, split_lines, well_formed_lines, MergeLine};
use vstd::string::StringSliceAdditionalSpecFns;
use crate::text::{remove_whitespace, to_lowercase, unicode_lowercase, unicode_white_space, without_whitespace};

verus! {

/// The comparison key of a line under the ignore options: content (plus the
/// terminator unless newline differences are ignored), whitespace removed
/// when ignored, lowercased when case is ignored.
pub open spec fn line_key_spec(content: Seq<char>, newline: NewlineMarker, o: DiffOptions) -> Seq<char> {
    let k0 = if o.ignore_newlines { content } else { content + newline_chars(newline) };
    let k1 = if o.ignore_whitespace { without_whitespace(k0) } else { k0 };
    if o.ignore_case { unicode_lowercase(k1) } else { k1 }
}

fn line_key(line: &MergeLine, options: &DiffOptions) -> (k: String)
    ensures
        k@ == line_key_spec(line.content@, line.newline, *options),
{
    let mut key = if options.ignore_newlines { line.content.clone() } else { line.rendered() };
    if options.ignore_whitespace {
        key = remove_whitespace(key.as_str());
    }
    if options.ignore_case {
        key = to_lowercase(key.as_str());
    }
    key
}

fn keys_of(lines: &Vec<MergeLine>, options: &DiffOptions) -> (keys: Vec<String>)
    ensures
        keys@.len() == lines@.len(),
        forall|i: int| 0 <= i < lines@.len()
            ==> (#[trigger] keys@[i])@ == line_key_spec(lines@[i].content@, lines@[i].newline, *options),
{
    let mut keys: Vec<String> = Vec::new();
    let mut i: usize = 0;
    while i < lines.len()
        invariant
            i <= lines@.len(),
            keys@.len() == i,
            forall|j: int| 0 <= j < i
                ==> (#[trigger] keys@[j])@ == line_key_spec(lines@[j].content@, lines@[j].newline, *options),
        decreases lines@.len() - i,
    {
        keys.push(line_key(&lines[i], options));
        i = i + 1;
    }
    keys
}

/// The hunk kind of an edit-script tag code.
pub open spec fn op_kind(tag: u8) -> HunkKind {
    if tag == 0 { HunkKind::Equal }
    else if tag == 1 { HunkKind::Delete }
    else if tag == 2 { HunkKind::Insert }
    else { HunkKind::Replace }
}

/// The side line for line `idx` (0-based) of a split document.
pub open spec fn side_line_of(lines: Seq<MergeLine>, idx: int) -> SideLine {
    SideLine {
        original_line_number: Some((idx + 1) as u32),
        content: lines[idx].content,
        newline: lines[idx].newline,
    }
}

/// Side lines `from..to` of a split document.
pub open spec fn side_lines_of(lines: Seq<MergeLine>, from: int, to: int) -> Seq<SideLine> {
    Seq::new((to - from) as nat, |i: int| side_line_of(lines, from + i))
}

/// The left lines of a row list, in order.
pub open spec fn rows_left(rows: Seq<DiffRow>) -> Seq<SideLine>
    decreases rows.len(),
{
    if rows.len() == 0 {
        Seq::empty()
    } else {
        rows_left(rows.drop_last()) + match rows.last().left {
            Some(l) => seq![l],
            None => Seq::empty(),
        }
    }
}

/// The right lines of a row list, in order.
pub open spec fn rows_right(rows: Seq<DiffRow>) -> Seq<SideLine>
    decreases rows.len(),
{
    if rows.len() == 0 {
        Seq::empty()
    } else {
        rows_right(rows.drop_last()) + match rows.last().right {
            Some(l) => seq![l],
            None => Seq::empty(),
        }
    }
}

/// All left lines of a hunk list, in order.
pub open spec fn hunks_left(hunks: Seq<DiffHunk>) -> Seq<SideLine>
    decreases hunks.len(),
{
    if hunks.len() == 0 {
        Seq::empty()
    } else {
        hunks_left(hunks.drop_last()) + rows_left(hunks.last().rows@)
    }
}

/// All right lines of a hunk list, in order.
pub open spec fn hunks_right(hunks: Seq<DiffHunk>) -> Seq<SideLine>
    decreases hunks.len(),
{
    if hunks.len() == 0 {
        Seq::empty()
    } else {
        hunks_right(hunks.drop_last()) + rows_right(hunks.last().rows@)
    }
}

/// The text of a sequence of side lines, each with its terminator.
pub open spec fn side_render(lines: Seq<SideLine>) -> Seq<char>
    decreases lines.len(),
{
    if lines.len() == 0 {
        Seq::empty()
    } else {
        side_render(lines.drop_last()) + lines.last().rendered()
    }
}

/// Number of changed (non-equal) hunks.
pub open spec fn changed_hunks(hunks: Seq<DiffHunk>) -> nat
    decreases hunks.len(),
{
    if hunks.len() == 0 {
        0
    } else {
        changed_hunks(hunks.drop_last()) + if hunks.last().kind != HunkKind::Equal { 1nat } else { 0nat }
    }
}

/// Lines on the right side of changed hunks (inserted lines).
pub open spec fn changed_right_lines(hunks: Seq<DiffHunk>) -> nat
    decreases hunks.len(),
{
    if hunks.len() == 0 {
        0
    } else {
        changed_right_lines(hunks.drop_last())
            + if hunks.last().kind != HunkKind::Equal { hunks.last().right_range.len as nat } else { 0nat }
    }
}

/// Lines on the left side of changed hunks (deleted lines).
pub open spec fn changed_left_lines(hunks: Seq<DiffHunk>) -> nat
    decreases hunks.len(),
{
    if hunks.len() == 0 {
        0
    } else {
        changed_left_lines(hunks.drop_last())
            + if hunks.last().kind != HunkKind::Equal { hunks.last().left_range.len as nat } else { 0nat }
    }
}

/// Number of replace hunks with a row too long for inline refinement.
pub open spec fn oversized_replace_hunks(hunks: Seq<DiffHunk>) -> nat
    decreases hunks.len(),
{
    if hunks.len() == 0 {
        0
    } else {
        oversized_replace_hunks(hunks.drop_last()) + if hunks.last().kind == HunkKind::Replace
            && exists|i: int| 0 <= i < hunks.last().rows@.len() && row_over_limit(#[trigger] hunks.last().rows@[i]) {
            1nat
        } else {
            0nat
        }
    }
}

/// The shape of hunk number `k`: its id, the ranges' agreement with its
/// rows, line numbering, and the kind's agreement with which sides are
/// present. Equal hunks pair lines whose keys are equal.
pub open spec fn hunk_well_shaped(h: DiffHunk, k: int, o: DiffOptions) -> bool {
    let ll = h.left_range.len as int;
    let rl = h.right_range.len as int;
    &&& h.hunk_id == hunk_id_spec(k as u64, h.kind, h.left_range, h.right_range)
    &&& h.rows@.len() == if ll >= rl { ll } else { rl }
    &&& h.kind == HunkKind::Insert ==> ll == 0
    &&& h.kind == HunkKind::Delete ==> rl == 0
    &&& h.kind == HunkKind::Equal ==> ll == rl
    &&& forall|i: int| 0 <= i < h.rows@.len() ==> {
        &&& ((#[trigger] h.rows@[i]).left is Some <==> i < ll)
        &&& (h.rows@[i].right is Some <==> i < rl)
        &&& (h.rows@[i].left matches Some(l) ==> l.original_line_number == Some((h.left_range.start + i) as u32))
        &&& (h.rows@[i].right matches Some(r) ==> r.original_line_number == Some((h.right_range.start + i) as u32))
        &&& (h.kind == HunkKind::Equal ==> line_key_spec(h.rows@[i].left->0.content@, h.rows@[i].left->0.newline, o)
            == line_key_spec(h.rows@[i].right->0.content@, h.rows@[i].right->0.newline, o))
    }
}

/// The inline decoration of every row of a hunk: refined for a replace
/// hunk under eager refinement whose rows all fit the per-side limit,
/// absent otherwise.
pub open spec fn hunk_inline_ok(h: DiffHunk, o: DiffOptions) -> bool {
    forall|i: int| 0 <= i < h.rows@.len() ==> {
        if o.inline_mode == InlineMode::EagerForSmallHunks && h.kind == HunkKind::Replace
            && forall|m: int| 0 <= m < h.rows@.len() ==> !row_over_limit(#[trigger] h.rows@[m]) {
            (#[trigger] h.rows@[i]).inline matches Some(d) && inline_fits_row(h.rows@[i], d)
        } else {
            h.rows@[i].inline is None
        }
    }
}

/// The warnings of a diff, in the order they are raised: the large-input
/// policy, an expired deadline, then one per replace hunk skipped by eager
/// inline refinement.
pub open spec fn expected_warnings(large: bool, expired: bool, skipped: nat) -> Seq<DiffWarning> {
    (if large { seq![DiffWarning::LargeFilePolicyApplied] } else { Seq::empty() })
        + (if expired { seq![DiffWarning::DeadlineExpired] } else { Seq::empty() })
        + Seq::new(skipped, |i: int| DiffWarning::InlineSkippedHunkTooLarge)
}

/// Byte length of both inputs together, saturating at `u64::MAX`.
pub open spec fn total_bytes_spec(a: nat, b: nat) -> nat {
    if a + b > u64::MAX { u64::MAX as nat } else { a + b }
}

/// Options in force after the large-input policy: inline refinement is
/// disabled when both inputs together exceed the full-diff byte limit.
pub open spec fn effective_options(o: DiffOptions, total_bytes: nat) -> DiffOptions {
    if total_bytes > o.max_file_bytes_for_full_diff {
        DiffOptions { inline_mode: InlineMode::Disabled, ..o }
    } else {
        o
    }
}

proof fn lemma_line_count_bound(lines: Seq<MergeLine>)
    requires
        well_formed_lines(lines),
    ensures
        lines.len() <= render_spec(lines).len(),
    decreases lines.len(),
{
    if lines.len() > 0 {
        let prefix = lines.drop_last();
        assert(well_formed_lines(prefix)) by {
            assert forall|i: int, k: int| 0 <= i < prefix.len() && 0 <= k < prefix[i].content@.len()
                implies !crate::merge::three_way::line::is_line_break(#[trigger] prefix[i].content@[k]) by {
                assert(prefix[i] == lines[i]);
            }
            assert forall|i: int| 0 <= i < prefix.len() && #[trigger] prefix[i].newline == NewlineMarker::NoNewline
                implies i == prefix.len() - 1 && prefix[i].content@.len() > 0 by {
                assert(prefix[i] == lines[i]);
            }
            assert forall|i: int, j: int| #![trigger prefix[i], prefix[j]]
                0 <= i && j == i + 1 && j < prefix.len() && prefix[i].newline == NewlineMarker::Cr
                implies !(prefix[j].content@.len() == 0 && prefix[j].newline == NewlineMarker::Lf) by {
                assert(prefix[i] == lines[i]);
                assert(prefix[j] == lines[j]);
            }
        }
        lemma_line_count_bound(prefix);
        let last = lines.last();
        assert(lines[lines.len() - 1] == last);
        assert(last.spec_rendered().len() >= 1);
    }
}

proof fn lemma_rows_left(rows: Seq<DiffRow>, lines: Seq<MergeLine>, from: int, len: int)
    requires
        0 <= len <= rows.len(),
        forall|i: int| 0 <= i < rows.len() ==> (#[trigger] rows[i]).left
            == if i < len { Some(side_line_of(lines, from + i)) } else { None },
    ensures
        rows_left(rows) == side_lines_of(lines, from, from + len),
    decreases rows.len(),
{
    if rows.len() == 0 {
        assert(side_lines_of(lines, from, from + len) =~= Seq::<SideLine>::empty());
    } else {
        let prefix = rows.drop_last();
        let plen = if len == rows.len() { len - 1 } else { len };
        assert forall|i: int| 0 <= i < prefix.len() implies (#[trigger] prefix[i]).left
            == if i < plen { Some(side_line_of(lines, from + i)) } else { None } by {
            assert(prefix[i] == rows[i]);
        }
        lemma_rows_left(prefix, lines, from, plen);
        assert(rows[rows.len() - 1] == rows.last());
        assert(rows_left(rows) =~= side_lines_of(lines, from, from + len));
    }
}

proof fn lemma_rows_right(rows: Seq<DiffRow>, lines: Seq<MergeLine>, from: int, len: int)
    requires
        0 <= len <= rows.len(),
        forall|i: int| 0 <= i < rows.len() ==> (#[trigger] rows[i]).right
            == if i < len { Some(side_line_of(lines, from + i)) } else { None },
    ensures
        rows_right(rows) == side_lines_of(lines, from, from + len),
    decreases rows.len(),
{
    if rows.len() == 0 {
        assert(side_lines_of(lines, from, from + len) =~= Seq::<SideLine>::empty());
    } else {
        let prefix = rows.drop_last();
        let plen = if len == rows.len() { len - 1 } else { len };
        assert forall|i: int| 0 <= i < prefix.len() implies (#[trigger] prefix[i]).right
            == if i < plen { Some(side_line_of(lines, from + i)) } else { None } by {
            assert(prefix[i] == rows[i]);
        }
        lemma_rows_right(prefix, lines, from, plen);
        assert(rows[rows.len() - 1] == rows.last());
        assert(rows_right(rows) =~= side_lines_of(lines, from, from + len));
    }
}

proof fn lemma_rows_sides_same(a: Seq<DiffRow>, b: Seq<DiffRow>)
    requires
        a.len() == b.len(),
        forall|i: int| 0 <= i < a.len() ==> (#[trigger] a[i]).left == b[i].left && a[i].right == b[i].right,
    ensures
        rows_left(a) == rows_left(b),
        rows_right(a) == rows_right(b),
    decreases a.len(),
{
    if a.len() > 0 {
        lemma_rows_sides_same(a.drop_last(), b.drop_last());
        assert(a[a.len() - 1] == a.last());
        assert(b[b.len() - 1] == b.last());
    }
}

proof fn lemma_side_render(lines: Seq<MergeLine>, n: int)
    requires
        0 <= n <= lines.len(),
    ensures
        side_render(side_lines_of(lines, 0, n)) == render_spec(lines.subrange(0, n)),
    decreases n,
{
    if n > 0 {
        lemma_side_render(lines, n - 1);
        assert(side_lines_of(lines, 0, n).drop_last() =~= side_lines_of(lines, 0, n - 1));
        assert(lines.subrange(0, n).drop_last() =~= lines.subrange(0, n - 1));
    } else {
        assert(side_lines_of(lines, 0, 0) =~= Seq::<SideLine>::empty());
        assert(lines.subrange(0, 0) =~= Seq::<MergeLine>::empty());
    }
}

fn side_line(lines: &Vec<MergeLine>, index: usize) -> (l: SideLine)
    requires
        index < lines@.len(),
        lines@.len() < u32::MAX,
    ensures
        l == side_line_of(lines@, index as int),
{
    SideLine {
        original_line_number: Some((index + 1) as u32),
        content: lines[index].content.clone(),
        newline: lines[index].newline,
    }
}

fn build_rows(left: &Vec<MergeLine>, right: &Vec<MergeLine>, op: EditOp) -> (rows: Vec<DiffRow>)
    requires
        op.1 <= op.2 <= left@.len(),
        op.3 <= op.4 <= right@.len(),
        left@.len() < u32::MAX,
        right@.len() < u32::MAX,
    ensures
        rows@.len() == if op.2 - op.1 >= op.4 - op.3 { op.2 - op.1 } else { op.4 - op.3 },
        forall|i: int| 0 <= i < rows@.len() ==> {
            &&& (#[trigger] rows@[i]).left == if i < op.2 - op.1 { Some(side_line_of(left@, op.1 + i)) } else { None }
            &&& rows@[i].right == if i < op.4 - op.3 { Some(side_line_of(right@, op.3 + i)) } else { None }
            &&& rows@[i].inline is None
        },
{
    let old_len = op.2 - op.1;
    let new_len = op.4 - op.3;
    let n = if old_len >= new_len { old_len } else { new_len };
    let mut rows: Vec<DiffRow> = Vec::new();
    let mut i: usize = 0;
    while i < n
        invariant
            op.1 <= op.2 <= left@.len(),
            op.3 <= op.4 <= right@.len(),
            left@.len() < u32::MAX,
            right@.len() < u32::MAX,
            old_len == op.2 - op.1,
            new_len == op.4 - op.3,
            n == if old_len >= new_len { old_len } else { new_len },
            i <= n,
            rows@.len() == i,
            forall|j: int| 0 <= j < i ==> {
                &&& (#[trigger] rows@[j]).left == if j < old_len { Some(side_line_of(left@, op.1 + j)) } else { None }
                &&& rows@[j].right == if j < new_len { Some(side_line_of(right@, op.3 + j)) } else { None }
                &&& rows@[j].inline is None
            },
        decreases n - i,
    {
        let l = if i < old_len { Some(side_line(left, op.1 + i)) } else { None };
        let r = if i < new_len { Some(side_line(right, op.3 + i)) } else { None };
        rows.push(DiffRow { left: l, right: r, inline: None });
        i = i + 1;
    }
    rows
}

fn build_hunk(
    left_lines: &Vec<MergeLine>,
    right_lines: &Vec<MergeLine>,
    left_keys: &Vec<String>,
    right_keys: &Vec<String>,
    op: EditOp,
    k: usize,
    eff: &DiffOptions,
) -> (hunk: DiffHunk)
    requires
        op.0 < 4,
        op.1 <= op.2 <= left_lines@.len(),
        op.3 <= op.4 <= right_lines@.len(),
        op.0 == 0 ==> strings_view(left_keys@).subrange(op.1 as int, op.2 as int)
            == strings_view(right_keys@).subrange(op.3 as int, op.4 as int),
        op.0 == 1 ==> op.3 == op.4,
        op.0 == 2 ==> op.1 == op.2,
        left_keys@.len() == left_lines@.len(),
        right_keys@.len() == right_lines@.len(),
        forall|i: int| 0 <= i < left_lines@.len()
            ==> (#[trigger] left_keys@[i])@ == line_key_spec(left_lines@[i].content@, left_lines@[i].newline, *eff),
        forall|i: int| 0 <= i < right_lines@.len()
            ==> (#[trigger] right_keys@[i])@ == line_key_spec(right_lines@[i].content@, right_lines@[i].newline, *eff),
        left_lines@.len() < u32::MAX,
        right_lines@.len() < u32::MAX,
    ensures
        hunk_matches_op(hunk, op),
        hunk_well_shaped(hunk, k as int, *eff),
        rows_left(hunk.rows@) == side_lines_of(left_lines@, op.1 as int, op.2 as int),
        rows_right(hunk.rows@) == side_lines_of(right_lines@, op.3 as int, op.4 as int),
        forall|i: int| 0 <= i < hunk.rows@.len() ==> (#[trigger] hunk.rows@[i]).inline is None,
{
    let kind = if op.0 == 0 {
        HunkKind::Equal
    } else if op.0 == 1 {
        HunkKind::Delete
    } else if op.0 == 2 {
        HunkKind::Insert
    } else {
        HunkKind::Replace
    };
    let left_range = LineRange::new((op.1 + 1) as u32, (op.2 - op.1) as u32);
    let right_range = LineRange::new((op.3 + 1) as u32, (op.4 - op.3) as u32);
    let rows = build_rows(left_lines, right_lines, op);
    proof {
        lemma_rows_left(rows@, left_lines@, op.1 as int, (op.2 - op.1) as int);
        lemma_rows_right(rows@, right_lines@, op.3 as int, (op.4 - op.3) as int);
    }
    let hunk = DiffHunk {
        hunk_id: hunk_id_for(k as u64, kind, left_range, right_range),
        kind,
        left_range,
        right_range,
        rows,
    };
    proof {
        if op.0 == 0 {
            let lkeys = strings_view(left_keys@);
            let rkeys = strings_view(right_keys@);
            assert(lkeys.subrange(op.1 as int, op.2 as int).len() == rkeys.subrange(op.3 as int, op.4 as int).len());
            assert forall|i: int| 0 <= i < hunk.rows@.len() implies
                line_key_spec(hunk.rows@[i].left->0.content@, hunk.rows@[i].left->0.newline, *eff)
                == line_key_spec(hunk.rows@[i].right->0.content@, hunk.rows@[i].right->0.newline, *eff) by {
                let a = op.1 + i;
                let b = op.3 + i;
                assert(lkeys.subrange(op.1 as int, op.2 as int)[i] == lkeys[a]);
                assert(rkeys.subrange(op.3 as int, op.4 as int)[i] == rkeys[b]);
                assert(left_keys@[a]@ == lkeys[a]);
                assert(right_keys@[b]@ == rkeys[b]);
            }
        }
    }
    hunk
}

/// The comparison keys of a list of lines under some options.
pub open spec fn keys_under(lines: Seq<MergeLine>, o: DiffOptions) -> Seq<Seq<char>> {
    lines.map_values(|l: MergeLine| line_key_spec(l.content@, l.newline, o))
}

/// Under `ignore_newlines` the comparison key of a line does not depend on
/// its terminator: `a\r\n` and `a\n` compare equal.
pub proof fn law_ignore_newlines_drops_terminator(content: Seq<char>, n1: NewlineMarker, n2: NewlineMarker, o: DiffOptions)
    requires
        o.ignore_newlines,
    ensures
        line_key_spec(content, n1, o) == line_key_spec(content, n2, o),
{
}

proof fn lemma_without_whitespace_concat(x: Seq<char>, y: Seq<char>)
    ensures
        without_whitespace(x + y) == without_whitespace(x) + without_whitespace(y),
{
    broadcast use Seq::filter_distributes_over_add;
}

proof fn lemma_without_whitespace_blank(w: Seq<char>)
    requires
        forall|i: int| 0 <= i < w.len() ==> unicode_white_space(#[trigger] w[i]),
    ensures
        without_whitespace(w) == Seq::<char>::empty(),
    decreases w.len(),
{
    if w.len() > 0 {
        lemma_without_whitespace_blank(w.drop_last());
        lemma_without_whitespace_concat(w.drop_last(), seq![w.last()]);
        assert(w.drop_last() + seq![w.last()] =~= w);
        assert(unicode_white_space(w[w.len() - 1]));
        reveal_with_fuel(Seq::filter, 2);
        assert(without_whitespace(seq![w.last()]) =~= Seq::<char>::empty());
    } else {
        assert(without_whitespace(w) =~= Seq::<char>::empty());
    }
}

/// Under `ignore_whitespace` the comparison key of a line does not change
/// when whitespace is inserted anywhere in its content.
pub proof fn law_ignore_whitespace_drops_blanks(
    a: Seq<char>,
    w: Seq<char>,
    b: Seq<char>,
    newline: NewlineMarker,
    o: DiffOptions,
)
    requires
        o.ignore_whitespace,
        forall|i: int| 0 <= i < w.len() ==> unicode_white_space(#[trigger] w[i]),
    ensures
        line_key_spec(a + w + b, newline, o) == line_key_spec(a + b, newline, o),
{
    let t = if o.ignore_newlines { Seq::<char>::empty() } else { newline_chars(newline) };
    lemma_without_whitespace_blank(w);
    lemma_without_whitespace_concat(a, w);
    lemma_without_whitespace_concat(a + w, b);
    lemma_without_whitespace_concat(a + w + b, t);
    lemma_without_whitespace_concat(a, b);
    lemma_without_whitespace_concat(a + b, t);
    assert(without_whitespace(a + w) =~= without_whitespace(a));
    if o.ignore_newlines {
        assert(a + w + b + t =~= a + w + b);
        assert(a + b + t =~= a + b);
    }
}

/// With no ignore option, lines with the same content and different
/// terminators have different keys: newline-style changes are visible.
pub proof fn law_terminators_compared(content: Seq<char>, n1: NewlineMarker, n2: NewlineMarker, o: DiffOptions)
    requires
        !o.ignore_newlines,
        !o.ignore_whitespace,
        !o.ignore_case,
        n1 != n2,
    ensures
        line_key_spec(content, n1, o) != line_key_spec(content, n2, o),
{
    let k1 = content + newline_chars(n1);
    let k2 = content + newline_chars(n2);
    if k1 == k2 {
        assert(newline_chars(n1) =~= k1.subrange(content.len() as int, k1.len() as int));
        assert(newline_chars(n2) =~= k2.subrange(content.len() as int, k2.len() as int));
        assert(newline_chars(n1) != newline_chars(n2)) by {
            if newline_chars(n1).len() == newline_chars(n2).len() && newline_chars(n1).len() > 0 {
                assert(newline_chars(n1)[0] != newline_chars(n2)[0]);
            }
        }
    }
}

/// Under `ignore_newlines`, two line lists with the same contents in the
/// same order have the same keys, whatever their terminators: texts that
/// differ only in LF, CRLF or CR endings are compared as equal.
pub proof fn law_line_endings_ignored(ll: Seq<MergeLine>, rl: Seq<MergeLine>, o: DiffOptions)
    requires
        o.ignore_newlines,
        ll.len() == rl.len(),
        forall|i: int| 0 <= i < ll.len() ==> (#[trigger] ll[i]).content@ == rl[i].content@,
    ensures
        keys_under(ll, o) == keys_under(rl, o),
{
    assert(keys_under(ll, o) =~= keys_under(rl, o));
}

/// A hunk is the one its edit operation describes: the operation's kind,
/// and its old and new ranges as 1-based line ranges.
pub open spec fn hunk_matches_op(h: DiffHunk, op: EditOp) -> bool {
    &&& h.kind == op_kind(op.0)
    &&& h.left_range.start == op.1 + 1
    &&& h.left_range.len == op.2 - op.1
    &&& h.right_range.start == op.3 + 1
    &&& h.right_range.len == op.4 - op.3
}

/// The hunks are the operations of an edit script, one for one, in order.
pub open spec fn hunks_match_ops(hs: Seq<DiffHunk>, ops: Seq<EditOp>) -> bool {
    &&& hs.len() == ops.len()
    &&& forall|k: int| 0 <= k < ops.len() ==> hunk_matches_op(#[trigger] hs[k], ops[k])
}

/// The kinds of a list of hunks, in order.
pub open spec fn hunk_kinds(hunks: Seq<DiffHunk>) -> Seq<HunkKind> {
    hunks.map_values(|h: DiffHunk| h.kind)
}

/// The hunk kinds an edit script gives, one per operation.
pub open spec fn op_kinds(ops: Seq<EditOp>) -> Seq<HunkKind> {
    ops.map_values(|op: EditOp| op_kind(op.0))
}

/// The hunks an edit script gives, one per operation and in order: each
/// hunk has its operation's kind and ranges (1-based), its rows pair the
/// lines of those ranges, equal hunks pair lines with equal keys, and
/// under eager refinement the replace hunks whose rows all fit the limit
/// are refined. Returns the hunks, their statistics, and how many replace
/// hunks were too large to refine. `left_keys` and `right_keys` are the
/// lines' comparison keys under `effective`.
pub fn hunks_from_ops(
    left_lines: &Vec<MergeLine>,
    right_lines: &Vec<MergeLine>,
    left_keys: &Vec<String>,
    right_keys: &Vec<String>,
    ops: &Vec<EditOp>,
    effective: &DiffOptions,
) -> (r: (Vec<DiffHunk>, DiffStats, usize))
    requires
        valid_edit_script(ops@, keys_under(left_lines@, *effective), keys_under(right_lines@, *effective)),
        left_keys@.len() == left_lines@.len(),
        right_keys@.len() == right_lines@.len(),
        forall|i: int| 0 <= i < left_lines@.len()
            ==> (#[trigger] left_keys@[i])@ == line_key_spec(left_lines@[i].content@, left_lines@[i].newline, *effective),
        forall|i: int| 0 <= i < right_lines@.len()
            ==> (#[trigger] right_keys@[i])@ == line_key_spec(right_lines@[i].content@, right_lines@[i].newline, *effective),
        left_lines@.len() < u32::MAX,
        right_lines@.len() < u32::MAX,
    ensures
        hunks_match_ops(r.0@, ops@),
        hunks_left(r.0@) == side_lines_of(left_lines@, 0, left_lines@.len() as int),
        hunks_right(r.0@) == side_lines_of(right_lines@, 0, right_lines@.len() as int),
        forall|j: int| 0 <= j < r.0@.len() ==> hunk_well_shaped(#[trigger] r.0@[j], j, *effective),
        forall|j: int| 0 <= j < r.0@.len() ==> hunk_inline_ok(#[trigger] r.0@[j], *effective),
        r.1.hunks_total == r.0@.len(),
        r.1.hunks_changed == changed_hunks(r.0@),
        r.1.lines_inserted == changed_right_lines(r.0@),
        r.1.lines_deleted == changed_left_lines(r.0@),
        r.2 == (if effective.inline_mode == InlineMode::EagerForSmallHunks { oversized_replace_hunks(r.0@) } else { 0 }),
        (forall|j: int| 0 <= j < ops@.len() ==> (#[trigger] ops@[j]).0 == 0) ==> r.1.hunks_changed == 0,
{
    let ghost eff = *effective;
    let mut hunks: Vec<DiffHunk> = Vec::new();
    let mut stats = DiffStats { hunks_total: 0, hunks_changed: 0, lines_inserted: 0, lines_deleted: 0 };
    let mut cur_old: usize = 0;
    let mut cur_new: usize = 0;
    let mut k: usize = 0;
    let ghost lkeys = strings_view(left_keys@);
    let ghost rkeys = strings_view(right_keys@);
    let mut skipped: usize = 0;
    proof {
        assert(lkeys =~= keys_under(left_lines@, eff));
        assert(rkeys =~= keys_under(right_lines@, eff));
    }
    let ghost all_equal = forall|j: int| 0 <= j < ops@.len() ==> (#[trigger] ops@[j]).0 == 0;
    while k < ops.len()
        invariant
            valid_edit_script(ops@, lkeys, rkeys),
            lkeys == strings_view(left_keys@),
            rkeys == strings_view(right_keys@),
            left_keys@.len() == left_lines@.len(),
            right_keys@.len() == right_lines@.len(),
            forall|i: int| 0 <= i < left_lines@.len()
                ==> (#[trigger] left_keys@[i])@ == line_key_spec(left_lines@[i].content@, left_lines@[i].newline, eff),
            forall|i: int| 0 <= i < right_lines@.len()
                ==> (#[trigger] right_keys@[i])@ == line_key_spec(right_lines@[i].content@, right_lines@[i].newline, eff),
            left_lines@.len() < u32::MAX,
            right_lines@.len() < u32::MAX,
            *effective == eff,
            k <= ops@.len(),
            hunks@.len() == k,
            k == 0 ==> cur_old == 0 && cur_new == 0,
            k > 0 ==> cur_old == ops@[k - 1].2 && cur_new == ops@[k - 1].4,
            cur_old <= left_lines@.len(),
            cur_new <= right_lines@.len(),
            hunks_left(hunks@) == side_lines_of(left_lines@, 0, cur_old as int),
            hunks_right(hunks@) == side_lines_of(right_lines@, 0, cur_new as int),
            forall|j: int| 0 <= j < k ==> hunk_well_shaped(#[trigger] hunks@[j], j, eff),
            forall|j: int| 0 <= j < k ==> hunk_inline_ok(#[trigger] hunks@[j], eff),
            stats.hunks_total == k,
            stats.hunks_changed == changed_hunks(hunks@),
            stats.hunks_changed <= k,
            forall|j: int| 0 <= j < k ==> hunk_matches_op(#[trigger] hunks@[j], ops@[j]),
            all_equal == forall|j: int| 0 <= j < ops@.len() ==> (#[trigger] ops@[j]).0 == 0,
            all_equal ==> stats.hunks_changed == 0,
            stats.lines_inserted == changed_right_lines(hunks@),
            stats.lines_deleted == changed_left_lines(hunks@),
            stats.lines_inserted <= cur_new,
            stats.lines_deleted <= cur_old,
            skipped == (if eff.inline_mode == InlineMode::EagerForSmallHunks { oversized_replace_hunks(hunks@) } else { 0 }),
            skipped <= k,
        decreases ops@.len() - k,
    {
        let op = ops[k];
        proof {
            assert(ops@[k as int] == op);
            assert(op.0 < 4);
            assert(op.0 == 0 ==> lkeys.subrange(op.1 as int, op.2 as int) == rkeys.subrange(op.3 as int, op.4 as int));
            assert(op.0 == 1 ==> op.3 == op.4);
            assert(op.0 == 2 ==> op.1 == op.2);
            if k > 0 {
                assert(ops@[k as int].1 == ops@[k - 1].2);
                assert(ops@[k as int].3 == ops@[k - 1].4);
            } else {
                assert(ops@[0].1 == 0);
            }
            assert(ops@[k as int].1 <= ops@[k as int].2 <= lkeys.len());
        }
        let mut hunk = build_hunk(left_lines, right_lines, left_keys, right_keys, op, k, effective);
        let ghost plain = hunk;
        let kind = hunk.kind;
        let mut skipped_now = false;
        if matches!(effective.inline_mode, InlineMode::EagerForSmallHunks) {
            if !inline_diff_rows(&mut hunk) {
                skipped_now = true;
                skipped = skipped + 1;
            }
        }
        proof {
            assert forall|i: int| 0 <= i < hunk.rows@.len() implies
                (#[trigger] hunk.rows@[i]).left == plain.rows@[i].left && hunk.rows@[i].right == plain.rows@[i].right by {
            }
            lemma_rows_sides_same(hunk.rows@, plain.rows@);
        }
        if kind != HunkKind::Equal {
            stats.hunks_changed = stats.hunks_changed + 1;
            stats.lines_inserted = stats.lines_inserted + (op.4 - op.3);
            stats.lines_deleted = stats.lines_deleted + (op.2 - op.1);
        }
        stats.hunks_total = stats.hunks_total + 1;
        let ghost old_hunks = hunks@;
        hunks.push(hunk);
        proof {
            assert(hunks@.drop_last() =~= old_hunks);
            assert(hunks@.last() == hunk);
            assert(side_lines_of(left_lines@, 0, cur_old as int) + side_lines_of(left_lines@, op.1 as int, op.2 as int)
                =~= side_lines_of(left_lines@, 0, op.2 as int));
            assert(side_lines_of(right_lines@, 0, cur_new as int) + side_lines_of(right_lines@, op.3 as int, op.4 as int)
                =~= side_lines_of(right_lines@, 0, op.4 as int));
            assert forall|j: int| 0 <= j < k + 1 implies hunk_matches_op(#[trigger] hunks@[j], ops@[j]) by {
                if j < k {
                    assert(hunks@[j] == old_hunks[j]);
                }
            }
            if all_equal {
                assert(ops@[k as int].0 == 0);
            }
            assert forall|j: int| 0 <= j < k + 1 implies hunk_well_shaped(#[trigger] hunks@[j], j, eff) by {
                if j < k {
                    assert(hunks@[j] == old_hunks[j]);
                }
            }
            assert forall|j: int| 0 <= j < k + 1 implies hunk_inline_ok(#[trigger] hunks@[j], eff) by {
                if j < k {
                    assert(hunks@[j] == old_hunks[j]);
                }
            }
            let cnt_old = if eff.inline_mode == InlineMode::EagerForSmallHunks { oversized_replace_hunks(old_hunks) } else { 0 };
            let cnt_new = if eff.inline_mode == InlineMode::EagerForSmallHunks { oversized_replace_hunks(hunks@) } else { 0 };
            assert(skipped == cnt_new);
        }
        cur_old = op.2;
        cur_new = op.4;
        k = k + 1;
    }
    proof {
        if ops@.len() > 0 {
            assert(cur_old == lkeys.len());
            assert(cur_new == rkeys.len());
        } else {
            assert(lkeys.len() == 0 && rkeys.len() == 0);
        }
        assert(hunks_match_ops(hunks@, ops@));
    }
    (hunks, stats, skipped)
}

/// Compute the normalized [`DiffDocument`] for two texts.
///
/// The rows of the hunks, read top to bottom, hold every line of both texts
/// exactly once and in order, so each side renders back to its input.
/// Equal hunks pair lines with equal keys under the options in force
/// (after the large-input policy); with Myers, texts whose lines all have
/// equal keys give no changed hunk. `diff_id` identifies this computation.
#[verifier::rlimit(40)]
pub fn compute_diff(left_text: &str, right_text: &str, options: DiffOptions, diff_id: u64) -> (doc: DiffDocument)
    requires
        left_text@.len() < u32::MAX,
        right_text@.len() < u32::MAX,
    ensures
        doc.diff_id == diff_id,
        doc.options == options,
        side_render(hunks_left(doc.hunks@)) == left_text@,
        side_render(hunks_right(doc.hunks@)) == right_text@,
        forall|i: int| 0 <= i < hunks_left(doc.hunks@).len()
            ==> (#[trigger] hunks_left(doc.hunks@)[i]).original_line_number == Some((i + 1) as u32),
        forall|i: int| 0 <= i < hunks_right(doc.hunks@).len()
            ==> (#[trigger] hunks_right(doc.hunks@)[i]).original_line_number == Some((i + 1) as u32),
        ({
            let eff = effective_options(options, total_bytes_spec(left_text.len() as nat, right_text.len() as nat));
            &&& forall|k: int| 0 <= k < doc.hunks@.len() ==> hunk_well_shaped(#[trigger] doc.hunks@[k], k, eff)
            &&& forall|k: int| 0 <= k < doc.hunks@.len() ==> hunk_inline_ok(#[trigger] doc.hunks@[k], eff)
            &&& {
                let skipped = if eff.inline_mode == InlineMode::EagerForSmallHunks { oversized_replace_hunks(doc.hunks@) } else { 0 };
                ||| doc.warnings@ == expected_warnings(total_bytes_spec(left_text.len() as nat, right_text.len() as nat) > options.max_file_bytes_for_full_diff, false, skipped)
                ||| (options.deadline_ms is Some && doc.warnings@ == expected_warnings(total_bytes_spec(left_text.len() as nat, right_text.len() as nat) > options.max_file_bytes_for_full_diff, true, skipped))
            }
        }),
        doc.stats.hunks_total == doc.hunks@.len(),
        doc.stats.hunks_changed == changed_hunks(doc.hunks@),
        doc.stats.lines_inserted == changed_right_lines(doc.hunks@),
        doc.stats.lines_deleted == changed_left_lines(doc.hunks@),
        exists|ll: Seq<MergeLine>, rl: Seq<MergeLine>, ops: Seq<EditOp>|
            #![trigger render_spec(ll), render_spec(rl), hunks_match_ops(doc.hunks@, ops)]
            {
                let eff = effective_options(options, total_bytes_spec(left_text.len() as nat, right_text.len() as nat));
                &&& render_spec(ll) == left_text@ && well_formed_lines(ll)
                &&& render_spec(rl) == right_text@ && well_formed_lines(rl)
                &&& valid_edit_script(ops, keys_under(ll, eff), keys_under(rl, eff))
                &&& hunks_match_ops(doc.hunks@, ops)
                &&& options.deadline_ms is None ==> ops == similar_line_ops(keys_under(ll, eff), keys_under(rl, eff), options.algorithm)
                &&& (options.algorithm == DiffAlgorithm::Myers && keys_under(ll, eff) == keys_under(rl, eff))
                    ==> changed_hunks(doc.hunks@) == 0
            },
        (left_text@ == right_text@ && options.algorithm == DiffAlgorithm::Myers) ==> changed_hunks(doc.hunks@) == 0,
{
    let mut effective = options;
    let mut warnings: Vec<DiffWarning> = Vec::new();
    let total_bytes = (left_text.len() as u64).saturating_add(right_text.len() as u64);
    if total_bytes > options.max_file_bytes_for_full_diff {
        effective.inline_mode = InlineMode::Disabled;
        warnings.push(DiffWarning::LargeFilePolicyApplied);
    }
    let ghost eff = effective_options(options, total_bytes_spec(left_text.len() as nat, right_text.len() as nat));
    assert(effective == eff);

    let left_lines = split_lines(left_text);
    let right_lines = if crate::text::str_equal(left_text, right_text) {
        copy_lines(&left_lines, 0, left_lines.len())
    } else {
        split_lines(right_text)
    };
    proof {
        if left_text@ == right_text@ {
            assert(right_lines@ =~= left_lines@);
        }
        lemma_line_count_bound(left_lines@);
        lemma_line_count_bound(right_lines@);
    }
    let left_keys = keys_of(&left_lines, &effective);
    let right_keys = keys_of(&right_lines, &effective);
    let started = now();
    let deadline = match effective.deadline_ms {
        Some(ms) => deadline_after(&started, ms),
        None => None,
    };
    let ops = diff_keys(&left_keys, &right_keys, effective.algorithm, deadline);
    let mut expired = false;
    if let Some(ms) = effective.deadline_ms {
        if elapsed_exceeds(&started, ms) {
            expired = true;
            warnings.push(DiffWarning::DeadlineExpired);
        }
    }
    let ghost prefix_warnings = warnings@;
    let ghost large = total_bytes_spec(left_text.len() as nat, right_text.len() as nat) > options.max_file_bytes_for_full_diff;
    assert(prefix_warnings =~= (if large { seq![DiffWarning::LargeFilePolicyApplied] } else { Seq::empty() })
        + (if expired { seq![DiffWarning::DeadlineExpired] } else { Seq::empty() }));

    proof {
        assert(strings_view(left_keys@) =~= keys_under(left_lines@, eff));
        assert(strings_view(right_keys@) =~= keys_under(right_lines@, eff));
    }
    let (hunks, stats, skipped) = hunks_from_ops(&left_lines, &right_lines, &left_keys, &right_keys, &ops, &effective);
    let mut t: usize = 0;
    while t < skipped
        invariant
            t <= skipped,
            warnings@ == prefix_warnings + Seq::new(t as nat, |i: int| DiffWarning::InlineSkippedHunkTooLarge),
        decreases skipped - t,
    {
        warnings.push(DiffWarning::InlineSkippedHunkTooLarge);
        t = t + 1;
        assert(warnings@ =~= prefix_warnings + Seq::new(t as nat, |i: int| DiffWarning::InlineSkippedHunkTooLarge));
    }
    proof {
        assert(strings_view(left_keys@) =~= keys_under(left_lines@, eff));
        assert(strings_view(right_keys@) =~= keys_under(right_lines@, eff));
        assert(left_lines@.subrange(0, left_lines@.len() as int) =~= left_lines@);
        assert(right_lines@.subrange(0, right_lines@.len() as int) =~= right_lines@);
        lemma_side_render(left_lines@, left_lines@.len() as int);
        lemma_side_render(right_lines@, right_lines@.len() as int);
        assert(render_spec(left_lines@) == left_text@ && render_spec(right_lines@) == right_text@);
        assert(valid_edit_script(ops@, keys_under(left_lines@, eff), keys_under(right_lines@, eff)));
        assert(hunks_match_ops(hunks@, ops@));
        if left_text@ == right_text@ && options.algorithm == DiffAlgorithm::Myers {
            assert(strings_view(left_keys@) =~= strings_view(right_keys@));
        }
        if options.algorithm == DiffAlgorithm::Myers && keys_under(left_lines@, eff) == keys_under(right_lines@, eff) {
            assert(strings_view(left_keys@) == strings_view(right_keys@));
        }
    }
    DiffDocument { diff_id, options, hunks, stats, warnings }
}

} // verus!
