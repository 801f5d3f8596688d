//! Inline (character-level) refinement.
//!
//! Inline spans are decorations derived per row pair inside a replace hunk:
//! row `i` on the left is refined against row `i` on the right. Rows
//! without a counterpart get a single whole-line span.

use vstd::prelude::*;

use super::model::{DiffDocument, DiffHunk, DiffRow, HunkKind, InlineDiff, InlineKind, InlineSpan};
use crate::text::{append_string, chars_of};

verus! {

/// The most characters either side of one changed line pair may have to be
/// refined character by character.
pub const MAX_INLINE_CHARS_PER_SIDE: usize = 2000;

/// Tag of one character-level change: `0` equal, `1` deleted, `2` inserted.
pub type ChangeTagCode = u8;

/// The character changes the engine reports for a pair of lines, each as a
/// tag code and the changed text.
pub uninterp spec fn lcs_char_changes(left: Seq<char>, right: Seq<char>) -> Seq<(u8, Seq<char>)>;

/// The text of the changes whose tag is not `skip`, concatenated in order.
pub open spec fn changes_text(changes: Seq<(u8, Seq<char>)>, skip: u8) -> Seq<char>
    decreases changes.len(),
{
    if changes.len() == 0 {
        Seq::empty()
    } else {
        let rest = changes_text(changes.drop_last(), skip);
        if changes.last().0 == skip { rest } else { rest + changes.last().1 }
    }
}

/// The view of a change list: tag codes and texts.
pub open spec fn changes_view(changes: Seq<(u8, String)>) -> Seq<(u8, Seq<char>)> {
    changes.map_values(|c: (u8, String)| (c.0, c.1@))
}

/// Character-level changes between two lines, longest-common-subsequence
/// algorithm.
///
/// Trusted: wraps `similar::TextDiff::diff_chars` with `Algorithm::Lcs` and
/// `iter_all_changes`. The contract names the result, claims every tag is
/// one of the three codes, and claims that the equal and deleted texts spell
/// the left line and the equal and inserted texts spell the right line (the
/// changes are an edit script from left to right).
#[verifier::external_body]
fn char_changes(left: &str, right: &str) -> (res: Vec<(u8, String)>)
    ensures
        changes_view(res@) == lcs_char_changes(left@, right@),
        forall|i: int| 0 <= i < res@.len() ==> (#[trigger] res@[i]).0 < 3,
        changes_text(changes_view(res@), 2) == left@,
        changes_text(changes_view(res@), 1) == right@,
{
    let diff = similar::TextDiff::configure().algorithm(similar::Algorithm::Lcs).diff_chars(left, right);
    diff.iter_all_changes().map(|c| (c.tag() as u8, c.value().to_string())).collect()
}

/// The concatenated text of a span list.
pub open spec fn spans_text(spans: Seq<InlineSpan>) -> Seq<char>
    decreases spans.len(),
{
    if spans.len() == 0 {
        Seq::empty()
    } else {
        spans_text(spans.drop_last()) + spans.last().text@
    }
}

/// No two neighbouring spans share a kind, and every span kind is allowed
/// on its side.
pub open spec fn compact_spans(spans: Seq<InlineSpan>, other: InlineKind) -> bool {
    &&& forall|i: int, j: int| #![trigger spans[i], spans[j]] 0 <= i && j == i + 1 && j < spans.len()
        ==> spans[i].kind != spans[j].kind
    &&& forall|i: int| 0 <= i < spans.len() ==> (#[trigger] spans[i]).kind == InlineKind::Equal
        || spans[i].kind == other
}

/// `true` when `s` has more than [`MAX_INLINE_CHARS_PER_SIDE`] characters.
fn over_limit(s: &str) -> (b: bool)
    ensures
        b == (s@.len() > MAX_INLINE_CHARS_PER_SIDE),
{
    chars_of(s).len() > MAX_INLINE_CHARS_PER_SIDE
}

/// Whether a changed line pair is too long to refine character by character.
pub fn pair_over_inline_limit(left: &str, right: &str) -> (b: bool)
    ensures
        b == (left@.len() > MAX_INLINE_CHARS_PER_SIDE || right@.len() > MAX_INLINE_CHARS_PER_SIDE),
{
    over_limit(left) || over_limit(right)
}

/// Append text, merging with the previous span when the kind matches.
fn push_span(spans: &mut Vec<InlineSpan>, kind: InlineKind, text: &String, other: InlineKind)
    requires
        compact_spans(old(spans)@, other),
        kind == InlineKind::Equal || kind == other,
    ensures
        spans_text(final(spans)@) == spans_text(old(spans)@) + text@,
        compact_spans(final(spans)@, other),
{
    let n = spans.len();
    if n > 0 && spans[n - 1].kind == kind {
        let mut last = spans.pop().unwrap();
        let ghost before = spans@;
        append_string(&mut last.text, text);
        spans.push(last);
        proof {
            assert(spans@.drop_last() =~= before);
            assert(old(spans)@.drop_last() =~= before);
        }
        assert(spans_text(spans@) =~= spans_text(old(spans)@) + text@);
    } else {
        let ghost before = spans@;
        spans.push(InlineSpan { kind, text: text.clone() });
        assert(spans@.drop_last() =~= before);
    }
}

/// Character-level refinement of a line pair: equal and deleted runs on the
/// left, equal and inserted runs on the right, neighbouring runs merged.
fn pairwise_inline(left: &str, right: &str) -> (d: InlineDiff)
    ensures
        spans_text(d.left_spans@) == left@,
        spans_text(d.right_spans@) == right@,
        compact_spans(d.left_spans@, InlineKind::Delete),
        compact_spans(d.right_spans@, InlineKind::Insert),
{
    let changes = char_changes(left, right);
    let mut left_spans: Vec<InlineSpan> = Vec::new();
    let mut right_spans: Vec<InlineSpan> = Vec::new();
    let mut i: usize = 0;
    while i < changes.len()
        invariant
            i <= changes@.len(),
            forall|k: int| 0 <= k < changes@.len() ==> (#[trigger] changes@[k]).0 < 3,
            spans_text(left_spans@) == changes_text(changes_view(changes@.subrange(0, i as int)), 2),
            spans_text(right_spans@) == changes_text(changes_view(changes@.subrange(0, i as int)), 1),
            compact_spans(left_spans@, InlineKind::Delete),
            compact_spans(right_spans@, InlineKind::Insert),
        decreases changes@.len() - i,
    {
        proof {
            assert(changes_view(changes@.subrange(0, i as int + 1)).drop_last()
                =~= changes_view(changes@.subrange(0, i as int)));
        }
        let tag = changes[i].0;
        if tag == 0 {
            push_span(&mut left_spans, InlineKind::Equal, &changes[i].1, InlineKind::Delete);
            push_span(&mut right_spans, InlineKind::Equal, &changes[i].1, InlineKind::Insert);
        } else if tag == 1 {
            push_span(&mut left_spans, InlineKind::Delete, &changes[i].1, InlineKind::Delete);
        } else {
            push_span(&mut right_spans, InlineKind::Insert, &changes[i].1, InlineKind::Insert);
        }
        i = i + 1;
    }
    assert(changes@.subrange(0, changes@.len() as int) =~= changes@);
    InlineDiff { left_spans, right_spans }
}

/// Refine a single left/right line pair into inline spans. Returns `None`,
/// doing no diff work, when either side is over the per-side limit.
pub fn refine_pair(left: &str, right: &str) -> (r: Option<InlineDiff>)
    ensures
        r is None <==> (left@.len() > MAX_INLINE_CHARS_PER_SIDE || right@.len() > MAX_INLINE_CHARS_PER_SIDE),
        r matches Some(d) ==> {
            &&& spans_text(d.left_spans@) == left@
            &&& spans_text(d.right_spans@) == right@
            &&& compact_spans(d.left_spans@, InlineKind::Delete)
            &&& compact_spans(d.right_spans@, InlineKind::Insert)
        },
{
    if pair_over_inline_limit(left, right) {
        return None;
    }
    Some(pairwise_inline(left, right))
}

/// A single span covering the whole line, or none for an empty line.
fn whole_line(content: &String, kind: InlineKind) -> (v: Vec<InlineSpan>)
    ensures
        content@.len() == 0 ==> v@.len() == 0,
        content@.len() > 0 ==> v@.len() == 1 && v@[0].kind == kind && v@[0].text@ == content@,
        spans_text(v@) == content@,
{
    let mut v: Vec<InlineSpan> = Vec::new();
    assert(spans_text(v@) == Seq::<char>::empty());
    if content.as_str().is_empty() {
        assert(content@.len() == 0);
        assert(content@ =~= Seq::<char>::empty());
        assert(spans_text(v@) =~= content@);
    } else {
        v.push(InlineSpan { kind, text: content.clone() });
        assert(v@.drop_last() =~= Seq::<InlineSpan>::empty());
        assert(spans_text(v@) =~= content@);
    }
    v
}

/// Whether one side line of a row is over the per-side limit.
pub open spec fn row_over_limit(r: DiffRow) -> bool {
    ||| (r.left matches Some(l) && l.content@.len() > MAX_INLINE_CHARS_PER_SIDE)
    ||| (r.right matches Some(l) && l.content@.len() > MAX_INLINE_CHARS_PER_SIDE)
}

/// The inline decoration a refined row carries: pairwise refinement for a
/// full row, a whole-line span for a one-sided row.
pub open spec fn inline_fits_row(r: DiffRow, d: InlineDiff) -> bool {
    match (r.left, r.right) {
        (Some(l), Some(rt)) => {
            &&& spans_text(d.left_spans@) == l.content@
            &&& spans_text(d.right_spans@) == rt.content@
            &&& compact_spans(d.left_spans@, InlineKind::Delete)
            &&& compact_spans(d.right_spans@, InlineKind::Insert)
        },
        (Some(l), None) => {
            &&& spans_text(d.left_spans@) == l.content@
            &&& d.right_spans@.len() == 0
            &&& forall|i: int| 0 <= i < d.left_spans@.len() ==> (#[trigger] d.left_spans@[i]).kind == InlineKind::Delete
            &&& d.left_spans@.len() <= 1
        },
        (None, Some(rt)) => {
            &&& spans_text(d.right_spans@) == rt.content@
            &&& d.left_spans@.len() == 0
            &&& forall|i: int| 0 <= i < d.right_spans@.len() ==> (#[trigger] d.right_spans@[i]).kind == InlineKind::Insert
            &&& d.right_spans@.len() <= 1
        },
        (None, None) => d.left_spans@.len() == 0 && d.right_spans@.len() == 0,
    }
}

/// Compute inline spans for every row of a replace hunk, in place.
///
/// Returns `false`, leaving the hunk untouched, when any row has a side
/// over the per-side limit. Other hunk kinds are left untouched and report
/// `true`. Only the rows' `inline` field ever changes.
pub fn inline_diff_rows(hunk: &mut DiffHunk) -> (ok: bool)
    ensures
        ok == !(old(hunk).kind == HunkKind::Replace
            && exists|i: int| 0 <= i < old(hunk).rows@.len() && row_over_limit(#[trigger] old(hunk).rows@[i])),
        (!ok || old(hunk).kind != HunkKind::Replace) ==> *final(hunk) == *old(hunk),
        final(hunk).hunk_id == old(hunk).hunk_id,
        final(hunk).kind == old(hunk).kind,
        final(hunk).left_range == old(hunk).left_range,
        final(hunk).right_range == old(hunk).right_range,
        final(hunk).rows@.len() == old(hunk).rows@.len(),
        forall|i: int| 0 <= i < final(hunk).rows@.len() ==> {
            &&& (#[trigger] final(hunk).rows@[i]).left == old(hunk).rows@[i].left
            &&& final(hunk).rows@[i].right == old(hunk).rows@[i].right
        },
        ok && old(hunk).kind == HunkKind::Replace ==> forall|i: int| 0 <= i < final(hunk).rows@.len()
            ==> ((#[trigger] final(hunk).rows@[i]).inline matches Some(d) && inline_fits_row(final(hunk).rows@[i], d)),
{
    if !matches!(hunk.kind, HunkKind::Replace) {
        return true;
    }
    assert(old(hunk).kind == HunkKind::Replace);
    let n = hunk.rows.len();
    let mut k: usize = 0;
    while k < n
        invariant
            n == hunk.rows@.len(),
            *hunk == *old(hunk),
            hunk.kind == HunkKind::Replace,
            old(hunk).kind == HunkKind::Replace,
            k <= n,
            forall|i: int| 0 <= i < k ==> !row_over_limit(#[trigger] hunk.rows@[i]),
        decreases n - k,
    {
        let too_long = match &hunk.rows[k].left {
            Some(l) => over_limit(l.content.as_str()),
            None => false,
        } || match &hunk.rows[k].right {
            Some(l) => over_limit(l.content.as_str()),
            None => false,
        };
        if too_long {
            assert(row_over_limit(old(hunk).rows@[k as int]));
            return false;
        }
        k = k + 1;
    }
    let mut rows: Vec<DiffRow> = Vec::new();
    let mut j: usize = 0;
    while j < n
        invariant
            n == hunk.rows@.len(),
            *hunk == *old(hunk),
            j <= n,
            rows@.len() == j,
            forall|i: int| 0 <= i < n ==> !row_over_limit(#[trigger] hunk.rows@[i]),
            forall|i: int| 0 <= i < j ==> {
                &&& (#[trigger] rows@[i]).left == hunk.rows@[i].left
                &&& rows@[i].right == hunk.rows@[i].right
                &&& (rows@[i].inline matches Some(d) && inline_fits_row(rows@[i], d))
            },
        decreases n - j,
    {
        let row = &hunk.rows[j];
        let inline = match (&row.left, &row.right) {
            (Some(l), Some(r)) => pairwise_inline(l.content.as_str(), r.content.as_str()),
            (Some(l), None) => InlineDiff { left_spans: whole_line(&l.content, InlineKind::Delete), right_spans: Vec::new() },
            (None, Some(r)) => InlineDiff { left_spans: Vec::new(), right_spans: whole_line(&r.content, InlineKind::Insert) },
            (None, None) => InlineDiff { left_spans: Vec::new(), right_spans: Vec::new() },
        };
        let new_row = DiffRow {
            left: match &row.left { Some(l) => Some(l.duplicate()), None => None },
            right: match &row.right { Some(r) => Some(r.duplicate()), None => None },
            inline: Some(inline),
        };
        rows.push(new_row);
        j = j + 1;
    }
    hunk.rows = rows;
    true
}

/// Whether a row of a replace hunk is a full pair that is too long to refine.
pub open spec fn skipped_row(r: DiffRow) -> bool {
    r.left is Some && r.right is Some && row_over_limit(r)
}

/// The number of skipped pairs among rows.
pub open spec fn skipped_in_rows(rows: Seq<DiffRow>) -> nat
    decreases rows.len(),
{
    if rows.len() == 0 {
        0
    } else {
        skipped_in_rows(rows.drop_last()) + if skipped_row(rows.last()) { 1nat } else { 0nat }
    }
}

/// The number of skipped pairs over the replace hunks.
pub open spec fn skipped_in_hunks(hunks: Seq<DiffHunk>) -> nat
    decreases hunks.len(),
{
    if hunks.len() == 0 {
        0
    } else {
        skipped_in_hunks(hunks.drop_last())
            + if hunks.last().kind == HunkKind::Replace { skipped_in_rows(hunks.last().rows@) } else { 0nat }
    }
}

proof fn lemma_skipped_rows_bound(rows: Seq<DiffRow>)
    ensures
        skipped_in_rows(rows) <= rows.len(),
    decreases rows.len(),
{
    if rows.len() > 0 {
        lemma_skipped_rows_bound(rows.drop_last());
    }
}

/// A count capped at the largest `usize`.
pub open spec fn capped(n: nat) -> usize {
    if n <= usize::MAX { n as usize } else { usize::MAX }
}

/// How many changed line pairs in `doc` are too long for [`refine_pair`]:
/// full rows of replace hunks with a side over the per-side limit (capped
/// at the largest `usize`).
pub fn skipped_inline_pairs(doc: &DiffDocument) -> (n: usize)
    ensures
        n == capped(skipped_in_hunks(doc.hunks@)),
{
    let mut count: usize = 0;
    let mut h: usize = 0;
    while h < doc.hunks.len()
        invariant
            h <= doc.hunks@.len(),
            count == capped(skipped_in_hunks(doc.hunks@.subrange(0, h as int))),
        decreases doc.hunks@.len() - h,
    {
        assert(doc.hunks@.subrange(0, h as int + 1).drop_last() =~= doc.hunks@.subrange(0, h as int));
        let hunk = &doc.hunks[h];
        if hunk.kind == HunkKind::Replace {
            let mut r: usize = 0;
            let ghost base = skipped_in_hunks(doc.hunks@.subrange(0, h as int));
            while r < hunk.rows.len()
                invariant
                    r <= hunk.rows@.len(),
                    count == capped(base + skipped_in_rows(hunk.rows@.subrange(0, r as int))),
                    base == skipped_in_hunks(doc.hunks@.subrange(0, h as int)),
                decreases hunk.rows@.len() - r,
            {
                assert(hunk.rows@.subrange(0, r as int + 1).drop_last() =~= hunk.rows@.subrange(0, r as int));
                let row = &hunk.rows[r];
                let skipped = match (&row.left, &row.right) {
                    (Some(l), Some(rt)) => pair_over_inline_limit(l.content.as_str(), rt.content.as_str()),
                    _ => false,
                };
                if skipped && count < usize::MAX {
                    count = count + 1;
                }
                r = r + 1;
            }
            assert(hunk.rows@.subrange(0, hunk.rows@.len() as int) =~= hunk.rows@);
        }
        h = h + 1;
    }
    assert(doc.hunks@.subrange(0, doc.hunks@.len() as int) =~= doc.hunks@);
    count
}

} // verus!
