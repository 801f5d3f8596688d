//! Line-oriented three-way merge engine: a classic diff3 over lines.
//!
//! `left` and `right` are each aligned against `base` with LCS matching;
//! the three are then walked in lockstep, emitting stable regions (all
//! sides agree) and change regions. Each change region is classified into
//! a clean auto-merge or a conflict; two-sided divergent edits are never
//! decided automatically.

use vstd::prelude::*;

use super::line::{key, MergeLine};
use crate::diff::options::DiffAlgorithm;
use crate::diff::script::{diff_keys, strings_view, EditOp};

verus! {

/// How a region was reconciled.
#[derive(Debug, Clone, Copy, PartialEq, Eq, Structural)]
pub enum RegionKind {
    /// All three sides are identical here.
    Stable,
    /// Only the left side changed relative to base; left content is taken.
    LeftChanged,
    /// Only the right side changed relative to base; right content is taken.
    RightChanged,
    /// Left and right made the same change; either content is taken.
    BothSame,
    /// Left and right diverged; this is a conflict.
    Conflict,
}

impl RegionKind {
    /// `true` for a conflict region.
    pub fn is_conflict(self) -> (b: bool)
        ensures
            b == (self == RegionKind::Conflict),
    {
        matches!(self, RegionKind::Conflict)
    }

    /// `true` when this region differs from base on at least one side.
    pub fn is_change(self) -> (b: bool)
        ensures
            b == (self != RegionKind::Stable),
    {
        !matches!(self, RegionKind::Stable)
    }
}

/// One reconciled region of the three-way merge.
#[derive(Debug, Clone, PartialEq, Eq)]
pub struct MergeRegion {
    pub kind: RegionKind,
    pub base: Vec<MergeLine>,
    pub left: Vec<MergeLine>,
    pub right: Vec<MergeLine>,
}

/// The comparison keys (rendered text) of a line list.
pub open spec fn line_keys(lines: Seq<MergeLine>) -> Seq<Seq<char>> {
    lines.map_values(|l: MergeLine| l.spec_rendered())
}

/// The kind a region with these sides is classified as: a side has
/// changed when its keys differ from base's; two changed sides with equal
/// keys made the same change, otherwise they conflict.
pub open spec fn classify_kind(base: Seq<MergeLine>, left: Seq<MergeLine>, right: Seq<MergeLine>) -> RegionKind {
    let lc = line_keys(base) != line_keys(left);
    let rc = line_keys(base) != line_keys(right);
    if !lc && !rc {
        RegionKind::Stable
    } else if lc && !rc {
        RegionKind::LeftChanged
    } else if !lc && rc {
        RegionKind::RightChanged
    } else if line_keys(left) == line_keys(right) {
        RegionKind::BothSame
    } else {
        RegionKind::Conflict
    }
}

/// A region is classified by its sides and is not empty on all three.
pub open spec fn region_ok(r: MergeRegion) -> bool {
    &&& r.kind == classify_kind(r.base@, r.left@, r.right@)
    &&& !(r.base@.len() == 0 && r.left@.len() == 0 && r.right@.len() == 0)
}

/// The content a non-conflict region contributes automatically; for a
/// conflict, the base as a defined default.
pub open spec fn auto_content_spec(r: MergeRegion) -> Seq<MergeLine> {
    match r.kind {
        RegionKind::Stable => r.left@,
        RegionKind::LeftChanged => r.left@,
        RegionKind::RightChanged => r.right@,
        RegionKind::BothSame => r.left@,
        RegionKind::Conflict => r.base@,
    }
}

/// The base sides of a region list, concatenated in order.
pub open spec fn regions_base(rs: Seq<MergeRegion>) -> Seq<MergeLine>
    decreases rs.len(),
{
    if rs.len() == 0 {
        Seq::empty()
    } else {
        regions_base(rs.drop_last()) + rs.last().base@
    }
}

/// The left sides of a region list, concatenated in order.
pub open spec fn regions_left(rs: Seq<MergeRegion>) -> Seq<MergeLine>
    decreases rs.len(),
{
    if rs.len() == 0 {
        Seq::empty()
    } else {
        regions_left(rs.drop_last()) + rs.last().left@
    }
}

/// The right sides of a region list, concatenated in order.
pub open spec fn regions_right(rs: Seq<MergeRegion>) -> Seq<MergeLine>
    decreases rs.len(),
{
    if rs.len() == 0 {
        Seq::empty()
    } else {
        regions_right(rs.drop_last()) + rs.last().right@
    }
}

/// A copy of `v[from..to]`.
pub fn copy_lines(v: &Vec<MergeLine>, from: usize, to: usize) -> (out: Vec<MergeLine>)
    requires
        from <= to <= v@.len(),
    ensures
        out@ == v@.subrange(from as int, to as int),
{
    let mut out: Vec<MergeLine> = Vec::new();
    let mut i = from;
    while i < to
        invariant
            from <= i <= to <= v@.len(),
            out@ == v@.subrange(from as int, i as int),
        decreases to - i,
    {
        out.push(v[i].duplicate());
        assert(out@ =~= v@.subrange(from as int, i as int + 1));
        i = i + 1;
    }
    out
}

impl MergeRegion {
    /// Content chosen automatically for a non-conflict region.
    pub fn auto_content(&self) -> (out: Vec<MergeLine>)
        ensures
            out@ == auto_content_spec(*self),
    {
        match self.kind {
            RegionKind::Stable | RegionKind::LeftChanged | RegionKind::BothSame => copy_lines(&self.left, 0, self.left.len()),
            RegionKind::RightChanged => copy_lines(&self.right, 0, self.right.len()),
            RegionKind::Conflict => copy_lines(&self.base, 0, self.base.len()),
        }
    }
}

/// Whether two line lists have the same keys, element by element.
pub fn lines_equal(a: &Vec<MergeLine>, b: &Vec<MergeLine>) -> (eq: bool)
    ensures
        eq == (line_keys(a@) == line_keys(b@)),
{
    if a.len() != b.len() {
        proof {
            assert(line_keys(a@).len() != line_keys(b@).len());
        }
        return false;
    }
    let mut i: usize = 0;
    while i < a.len()
        invariant
            a@.len() == b@.len(),
            i <= a@.len(),
            forall|k: int| 0 <= k < i ==> (#[trigger] a@[k]).spec_rendered() == b@[k].spec_rendered(),
        decreases a@.len() - i,
    {
        let ka = key(&a[i]);
        let kb = key(&b[i]);
        if ka != kb {
            proof {
                assert(line_keys(a@)[i as int] != line_keys(b@)[i as int]);
            }
            return false;
        }
        i = i + 1;
    }
    assert(line_keys(a@) =~= line_keys(b@));
    true
}

/// Classify a change region by comparing each variant against base.
fn classify(base: Vec<MergeLine>, left: Vec<MergeLine>, right: Vec<MergeLine>) -> (r: MergeRegion)
    ensures
        r.kind == classify_kind(base@, left@, right@),
        r.base@ == base@,
        r.left@ == left@,
        r.right@ == right@,
{
    let left_changed = !lines_equal(&base, &left);
    let right_changed = !lines_equal(&base, &right);
    let kind = if !left_changed && !right_changed {
        RegionKind::Stable
    } else if left_changed && !right_changed {
        RegionKind::LeftChanged
    } else if !left_changed && right_changed {
        RegionKind::RightChanged
    } else if lines_equal(&left, &right) {
        RegionKind::BothSame
    } else {
        RegionKind::Conflict
    };
    MergeRegion { kind, base, left, right }
}

/// Anchors are strictly increasing in both coordinates and pair lines
/// with equal keys.
pub open spec fn anchors_ok(anchors: Seq<(usize, usize)>, base: Seq<MergeLine>, variant: Seq<MergeLine>) -> bool {
    &&& forall|k: int| 0 <= k < anchors.len() ==> {
        &&& (#[trigger] anchors[k]).0 < base.len()
        &&& anchors[k].1 < variant.len()
        &&& base[anchors[k].0 as int].spec_rendered() == variant[anchors[k].1 as int].spec_rendered()
    }
    &&& forall|k: int, j: int| #![trigger anchors[k], anchors[j]] 0 <= k < j < anchors.len()
        ==> anchors[k].0 < anchors[j].0 && anchors[k].1 < anchors[j].1
}

fn keys_of_lines(lines: &Vec<MergeLine>) -> (keys: Vec<String>)
    ensures
        strings_view(keys@) == line_keys(lines@),
{
    let mut keys: Vec<String> = Vec::new();
    let mut i: usize = 0;
    while i < lines.len()
        invariant
            i <= lines@.len(),
            keys@.len() == i,
            forall|k: int| 0 <= k < i ==> (#[trigger] keys@[k])@ == lines@[k].spec_rendered(),
        decreases lines@.len() - i,
    {
        keys.push(key(&lines[i]));
        i = i + 1;
    }
    assert(strings_view(keys@) =~= line_keys(lines@));
    keys
}

/// The `(old_index, new_index)` pairs that one operation of an edit script
/// matches: every position of an equal run, none for other operations.
pub open spec fn op_pairs(op: EditOp) -> Seq<(usize, usize)> {
    if op.0 == 0 {
        Seq::new((op.2 - op.1) as nat, |t: int| ((op.1 + t) as usize, (op.3 + t) as usize))
    } else {
        Seq::empty()
    }
}

/// The pairs an edit script matches, in order.
pub open spec fn equal_pairs(ops: Seq<EditOp>) -> Seq<(usize, usize)>
    decreases ops.len(),
{
    if ops.len() == 0 {
        Seq::empty()
    } else {
        equal_pairs(ops.drop_last()) + op_pairs(ops.last())
    }
}

/// The anchors of a variant identical to base: every line matched to
/// itself.
pub open spec fn diagonal(n: nat) -> Seq<(usize, usize)> {
    Seq::new(n, |i: int| (i as usize, i as usize))
}

proof fn lemma_equal_script_prefix(ops: Seq<EditOp>, keys: Seq<Seq<char>>, k: int)
    requires
        crate::diff::script::valid_edit_script(ops, keys, keys),
        forall|j: int| 0 <= j < ops.len() ==> (#[trigger] ops[j]).0 == 0,
        0 <= k <= ops.len(),
    ensures
        k > 0 ==> ops[k - 1].2 == ops[k - 1].4,
        equal_pairs(ops.take(k)) == diagonal((if k == 0 { 0 } else { ops[k - 1].2 }) as nat),
    decreases k,
{
    if k > 0 {
        lemma_equal_script_prefix(ops, keys, k - 1);
        let op = ops[k - 1];
        assert(op.0 == 0);
        assert(keys.subrange(op.1 as int, op.2 as int) == keys.subrange(op.3 as int, op.4 as int));
        assert(keys.subrange(op.1 as int, op.2 as int).len() == keys.subrange(op.3 as int, op.4 as int).len());
        if k > 1 {
            assert(ops[k - 1].1 == ops[k - 2].2 && ops[k - 1].3 == ops[k - 2].4);
        } else {
            assert(ops[0].1 == 0 && ops[0].3 == 0);
        }
        assert(ops.take(k).drop_last() =~= ops.take(k - 1));
        assert(ops.take(k).last() == op);
        let prev = if k == 1 { 0 } else { ops[k - 2].2 };
        assert(equal_pairs(ops.take(k)) =~= diagonal(op.2 as nat));
    } else {
        assert(equal_pairs(ops.take(0)) =~= diagonal(0));
    }
}

proof fn lemma_equal_script_diagonal(ops: Seq<EditOp>, keys: Seq<Seq<char>>)
    requires
        crate::diff::script::valid_edit_script(ops, keys, keys),
        forall|j: int| 0 <= j < ops.len() ==> (#[trigger] ops[j]).0 == 0,
    ensures
        equal_pairs(ops) == diagonal(keys.len()),
{
    lemma_equal_script_prefix(ops, keys, ops.len() as int);
    assert(ops.take(ops.len() as int) =~= ops);
}

/// The `(base_index, variant_index)` pairs that the Myers line diff of
/// `similar` matches between base and a variant.
pub open spec fn myers_anchors(base: Seq<MergeLine>, variant: Seq<MergeLine>) -> Seq<(usize, usize)> {
    equal_pairs(crate::diff::script::similar_line_ops(line_keys(base), line_keys(variant), DiffAlgorithm::Myers))
}

/// A matched-anchor alignment of one variant against base: the
/// `(base_index, variant_index)` pairs of the equal runs of a Myers line
/// diff, in order.
fn lcs_anchors(base: &Vec<MergeLine>, variant: &Vec<MergeLine>) -> (anchors: Vec<(usize, usize)>)
    ensures
        anchors_ok(anchors@, base@, variant@),
        exists|ops: Seq<EditOp>|
            crate::diff::script::valid_edit_script(ops, line_keys(base@), line_keys(variant@))
                && #[trigger] equal_pairs(ops) == anchors@,
        anchors@ == myers_anchors(base@, variant@),
        line_keys(base@) == line_keys(variant@) ==> anchors@ == diagonal(base@.len()),
{
    let base_keys = keys_of_lines(base);
    let var_keys = keys_of_lines(variant);
    let ops = diff_keys(&base_keys, &var_keys, DiffAlgorithm::Myers, None);
    let ghost old_s = strings_view(base_keys@);
    let ghost new_s = strings_view(var_keys@);
    let mut anchors: Vec<(usize, usize)> = Vec::new();
    let mut k: usize = 0;
    while k < ops.len()
        invariant
            old_s == line_keys(base@),
            new_s == line_keys(variant@),
            crate::diff::script::valid_edit_script(ops@, old_s, new_s),
            k <= ops@.len(),
            anchors_ok(anchors@, base@, variant@),
            anchors@ == equal_pairs(ops@.take(k as int)),
            k < ops@.len() ==> forall|a: int| 0 <= a < anchors@.len()
                ==> (#[trigger] anchors@[a]).0 < ops@[k as int].1 && anchors@[a].1 < ops@[k as int].3,
        decreases ops@.len() - k,
    {
        let op: EditOp = ops[k];
        if op.0 == 0 {
            let len = op.2 - op.1;
            proof {
                assert(old_s.subrange(op.1 as int, op.2 as int) == new_s.subrange(op.3 as int, op.4 as int));
                assert(old_s.subrange(op.1 as int, op.2 as int).len() == new_s.subrange(op.3 as int, op.4 as int).len());
            }
            let ghost before = anchors@;
            let mut t: usize = 0;
            while t < len
                invariant
                    old_s == line_keys(base@),
                    new_s == line_keys(variant@),
                    op == ops@[k as int],
                    k < ops@.len(),
                    crate::diff::script::valid_edit_script(ops@, old_s, new_s),
                    op.0 == 0,
                    len == op.2 - op.1,
                    op.4 - op.3 == len,
                    t <= len,
                    before == equal_pairs(ops@.take(k as int)),
                    anchors@ == before + op_pairs(op).take(t as int),
                    anchors@.len() == before.len() + t,
                    anchors_ok(anchors@, base@, variant@),
                    forall|a: int| 0 <= a < before.len() ==> anchors@[a] == before[a],
                    forall|a: int| 0 <= a < before.len()
                        ==> (#[trigger] before[a]).0 < op.1 && before[a].1 < op.3,
                    forall|a: int| before.len() <= a < anchors@.len()
                        ==> (#[trigger] anchors@[a]).0 == op.1 + (a - before.len()) && anchors@[a].1 == op.3 + (a - before.len()),
                decreases len - t,
            {
                proof {
                    let sub_o = old_s.subrange(op.1 as int, op.2 as int);
                    let sub_n = new_s.subrange(op.3 as int, op.4 as int);
                    assert(sub_o == sub_n);
                    assert(sub_o[t as int] == old_s[op.1 + t]);
                    assert(sub_n[t as int] == new_s[op.3 + t]);
                }
                let pair = (op.1 + t, op.3 + t);
                anchors.push(pair);
                assert(op_pairs(op)[t as int] == pair);
                assert(anchors@ =~= before + op_pairs(op).take(t as int + 1));
                proof {
                    let s = anchors@;
                    assert forall|a: int, j: int| #![trigger s[a], s[j]] 0 <= a < j < s.len()
                        implies s[a].0 < s[j].0 && s[a].1 < s[j].1 by {
                        if j == s.len() - 1 {
                            if a < before.len() {
                                assert(before[a] == s[a]);
                            }
                        } else {
                            assert(s[a] == anchors@.drop_last()[a]);
                            assert(s[j] == anchors@.drop_last()[j]);
                        }
                    }
                    assert forall|a: int| 0 <= a < s.len() implies {
                        &&& (#[trigger] s[a]).0 < base@.len()
                        &&& s[a].1 < variant@.len()
                        &&& base@[s[a].0 as int].spec_rendered() == variant@[s[a].1 as int].spec_rendered()
                    } by {
                        if a < s.len() - 1 {
                            assert(s[a] == anchors@.drop_last()[a]);
                        }
                    }
                }
                t = t + 1;
            }
            proof {
                assert(op_pairs(op).take(len as int) =~= op_pairs(op));
                assert(ops@.take(k as int + 1).drop_last() =~= ops@.take(k as int));
                assert(ops@.take(k as int + 1).last() == op);
                if k + 1 < ops@.len() {
                    assert(ops@[k as int + 1].1 == ops@[k as int].2 && ops@[k as int + 1].3 == ops@[k as int].4);
                    assert forall|a: int| 0 <= a < anchors@.len()
                        implies (#[trigger] anchors@[a]).0 < ops@[k as int + 1].1 && anchors@[a].1 < ops@[k as int + 1].3 by {
                        if a < before.len() {
                            assert(anchors@[a] == before[a]);
                        }
                    }
                }
            }
        } else {
            proof {
                assert(ops@.take(k as int + 1).drop_last() =~= ops@.take(k as int));
                assert(ops@.take(k as int + 1).last() == op);
                assert(anchors@ =~= equal_pairs(ops@.take(k as int)) + op_pairs(op));
                if k + 1 < ops@.len() {
                    assert(ops@[k as int + 1].1 == ops@[k as int].2 && ops@[k as int + 1].3 == ops@[k as int].4);
                }
            }
        }
        k = k + 1;
    }
    assert(ops@.take(ops@.len() as int) =~= ops@);
    assert(equal_pairs(ops@) == anchors@);
    proof {
        if line_keys(base@) == line_keys(variant@) {
            lemma_equal_script_diagonal(ops@, old_s);
        }
    }
    anchors
}

proof fn lemma_regions_push(rs: Seq<MergeRegion>, r: MergeRegion)
    ensures
        regions_base(rs.push(r)) == regions_base(rs) + r.base@,
        regions_left(rs.push(r)) == regions_left(rs) + r.left@,
        regions_right(rs.push(r)) == regions_right(rs) + r.right@,
{
    assert(rs.push(r).drop_last() =~= rs);
}

proof fn lemma_keys_add(a: Seq<MergeLine>, b: Seq<MergeLine>)
    ensures
        line_keys(a + b) == line_keys(a) + line_keys(b),
{
    assert(line_keys(a + b) =~= line_keys(a) + line_keys(b));
}

/// One flag per base line of a region list, in order: whether the line
/// stands in a stable region.
pub open spec fn stable_mask(rs: Seq<MergeRegion>) -> Seq<bool>
    decreases rs.len(),
{
    if rs.len() == 0 {
        Seq::empty()
    } else {
        stable_mask(rs.drop_last()) + Seq::new(rs.last().base@.len(), |i: int| rs.last().kind == RegionKind::Stable)
    }
}

proof fn lemma_mask_push(rs: Seq<MergeRegion>, r: MergeRegion)
    ensures
        stable_mask(rs.push(r)) == stable_mask(rs) + Seq::new(r.base@.len(), |i: int| r.kind == RegionKind::Stable),
{
    assert(rs.push(r).drop_last() =~= rs);
}

proof fn lemma_mask_len(rs: Seq<MergeRegion>)
    ensures
        stable_mask(rs).len() == regions_base(rs).len(),
    decreases rs.len(),
{
    if rs.len() > 0 {
        lemma_mask_len(rs.drop_last());
    }
}

/// Emit the anchor line as a stable single-line region, coalescing with a
/// preceding stable region.
fn push_stable_line(regions: &mut Vec<MergeRegion>, line: MergeLine)
    requires
        forall|k: int| 0 <= k < old(regions)@.len() ==> region_ok(#[trigger] old(regions)@[k]),
    ensures
        forall|k: int| 0 <= k < final(regions)@.len() ==> region_ok(#[trigger] final(regions)@[k]),
        regions_base(final(regions)@) == regions_base(old(regions)@).push(line),
        regions_left(final(regions)@) == regions_left(old(regions)@).push(line),
        regions_right(final(regions)@) == regions_right(old(regions)@).push(line),
        no_conflict(old(regions)@) ==> no_conflict(final(regions)@),
        (old(regions)@.len() <= 1 && all_stable(old(regions)@)) ==> (final(regions)@.len() == 1 && all_stable(final(regions)@)),
        stable_mask(final(regions)@) == stable_mask(old(regions)@).push(true),
        final(regions)@.len() > 0 && final(regions)@.last().kind == RegionKind::Stable,
        final(regions)@ == old(regions)@.push(final(regions)@.last()) || (old(regions)@.len() > 0
            && old(regions)@.last().kind == RegionKind::Stable
            && final(regions)@ == old(regions)@.drop_last().push(final(regions)@.last())),
        old(regions)@.len() > 0 && old(regions)@.last().kind == RegionKind::Stable
            ==> final(regions)@ == old(regions)@.drop_last().push(final(regions)@.last()),
{
    let ghost rs = regions@;
    if regions.len() > 0 && matches!(regions[regions.len() - 1].kind, RegionKind::Stable) {
        let mut last = regions.pop().unwrap();
        proof {
            assert(rs.drop_last() =~= regions@);
            assert(last == rs.last());
            assert(region_ok(last));
        }
        let ghost lb = last.base@;
        let ghost ll = last.left@;
        let ghost lr = last.right@;
        last.base.push(line.duplicate());
        last.left.push(line.duplicate());
        last.right.push(line);
        proof {
            lemma_keys_add(lb, seq![line]);
            lemma_keys_add(ll, seq![line]);
            lemma_keys_add(lr, seq![line]);
            assert(last.base@ =~= lb + seq![line]);
            assert(last.left@ =~= ll + seq![line]);
            assert(last.right@ =~= lr + seq![line]);
            lemma_regions_push(regions@, last);
            assert(regions_base(rs) == regions_base(rs.drop_last()) + rs.last().base@);
            assert(regions_left(rs) == regions_left(rs.drop_last()) + rs.last().left@);
            assert(regions_right(rs) == regions_right(rs.drop_last()) + rs.last().right@);
        }
        regions.push(last);
        proof {
            lemma_mask_push(rs.drop_last(), last);
            assert(regions@ =~= rs.drop_last().push(last));
            assert(rs.last().kind == RegionKind::Stable);
            assert(stable_mask(rs) == stable_mask(rs.drop_last())
                + Seq::new(lb.len(), |i: int| rs.last().kind == RegionKind::Stable));
            assert(stable_mask(regions@) =~= stable_mask(rs).push(true));
            assert(regions@.last().kind == RegionKind::Stable);
            assert forall|k: int| 0 <= k < regions@.len() - 1 implies regions@[k] == rs[k] by {}
            assert(regions_base(regions@) =~= regions_base(rs).push(line));
            assert(regions_left(regions@) =~= regions_left(rs).push(line));
            assert(regions_right(regions@) =~= regions_right(rs).push(line));
            assert forall|k: int| 0 <= k < regions@.len() implies region_ok(#[trigger] regions@[k]) by {
                if k < regions@.len() - 1 {
                    assert(regions@[k] == rs[k]);
                }
            }
        }
    } else {
        let r = MergeRegion {
            kind: RegionKind::Stable,
            base: vec![line.duplicate()],
            left: vec![line.duplicate()],
            right: vec![line],
        };
        proof {
            assert(r.base@ =~= seq![line]);
            assert(r.left@ =~= seq![line]);
            assert(r.right@ =~= seq![line]);
            lemma_regions_push(rs, r);
        }
        regions.push(r);
        proof {
            lemma_mask_push(rs, r);
            assert(stable_mask(regions@) =~= stable_mask(rs).push(true));
            assert forall|k: int| 0 <= k < regions@.len() - 1 implies regions@[k] == rs[k] by {}
            assert(regions_base(regions@) =~= regions_base(rs).push(line));
            assert(regions_left(regions@) =~= regions_left(rs).push(line));
            assert(regions_right(regions@) =~= regions_right(rs).push(line));
            assert forall|k: int| 0 <= k < regions@.len() implies region_ok(#[trigger] regions@[k]) by {
                if k < regions@.len() - 1 {
                    assert(regions@[k] == rs[k]);
                }
            }
        }
    }
}

/// Some anchor from index `p` on matches base line `b`.
pub open spec fn anchored_from(anchors: Seq<(usize, usize)>, p: int, b: int) -> bool {
    exists|j: int| p <= j < anchors.len() && anchors[j].0 == b
}

/// Base line `b` is matched by both alignments.
#[verifier::opaque]
pub open spec fn doubly_anchored(la: Seq<(usize, usize)>, ra: Seq<(usize, usize)>, b: int) -> bool {
    anchored_from(la, 0, b) && anchored_from(ra, 0, b)
}

/// The number of base lines a list of regions covers.
#[verifier::opaque]
pub open spec fn base_covered(rs: Seq<MergeRegion>) -> int {
    regions_base(rs).len() as int
}

/// The base offset at which region `k` starts.
pub open spec fn base_offset(rs: Seq<MergeRegion>, k: int) -> int {
    base_covered(rs.take(k))
}

/// Region `k` is a change region that covers a whole run of base lines
/// between doubly anchored lines: it starts at the start of base or right
/// after such a line, and ends at the end of base (of length `n`) or right
/// before one.
pub open spec fn change_run_ok(rs: Seq<MergeRegion>, k: int, la: Seq<(usize, usize)>, ra: Seq<(usize, usize)>, n: int) -> bool {
    &&& base_offset(rs, k) == 0 || doubly_anchored(la, ra, base_offset(rs, k) - 1)
    &&& base_offset(rs, k + 1) == n || doubly_anchored(la, ra, base_offset(rs, k + 1))
}

/// How the regions are grouped around the lines matched by both
/// alignments: no two change (non-stable) regions are adjacent, every
/// change region covers a whole run of base lines between doubly anchored
/// lines, and a doubly anchored line that follows a stable region joins
/// it (a stable region right after another starts with a line that is not
/// doubly anchored).
pub open spec fn grouped_by_anchors(rs: Seq<MergeRegion>, la: Seq<(usize, usize)>, ra: Seq<(usize, usize)>, n: int) -> bool {
    &&& forall|k: int| #![trigger rs[k], rs[k + 1]] 0 <= k < rs.len() - 1 ==> rs[k].kind == RegionKind::Stable
        || rs[k + 1].kind == RegionKind::Stable
    &&& forall|k: int| 0 <= k < rs.len() && (#[trigger] rs[k]).kind != RegionKind::Stable ==> change_run_ok(rs, k, la, ra, n)
    &&& forall|k: int| #![trigger rs[k], rs[k + 1]] 0 <= k < rs.len() - 1 && rs[k].kind == RegionKind::Stable
        && rs[k + 1].kind == RegionKind::Stable ==> !doubly_anchored(la, ra, base_offset(rs, k + 1))
}

#[verifier::spinoff_prover]
proof fn lemma_grouped_push(rs: Seq<MergeRegion>, r: MergeRegion, la: Seq<(usize, usize)>, ra: Seq<(usize, usize)>, n: int)
    requires
        grouped_by_anchors(rs, la, ra, n),
        r.kind != RegionKind::Stable ==> {
            &&& rs.len() == 0 || rs.last().kind == RegionKind::Stable
            &&& base_covered(rs) == 0 || doubly_anchored(la, ra, base_covered(rs) - 1)
            &&& base_covered(rs) + r.base@.len() == n || doubly_anchored(la, ra, base_covered(rs) + r.base@.len())
        },
        r.kind == RegionKind::Stable && rs.len() > 0 && rs.last().kind == RegionKind::Stable
            ==> !doubly_anchored(la, ra, base_covered(rs)),
    ensures
        grouped_by_anchors(rs.push(r), la, ra, n),
{
    let t = rs.push(r);
    assert forall|k: int| #![trigger t[k], t[k + 1]] 0 <= k < t.len() - 1 implies t[k].kind == RegionKind::Stable
        || t[k + 1].kind == RegionKind::Stable by {
        assert(t[k] == rs[k]);
        if k + 1 < rs.len() {
            assert(t[k + 1] == rs[k + 1]);
        }
    }
    assert forall|k: int| 0 <= k < t.len() && (#[trigger] t[k]).kind != RegionKind::Stable implies change_run_ok(t, k, la, ra, n) by {
        if k < rs.len() {
            assert(t[k] == rs[k]);
            assert(t.take(k) =~= rs.take(k));
            assert(t.take(k + 1) =~= rs.take(k + 1));
            assert(change_run_ok(rs, k, la, ra, n));
        } else {
            assert(t.take(k) =~= rs);
            assert(t.take(k + 1) =~= t);
            assert(base_covered(t) == base_covered(rs) + r.base@.len()) by {
                reveal(base_covered);
                lemma_regions_push(rs, r);
            }
        }
    }
    assert forall|k: int| #![trigger t[k], t[k + 1]] 0 <= k < t.len() - 1 && t[k].kind == RegionKind::Stable
        && t[k + 1].kind == RegionKind::Stable implies !doubly_anchored(la, ra, base_offset(t, k + 1)) by {
        assert(t[k] == rs[k]);
        if k + 1 < rs.len() {
            assert(t[k + 1] == rs[k + 1]);
            assert(t.take(k + 1) =~= rs.take(k + 1));
        } else {
            assert(t.take(k + 1) =~= rs);
        }
    }
}

#[verifier::spinoff_prover]
proof fn lemma_grouped_replace_last(rs: Seq<MergeRegion>, r: MergeRegion, la: Seq<(usize, usize)>, ra: Seq<(usize, usize)>, n: int)
    requires
        grouped_by_anchors(rs, la, ra, n),
        rs.len() > 0,
        rs.last().kind == RegionKind::Stable,
        r.kind == RegionKind::Stable,
    ensures
        grouped_by_anchors(rs.drop_last().push(r), la, ra, n),
{
    let t = rs.drop_last().push(r);
    assert forall|k: int| #![trigger t[k], t[k + 1]] 0 <= k < t.len() - 1 implies t[k].kind == RegionKind::Stable
        || t[k + 1].kind == RegionKind::Stable by {
        assert(t[k] == rs[k]);
        if k + 1 < t.len() - 1 {
            assert(t[k + 1] == rs[k + 1]);
        }
    }
    assert forall|k: int| 0 <= k < t.len() && (#[trigger] t[k]).kind != RegionKind::Stable implies change_run_ok(t, k, la, ra, n) by {
        assert(t[k] == rs[k]);
        assert(t.take(k) =~= rs.take(k));
        assert(t.take(k + 1) =~= rs.take(k + 1));
        assert(change_run_ok(rs, k, la, ra, n));
    }
    assert forall|k: int| #![trigger t[k], t[k + 1]] 0 <= k < t.len() - 1 && t[k].kind == RegionKind::Stable
        && t[k + 1].kind == RegionKind::Stable implies !doubly_anchored(la, ra, base_offset(t, k + 1)) by {
        assert(t[k] == rs[k]);
        assert(rs[k + 1].kind == RegionKind::Stable);
        assert(t.take(k + 1) =~= rs.take(k + 1));
    }
}

/// No region of the list is a conflict.
pub open spec fn no_conflict(rs: Seq<MergeRegion>) -> bool {
    forall|k: int| 0 <= k < rs.len() ==> (#[trigger] rs[k]).kind != RegionKind::Conflict
}

/// Every region of the list is stable.
pub open spec fn all_stable(rs: Seq<MergeRegion>) -> bool {
    forall|k: int| 0 <= k < rs.len() ==> (#[trigger] rs[k]).kind == RegionKind::Stable
}

/// The walk's progress: the regions so far cover `base[..bi]` exactly and
/// `left[..li]`, `right[..ri]` key for key, and each is well classified.
pub open spec fn walk_ok(
    regions: Seq<MergeRegion>,
    base: Seq<MergeLine>,
    left: Seq<MergeLine>,
    right: Seq<MergeLine>,
    bi: int,
    li: int,
    ri: int,
) -> bool {
    &&& 0 <= bi <= base.len()
    &&& 0 <= li <= left.len()
    &&& 0 <= ri <= right.len()
    &&& regions_base(regions) == base.subrange(0, bi)
    &&& line_keys(regions_left(regions)) == line_keys(left.subrange(0, li))
    &&& line_keys(regions_right(regions)) == line_keys(right.subrange(0, ri))
    &&& forall|k: int| 0 <= k < regions.len() ==> region_ok(#[trigger] regions[k])
}

/// Emit the change region `base[bi..b]`, `left[li..l]`, `right[ri..r]`
/// (when not empty) and then the anchor line `base[b]`.
fn emit_segment(
    regions: &mut Vec<MergeRegion>,
    base: &Vec<MergeLine>,
    left: &Vec<MergeLine>,
    right: &Vec<MergeLine>,
    bi: usize,
    li: usize,
    ri: usize,
    b: usize,
    l: usize,
    r: usize,
)
    requires
        walk_ok(old(regions)@, base@, left@, right@, bi as int, li as int, ri as int),
        bi <= b <= base@.len(),
        li <= l <= left@.len(),
        ri <= r <= right@.len(),
    ensures
        walk_ok(final(regions)@, base@, left@, right@, b as int, l as int, r as int),
        (bi == b && li == l && ri == r) ==> final(regions)@ == old(regions)@,
        !(bi == b && li == l && ri == r) ==> final(regions)@ == old(regions)@.push(final(regions)@.last()),
        (no_conflict(old(regions)@) && (line_keys(base@.subrange(bi as int, b as int)) == line_keys(
            left@.subrange(li as int, l as int),
        ) || line_keys(base@.subrange(bi as int, b as int)) == line_keys(right@.subrange(ri as int, r as int))))
            ==> no_conflict(final(regions)@),
        stable_mask(final(regions)@).len() == b,
        forall|i: int| 0 <= i < bi ==> stable_mask(final(regions)@)[i] == stable_mask(old(regions)@)[i],
{
    let ghost rs = regions@;
    proof {
        lemma_mask_len(rs);
    }
    if !(bi == b && li == l && ri == r) {
        let region = classify(copy_lines(base, bi, b), copy_lines(left, li, l), copy_lines(right, ri, r));
        proof {
            lemma_regions_push(rs, region);
            assert(base@.subrange(0, bi as int) + base@.subrange(bi as int, b as int) =~= base@.subrange(0, b as int));
            assert(left@.subrange(0, li as int) + left@.subrange(li as int, l as int) =~= left@.subrange(0, l as int));
            assert(right@.subrange(0, ri as int) + right@.subrange(ri as int, r as int) =~= right@.subrange(0, r as int));
            lemma_keys_add(regions_left(rs), region.left@);
            lemma_keys_add(left@.subrange(0, li as int), left@.subrange(li as int, l as int));
            lemma_keys_add(regions_right(rs), region.right@);
            lemma_keys_add(right@.subrange(0, ri as int), right@.subrange(ri as int, r as int));
        }
        regions.push(region);
        proof {
            assert forall|k: int| 0 <= k < regions@.len() implies region_ok(#[trigger] regions@[k]) by {
                if k < regions@.len() - 1 {
                    assert(regions@[k] == rs[k]);
                }
            }
            assert forall|k: int| 0 <= k < regions@.len() - 1 implies regions@[k] == rs[k] by {}
            assert(regions@.last() == region);
            lemma_mask_push(rs, region);
            lemma_mask_len(regions@);
        }
    } else {
        proof {
            assert(base@.subrange(0, bi as int) =~= base@.subrange(0, b as int));
            lemma_mask_len(regions@);
        }
    }
}

/// Emit the anchor `base[b]` (matched by `left[l]` and `right[r]`).
fn emit_anchor(
    regions: &mut Vec<MergeRegion>,
    base: &Vec<MergeLine>,
    left: &Vec<MergeLine>,
    right: &Vec<MergeLine>,
    b: usize,
    l: usize,
    r: usize,
)
    requires
        walk_ok(old(regions)@, base@, left@, right@, b as int, l as int, r as int),
        b < base@.len(),
        l < left@.len(),
        r < right@.len(),
        base@[b as int].spec_rendered() == left@[l as int].spec_rendered(),
        base@[b as int].spec_rendered() == right@[r as int].spec_rendered(),
    ensures
        walk_ok(final(regions)@, base@, left@, right@, b + 1, l + 1, r + 1),
        no_conflict(old(regions)@) ==> no_conflict(final(regions)@),
        (old(regions)@.len() <= 1 && all_stable(old(regions)@)) ==> (final(regions)@.len() == 1 && all_stable(final(regions)@)),
        stable_mask(final(regions)@).len() == b + 1,
        stable_mask(final(regions)@)[b as int],
        forall|i: int| 0 <= i < b ==> stable_mask(final(regions)@)[i] == stable_mask(old(regions)@)[i],
        final(regions)@.len() > 0 && final(regions)@.last().kind == RegionKind::Stable,
        final(regions)@ == old(regions)@.push(final(regions)@.last()) || (old(regions)@.len() > 0
            && old(regions)@.last().kind == RegionKind::Stable
            && final(regions)@ == old(regions)@.drop_last().push(final(regions)@.last())),
        old(regions)@.len() > 0 && old(regions)@.last().kind == RegionKind::Stable
            ==> final(regions)@ == old(regions)@.drop_last().push(final(regions)@.last()),
{
    let ghost rs = regions@;
    proof {
        lemma_mask_len(rs);
    }
    let line = base[b].duplicate();
    push_stable_line(regions, line);
    proof {
        assert(base@.subrange(0, b as int).push(line) =~= base@.subrange(0, b as int + 1));
        lemma_keys_add(regions_left(rs), seq![line]);
        lemma_keys_add(left@.subrange(0, l as int), seq![left@[l as int]]);
        assert(regions_left(rs).push(line) =~= regions_left(rs) + seq![line]);
        assert(left@.subrange(0, l as int) + seq![left@[l as int]] =~= left@.subrange(0, l as int + 1));
        assert(line_keys(seq![line]) =~= line_keys(seq![left@[l as int]]));
        lemma_keys_add(regions_right(rs), seq![line]);
        lemma_keys_add(right@.subrange(0, r as int), seq![right@[r as int]]);
        assert(regions_right(rs).push(line) =~= regions_right(rs) + seq![line]);
        assert(right@.subrange(0, r as int) + seq![right@[r as int]] =~= right@.subrange(0, r as int + 1));
        assert(line_keys(seq![line]) =~= line_keys(seq![right@[r as int]]));
    }
}

proof fn lemma_keys_slices(a: Seq<MergeLine>, b: Seq<MergeLine>, i: int, j: int)
    requires
        line_keys(a) == line_keys(b),
        0 <= i <= j <= a.len(),
    ensures
        line_keys(a.subrange(i, j)) == line_keys(b.subrange(i, j)),
{
    assert(line_keys(a).len() == a.len());
    assert(line_keys(b).len() == b.len());
    assert(line_keys(a).len() == line_keys(b).len());
    assert(line_keys(a.subrange(i, j)) =~= line_keys(a).subrange(i, j));
    assert(line_keys(b.subrange(i, j)) =~= line_keys(b).subrange(i, j));
}

/// The diff3 result shape: the regions' base sides concatenate to `base`
/// exactly, their left and right sides concatenate to `left` and `right`
/// line for line (same rendered text), and every region is classified by
/// comparing its sides and is not empty on all three.
pub open spec fn diff3_result(regions: Seq<MergeRegion>, base: Seq<MergeLine>, left: Seq<MergeLine>, right: Seq<MergeLine>) -> bool {
    &&& regions_base(regions) == base
    &&& line_keys(regions_left(regions)) == line_keys(left)
    &&& line_keys(regions_right(regions)) == line_keys(right)
    &&& forall|k: int| 0 <= k < regions.len() ==> region_ok(#[trigger] regions[k])
}

/// Run the three-way merge, returning the reconciled region list.
///
/// The regions' base sides concatenate to `base` exactly; their left and
/// right sides concatenate to `left` and `right` line for line (same
/// rendered text); every region is classified by comparing its sides and
/// none is empty on all three sides. Each side is aligned with base by the
/// Myers line diff of `similar`; every base line that both alignments
/// match stands in a stable region, and the change regions are exactly
/// the runs between those lines: no two change regions are adjacent, and
/// each covers the base lines from just after one doubly matched line (or
/// the start) to just before the next (or the end); a doubly matched line
/// right after a stable region extends it. An anchor line is
/// carried on all three sides as its base line, so the left and right
/// sides equal the inputs in rendered text. A side that equals base line for line
/// is aligned with it along the diagonal, so it gives no conflict; when
/// both sides equal base, the result is at most one stable region.
/// The regions of a three-way merge, given the alignment `la` of left
/// against base and `ra` of right against base (pairs of matched indices,
/// increasing, matching equal lines). The regions' base sides concatenate
/// to `base` exactly and their left and right sides to `left` and `right`
/// in rendered text; each region is classified by its sides; every base
/// line both alignments match stands in a stable region; the regions are
/// grouped around those lines (`grouped_by_anchors`); and a side equal to
/// base and aligned along the diagonal gives no conflict (both such sides:
/// at most one stable region).
pub fn regions_from_anchors(
    base: &Vec<MergeLine>,
    left: &Vec<MergeLine>,
    right: &Vec<MergeLine>,
    la: &Vec<(usize, usize)>,
    ra: &Vec<(usize, usize)>,
) -> (regions: Vec<MergeRegion>)
    requires
        anchors_ok(la@, base@, left@),
        anchors_ok(ra@, base@, right@),
    ensures
        diff3_result(regions@, base@, left@, right@),
        ((line_keys(left@) == line_keys(base@) && la@ == diagonal(base@.len()))
            || (line_keys(right@) == line_keys(base@) && ra@ == diagonal(base@.len()))) ==> no_conflict(regions@),
        (line_keys(left@) == line_keys(base@) && la@ == diagonal(base@.len()) && line_keys(right@) == line_keys(base@)
            && ra@ == diagonal(base@.len())) ==> regions@.len() <= 1 && all_stable(regions@),
        stable_mask(regions@).len() == base@.len(),
        forall|b: int| anchored_from(la@, 0, b) && anchored_from(ra@, 0, b) ==> #[trigger] stable_mask(regions@)[b],
        grouped_by_anchors(regions@, la@, ra@, base@.len() as int),
{
    let ghost n = base@.len();
    let ghost ld = line_keys(left@) == line_keys(base@) && la@ == diagonal(n);
    let ghost rd = line_keys(right@) == line_keys(base@) && ra@ == diagonal(n);
    let mut regions: Vec<MergeRegion> = Vec::new();
    let mut bi: usize = 0;
    let mut li: usize = 0;
    let mut ri: usize = 0;
    let mut p: usize = 0;
    let mut q: usize = 0;
    proof {
        assert(base@.subrange(0, 0) =~= Seq::<MergeLine>::empty());
        assert(left@.subrange(0, 0) =~= Seq::<MergeLine>::empty());
        assert(right@.subrange(0, 0) =~= Seq::<MergeLine>::empty());
        assert(line_keys(Seq::<MergeLine>::empty()) =~= Seq::<Seq<char>>::empty());
        reveal(base_covered);
    }
    while p < la.len() && q < ra.len()
        invariant
            anchors_ok(la@, base@, left@),
            anchors_ok(ra@, base@, right@),
            p <= la@.len(),
            q <= ra@.len(),
            walk_ok(regions@, base@, left@, right@, bi as int, li as int, ri as int),
            forall|j: int| p <= j < la@.len() ==> (#[trigger] la@[j]).0 >= bi && la@[j].1 >= li,
            forall|j: int| q <= j < ra@.len() ==> (#[trigger] ra@[j]).0 >= bi && ra@[j].1 >= ri,
            ld == (line_keys(left@) == line_keys(base@) && la@ == diagonal(n)),
            rd == (line_keys(right@) == line_keys(base@) && ra@ == diagonal(n)),
            n == base@.len(),
            ld ==> la@ == diagonal(n) && li == bi,
            rd ==> ra@ == diagonal(n) && ri == bi,
            (ld || rd) ==> no_conflict(regions@),
            (ld && rd) ==> p == q && p == bi && regions@.len() <= 1 && all_stable(regions@),
            stable_mask(regions@).len() == bi,
            forall|b: int| 0 <= b < bi && anchored_from(la@, 0, b) && anchored_from(ra@, 0, b)
                ==> #[trigger] stable_mask(regions@)[b],
            forall|b: int| bi <= b && #[trigger] anchored_from(la@, 0, b) && anchored_from(ra@, 0, b)
                ==> anchored_from(la@, p as int, b) && anchored_from(ra@, q as int, b),
            grouped_by_anchors(regions@, la@, ra@, n as int),
            regions@.len() == 0 || regions@.last().kind == RegionKind::Stable,
            bi == 0 || doubly_anchored(la@, ra@, bi - 1),
            base_covered(regions@) == bi,
        decreases la@.len() - p + ra@.len() - q,
    {
        let (lb, ll) = la[p];
        let (rb, rr) = ra[q];
        proof {
            if ld {
                assert(la@[p as int] == (p as usize, p as usize));
                lemma_keys_slices(base@, left@, bi as int, lb as int);
            }
            if rd {
                assert(ra@[q as int] == (q as usize, q as usize));
                lemma_keys_slices(base@, right@, bi as int, rb as int);
            }
        }
        proof {
            assert(la@[p as int].0 < base@.len() && la@[p as int].1 < left@.len());
            assert(ra@[q as int].0 < base@.len() && ra@[q as int].1 < right@.len());
            assert(lb < base.len() && ll < left.len() && rr < right.len());
        }
        if lb < rb {
            proof {
                assert forall|b: int| bi <= b && #[trigger] anchored_from(la@, 0, b) && anchored_from(ra@, 0, b)
                    implies anchored_from(la@, p + 1, b) && anchored_from(ra@, q as int, b) by {
                    let j = choose|j: int| p <= j < la@.len() && la@[j].0 == b;
                    let j2 = choose|j2: int| q <= j2 < ra@.len() && ra@[j2].0 == b;
                    if j == p {
                        if j2 > q {
                            assert(ra@[q as int].0 < ra@[j2].0);
                        }
                        assert(false);
                    }
                    assert(la@[j].0 == b);
                }
            }
            p = p + 1;
        } else if rb < lb {
            proof {
                assert forall|b: int| bi <= b && #[trigger] anchored_from(la@, 0, b) && anchored_from(ra@, 0, b)
                    implies anchored_from(la@, p as int, b) && anchored_from(ra@, q + 1, b) by {
                    let j = choose|j: int| p <= j < la@.len() && la@[j].0 == b;
                    let j2 = choose|j2: int| q <= j2 < ra@.len() && ra@[j2].0 == b;
                    if j2 == q {
                        if j > p {
                            assert(la@[p as int].0 < la@[j].0);
                        }
                        assert(false);
                    }
                    assert(ra@[j2].0 == b);
                }
            }
            q = q + 1;
        } else {
            let ghost m0 = stable_mask(regions@);
            let ghost rs0 = regions@;
            proof {
                assert(doubly_anchored(la@, ra@, lb as int)) by {
                    reveal(doubly_anchored);
                    assert(la@[p as int].0 == lb);
                    assert(ra@[q as int].0 == lb);
                }
            }
            emit_segment(&mut regions, base, left, right, bi, li, ri, lb, ll, rr);
            proof {
                if regions@ != rs0 {
                    let seg = regions@.last();
                    assert(regions@ == rs0.push(seg));
                    assert(base_covered(regions@) == lb && base_covered(rs0) + seg.base@.len() == base_covered(regions@)) by {
                        reveal(base_covered);
                        lemma_regions_push(rs0, seg);
                    }
                    if seg.kind == RegionKind::Stable {
                        assert(region_ok(seg));
                        assert(line_keys(seg.base@).len() == seg.base@.len());
                        assert(line_keys(seg.left@).len() == seg.left@.len());
                        assert(line_keys(seg.right@).len() == seg.right@.len());
                        assert(seg.base@.len() > 0);
                        assert(!doubly_anchored(la@, ra@, bi as int)) by {
                            reveal(doubly_anchored);
                            if anchored_from(la@, 0, bi as int) && anchored_from(ra@, 0, bi as int) {
                                let j = choose|j: int| p <= j < la@.len() && la@[j].0 == bi;
                                if j > p {
                                    assert(la@[p as int].0 < la@[j].0);
                                }
                            }
                        }
                    }
                    lemma_grouped_push(rs0, seg, la@, ra@, n as int);
                }
            }
            let ghost m1 = stable_mask(regions@);
            let ghost rs1 = regions@;
            emit_anchor(&mut regions, base, left, right, lb, ll, rr);
            proof {
                if regions@ == rs1.push(regions@.last()) {
                    if rs1.len() > 0 && rs1.last().kind == RegionKind::Stable {
                        assert(regions@.len() == rs1.len());
                    }
                    lemma_grouped_push(rs1, regions@.last(), la@, ra@, n as int);
                } else {
                    lemma_grouped_replace_last(rs1, regions@.last(), la@, ra@, n as int);
                }
                assert(base_covered(regions@) == lb + 1) by {
                    reveal(base_covered);
                }
            }
            proof {
                assert forall|b: int| 0 <= b < lb + 1 && anchored_from(la@, 0, b) && anchored_from(ra@, 0, b)
                    implies #[trigger] stable_mask(regions@)[b] by {
                    if b < bi {
                        assert(m0[b]);
                        assert(m1[b] == m0[b]);
                    } else if b < lb {
                        assert(anchored_from(la@, 0, b));
                        let j = choose|j: int| p <= j < la@.len() && la@[j].0 == b;
                        if j > p {
                            assert(la@[p as int].0 < la@[j].0);
                        }
                        assert(false);
                    }
                }
                assert forall|b: int| lb + 1 <= b && #[trigger] anchored_from(la@, 0, b) && anchored_from(ra@, 0, b)
                    implies anchored_from(la@, p + 1, b) && anchored_from(ra@, q + 1, b) by {
                    let j = choose|j: int| p <= j < la@.len() && la@[j].0 == b;
                    let j2 = choose|j2: int| q <= j2 < ra@.len() && ra@[j2].0 == b;
                    assert(j != p);
                    assert(j2 != q);
                    assert(la@[j].0 == b);
                    assert(ra@[j2].0 == b);
                }
                assert forall|j: int| p + 1 <= j < la@.len() implies (#[trigger] la@[j]).0 >= lb + 1 && la@[j].1 >= ll + 1 by {
                    assert(la@[p as int].0 < la@[j].0 && la@[p as int].1 < la@[j].1);
                }
                assert forall|j: int| q + 1 <= j < ra@.len() implies (#[trigger] ra@[j]).0 >= rb + 1 && ra@[j].1 >= rr + 1 by {
                    assert(ra@[q as int].0 < ra@[j].0 && ra@[q as int].1 < ra@[j].1);
                }
            }
            bi = lb + 1;
            li = ll + 1;
            ri = rr + 1;
            p = p + 1;
            q = q + 1;
        }
    }
    proof {
        if ld {
            assert(line_keys(left@).len() == line_keys(base@).len());
            lemma_keys_slices(base@, left@, bi as int, n as int);
        }
        if rd {
            assert(line_keys(right@).len() == line_keys(base@).len());
            lemma_keys_slices(base@, right@, bi as int, n as int);
        }
    }
    let ghost m0 = stable_mask(regions@);
    let ghost rs0 = regions@;
    emit_segment(&mut regions, base, left, right, bi, li, ri, base.len(), left.len(), right.len());
    proof {
        if regions@ != rs0 {
            let seg = regions@.last();
            assert(regions@ == rs0.push(seg));
            assert(regions_base(regions@) == base@.subrange(0, base@.len() as int));
            assert(regions_base(regions@).len() == n);
            assert(base_covered(rs0) + seg.base@.len() == n) by {
                reveal(base_covered);
                lemma_regions_push(rs0, seg);
            }
            assert(!doubly_anchored(la@, ra@, bi as int)) by {
                reveal(doubly_anchored);
                if anchored_from(la@, 0, bi as int) && anchored_from(ra@, 0, bi as int) {
                    assert(anchored_from(la@, p as int, bi as int) && anchored_from(ra@, q as int, bi as int));
                    let j1 = choose|j1: int| p <= j1 < la@.len() && la@[j1].0 == bi;
                    let j2 = choose|j2: int| q <= j2 < ra@.len() && ra@[j2].0 == bi;
                }
            }
            lemma_grouped_push(rs0, seg, la@, ra@, n as int);
        }
    }
    proof {
        assert forall|b: int| anchored_from(la@, 0, b) && anchored_from(ra@, 0, b)
            implies #[trigger] stable_mask(regions@)[b] by {
            let j = choose|j: int| 0 <= j < la@.len() && la@[j].0 == b;
            assert(la@[j].0 < base@.len());
            if b >= bi {
                assert(anchored_from(la@, p as int, b) && anchored_from(ra@, q as int, b));
                let j1 = choose|j1: int| p <= j1 < la@.len() && la@[j1].0 == b;
                let j2 = choose|j2: int| q <= j2 < ra@.len() && ra@[j2].0 == b;
                assert(false);
            }
            assert(m0[b]);
        }
        assert(base@.subrange(0, base@.len() as int) =~= base@);
        assert(left@.subrange(0, left@.len() as int) =~= left@);
        assert(right@.subrange(0, right@.len() as int) =~= right@);
    }
    regions
}

/// Run the three-way merge, returning the reconciled region list.
///
/// The regions' base sides concatenate to `base` exactly; their left and
/// right sides concatenate to `left` and `right` line for line (same
/// rendered text); every region is classified by comparing its sides and
/// none is empty on all three sides. Each side is aligned with base by the
/// Myers line diff of `similar`; every base line that both alignments
/// match stands in a stable region, and the change regions are exactly
/// the runs between those lines: no two change regions are adjacent, and
/// each covers the base lines from just after one doubly matched line (or
/// the start) to just before the next (or the end); a doubly matched line
/// right after a stable region extends it. An anchor line is
/// carried on all three sides as its base line, so the left and right
/// sides equal the inputs in rendered text. A side that equals base line for line
/// is aligned with it along the diagonal, so it gives no conflict; when
/// both sides equal base, the result is at most one stable region.
pub fn diff3(base: &Vec<MergeLine>, left: &Vec<MergeLine>, right: &Vec<MergeLine>) -> (regions: Vec<MergeRegion>)
    ensures
        diff3_result(regions@, base@, left@, right@),
        (line_keys(left@) == line_keys(base@) || line_keys(right@) == line_keys(base@)) ==> no_conflict(regions@),
        (line_keys(left@) == line_keys(base@) && line_keys(right@) == line_keys(base@)) ==> regions@.len() <= 1
            && all_stable(regions@),
        stable_mask(regions@).len() == base@.len(),
        forall|b: int| anchored_from(myers_anchors(base@, left@), 0, b) && anchored_from(myers_anchors(base@, right@), 0, b)
            ==> #[trigger] stable_mask(regions@)[b],
        grouped_by_anchors(regions@, myers_anchors(base@, left@), myers_anchors(base@, right@), base@.len() as int),
{
    let la = lcs_anchors(base, left);
    let ra = lcs_anchors(base, right);
    regions_from_anchors(base, left, right, &la, &ra)
}

} // verus!
