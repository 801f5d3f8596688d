//! Three-way merge session: the reconciled region list, structured
//! conflict records with durable ids, resolution operations with
//! undo/redo, the merged result text and the save-block predicate.
//!
//! Conflicts are metadata: no conflict markers are ever written into the
//! result.

use vstd::prelude::*;
use vstd::string::StringSliceAdditionalSpecFns;

use super::engine::{
    anchored_from, auto_content_spec, copy_lines, diff3, diff3_result, grouped_by_anchors, myers_anchors, stable_mask, MergeRegion,
    RegionKind,
};
use super::line::{render_lines, render_spec, split_lines, well_formed_lines, MergeLine};
use crate::diff::model::{le_bytes_u64, newline_chars, push_le_u64};
use crate::error::{CoreError, CoreResult};
use crate::hash::{fnv1a64, fnv1a64_spec};

verus! {

/// Durable identity of one conflict within a session.
pub type ConflictId = u64;

/// Resolution state of one conflict.
#[derive(Debug, Clone, Copy, PartialEq, Eq, Structural)]
pub enum ConflictStatus {
    Unresolved,
    ResolvedLeft,
    ResolvedRight,
    /// Left then right, in that order.
    ResolvedBoth,
    /// User-supplied custom content.
    ResolvedManual,
    /// Deliberately skipped; contributes the base content to the result.
    Ignored,
}

impl ConflictStatus {
    /// `true` for every status but `Unresolved`.
    pub fn is_resolved(&self) -> (b: bool)
        ensures
            b == (*self != ConflictStatus::Unresolved),
    {
        !matches!(self, ConflictStatus::Unresolved)
    }
}

/// One conflict region with its three sides and current resolution.
#[derive(Debug, Clone, PartialEq, Eq)]
pub struct MergeConflict {
    pub id: ConflictId,
    pub base: Vec<MergeLine>,
    pub left: Vec<MergeLine>,
    pub right: Vec<MergeLine>,
    pub status: ConflictStatus,
    /// Present only when `status == ResolvedManual`.
    pub manual: Option<Vec<MergeLine>>,
}

/// A conflict as values: id, base, left, right, status, manual content.
pub type ConflictModel = (ConflictId, Seq<MergeLine>, Seq<MergeLine>, Seq<MergeLine>, ConflictStatus, Option<Seq<MergeLine>>);

/// The view of optional manual content.
pub open spec fn manual_view(m: Option<Vec<MergeLine>>) -> Option<Seq<MergeLine>> {
    match m {
        Some(v) => Some(v@),
        None => None,
    }
}

impl MergeConflict {
    /// The conflict as values.
    pub open spec fn model(self) -> ConflictModel {
        (self.id, self.base@, self.left@, self.right@, self.status, manual_view(self.manual))
    }
}

/// Lines a conflict currently contributes to the result.
pub open spec fn resolved_spec(c: ConflictModel) -> Seq<MergeLine> {
    match c.4 {
        ConflictStatus::Unresolved => Seq::empty(),
        ConflictStatus::ResolvedLeft => c.2,
        ConflictStatus::ResolvedRight => c.3,
        ConflictStatus::ResolvedBoth => c.2 + c.3,
        ConflictStatus::ResolvedManual => match c.5 {
            Some(m) => m,
            None => Seq::empty(),
        },
        ConflictStatus::Ignored => c.1,
    }
}

fn append_lines(out: &mut Vec<MergeLine>, lines: &Vec<MergeLine>)
    ensures
        final(out)@ == old(out)@ + lines@,
{
    let ghost start = out@;
    let mut i: usize = 0;
    while i < lines.len()
        invariant
            i <= lines@.len(),
            out@ == start + lines@.subrange(0, i as int),
        decreases lines@.len() - i,
    {
        out.push(lines[i].duplicate());
        assert(out@ =~= start + lines@.subrange(0, i as int + 1));
        i = i + 1;
    }
    assert(lines@.subrange(0, lines@.len() as int) =~= lines@);
}

impl MergeConflict {
    /// Appends the lines this conflict currently contributes.
    fn append_resolved(&self, out: &mut Vec<MergeLine>)
        ensures
            final(out)@ == old(out)@ + resolved_spec(self.model()),
    {
        match self.status {
            ConflictStatus::Unresolved => {
                assert(old(out)@ + Seq::<MergeLine>::empty() =~= old(out)@);
            },
            ConflictStatus::ResolvedLeft => append_lines(out, &self.left),
            ConflictStatus::ResolvedRight => append_lines(out, &self.right),
            ConflictStatus::ResolvedBoth => {
                append_lines(out, &self.left);
                append_lines(out, &self.right);
                assert(final(out)@ =~= old(out)@ + (self.left@ + self.right@));
            },
            ConflictStatus::ResolvedManual => match &self.manual {
                Some(m) => append_lines(out, m),
                None => {
                    assert(old(out)@ + Seq::<MergeLine>::empty() =~= old(out)@);
                },
            },
            ConflictStatus::Ignored => append_lines(out, &self.base),
        }
    }
}

/// One slice of the final result: fixed auto-merged content or a
/// reference to a conflict whose content depends on its resolution.
#[derive(Debug, Clone, PartialEq, Eq)]
enum ResultSegment {
    Fixed(Vec<MergeLine>),
    Conflict(ConflictId),
}

/// A segment as values: whether it is a conflict reference, the fixed
/// lines (empty for a reference) and the referenced id (`0` for fixed).
pub type SegmentModel = (bool, Seq<MergeLine>, ConflictId);

impl ResultSegment {
    spec fn model(self) -> SegmentModel {
        match self {
            ResultSegment::Fixed(v) => (false, v@, 0),
            ResultSegment::Conflict(id) => (true, Seq::empty(), id),
        }
    }
}

/// A reversible resolution operation for undo/redo.
#[derive(Debug, Clone)]
struct ResolutionTransaction {
    conflict_id: ConflictId,
    previous_status: ConflictStatus,
    previous_manual: Option<Vec<MergeLine>>,
}

/// A resolution transaction as values: conflict id, status and manual
/// content to restore.
pub type ResolutionModel = (ConflictId, ConflictStatus, Option<Seq<MergeLine>>);

impl ResolutionTransaction {
    spec fn model(self) -> ResolutionModel {
        (self.conflict_id, self.previous_status, manual_view(self.previous_manual))
    }
}

/// Aggregate three-way merge statistics.
#[derive(Debug, Clone, Copy, PartialEq, Eq, Default)]
pub struct ThreeWayStats {
    pub regions_total: usize,
    pub auto_merged: usize,
    pub conflicts_total: usize,
    pub conflicts_unresolved: usize,
}

/// A session as values: segments, conflicts, undo stack and redo stack
/// (tops last).
pub type ThreeWayModel = (Seq<SegmentModel>, Seq<ConflictModel>, Seq<ResolutionModel>, Seq<ResolutionModel>);

/// `i` is the first conflict carrying `id`.
pub open spec fn is_first_conflict(cs: Seq<ConflictModel>, id: ConflictId, i: int) -> bool {
    &&& 0 <= i < cs.len()
    &&& cs[i].0 == id
    &&& forall|j: int| 0 <= j < i ==> cs[j].0 != id
}

/// Some conflict carries `id`.
pub open spec fn has_conflict(cs: Seq<ConflictModel>, id: ConflictId) -> bool {
    exists|i: int| 0 <= i < cs.len() && cs[i].0 == id
}

/// The index of the first conflict carrying `id` (meaningful when
/// `has_conflict`).
pub open spec fn conflict_index(cs: Seq<ConflictModel>, id: ConflictId) -> int {
    choose|i: int| is_first_conflict(cs, id, i)
}

proof fn lemma_first_unique(cs: Seq<ConflictModel>, id: ConflictId, i: int, j: int)
    requires
        is_first_conflict(cs, id, i),
        is_first_conflict(cs, id, j),
    ensures
        i == j,
{
}

proof fn lemma_first_below(cs: Seq<ConflictModel>, id: ConflictId, w: int)
    requires
        0 <= w < cs.len(),
        cs[w].0 == id,
    ensures
        exists|i: int| is_first_conflict(cs, id, i),
    decreases w,
{
    if !is_first_conflict(cs, id, w) {
        let j = choose|j: int| 0 <= j < w && cs[j].0 == id;
        lemma_first_below(cs, id, j);
    }
}

proof fn lemma_first_exists(cs: Seq<ConflictModel>, id: ConflictId)
    requires
        has_conflict(cs, id),
    ensures
        is_first_conflict(cs, id, conflict_index(cs, id)),
{
    let w = choose|i: int| 0 <= i < cs.len() && cs[i].0 == id;
    lemma_first_below(cs, id, w);
}

/// Two conflict lists carry the same ids at the same positions.
pub open spec fn same_conflict_ids(a: Seq<ConflictModel>, b: Seq<ConflictModel>) -> bool {
    a.len() == b.len() && forall|j: int| 0 <= j < a.len() ==> (#[trigger] a[j]).0 == b[j].0
}

proof fn lemma_same_ids(a: Seq<ConflictModel>, b: Seq<ConflictModel>, id: ConflictId)
    requires
        same_conflict_ids(a, b),
    ensures
        has_conflict(a, id) == has_conflict(b, id),
        has_conflict(a, id) ==> conflict_index(a, id) == conflict_index(b, id)
            && is_first_conflict(b, id, conflict_index(b, id)),
{
    if has_conflict(a, id) {
        let w = choose|i: int| 0 <= i < a.len() && a[i].0 == id;
        assert(b[w].0 == id);
        lemma_first_exists(a, id);
        lemma_first_exists(b, id);
        let i = conflict_index(a, id);
        assert(is_first_conflict(b, id, i)) by {
            assert forall|k: int| 0 <= k < i implies b[k].0 != id by {
                assert(a[k].0 == b[k].0);
            }
        }
        lemma_first_unique(b, id, i, conflict_index(b, id));
    }
    if has_conflict(b, id) {
        let w = choose|i: int| 0 <= i < b.len() && b[i].0 == id;
        assert(a[w].0 == id);
    }
}

/// Setting a conflict's resolution: `None` when no conflict carries the
/// id; otherwise the first such conflict takes the new status and manual
/// content, its previous ones are pushed on the undo stack and redo is
/// cleared.
pub open spec fn spec_set_status(
    m: ThreeWayModel,
    id: ConflictId,
    status: ConflictStatus,
    manual: Option<Seq<MergeLine>>,
) -> Option<ThreeWayModel> {
    if !has_conflict(m.1, id) {
        None
    } else {
        let i = conflict_index(m.1, id);
        let c = m.1[i];
        Some((m.0, m.1.update(i, (c.0, c.1, c.2, c.3, status, manual)), m.2.push((id, c.4, c.5)), Seq::empty()))
    }
}

/// Installing a transaction's stored resolution into its conflict, giving
/// the new conflict list and the inverse transaction.
pub open spec fn spec_swap_in(cs: Seq<ConflictModel>, t: ResolutionModel) -> (Seq<ConflictModel>, ResolutionModel) {
    let i = conflict_index(cs, t.0);
    let c = cs[i];
    (cs.update(i, (c.0, c.1, c.2, c.3, t.1, t.2)), (t.0, c.4, c.5))
}

/// Undo: `None` with an empty undo stack; otherwise the top transaction is
/// installed and its inverse pushed on the redo stack.
pub open spec fn spec_undo(m: ThreeWayModel) -> Option<ThreeWayModel> {
    if m.2.len() == 0 {
        None
    } else {
        let (cs, inv) = spec_swap_in(m.1, m.2.last());
        Some((m.0, cs, m.2.drop_last(), m.3.push(inv)))
    }
}

/// Redo: `None` with an empty redo stack; otherwise the top transaction is
/// installed and its inverse pushed on the undo stack.
pub open spec fn spec_redo(m: ThreeWayModel) -> Option<ThreeWayModel> {
    if m.3.len() == 0 {
        None
    } else {
        let (cs, inv) = spec_swap_in(m.1, m.3.last());
        Some((m.0, cs, m.2.push(inv), m.3.drop_last()))
    }
}

/// Every stored transaction refers to a conflict of the session.
pub open spec fn model_wf(m: ThreeWayModel) -> bool {
    &&& forall|k: int| 0 <= k < m.2.len() ==> has_conflict(m.1, #[trigger] m.2[k].0)
    &&& forall|k: int| 0 <= k < m.3.len() ==> has_conflict(m.1, #[trigger] m.3[k].0)
}

/// The lines one segment contributes: fixed content, or the current
/// resolution of the referenced conflict (nothing if none carries the id).
pub open spec fn segment_lines(s: SegmentModel, cs: Seq<ConflictModel>) -> Seq<MergeLine> {
    if s.0 {
        if has_conflict(cs, s.2) {
            resolved_spec(cs[conflict_index(cs, s.2)])
        } else {
            Seq::empty()
        }
    } else {
        s.1
    }
}

/// The merged result lines of a session.
pub open spec fn result_lines(segs: Seq<SegmentModel>, cs: Seq<ConflictModel>) -> Seq<MergeLine>
    decreases segs.len(),
{
    if segs.len() == 0 {
        Seq::empty()
    } else {
        result_lines(segs.drop_last(), cs) + segment_lines(segs.last(), cs)
    }
}

/// The number of unresolved conflicts.
pub open spec fn unresolved_spec(cs: Seq<ConflictModel>) -> nat
    decreases cs.len(),
{
    if cs.len() == 0 {
        0
    } else {
        unresolved_spec(cs.drop_last()) + if cs.last().4 == ConflictStatus::Unresolved { 1nat } else { 0nat }
    }
}

/// The bytes of one line in a conflict id: content, terminator, `\n`.
pub open spec fn line_id_bytes(l: MergeLine) -> Seq<u8> {
    vstd::utf8::encode_utf8(l.content@) + vstd::utf8::encode_utf8(newline_chars(l.newline)) + seq![10u8]
}

/// The bytes of one side in a conflict id: a `0xff` separator, then each
/// line's bytes.
pub open spec fn side_id_bytes(lines: Seq<MergeLine>) -> Seq<u8>
    decreases lines.len(),
{
    if lines.len() == 0 {
        seq![0xffu8]
    } else {
        side_id_bytes(lines.drop_last()) + line_id_bytes(lines.last())
    }
}

/// Durable conflict identity: FNV-1a over the ordinal's little-endian
/// bytes followed by the base, left and right sides.
pub open spec fn conflict_id_spec(ordinal: u64, base: Seq<MergeLine>, left: Seq<MergeLine>, right: Seq<MergeLine>) -> u64 {
    fnv1a64_spec(le_bytes_u64(ordinal) + side_id_bytes(base) + side_id_bytes(left) + side_id_bytes(right))
}

/// The session built from a region list: segments and conflicts (all
/// unresolved, numbered by their ordinal among conflicts).
pub open spec fn build_from_regions(rs: Seq<MergeRegion>) -> (Seq<SegmentModel>, Seq<ConflictModel>)
    decreases rs.len(),
{
    if rs.len() == 0 {
        (Seq::empty(), Seq::empty())
    } else {
        let (s, c) = build_from_regions(rs.drop_last());
        let r = rs.last();
        if r.kind == RegionKind::Conflict {
            let id = conflict_id_spec(c.len() as u64, r.base@, r.left@, r.right@);
            (s.push((true, Seq::empty(), id)), c.push((id, r.base@, r.left@, r.right@, ConflictStatus::Unresolved, None)))
        } else {
            (s.push((false, auto_content_spec(r), 0)), c)
        }
    }
}

/// The number of non-conflict regions that change something.
pub open spec fn auto_merged_spec(rs: Seq<MergeRegion>) -> nat
    decreases rs.len(),
{
    if rs.len() == 0 {
        0
    } else {
        auto_merged_spec(rs.drop_last()) + if rs.last().kind != RegionKind::Conflict && rs.last().kind != RegionKind::Stable { 1nat } else { 0nat }
    }
}

/// The canonical owner of three-way merge state for one session.
#[derive(Debug, Clone)]
pub struct ThreeWayMergeSession {
    segments: Vec<ResultSegment>,
    conflicts: Vec<MergeConflict>,
    auto_merged: usize,
    regions_total: usize,
    undo_stack: Vec<ResolutionTransaction>,
    redo_stack: Vec<ResolutionTransaction>,
    /// `undo_stack.len()` at the last save baseline.
    saved_baseline: usize,
}

impl ThreeWayMergeSession {
    /// The session as values.
    pub closed spec fn model(self) -> ThreeWayModel {
        (
            self.segments@.map_values(|s: ResultSegment| s.model()),
            self.conflicts@.map_values(|c: MergeConflict| c.model()),
            self.undo_stack@.map_values(|t: ResolutionTransaction| t.model()),
            self.redo_stack@.map_values(|t: ResolutionTransaction| t.model()),
        )
    }

    /// Regions the session was built from.
    pub closed spec fn regions_total_spec(self) -> nat {
        self.regions_total as nat
    }

    /// Auto-merged change regions the session was built from.
    pub closed spec fn auto_merged_count(self) -> nat {
        self.auto_merged as nat
    }

    /// Undo depth at the last save.
    pub closed spec fn saved_depth(self) -> nat {
        self.saved_baseline as nat
    }

    /// Validity: stored transactions refer to existing conflicts.
    pub closed spec fn wf(self) -> bool {
        model_wf(self.model())
    }

    /// A well-formed session has a well-formed model, so the laws over
    /// models apply to it.
    pub proof fn lemma_wf_model(self)
        requires
            self.wf(),
        ensures
            model_wf(self.model()),
    {
    }
}

/// Append `lines`' id bytes: a side separator and each line.
fn push_side_bytes(buf: &mut Vec<u8>, lines: &Vec<MergeLine>)
    ensures
        final(buf)@ == old(buf)@ + side_id_bytes(lines@),
{
    let ghost start = buf@;
    buf.push(0xff);
    let mut i: usize = 0;
    while i < lines.len()
        invariant
            i <= lines@.len(),
            buf@ == start + side_id_bytes(lines@.subrange(0, i as int)),
        decreases lines@.len() - i,
    {
        proof {
            assert(lines@.subrange(0, i as int + 1).drop_last() =~= lines@.subrange(0, i as int));
        }
        let ghost mid = buf@;
        push_bytes(buf, lines[i].content.as_str().as_bytes());
        push_bytes(buf, lines[i].newline.as_str().as_bytes());
        buf.push(10);
        assert(buf@ =~= mid + line_id_bytes(lines@[i as int]));
        assert(buf@ =~= start + side_id_bytes(lines@.subrange(0, i as int + 1)));
        i = i + 1;
    }
    assert(lines@.subrange(0, lines@.len() as int) =~= lines@);
}

fn push_bytes(buf: &mut Vec<u8>, bytes: &[u8])
    ensures
        final(buf)@ == old(buf)@ + bytes@,
{
    let ghost start = buf@;
    let mut i: usize = 0;
    while i < bytes.len()
        invariant
            i <= bytes@.len(),
            buf@ == start + bytes@.subrange(0, i as int),
        decreases bytes@.len() - i,
    {
        buf.push(bytes[i]);
        assert(buf@ =~= start + bytes@.subrange(0, i as int + 1));
        i = i + 1;
    }
    assert(bytes@.subrange(0, bytes@.len() as int) =~= bytes@);
}

/// Durable conflict identity: `hash(ordinal, base, left, right)`.
/// Resolution never changes the inputs, so the id is stable for the
/// session's life.
fn conflict_id_for(ordinal: u64, region: &MergeRegion) -> (id: ConflictId)
    ensures
        id == conflict_id_spec(ordinal, region.base@, region.left@, region.right@),
{
    let mut buf: Vec<u8> = Vec::new();
    push_le_u64(&mut buf, ordinal);
    push_side_bytes(&mut buf, &region.base);
    push_side_bytes(&mut buf, &region.left);
    push_side_bytes(&mut buf, &region.right);
    assert(buf@ =~= le_bytes_u64(ordinal) + side_id_bytes(region.base@) + side_id_bytes(region.left@)
        + side_id_bytes(region.right@));
    fnv1a64(buf.as_slice())
}


proof fn lemma_build_step(rs: Seq<MergeRegion>, i: int)
    requires
        0 <= i < rs.len(),
    ensures
        build_from_regions(rs.subrange(0, i + 1)) == ({
            let (s, c) = build_from_regions(rs.subrange(0, i));
            let r = rs[i];
            if r.kind == RegionKind::Conflict {
                let id = conflict_id_spec(c.len() as u64, r.base@, r.left@, r.right@);
                (s.push((true, Seq::<MergeLine>::empty(), id)), c.push((id, r.base@, r.left@, r.right@, ConflictStatus::Unresolved, None::<Seq<MergeLine>>)))
            } else {
                (s.push((false, auto_content_spec(r), 0u64)), c)
            }
        }),
        auto_merged_spec(rs.subrange(0, i + 1)) == auto_merged_spec(rs.subrange(0, i))
            + if rs[i].kind != RegionKind::Conflict && rs[i].kind != RegionKind::Stable { 1nat } else { 0nat },
{
    assert(rs.subrange(0, i + 1).drop_last() =~= rs.subrange(0, i));
}

proof fn lemma_build_lengths(rs: Seq<MergeRegion>)
    ensures
        build_from_regions(rs).0.len() == rs.len(),
        build_from_regions(rs).1.len() <= rs.len(),
        auto_merged_spec(rs) <= rs.len(),
    decreases rs.len(),
{
    if rs.len() > 0 {
        lemma_build_lengths(rs.drop_last());
    }
}

impl ThreeWayMergeSession {
    /// Build a session from three source texts: each is split into lines
    /// and the three are reconciled by `diff3`; nothing is resolved yet.
    pub fn from_texts(base: &str, left: &str, right: &str) -> (s: Self)
        ensures
            s.wf(),
            exists|bl: Seq<MergeLine>, ll: Seq<MergeLine>, rl: Seq<MergeLine>, regions: Seq<MergeRegion>|
                #![trigger diff3_result(regions, bl, ll, rl)]
                {
                &&& render_spec(bl) == base@ && well_formed_lines(bl)
                &&& render_spec(ll) == left@ && well_formed_lines(ll)
                &&& render_spec(rl) == right@ && well_formed_lines(rl)
                &&& diff3_result(regions, bl, ll, rl)
                &&& grouped_by_anchors(regions, myers_anchors(bl, ll), myers_anchors(bl, rl), bl.len() as int)
                &&& forall|b: int| anchored_from(myers_anchors(bl, ll), 0, b) && anchored_from(myers_anchors(bl, rl), 0, b)
                    ==> #[trigger] stable_mask(regions)[b]
                &&& build_from_regions(regions) == (s.model().0, s.model().1)
                &&& s.regions_total_spec() == regions.len()
                &&& s.auto_merged_count() == auto_merged_spec(regions)
            },
            s.model().2.len() == 0,
            s.model().3.len() == 0,
            s.saved_depth() == 0,
    {
        let base_lines = split_lines(base);
        let left_lines = split_lines(left);
        let right_lines = split_lines(right);
        let regions = diff3(&base_lines, &left_lines, &right_lines);
        let s = Self::from_regions(&regions);
        assert(diff3_result(regions@, base_lines@, left_lines@, right_lines@));
        assert(grouped_by_anchors(regions@, myers_anchors(base_lines@, left_lines@), myers_anchors(base_lines@, right_lines@), base_lines@.len() as int));
        s
    }

    fn from_regions(regions: &Vec<MergeRegion>) -> (s: Self)
        ensures
            s.wf(),
            build_from_regions(regions@) == (s.model().0, s.model().1),
            s.regions_total_spec() == regions@.len(),
            s.auto_merged_count() == auto_merged_spec(regions@),
            s.model().2.len() == 0,
            s.model().3.len() == 0,
            s.saved_depth() == 0,
    {
        let mut segments: Vec<ResultSegment> = Vec::new();
        let mut conflicts: Vec<MergeConflict> = Vec::new();
        let mut auto_merged: usize = 0;
        let mut ordinal: u64 = 0;
        let mut i: usize = 0;
        proof {
            assert(regions@.subrange(0, 0) =~= Seq::<MergeRegion>::empty());
            assert(segments@.map_values(|s: ResultSegment| s.model()) =~= Seq::<SegmentModel>::empty());
            assert(conflicts@.map_values(|c: MergeConflict| c.model()) =~= Seq::<ConflictModel>::empty());
        }
        while i < regions.len()
            invariant
                i <= regions@.len(),
                build_from_regions(regions@.subrange(0, i as int)) == (
                    segments@.map_values(|s: ResultSegment| s.model()),
                    conflicts@.map_values(|c: MergeConflict| c.model()),
                ),
                auto_merged == auto_merged_spec(regions@.subrange(0, i as int)),
                ordinal == conflicts@.len(),
                conflicts@.len() <= i,
                auto_merged <= i,
            decreases regions@.len() - i,
        {
            proof {
                lemma_build_step(regions@, i as int);
            }
            let region = &regions[i];
            if region.kind.is_conflict() {
                let id = conflict_id_for(ordinal, region);
                let c = MergeConflict {
                    id,
                    base: copy_lines(&region.base, 0, region.base.len()),
                    left: copy_lines(&region.left, 0, region.left.len()),
                    right: copy_lines(&region.right, 0, region.right.len()),
                    status: ConflictStatus::Unresolved,
                    manual: None,
                };
                proof {
                    assert(region.base@.subrange(0, region.base@.len() as int) =~= region.base@);
                    assert(region.left@.subrange(0, region.left@.len() as int) =~= region.left@);
                    assert(region.right@.subrange(0, region.right@.len() as int) =~= region.right@);
                }
                conflicts.push(c);
                segments.push(ResultSegment::Conflict(id));
                ordinal = ordinal + 1;
            } else {
                if region.kind.is_change() {
                    auto_merged = auto_merged + 1;
                }
                segments.push(ResultSegment::Fixed(region.auto_content()));
            }
            proof {
                assert(segments@.map_values(|s: ResultSegment| s.model())
                    =~= build_from_regions(regions@.subrange(0, i as int + 1)).0);
                assert(conflicts@.map_values(|c: MergeConflict| c.model())
                    =~= build_from_regions(regions@.subrange(0, i as int + 1)).1);
            }
            i = i + 1;
        }
        proof {
            assert(regions@.subrange(0, regions@.len() as int) =~= regions@);
        }
        let s = Self {
            segments,
            conflicts,
            auto_merged,
            regions_total: regions.len(),
            undo_stack: Vec::new(),
            redo_stack: Vec::new(),
            saved_baseline: 0,
        };
        assert(s.model().2 =~= Seq::<ResolutionModel>::empty());
        assert(s.model().3 =~= Seq::<ResolutionModel>::empty());
        s
    }
}


/// The conflict models of a list of conflicts.
pub open spec fn conflict_models(cs: Seq<MergeConflict>) -> Seq<ConflictModel> {
    cs.map_values(|c: MergeConflict| c.model())
}

impl ThreeWayMergeSession {
    /// The conflict records, in region order.
    pub fn conflicts(&self) -> (cs: &[MergeConflict])
        ensures
            conflict_models(cs@) == self.model().1,
    {
        self.conflicts.as_slice()
    }

    fn find_conflict(&self, id: ConflictId) -> (r: Option<usize>)
        ensures
            r is None <==> !has_conflict(self.model().1, id),
            r matches Some(i) ==> i == conflict_index(self.model().1, id)
                && is_first_conflict(self.model().1, id, i as int),
    {
        let ghost cs = self.model().1;
        let mut i: usize = 0;
        while i < self.conflicts.len()
            invariant
                cs == self.model().1,
                i <= self.conflicts@.len(),
                forall|j: int| 0 <= j < i ==> cs[j].0 != id,
            decreases self.conflicts@.len() - i,
        {
            if self.conflicts[i].id == id {
                proof {
                    assert(is_first_conflict(cs, id, i as int));
                    lemma_first_exists(cs, id);
                    lemma_first_unique(cs, id, i as int, conflict_index(cs, id));
                }
                return Some(i);
            }
            i = i + 1;
        }
        None
    }

    /// The first conflict carrying `id`, if any.
    pub fn conflict(&self, id: ConflictId) -> (r: Option<&MergeConflict>)
        ensures
            r is None <==> !has_conflict(self.model().1, id),
            r matches Some(c) ==> c.model() == self.model().1[conflict_index(self.model().1, id)],
    {
        match self.find_conflict(id) {
            Some(i) => Some(&self.conflicts[i]),
            None => None,
        }
    }

    /// Number of conflicts still unresolved.
    pub fn unresolved_count(&self) -> (n: usize)
        ensures
            n == unresolved_spec(self.model().1),
    {
        let ghost cs = self.model().1;
        let mut n: usize = 0;
        let mut i: usize = 0;
        while i < self.conflicts.len()
            invariant
                cs == self.model().1,
                i <= self.conflicts@.len(),
                n == unresolved_spec(cs.subrange(0, i as int)),
                n <= i,
            decreases self.conflicts@.len() - i,
        {
            assert(cs.subrange(0, i as int + 1).drop_last() =~= cs.subrange(0, i as int));
            if !self.conflicts[i].status.is_resolved() {
                n = n + 1;
            }
            i = i + 1;
        }
        assert(cs.subrange(0, cs.len() as int) =~= cs);
        n
    }

    /// Aggregate statistics.
    pub fn stats(&self) -> (st: ThreeWayStats)
        ensures
            st.regions_total == self.regions_total_spec(),
            st.auto_merged == self.auto_merged_count(),
            st.conflicts_total == self.model().1.len(),
            st.conflicts_unresolved == unresolved_spec(self.model().1),
    {
        ThreeWayStats {
            regions_total: self.regions_total,
            auto_merged: self.auto_merged,
            conflicts_total: self.conflicts.len(),
            conflicts_unresolved: self.unresolved_count(),
        }
    }

    /// `true` when every conflict has been resolved or ignored.
    pub fn is_fully_resolved(&self) -> (b: bool)
        ensures
            b == (unresolved_spec(self.model().1) == 0),
    {
        self.unresolved_count() == 0
    }

    /// Save policy: a direct save is blocked while any conflict remains
    /// unresolved.
    pub fn can_save(&self) -> (b: bool)
        ensures
            b == (unresolved_spec(self.model().1) == 0),
    {
        self.is_fully_resolved()
    }

    /// `true` when a resolution can be undone.
    pub fn can_undo(&self) -> (b: bool)
        ensures
            b == (self.model().2.len() > 0),
    {
        self.undo_stack.len() > 0
    }

    /// `true` when an undone resolution can be redone.
    pub fn can_redo(&self) -> (b: bool)
        ensures
            b == (self.model().3.len() > 0),
    {
        self.redo_stack.len() > 0
    }

    /// `true` when the undo depth differs from the depth at the last save.
    pub fn is_dirty(&self) -> (b: bool)
        ensures
            b == (self.model().2.len() != self.saved_depth()),
    {
        self.undo_stack.len() != self.saved_baseline
    }

    fn set_status(&mut self, id: ConflictId, status: ConflictStatus, manual: Option<Vec<MergeLine>>) -> (r: CoreResult<()>)
        requires
            old(self).wf(),
        ensures
            final(self).wf(),
            final(self).saved_depth() == old(self).saved_depth(),
            final(self).regions_total_spec() == old(self).regions_total_spec(),
            final(self).auto_merged_count() == old(self).auto_merged_count(),
            spec_set_status(old(self).model(), id, status, manual_view(manual)) matches Some(m)
                ==> r is Ok && final(self).model() == m,
            !has_conflict(old(self).model().1, id) ==> final(self).model() == old(self).model()
                && (r matches Err(CoreError::Conflict { message }) && message@ == "unknown conflict id"@),
    {
        let i = match self.find_conflict(id) {
            Some(i) => i,
            None => return Err(CoreError::conflict("unknown conflict id")),
        };
        let ghost m = self.model();
        let mut placeholder = MergeConflict {
            id: 0,
            base: Vec::new(),
            left: Vec::new(),
            right: Vec::new(),
            status: ConflictStatus::Unresolved,
            manual: None,
        };
        self.conflicts.set_and_swap(i, &mut placeholder);
        let c = placeholder;
        let txn = ResolutionTransaction { conflict_id: id, previous_status: c.status, previous_manual: c.manual };
        let updated = MergeConflict { id: c.id, base: c.base, left: c.left, right: c.right, status, manual };
        self.conflicts.set(i, updated);
        self.undo_stack.push(txn);
        self.redo_stack.clear();
        proof {
            let a = spec_set_status(m, id, status, manual_view(manual))->0;
            assert(self.model().0 =~= a.0);
            assert(self.model().1 =~= a.1);
            assert(self.model().2 =~= a.2);
            assert(self.model().3 =~= a.3);
            law_operations_keep_wf(m, id, status, manual_view(manual));
        }
        Ok(())
    }

    /// Resolve a conflict by choosing the left side.
    pub fn resolve_left(&mut self, id: ConflictId) -> (r: CoreResult<()>)
        requires
            old(self).wf(),
        ensures
            final(self).wf(),
            final(self).saved_depth() == old(self).saved_depth(),
            spec_set_status(old(self).model(), id, ConflictStatus::ResolvedLeft, None) matches Some(m)
                ==> r is Ok && final(self).model() == m,
            !has_conflict(old(self).model().1, id) ==> final(self).model() == old(self).model()
                && (r matches Err(CoreError::Conflict { message }) && message@ == "unknown conflict id"@),
    {
        self.set_status(id, ConflictStatus::ResolvedLeft, None)
    }

    /// Resolve a conflict by choosing the right side.
    pub fn resolve_right(&mut self, id: ConflictId) -> (r: CoreResult<()>)
        requires
            old(self).wf(),
        ensures
            final(self).wf(),
            final(self).saved_depth() == old(self).saved_depth(),
            spec_set_status(old(self).model(), id, ConflictStatus::ResolvedRight, None) matches Some(m)
                ==> r is Ok && final(self).model() == m,
            !has_conflict(old(self).model().1, id) ==> final(self).model() == old(self).model()
                && (r matches Err(CoreError::Conflict { message }) && message@ == "unknown conflict id"@),
    {
        self.set_status(id, ConflictStatus::ResolvedRight, None)
    }

    /// Resolve a conflict by taking left then right.
    pub fn resolve_both(&mut self, id: ConflictId) -> (r: CoreResult<()>)
        requires
            old(self).wf(),
        ensures
            final(self).wf(),
            final(self).saved_depth() == old(self).saved_depth(),
            spec_set_status(old(self).model(), id, ConflictStatus::ResolvedBoth, None) matches Some(m)
                ==> r is Ok && final(self).model() == m,
            !has_conflict(old(self).model().1, id) ==> final(self).model() == old(self).model()
                && (r matches Err(CoreError::Conflict { message }) && message@ == "unknown conflict id"@),
    {
        self.set_status(id, ConflictStatus::ResolvedBoth, None)
    }

    /// Ignore a conflict, taking the base content.
    pub fn ignore(&mut self, id: ConflictId) -> (r: CoreResult<()>)
        requires
            old(self).wf(),
        ensures
            final(self).wf(),
            final(self).saved_depth() == old(self).saved_depth(),
            spec_set_status(old(self).model(), id, ConflictStatus::Ignored, None) matches Some(m)
                ==> r is Ok && final(self).model() == m,
            !has_conflict(old(self).model().1, id) ==> final(self).model() == old(self).model()
                && (r matches Err(CoreError::Conflict { message }) && message@ == "unknown conflict id"@),
    {
        self.set_status(id, ConflictStatus::Ignored, None)
    }

    /// Resolve a conflict with user-supplied text, split into lines.
    pub fn resolve_manual(&mut self, id: ConflictId, text: &str) -> (r: CoreResult<()>)
        requires
            old(self).wf(),
        ensures
            final(self).wf(),
            final(self).saved_depth() == old(self).saved_depth(),
            has_conflict(old(self).model().1, id) ==> r is Ok && exists|lines: Seq<MergeLine>|
                #![trigger spec_set_status(old(self).model(), id, ConflictStatus::ResolvedManual, Some(lines))]
                render_spec(lines) == text@ && well_formed_lines(lines)
                && spec_set_status(old(self).model(), id, ConflictStatus::ResolvedManual, Some(lines))
                    == Some(final(self).model()),
            !has_conflict(old(self).model().1, id) ==> final(self).model() == old(self).model()
                && (r matches Err(CoreError::Conflict { message }) && message@ == "unknown conflict id"@),
    {
        let lines = split_lines(text);
        let ghost lv = lines@;
        let r = self.set_status(id, ConflictStatus::ResolvedManual, Some(lines));
        proof {
            if has_conflict(old(self).model().1, id) {
                assert(spec_set_status(old(self).model(), id, ConflictStatus::ResolvedManual, Some(lv)) == Some(self.model()));
            }
        }
        r
    }

    /// Revert a conflict to unresolved.
    pub fn reset(&mut self, id: ConflictId) -> (r: CoreResult<()>)
        requires
            old(self).wf(),
        ensures
            final(self).wf(),
            final(self).saved_depth() == old(self).saved_depth(),
            spec_set_status(old(self).model(), id, ConflictStatus::Unresolved, None) matches Some(m)
                ==> r is Ok && final(self).model() == m,
            !has_conflict(old(self).model().1, id) ==> final(self).model() == old(self).model()
                && (r matches Err(CoreError::Conflict { message }) && message@ == "unknown conflict id"@),
    {
        self.set_status(id, ConflictStatus::Unresolved, None)
    }

    fn swap_in(&mut self, txn: ResolutionTransaction) -> (inverse: ResolutionTransaction)
        requires
            old(self).wf(),
            has_conflict(old(self).model().1, txn.conflict_id),
        ensures
            final(self).model().0 == old(self).model().0,
            final(self).model().1 == spec_swap_in(old(self).model().1, txn.model()).0,
            inverse.model() == spec_swap_in(old(self).model().1, txn.model()).1,
            final(self).model().2 == old(self).model().2,
            final(self).model().3 == old(self).model().3,
            final(self).saved_depth() == old(self).saved_depth(),
            final(self).regions_total_spec() == old(self).regions_total_spec(),
            final(self).auto_merged_count() == old(self).auto_merged_count(),
    {
        let ghost m = self.model();
        let i = match self.find_conflict(txn.conflict_id) {
            Some(i) => i,
            None => {
                proof { assert(false); }
                return txn;
            },
        };
        let mut placeholder = MergeConflict {
            id: 0,
            base: Vec::new(),
            left: Vec::new(),
            right: Vec::new(),
            status: ConflictStatus::Unresolved,
            manual: None,
        };
        self.conflicts.set_and_swap(i, &mut placeholder);
        let c = placeholder;
        let inverse = ResolutionTransaction {
            conflict_id: txn.conflict_id,
            previous_status: c.status,
            previous_manual: c.manual,
        };
        let restored = MergeConflict {
            id: c.id,
            base: c.base,
            left: c.left,
            right: c.right,
            status: txn.previous_status,
            manual: txn.previous_manual,
        };
        self.conflicts.set(i, restored);
        proof {
            assert(self.model().0 =~= m.0);
            assert(self.model().1 =~= spec_swap_in(m.1, txn.model()).0);
            assert(self.model().2 =~= m.2);
            assert(self.model().3 =~= m.3);
        }
        inverse
    }

    /// Undo the most recent resolution change, returning its conflict id.
    pub fn undo(&mut self) -> (r: CoreResult<ConflictId>)
        requires
            old(self).wf(),
        ensures
            final(self).wf(),
            final(self).saved_depth() == old(self).saved_depth(),
            spec_undo(old(self).model()) matches Some(m) ==> r == Ok::<ConflictId, CoreError>(old(self).model().2.last().0)
                && final(self).model() == m,
            spec_undo(old(self).model()) is None ==> final(self).model() == old(self).model()
                && (r matches Err(CoreError::Conflict { message }) && message@ == "nothing to undo"@),
    {
        let ghost m = self.model();
        let txn = match self.undo_stack.pop() {
            Some(t) => t,
            None => return Err(CoreError::conflict("nothing to undo")),
        };
        proof {
            assert(txn.model() == m.2.last());
            assert(self.model().2 =~= m.2.drop_last());
            assert(has_conflict(m.1, m.2[m.2.len() - 1].0));
        }
        let id = txn.conflict_id;
        let inverse = self.swap_in(txn);
        self.redo_stack.push(inverse);
        proof {
            assert(self.model().3 =~= m.3.push(inverse.model()));
            law_operations_keep_wf(m, id, ConflictStatus::Unresolved, None);
        }
        Ok(id)
    }

    /// Redo the most recently undone resolution change, returning its
    /// conflict id.
    pub fn redo(&mut self) -> (r: CoreResult<ConflictId>)
        requires
            old(self).wf(),
        ensures
            final(self).wf(),
            final(self).saved_depth() == old(self).saved_depth(),
            spec_redo(old(self).model()) matches Some(m) ==> r == Ok::<ConflictId, CoreError>(old(self).model().3.last().0)
                && final(self).model() == m,
            spec_redo(old(self).model()) is None ==> final(self).model() == old(self).model()
                && (r matches Err(CoreError::Conflict { message }) && message@ == "nothing to redo"@),
    {
        let ghost m = self.model();
        let txn = match self.redo_stack.pop() {
            Some(t) => t,
            None => return Err(CoreError::conflict("nothing to redo")),
        };
        proof {
            assert(txn.model() == m.3.last());
            assert(self.model().3 =~= m.3.drop_last());
            assert(has_conflict(m.1, m.3[m.3.len() - 1].0));
        }
        let id = txn.conflict_id;
        let inverse = self.swap_in(txn);
        self.undo_stack.push(inverse);
        proof {
            assert(self.model().2 =~= m.2.push(inverse.model()));
            law_operations_keep_wf(m, id, ConflictStatus::Unresolved, None);
        }
        Ok(id)
    }

    /// Mark the current state as saved: the save baseline becomes the
    /// current undo depth and the redo stack is cleared.
    pub fn mark_saved(&mut self)
        requires
            old(self).wf(),
        ensures
            final(self).wf(),
            final(self).model() == (old(self).model().0, old(self).model().1, old(self).model().2, Seq::<ResolutionModel>::empty()),
            final(self).saved_depth() == old(self).model().2.len(),
    {
        self.saved_baseline = self.undo_stack.len();
        self.redo_stack.clear();
        assert(self.model().3 =~= Seq::<ResolutionModel>::empty());
    }

    /// The canonical merged result text. Unresolved conflicts contribute
    /// nothing (they are holes the user must fill), which is why
    /// `can_save` blocks saving until every conflict is resolved.
    pub fn result_text(&self) -> (s: String)
        ensures
            s@ == render_spec(result_lines(self.model().0, self.model().1)),
    {
        let ghost segs = self.model().0;
        let ghost cs = self.model().1;
        let mut lines: Vec<MergeLine> = Vec::new();
        let mut k: usize = 0;
        while k < self.segments.len()
            invariant
                segs == self.model().0,
                cs == self.model().1,
                k <= self.segments@.len(),
                lines@ == result_lines(segs.subrange(0, k as int), cs),
            decreases self.segments@.len() - k,
        {
            proof {
                assert(segs.subrange(0, k as int + 1).drop_last() =~= segs.subrange(0, k as int));
                assert(segs[k as int] == self.segments@[k as int].model());
            }
            match &self.segments[k] {
                ResultSegment::Fixed(content) => append_lines(&mut lines, content),
                ResultSegment::Conflict(id) => {
                    match self.find_conflict(*id) {
                        Some(i) => self.conflicts[i].append_resolved(&mut lines),
                        None => {
                            assert(lines@ + Seq::<MergeLine>::empty() =~= lines@);
                        },
                    }
                },
            }
            k = k + 1;
        }
        assert(segs.subrange(0, segs.len() as int) =~= segs);
        render_lines(lines.as_slice())
    }
}

/// Undoing a resolution restores every conflict and the undo stack
/// exactly as they were before it.
pub proof fn law_undo_reverts_resolution(m: ThreeWayModel, id: ConflictId, status: ConflictStatus, manual: Option<Seq<MergeLine>>)
    requires
        model_wf(m),
        spec_set_status(m, id, status, manual) is Some,
    ensures
        spec_undo(spec_set_status(m, id, status, manual)->0) matches Some(u) && u.0 == m.0 && u.1 == m.1 && u.2 == m.2,
{
    lemma_first_exists(m.1, id);
    let a = spec_set_status(m, id, status, manual)->0;
    assert(same_conflict_ids(m.1, a.1));
    lemma_same_ids(m.1, a.1, id);
    let u = spec_undo(a)->0;
    assert(u.1 =~= m.1);
    assert(u.2 =~= m.2);
}

/// Redoing an undone resolution restores the whole session model.
pub proof fn law_redo_reverts_undo(m: ThreeWayModel)
    requires
        model_wf(m),
        m.2.len() > 0,
    ensures
        spec_undo(m) matches Some(u) && spec_redo(u) == Some(m),
{
    let t = m.2.last();
    assert(has_conflict(m.1, t.0));
    lemma_first_exists(m.1, t.0);
    let u = spec_undo(m)->0;
    assert(same_conflict_ids(m.1, u.1));
    lemma_same_ids(m.1, u.1, t.0);
    let r = spec_redo(u)->0;
    assert(r.1 =~= m.1);
    assert(r.2 =~= m.2);
    assert(r.3 =~= m.3);
}

/// Undoing a redone resolution restores the whole session model.
pub proof fn law_undo_reverts_redo(m: ThreeWayModel)
    requires
        model_wf(m),
        m.3.len() > 0,
    ensures
        spec_redo(m) matches Some(r) && spec_undo(r) == Some(m),
{
    let t = m.3.last();
    assert(has_conflict(m.1, t.0));
    lemma_first_exists(m.1, t.0);
    let r = spec_redo(m)->0;
    assert(same_conflict_ids(m.1, r.1));
    lemma_same_ids(m.1, r.1, t.0);
    let u = spec_undo(r)->0;
    assert(u.1 =~= m.1);
    assert(u.2 =~= m.2);
    assert(u.3 =~= m.3);
}

/// Resolution operations never change the result layout or the conflict
/// ids (ids are durable), and keep stored transactions pointing at
/// conflicts.
pub proof fn law_operations_keep_wf(m: ThreeWayModel, id: ConflictId, status: ConflictStatus, manual: Option<Seq<MergeLine>>)
    requires
        model_wf(m),
    ensures
        spec_set_status(m, id, status, manual) matches Some(a) ==> model_wf(a) && a.0 == m.0 && same_conflict_ids(m.1, a.1),
        spec_undo(m) matches Some(u) ==> model_wf(u) && u.0 == m.0 && same_conflict_ids(m.1, u.1),
        spec_redo(m) matches Some(r) ==> model_wf(r) && r.0 == m.0 && same_conflict_ids(m.1, r.1),
{
    if spec_set_status(m, id, status, manual) is Some {
        lemma_first_exists(m.1, id);
        let a = spec_set_status(m, id, status, manual)->0;
        assert(same_conflict_ids(m.1, a.1));
        assert forall|k: int| 0 <= k < a.2.len() implies has_conflict(a.1, #[trigger] a.2[k].0) by {
            if k < m.2.len() {
                assert(a.2[k] == m.2[k]);
            }
            lemma_same_ids(m.1, a.1, a.2[k].0);
        }
    }
    if m.2.len() > 0 {
        let t = m.2.last();
        assert(has_conflict(m.1, t.0));
        lemma_first_exists(m.1, t.0);
        let u = spec_undo(m)->0;
        assert(same_conflict_ids(m.1, u.1));
        assert forall|k: int| 0 <= k < u.2.len() implies has_conflict(u.1, #[trigger] u.2[k].0) by {
            assert(u.2[k] == m.2[k]);
            lemma_same_ids(m.1, u.1, m.2[k].0);
        }
        assert forall|k: int| 0 <= k < u.3.len() implies has_conflict(u.1, #[trigger] u.3[k].0) by {
            if k < m.3.len() {
                assert(u.3[k] == m.3[k]);
            }
            lemma_same_ids(m.1, u.1, u.3[k].0);
        }
    }
    if m.3.len() > 0 {
        let t = m.3.last();
        assert(has_conflict(m.1, t.0));
        lemma_first_exists(m.1, t.0);
        let r = spec_redo(m)->0;
        assert(same_conflict_ids(m.1, r.1));
        assert forall|k: int| 0 <= k < r.2.len() implies has_conflict(r.1, #[trigger] r.2[k].0) by {
            if k < m.2.len() {
                assert(r.2[k] == m.2[k]);
            }
            lemma_same_ids(m.1, r.1, r.2[k].0);
        }
        assert forall|k: int| 0 <= k < r.3.len() implies has_conflict(r.1, #[trigger] r.3[k].0) by {
            assert(r.3[k] == m.3[k]);
            lemma_same_ids(m.1, r.1, m.3[k].0);
        }
    }
}

/// A resolved conflict counts as resolved: after setting a resolving
/// status on an unresolved conflict, one fewer conflict is unresolved;
/// resetting a resolved one adds one back.
pub proof fn law_resolution_counts(m: ThreeWayModel, id: ConflictId, status: ConflictStatus, manual: Option<Seq<MergeLine>>)
    requires
        spec_set_status(m, id, status, manual) is Some,
    ensures
        ({
            let a = spec_set_status(m, id, status, manual)->0;
            let c = m.1[conflict_index(m.1, id)];
            &&& c.4 == ConflictStatus::Unresolved && status != ConflictStatus::Unresolved
                ==> unresolved_spec(a.1) + 1 == unresolved_spec(m.1)
            &&& c.4 != ConflictStatus::Unresolved && status == ConflictStatus::Unresolved
                ==> unresolved_spec(a.1) == unresolved_spec(m.1) + 1
            &&& (c.4 == ConflictStatus::Unresolved) == (status == ConflictStatus::Unresolved)
                ==> unresolved_spec(a.1) == unresolved_spec(m.1)
        }),
{
    lemma_first_exists(m.1, id);
    let i = conflict_index(m.1, id);
    let c = m.1[i];
    lemma_unresolved_update(m.1, i, (c.0, c.1, c.2, c.3, status, manual));
}

proof fn lemma_unresolved_update(cs: Seq<ConflictModel>, i: int, c: ConflictModel)
    requires
        0 <= i < cs.len(),
    ensures
        unresolved_spec(cs.update(i, c)) + (if cs[i].4 == ConflictStatus::Unresolved { 1int } else { 0int })
            == unresolved_spec(cs) + (if c.4 == ConflictStatus::Unresolved { 1int } else { 0int }),
    decreases cs.len(),
{
    let n = cs.len() - 1;
    if i == n {
        assert(cs.update(i, c).drop_last() =~= cs.drop_last());
    } else {
        lemma_unresolved_update(cs.drop_last(), i, c);
        assert(cs.update(i, c).drop_last() =~= cs.drop_last().update(i, c));
    }
}

} // verus!
