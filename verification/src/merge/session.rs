//! Two-way merge session with undo/redo and content-identity dirty state.

use vstd::prelude::*;
use vstd::string::StringSliceAdditionalSpecFns;

use super::transaction::{MergeTransaction, TxnModel};
use crate::diff::engine::side_render;
use crate::diff::model::{duplicate_rows, rows_view, DiffDocument, DiffHunk, DiffRow, HunkId, HunkKind, RowView, SideLine};
use crate::error::{CoreError, CoreResult};
use crate::hash::{fnv1a64, fnv1a64_spec};
use crate::text::push_str;

verus! {

/// Merge state of one working hunk.
#[derive(Debug, Clone, Copy, PartialEq, Eq, Structural)]
pub enum HunkState {
    /// As produced by the diff engine.
    Original,
    /// Left content was applied onto the right side.
    AppliedLeftToRight,
}

/// One hunk in the working (mergeable) document.
#[derive(Debug, Clone, PartialEq, Eq)]
pub struct MergeHunk {
    pub hunk_id: HunkId,
    pub kind: HunkKind,
    pub state: HunkState,
    pub rows: Vec<DiffRow>,
}

/// A hunk as values: id, kind, state and rows.
pub type HunkModel = (HunkId, HunkKind, HunkState, Seq<RowView>);

/// Whether a hunk model still carries an unapplied change.
pub open spec fn pending(h: HunkModel) -> bool {
    h.1 != HunkKind::Equal && h.2 == HunkState::Original
}

impl MergeHunk {
    /// The hunk as values.
    pub open spec fn model(self) -> HunkModel {
        (self.hunk_id, self.kind, self.state, rows_view(self.rows@))
    }

    /// `true` for a changed hunk that has not been applied yet.
    pub fn is_pending_change(&self) -> (b: bool)
        ensures
            b == pending(self.model()),
    {
        !matches!(self.kind, HunkKind::Equal) && matches!(self.state, HunkState::Original)
    }
}

/// A session as values: hunks, undo stack, redo stack (tops last).
pub type SessionModel = (Seq<HunkModel>, Seq<TxnModel>, Seq<TxnModel>);

/// `i` is the first hunk carrying `id`.
pub open spec fn is_first(hs: Seq<HunkModel>, id: HunkId, i: int) -> bool {
    &&& 0 <= i < hs.len()
    &&& hs[i].0 == id
    &&& forall|j: int| 0 <= j < i ==> hs[j].0 != id
}

/// Some hunk carries `id`.
pub open spec fn has_id(hs: Seq<HunkModel>, id: HunkId) -> bool {
    exists|i: int| 0 <= i < hs.len() && hs[i].0 == id
}

/// The index of the first hunk carrying `id` (meaningful when `has_id`).
pub open spec fn first_index(hs: Seq<HunkModel>, id: HunkId) -> int {
    choose|i: int| is_first(hs, id, i)
}

proof fn lemma_first_unique(hs: Seq<HunkModel>, id: HunkId, i: int, j: int)
    requires
        is_first(hs, id, i),
        is_first(hs, id, j),
    ensures
        i == j,
{
}

proof fn lemma_first_exists(hs: Seq<HunkModel>, id: HunkId)
    requires
        has_id(hs, id),
    ensures
        is_first(hs, id, first_index(hs, id)),
    decreases hs.len(),
{
    let w = choose|i: int| 0 <= i < hs.len() && hs[i].0 == id;
    let mut k = w;
    if !is_first(hs, id, w) {
        assert(exists|j: int| 0 <= j < w && hs[j].0 == id);
        let j = choose|j: int| 0 <= j < w && hs[j].0 == id;
        lemma_first_below(hs, id, j);
    }
}

proof fn lemma_first_below(hs: Seq<HunkModel>, id: HunkId, w: int)
    requires
        0 <= w < hs.len(),
        hs[w].0 == id,
    ensures
        exists|i: int| is_first(hs, id, i),
    decreases w,
{
    if !is_first(hs, id, w) {
        let j = choose|j: int| 0 <= j < w && hs[j].0 == id;
        lemma_first_below(hs, id, j);
    }
}

/// A row after copying the left side onto the right: a row with a left
/// line gets a right line with the same content and terminator (and no
/// line number) and loses its inline decoration; a row without a left
/// line becomes empty.
pub open spec fn applied_row(r: RowView) -> RowView {
    match r.0 {
        Some(l) => (Some(l), Some(SideLine { original_line_number: None, content: l.content, newline: l.newline }), None),
        None => (None, None, None),
    }
}

/// All rows of a hunk after applying its left side.
pub open spec fn applied_rows(rows: Seq<RowView>) -> Seq<RowView> {
    rows.map_values(|r: RowView| applied_row(r))
}

/// Applying hunk `id` left to right: `None` when no hunk carries the id or
/// the first such hunk has no pending change; otherwise the hunk is
/// applied, its previous state pushed on the undo stack and redo cleared.
pub open spec fn spec_apply(m: SessionModel, id: HunkId) -> Option<SessionModel> {
    if !has_id(m.0, id) {
        None
    } else {
        let i = first_index(m.0, id);
        let h = m.0[i];
        if !pending(h) {
            None
        } else {
            Some((
                m.0.update(i, (h.0, h.1, HunkState::AppliedLeftToRight, applied_rows(h.3))),
                m.1.push((h.0, h.3, h.1, h.2)),
                Seq::empty(),
            ))
        }
    }
}

/// Installing a transaction's stored state into its hunk, giving the new
/// hunk list and the inverse transaction.
pub open spec fn spec_swap_in(hs: Seq<HunkModel>, t: TxnModel) -> (Seq<HunkModel>, TxnModel) {
    let i = first_index(hs, t.0);
    let h = hs[i];
    (hs.update(i, (h.0, t.2, t.3, t.1)), (t.0, h.3, h.1, h.2))
}

/// Undo: `None` with an empty undo stack; otherwise the top transaction is
/// installed and its inverse pushed on the redo stack.
pub open spec fn spec_undo(m: SessionModel) -> Option<SessionModel> {
    if m.1.len() == 0 {
        None
    } else {
        let (hs, inv) = spec_swap_in(m.0, m.1.last());
        Some((hs, m.1.drop_last(), m.2.push(inv)))
    }
}

/// Redo: `None` with an empty redo stack; otherwise the top transaction is
/// installed and its inverse pushed on the undo stack.
pub open spec fn spec_redo(m: SessionModel) -> Option<SessionModel> {
    if m.2.len() == 0 {
        None
    } else {
        let (hs, inv) = spec_swap_in(m.0, m.2.last());
        Some((hs, m.1.push(inv), m.2.drop_last()))
    }
}

/// Every stored transaction refers to a hunk of the session.
pub open spec fn model_wf(m: SessionModel) -> bool {
    &&& forall|k: int| 0 <= k < m.1.len() ==> has_id(m.0, #[trigger] m.1[k].0)
    &&& forall|k: int| 0 <= k < m.2.len() ==> has_id(m.0, #[trigger] m.2[k].0)
}

/// The right-side text of a row list: each right line with its terminator.
pub open spec fn rows_result(rows: Seq<RowView>) -> Seq<char>
    decreases rows.len(),
{
    if rows.len() == 0 {
        Seq::empty()
    } else {
        rows_result(rows.drop_last()) + match rows.last().1 {
            Some(r) => r.rendered(),
            None => Seq::empty(),
        }
    }
}

/// The canonical result text of a hunk list.
pub open spec fn result_of(hs: Seq<HunkModel>) -> Seq<char>
    decreases hs.len(),
{
    if hs.len() == 0 {
        Seq::empty()
    } else {
        result_of(hs.drop_last()) + rows_result(hs.last().3)
    }
}

/// The content hash of a text: FNV-1a over its UTF-8 bytes.
pub open spec fn content_hash(text: Seq<char>) -> u64 {
    fnv1a64_spec(vstd::utf8::encode_utf8(text))
}

/// The number of hunks with a pending change.
pub open spec fn pending_count(hs: Seq<HunkModel>) -> nat
    decreases hs.len(),
{
    if hs.len() == 0 {
        0
    } else {
        pending_count(hs.drop_last()) + if pending(hs.last()) { 1nat } else { 0nat }
    }
}

/// The canonical owner of merge state for one compare session.
///
/// Dirty state is content identity, not undo-stack depth: `is_dirty()`
/// compares a hash of the current result text against a hash of what was
/// last saved, so an undo that lands the buffer back on the saved text
/// reports clean.
#[derive(Debug, Clone)]
pub struct MergeSession {
    diff_id: u64,
    hunks: Vec<MergeHunk>,
    undo_stack: Vec<MergeTransaction>,
    redo_stack: Vec<MergeTransaction>,
    current_hash: u64,
    saved_hash: u64,
}

impl MergeSession {
    /// The session as values.
    pub closed spec fn model(self) -> SessionModel {
        (
            self.hunks@.map_values(|h: MergeHunk| h.model()),
            self.undo_stack@.map_values(|t: MergeTransaction| t.model()),
            self.redo_stack@.map_values(|t: MergeTransaction| t.model()),
        )
    }

    /// The hash of the content at the last save (or construction).
    pub closed spec fn saved_hash_spec(self) -> u64 {
        self.saved_hash
    }

    /// The identity of the diff this session was built from.
    pub closed spec fn diff_id_spec(self) -> u64 {
        self.diff_id
    }

    /// Validity: stored transactions refer to existing hunks and the cached
    /// hash is the hash of the current result text.
    pub closed spec fn wf(self) -> bool {
        &&& model_wf(self.model())
        &&& self.current_hash == content_hash(result_of(self.model().0))
    }

    /// A well-formed session has a well-formed model, so the laws over
    /// models apply to it.
    pub proof fn lemma_wf_model(self)
        requires
            self.wf(),
        ensures
            model_wf(self.model()),
    {
    }

    /// An empty placeholder used while a tab is loading.
    pub fn empty() -> (s: Self)
        ensures
            s.wf(),
            s.model() == (Seq::<HunkModel>::empty(), Seq::<TxnModel>::empty(), Seq::<TxnModel>::empty()),
            s.saved_hash_spec() == content_hash(Seq::empty()),
            s.diff_id_spec() == 0,
    {
        let hash = fnv1a64(String::new().as_str().as_bytes());
        let s = Self {
            diff_id: 0,
            hunks: Vec::new(),
            undo_stack: Vec::new(),
            redo_stack: Vec::new(),
            current_hash: hash,
            saved_hash: hash,
        };
        assert(s.model().0 =~= Seq::<HunkModel>::empty());
        assert(s.model().1 =~= Seq::<TxnModel>::empty());
        assert(s.model().2 =~= Seq::<TxnModel>::empty());
        s
    }
}


/// Two hunk lists carry the same ids at the same positions.
pub open spec fn same_ids(a: Seq<HunkModel>, b: Seq<HunkModel>) -> bool {
    a.len() == b.len() && forall|j: int| 0 <= j < a.len() ==> (#[trigger] a[j]).0 == b[j].0
}

proof fn lemma_same_ids(a: Seq<HunkModel>, b: Seq<HunkModel>, id: HunkId)
    requires
        same_ids(a, b),
    ensures
        has_id(a, id) == has_id(b, id),
        has_id(a, id) ==> first_index(a, id) == first_index(b, id) && is_first(b, id, first_index(b, id)),
{
    if has_id(a, id) {
        let w = choose|i: int| 0 <= i < a.len() && a[i].0 == id;
        assert(b[w].0 == id);
        lemma_first_exists(a, id);
        lemma_first_exists(b, id);
        let i = first_index(a, id);
        let j = first_index(b, id);
        assert(is_first(b, id, i)) by {
            assert forall|k: int| 0 <= k < i implies b[k].0 != id by {
                assert(a[k].0 == b[k].0);
            }
        }
        lemma_first_unique(b, id, i, j);
    }
    if has_id(b, id) {
        let w = choose|i: int| 0 <= i < b.len() && b[i].0 == id;
        assert(a[w].0 == id);
    }
}

proof fn lemma_wf_same_ids(m: SessionModel, hs: Seq<HunkModel>)
    requires
        model_wf(m),
        same_ids(m.0, hs),
    ensures
        model_wf((hs, m.1, m.2)),
{
    assert forall|k: int| 0 <= k < m.1.len() implies has_id(hs, #[trigger] m.1[k].0) by {
        lemma_same_ids(m.0, hs, m.1[k].0);
    }
    assert forall|k: int| 0 <= k < m.2.len() implies has_id(hs, #[trigger] m.2[k].0) by {
        lemma_same_ids(m.0, hs, m.2[k].0);
    }
}

/// Undoing an applied hunk restores the hunk list and the undo stack
/// exactly as they were before the apply.
pub proof fn law_undo_reverts_apply(m: SessionModel, id: HunkId)
    requires
        model_wf(m),
        spec_apply(m, id) is Some,
    ensures
        spec_undo(spec_apply(m, id)->0) matches Some(u) && u.0 == m.0 && u.1 == m.1,
{
    lemma_first_exists(m.0, id);
    let i = first_index(m.0, id);
    let a = spec_apply(m, id)->0;
    let h = m.0[i];
    assert(same_ids(m.0, a.0));
    lemma_same_ids(m.0, a.0, id);
    assert(a.1.last() == (h.0, h.3, h.1, h.2));
    let u = spec_undo(a)->0;
    assert(u.0 =~= m.0);
    assert(u.1 =~= m.1);
}

/// Dirty state is content identity: an apply followed by its undo gives
/// back the same result text, so against any saved hash the session is
/// dirty afterwards exactly when it was dirty before.
pub proof fn law_dirty_is_content_identity(m: SessionModel, id: HunkId, saved: u64)
    requires
        model_wf(m),
        spec_apply(m, id) is Some,
    ensures
        spec_undo(spec_apply(m, id)->0) matches Some(u) && result_of(u.0) == result_of(m.0)
            && ((content_hash(result_of(u.0)) != saved) == (content_hash(result_of(m.0)) != saved)),
{
    law_undo_reverts_apply(m, id);
}

/// Redoing an undone operation restores the whole session model.
pub proof fn law_redo_reverts_undo(m: SessionModel)
    requires
        model_wf(m),
        m.1.len() > 0,
    ensures
        spec_undo(m) matches Some(u) && spec_redo(u) == Some(m),
{
    let t = m.1.last();
    assert(has_id(m.0, t.0));
    lemma_first_exists(m.0, t.0);
    let i = first_index(m.0, t.0);
    let u = spec_undo(m)->0;
    assert(same_ids(m.0, u.0));
    lemma_same_ids(m.0, u.0, t.0);
    let r = spec_redo(u)->0;
    assert(r.0 =~= m.0);
    assert(r.1 =~= m.1);
    assert(r.2 =~= m.2);
}

/// Undoing a redone operation restores the whole session model.
pub proof fn law_undo_reverts_redo(m: SessionModel)
    requires
        model_wf(m),
        m.2.len() > 0,
    ensures
        spec_redo(m) matches Some(r) && spec_undo(r) == Some(m),
{
    let t = m.2.last();
    assert(has_id(m.0, t.0));
    lemma_first_exists(m.0, t.0);
    let r = spec_redo(m)->0;
    assert(same_ids(m.0, r.0));
    lemma_same_ids(m.0, r.0, t.0);
    let u = spec_undo(r)->0;
    assert(u.0 =~= m.0);
    assert(u.1 =~= m.1);
    assert(u.2 =~= m.2);
}

/// A hunk can be applied once: after an apply the same id is refused, and
/// exactly one pending change is gone.
pub proof fn law_apply_consumes_pending(m: SessionModel, id: HunkId)
    requires
        spec_apply(m, id) is Some,
    ensures
        spec_apply(spec_apply(m, id)->0, id) is None,
        pending_count((spec_apply(m, id)->0).0) + 1 == pending_count(m.0),
{
    lemma_first_exists(m.0, id);
    let i = first_index(m.0, id);
    let a = spec_apply(m, id)->0;
    assert(same_ids(m.0, a.0));
    lemma_same_ids(m.0, a.0, id);
    lemma_pending_update(m.0, i, a.0[i]);
}

proof fn lemma_pending_update(hs: Seq<HunkModel>, i: int, h: HunkModel)
    requires
        0 <= i < hs.len(),
        pending(hs[i]),
        !pending(h),
    ensures
        pending_count(hs.update(i, h)) + 1 == pending_count(hs),
    decreases hs.len(),
{
    let n = hs.len() - 1;
    if i == n {
        assert(hs.update(i, h).drop_last() =~= hs.drop_last());
    } else {
        lemma_pending_update(hs.drop_last(), i, h);
        assert(hs.update(i, h).drop_last() =~= hs.drop_last().update(i, h));
    }
}

/// Applying hunks in turn, in the order given; `None` at the first refusal.
pub open spec fn spec_apply_all(m: SessionModel, ids: Seq<HunkId>) -> Option<SessionModel>
    decreases ids.len(),
{
    if ids.len() == 0 {
        Some(m)
    } else {
        match spec_apply_all(m, ids.drop_last()) {
            Some(b) => spec_apply(b, ids.last()),
            None => None,
        }
    }
}

/// Undoing `n` times in turn; `None` when the undo stack runs out.
pub open spec fn spec_undo_n(m: SessionModel, n: nat) -> Option<SessionModel>
    decreases n,
{
    if n == 0 {
        Some(m)
    } else {
        match spec_undo(m) {
            Some(u) => spec_undo_n(u, (n - 1) as nat),
            None => None,
        }
    }
}

/// Undo reads only the hunks and the undo stack, so two models that agree
/// on them agree on those after any number of undos.
proof fn lemma_undo_n_ignores_redo(a: SessionModel, b: SessionModel, n: nat)
    requires
        a.0 == b.0,
        a.1 == b.1,
    ensures
        spec_undo_n(a, n) is Some <==> spec_undo_n(b, n) is Some,
        spec_undo_n(a, n) matches Some(x) ==> spec_undo_n(b, n) matches Some(y) && x.0 == y.0 && x.1 == y.1,
    decreases n,
{
    if n > 0 && a.1.len() > 0 {
        lemma_undo_n_ignores_redo(spec_undo(a)->0, spec_undo(b)->0, (n - 1) as nat);
    }
}

proof fn lemma_apply_all_keeps_wf(m: SessionModel, ids: Seq<HunkId>)
    requires
        model_wf(m),
        spec_apply_all(m, ids) is Some,
    ensures
        model_wf(spec_apply_all(m, ids)->0),
    decreases ids.len(),
{
    if ids.len() > 0 {
        lemma_apply_all_keeps_wf(m, ids.drop_last());
        law_operations_keep_wf(spec_apply_all(m, ids.drop_last())->0, ids.last());
    }
}

/// Undoing once for every hunk applied in a row restores the hunk list
/// and the undo stack that stood before the first of them, whatever the
/// number of hunks and the depth of the stack; the result text, and with
/// it the dirty state, is then that of the start.
pub proof fn law_undo_all_reverts_apply_all(m: SessionModel, ids: Seq<HunkId>)
    requires
        model_wf(m),
        spec_apply_all(m, ids) is Some,
    ensures
        spec_undo_n(spec_apply_all(m, ids)->0, ids.len()) matches Some(u) && u.0 == m.0 && u.1 == m.1
            && result_of(u.0) == result_of(m.0),
    decreases ids.len(),
{
    if ids.len() > 0 {
        let rest = ids.drop_last();
        let b = spec_apply_all(m, rest)->0;
        law_undo_all_reverts_apply_all(m, rest);
        lemma_apply_all_keeps_wf(m, rest);
        law_undo_reverts_apply(b, ids.last());
        let a = spec_apply(b, ids.last())->0;
        let u = spec_undo(a)->0;
        lemma_undo_n_ignores_redo(u, b, rest.len());
        assert(spec_undo_n(a, ids.len()) == spec_undo_n(u, rest.len()));
    }
}

/// One session operation: apply a hunk left to right, undo, or redo.
#[derive(Debug, Clone, Copy, PartialEq, Eq, Structural)]
pub enum SessionOp {
    Apply(HunkId),
    Undo,
    Redo,
}

/// The model after one operation; a refused operation changes nothing, as
/// the session methods do.
pub open spec fn spec_step(m: SessionModel, op: SessionOp) -> SessionModel {
    let r = match op {
        SessionOp::Apply(id) => spec_apply(m, id),
        SessionOp::Undo => spec_undo(m),
        SessionOp::Redo => spec_redo(m),
    };
    match r {
        Some(next) => next,
        None => m,
    }
}

/// The model after a run of operations, in order.
pub open spec fn spec_run(m: SessionModel, ops: Seq<SessionOp>) -> SessionModel
    decreases ops.len(),
{
    if ops.len() == 0 {
        m
    } else {
        spec_step(spec_run(m, ops.drop_last()), ops.last())
    }
}

/// Whether a session with hunks `hs` is dirty against the saved content
/// hash `saved`: its result text hashes differently.
pub open spec fn dirty_against(hs: Seq<HunkModel>, saved: u64) -> bool {
    content_hash(result_of(hs)) != saved
}

/// After a save, any run of applies, undos and redos (none of which
/// changes the saved hash) keeps the session well formed, and the session
/// is dirty exactly when the result text's hash differs from the saved
/// text's; in particular a run that restores the hunks leaves it clean.
pub proof fn law_dirty_tracks_saved_content(m: SessionModel, ops: Seq<SessionOp>)
    requires
        model_wf(m),
    ensures
        model_wf(spec_run(m, ops)),
        dirty_against(spec_run(m, ops).0, content_hash(result_of(m.0)))
            <==> content_hash(result_of(spec_run(m, ops).0)) != content_hash(result_of(m.0)),
        spec_run(m, ops).0 == m.0 ==> !dirty_against(spec_run(m, ops).0, content_hash(result_of(m.0))),
    decreases ops.len(),
{
    if ops.len() > 0 {
        law_dirty_tracks_saved_content(m, ops.drop_last());
        let prev = spec_run(m, ops.drop_last());
        let id = match ops.last() {
            SessionOp::Apply(id) => id,
            _ => 0,
        };
        law_operations_keep_wf(prev, id);
    }
}

/// Every session operation keeps stored transactions pointing at hunks.
pub proof fn law_operations_keep_wf(m: SessionModel, id: HunkId)
    requires
        model_wf(m),
    ensures
        spec_apply(m, id) matches Some(a) ==> model_wf(a),
        spec_undo(m) matches Some(u) ==> model_wf(u),
        spec_redo(m) matches Some(r) ==> model_wf(r),
{
    if spec_apply(m, id) is Some {
        lemma_first_exists(m.0, id);
        let a = spec_apply(m, id)->0;
        assert(same_ids(m.0, a.0));
        lemma_wf_same_ids(m, a.0);
        lemma_same_ids(m.0, a.0, id);
        assert forall|k: int| 0 <= k < a.1.len() implies has_id(a.0, #[trigger] a.1[k].0) by {
            if k < m.1.len() {
                assert(a.1[k] == m.1[k]);
            }
        }
    }
    if m.1.len() > 0 {
        let t = m.1.last();
        assert(has_id(m.0, t.0));
        lemma_first_exists(m.0, t.0);
        let u = spec_undo(m)->0;
        assert(same_ids(m.0, u.0));
        lemma_wf_same_ids(m, u.0);
        assert forall|k: int| 0 <= k < u.1.len() implies has_id(u.0, #[trigger] u.1[k].0) by {
            assert(u.1[k] == m.1[k]);
            lemma_same_ids(m.0, u.0, m.1[k].0);
        }
        assert forall|k: int| 0 <= k < u.2.len() implies has_id(u.0, #[trigger] u.2[k].0) by {
            if k < m.2.len() {
                assert(u.2[k] == m.2[k]);
            }
            lemma_same_ids(m.0, u.0, u.2[k].0);
        }
    }
    if m.2.len() > 0 {
        let t = m.2.last();
        assert(has_id(m.0, t.0));
        lemma_first_exists(m.0, t.0);
        let r = spec_redo(m)->0;
        assert(same_ids(m.0, r.0));
        assert forall|k: int| 0 <= k < r.1.len() implies has_id(r.0, #[trigger] r.1[k].0) by {
            if k < m.1.len() {
                assert(r.1[k] == m.1[k]);
            }
            lemma_same_ids(m.0, r.0, r.1[k].0);
        }
        assert forall|k: int| 0 <= k < r.2.len() implies has_id(r.0, #[trigger] r.2[k].0) by {
            assert(r.2[k] == m.2[k]);
            lemma_same_ids(m.0, r.0, m.2[k].0);
        }
    }
}


/// The hunk models of a list of merge hunks.
pub open spec fn hunk_models(hs: Seq<MergeHunk>) -> Seq<HunkModel> {
    hs.map_values(|h: MergeHunk| h.model())
}

/// The transaction models of a list of transactions.
pub open spec fn txn_models(ts: Seq<MergeTransaction>) -> Seq<TxnModel> {
    ts.map_values(|t: MergeTransaction| t.model())
}

/// The starting hunk model of a diff hunk: same id, kind and rows, not
/// yet applied.
pub open spec fn initial_hunk(h: DiffHunk) -> HunkModel {
    (h.hunk_id, h.kind, HunkState::Original, rows_view(h.rows@))
}

fn applied_rows_exec(rows: &Vec<DiffRow>) -> (out: Vec<DiffRow>)
    ensures
        rows_view(out@) == applied_rows(rows_view(rows@)),
{
    let mut out: Vec<DiffRow> = Vec::new();
    let mut i: usize = 0;
    while i < rows.len()
        invariant
            i <= rows@.len(),
            out@.len() == i,
            forall|k: int| 0 <= k < i ==> (#[trigger] out@[k]).row_view() == applied_row(rows@[k].row_view()),
        decreases rows@.len() - i,
    {
        let row = match &rows[i].left {
            Some(l) => DiffRow {
                left: Some(l.duplicate()),
                right: Some(SideLine { original_line_number: None, content: l.content.clone(), newline: l.newline }),
                inline: None,
            },
            None => DiffRow { left: None, right: None, inline: None },
        };
        out.push(row);
        i = i + 1;
    }
    assert(rows_view(out@) =~= applied_rows(rows_view(rows@)));
    out
}

impl MergeSession {
    /// Build a working session from a freshly computed diff: one hunk per
    /// diff hunk, nothing applied, empty stacks, clean.
    pub fn from_diff(diff: &DiffDocument) -> (s: Self)
        ensures
            s.wf(),
            s.model().0 == diff.hunks@.map_values(|h: DiffHunk| initial_hunk(h)),
            s.model().1.len() == 0,
            s.model().2.len() == 0,
            s.saved_hash_spec() == content_hash(result_of(s.model().0)),
            s.diff_id_spec() == diff.diff_id,
    {
        let mut hunks: Vec<MergeHunk> = Vec::new();
        let mut i: usize = 0;
        while i < diff.hunks.len()
            invariant
                i <= diff.hunks@.len(),
                hunks@.len() == i,
                forall|k: int| 0 <= k < i ==> (#[trigger] hunks@[k]).model() == initial_hunk(diff.hunks@[k]),
            decreases diff.hunks@.len() - i,
        {
            let h = &diff.hunks[i];
            hunks.push(MergeHunk { hunk_id: h.hunk_id, kind: h.kind, state: HunkState::Original, rows: duplicate_rows(&h.rows) });
            i = i + 1;
        }
        let mut session = Self {
            diff_id: diff.diff_id,
            hunks,
            undo_stack: Vec::new(),
            redo_stack: Vec::new(),
            current_hash: 0,
            saved_hash: 0,
        };
        assert(session.model().0 =~= diff.hunks@.map_values(|h: DiffHunk| initial_hunk(h)));
        assert(session.model().1 =~= Seq::<TxnModel>::empty());
        assert(session.model().2 =~= Seq::<TxnModel>::empty());
        let hash = session.compute_hash();
        session.current_hash = hash;
        session.saved_hash = hash;
        assert(session.model().0 =~= diff.hunks@.map_values(|h: DiffHunk| initial_hunk(h)));
        assert(session.model().1 =~= Seq::<TxnModel>::empty());
        assert(session.model().2 =~= Seq::<TxnModel>::empty());
        session
    }

    fn compute_hash(&self) -> (h: u64)
        ensures
            h == content_hash(result_of(self.model().0)),
    {
        let text = self.result_text();
        fnv1a64(text.as_str().as_bytes())
    }

    /// The identity of the diff this session was built from.
    pub fn diff_id(&self) -> (id: u64)
        ensures
            id == self.diff_id_spec(),
    {
        self.diff_id
    }

    /// The working hunks.
    pub fn hunks(&self) -> (hs: &[MergeHunk])
        ensures
            hunk_models(hs@) == self.model().0,
    {
        self.hunks.as_slice()
    }

    /// `true` when the working result differs from the last saved state,
    /// compared by content hash. O(1).
    pub fn is_dirty(&self) -> (b: bool)
        requires
            self.wf(),
        ensures
            b == (content_hash(result_of(self.model().0)) != self.saved_hash_spec()),
    {
        self.current_hash != self.saved_hash
    }

    /// `true` when an operation can be undone.
    pub fn can_undo(&self) -> (b: bool)
        ensures
            b == (self.model().1.len() > 0),
    {
        self.undo_stack.len() > 0
    }

    /// `true` when an undone operation can be redone.
    pub fn can_redo(&self) -> (b: bool)
        ensures
            b == (self.model().2.len() > 0),
    {
        self.redo_stack.len() > 0
    }

    /// Number of changed hunks not yet applied.
    pub fn pending_changes(&self) -> (n: usize)
        ensures
            n == pending_count(self.model().0),
    {
        let mut n: usize = 0;
        let mut i: usize = 0;
        while i < self.hunks.len()
            invariant
                i <= self.hunks@.len(),
                n == pending_count(hunk_models(self.hunks@.subrange(0, i as int))),
                n <= i,
            decreases self.hunks@.len() - i,
        {
            assert(hunk_models(self.hunks@.subrange(0, i as int + 1)).drop_last()
                =~= hunk_models(self.hunks@.subrange(0, i as int)));
            if self.hunks[i].is_pending_change() {
                n = n + 1;
            }
            i = i + 1;
        }
        assert(self.hunks@.subrange(0, self.hunks@.len() as int) =~= self.hunks@);
        n
    }

    fn find_hunk(&self, hunk_id: HunkId) -> (r: Option<usize>)
        ensures
            r is None <==> !has_id(self.model().0, hunk_id),
            r matches Some(i) ==> i == first_index(self.model().0, hunk_id) && is_first(self.model().0, hunk_id, i as int),
    {
        let ghost hs = self.model().0;
        let mut i: usize = 0;
        while i < self.hunks.len()
            invariant
                hs == self.model().0,
                i <= self.hunks@.len(),
                forall|j: int| 0 <= j < i ==> hs[j].0 != hunk_id,
            decreases self.hunks@.len() - i,
        {
            if self.hunks[i].hunk_id == hunk_id {
                proof {
                    assert(is_first(hs, hunk_id, i as int));
                    lemma_first_exists(hs, hunk_id);
                    lemma_first_unique(hs, hunk_id, i as int, first_index(hs, hunk_id));
                }
                return Some(i);
            }
            i = i + 1;
        }
        None
    }

    /// Apply a hunk's left content onto the right side.
    ///
    /// Unknown or stale hunk ids are rejected, and so is a hunk with no
    /// pending change (equal or already applied), so the UI cannot silently
    /// double-apply. On success the previous state of the hunk is recorded
    /// for undo and the redo stack is cleared.
    pub fn apply_left_to_right(&mut self, hunk_id: HunkId) -> (r: CoreResult<()>)
        requires
            old(self).wf(),
        ensures
            final(self).wf(),
            final(self).saved_hash_spec() == old(self).saved_hash_spec(),
            final(self).diff_id_spec() == old(self).diff_id_spec(),
            spec_apply(old(self).model(), hunk_id) matches Some(m) ==> r is Ok && final(self).model() == m,
            spec_apply(old(self).model(), hunk_id) is None ==> final(self).model() == old(self).model(),
            !has_id(old(self).model().0, hunk_id) ==> (r matches Err(CoreError::Conflict { message })
                && message@ == "unknown or stale hunk id"@),
            has_id(old(self).model().0, hunk_id) && spec_apply(old(self).model(), hunk_id) is None
                ==> (r matches Err(CoreError::Conflict { message }) && message@ == "hunk has no pending change"@),
    {
        let i = match self.find_hunk(hunk_id) {
            Some(i) => i,
            None => return Err(CoreError::conflict("unknown or stale hunk id")),
        };
        if !self.hunks[i].is_pending_change() {
            return Err(CoreError::conflict("hunk has no pending change"));
        }
        let ghost m = self.model();
        let mut placeholder = MergeHunk { hunk_id: 0, kind: HunkKind::Equal, state: HunkState::Original, rows: Vec::new() };
        self.hunks.set_and_swap(i, &mut placeholder);
        let old_hunk = placeholder;
        let new_rows = applied_rows_exec(&old_hunk.rows);
        let new_hunk = MergeHunk { hunk_id: old_hunk.hunk_id, kind: old_hunk.kind, state: HunkState::AppliedLeftToRight, rows: new_rows };
        self.hunks.set(i, new_hunk);
        let txn = MergeTransaction {
            hunk_id: old_hunk.hunk_id,
            previous_rows: old_hunk.rows,
            previous_kind: old_hunk.kind,
            previous_state: old_hunk.state,
        };
        self.undo_stack.push(txn);
        self.redo_stack.clear();
        proof {
            let a = spec_apply(m, hunk_id)->0;
            assert(self.model().0 =~= a.0);
            assert(self.model().1 =~= a.1);
            assert(self.model().2 =~= a.2);
            law_operations_keep_wf(m, hunk_id);
        }
        self.current_hash = self.compute_hash();
        Ok(())
    }

    fn swap_in(&mut self, txn: MergeTransaction) -> (inverse: MergeTransaction)
        requires
            old(self).wf(),
            has_id(old(self).model().0, txn.hunk_id),
        ensures
            final(self).model().0 == spec_swap_in(old(self).model().0, txn.model()).0,
            inverse.model() == spec_swap_in(old(self).model().0, txn.model()).1,
            final(self).model().1 == old(self).model().1,
            final(self).model().2 == old(self).model().2,
            final(self).current_hash == content_hash(result_of(final(self).model().0)),
            final(self).saved_hash == old(self).saved_hash,
            final(self).diff_id == old(self).diff_id,
    {
        let ghost m = self.model();
        let i = match self.find_hunk(txn.hunk_id) {
            Some(i) => i,
            None => {
                proof { assert(false); }
                return txn;
            },
        };
        let mut placeholder = MergeHunk { hunk_id: 0, kind: HunkKind::Equal, state: HunkState::Original, rows: Vec::new() };
        self.hunks.set_and_swap(i, &mut placeholder);
        let old_hunk = placeholder;
        let restored = MergeHunk {
            hunk_id: old_hunk.hunk_id,
            kind: txn.previous_kind,
            state: txn.previous_state,
            rows: txn.previous_rows,
        };
        self.hunks.set(i, restored);
        let inverse = MergeTransaction {
            hunk_id: txn.hunk_id,
            previous_rows: old_hunk.rows,
            previous_kind: old_hunk.kind,
            previous_state: old_hunk.state,
        };
        proof {
            assert(self.model().0 =~= spec_swap_in(m.0, txn.model()).0);
            assert(self.model().1 =~= m.1);
            assert(self.model().2 =~= m.2);
        }
        self.current_hash = self.compute_hash();
        inverse
    }

    /// Undo the most recent merge operation, returning the hunk it touched.
    pub fn undo(&mut self) -> (r: CoreResult<HunkId>)
        requires
            old(self).wf(),
        ensures
            final(self).wf(),
            final(self).saved_hash_spec() == old(self).saved_hash_spec(),
            final(self).diff_id_spec() == old(self).diff_id_spec(),
            spec_undo(old(self).model()) matches Some(m) ==> r == Ok::<HunkId, CoreError>(old(self).model().1.last().0)
                && final(self).model() == m,
            spec_undo(old(self).model()) is None ==> final(self).model() == old(self).model()
                && (r matches Err(CoreError::Conflict { message }) && message@ == "nothing to undo"@),
    {
        let ghost m = self.model();
        let txn = match self.undo_stack.pop() {
            Some(t) => t,
            None => return Err(CoreError::conflict("nothing to undo")),
        };
        proof {
            assert(txn.model() == m.1.last());
            assert(self.model().1 =~= m.1.drop_last());
        }
        let hunk_id = txn.hunk_id;
        let inverse = self.swap_in(txn);
        self.redo_stack.push(inverse);
        proof {
            assert(self.model().2 =~= m.2.push(inverse.model()));
            law_operations_keep_wf(m, hunk_id);
        }
        Ok(hunk_id)
    }

    /// Redo the most recently undone merge operation, returning the hunk it
    /// touched.
    pub fn redo(&mut self) -> (r: CoreResult<HunkId>)
        requires
            old(self).wf(),
        ensures
            final(self).wf(),
            final(self).saved_hash_spec() == old(self).saved_hash_spec(),
            final(self).diff_id_spec() == old(self).diff_id_spec(),
            spec_redo(old(self).model()) matches Some(m) ==> r == Ok::<HunkId, CoreError>(old(self).model().2.last().0)
                && final(self).model() == m,
            spec_redo(old(self).model()) is None ==> final(self).model() == old(self).model()
                && (r matches Err(CoreError::Conflict { message }) && message@ == "nothing to redo"@),
    {
        let ghost m = self.model();
        let txn = match self.redo_stack.pop() {
            Some(t) => t,
            None => return Err(CoreError::conflict("nothing to redo")),
        };
        proof {
            assert(txn.model() == m.2.last());
            assert(self.model().2 =~= m.2.drop_last());
        }
        let hunk_id = txn.hunk_id;
        let inverse = self.swap_in(txn);
        self.undo_stack.push(inverse);
        proof {
            assert(self.model().1 =~= m.1.push(inverse.model()));
            law_operations_keep_wf(m, hunk_id);
        }
        Ok(hunk_id)
    }

    /// Mark the current state as saved: dirty becomes `false` and the redo
    /// stack is cleared.
    pub fn mark_saved(&mut self)
        requires
            old(self).wf(),
        ensures
            final(self).wf(),
            final(self).model() == (old(self).model().0, old(self).model().1, Seq::<TxnModel>::empty()),
            final(self).saved_hash_spec() == content_hash(result_of(final(self).model().0)),
            final(self).diff_id_spec() == old(self).diff_id_spec(),
    {
        self.saved_hash = self.current_hash;
        self.redo_stack.clear();
        assert(self.model().2 =~= Seq::<TxnModel>::empty());
    }

    /// Canonical right-side result text, reconstructed from the working
    /// hunks with original newline markers preserved.
    pub fn result_text(&self) -> (s: String)
        ensures
            s@ == result_of(self.model().0),
    {
        let mut out = String::new();
        let ghost hs = self.model().0;
        let mut h: usize = 0;
        while h < self.hunks.len()
            invariant
                hs == self.model().0,
                h <= self.hunks@.len(),
                out@ == result_of(hs.subrange(0, h as int)),
            decreases self.hunks@.len() - h,
        {
            let hunk = &self.hunks[h];
            let ghost before = out@;
            let mut r: usize = 0;
            while r < hunk.rows.len()
                invariant
                    r <= hunk.rows@.len(),
                    out@ == before + rows_result(rows_view(hunk.rows@).subrange(0, r as int)),
                decreases hunk.rows@.len() - r,
            {
                proof {
                    assert(rows_view(hunk.rows@).subrange(0, r as int + 1).drop_last()
                        =~= rows_view(hunk.rows@).subrange(0, r as int));
                }
                match &hunk.rows[r].right {
                    Some(right) => {
                        push_str(&mut out, right.content.as_str());
                        push_str(&mut out, right.newline.as_str());
                    },
                    None => {},
                }
                assert(out@ =~= before + rows_result(rows_view(hunk.rows@).subrange(0, r as int + 1)));
                r = r + 1;
            }
            proof {
                assert(rows_view(hunk.rows@).subrange(0, hunk.rows@.len() as int) =~= rows_view(hunk.rows@));
                assert(hs.subrange(0, h as int + 1).drop_last() =~= hs.subrange(0, h as int));
                assert(hs[h as int].3 == rows_view(hunk.rows@));
            }
            h = h + 1;
        }
        assert(hs.subrange(0, hs.len() as int) =~= hs);
        out
    }
}
} // verus!
