//! Conflict navigator: the view model between a three-way merge session
//! and the conflict rail. It tracks the focused conflict and offers the
//! wrapping previous/next traversal used by the action bar and shortcuts.
//! It holds ids and metadata only, and is rebuilt on every session change.

use vstd::prelude::*;

use crate::merge::three_way::session::{
    conflict_models, unresolved_spec, ConflictId, ConflictModel, ConflictStatus, ThreeWayMergeSession,
};

verus! {

/// Which conflicts the rail shows.
#[derive(Debug, Clone, Copy, PartialEq, Eq, Default, Structural)]
pub enum ConflictFilter {
    /// All conflicts.
    #[default]
    All,
    /// Only unresolved conflicts.
    UnresolvedOnly,
}

/// Display metadata of one conflict status: a glyph (never the only cue)
/// and a short text label.
#[derive(Debug, Clone, Copy, PartialEq, Eq)]
pub struct ConflictStatusDisplay {
    pub glyph: char,
    pub text: &'static str,
}

/// The glyph and label of a status.
pub open spec fn status_display(s: ConflictStatus) -> (char, Seq<char>) {
    match s {
        ConflictStatus::Unresolved => ('!', "unresolved"@),
        ConflictStatus::ResolvedLeft => ('L', "left"@),
        ConflictStatus::ResolvedRight => ('R', "right"@),
        ConflictStatus::ResolvedBoth => ('B', "both"@),
        ConflictStatus::ResolvedManual => ('~', "manual"@),
        ConflictStatus::Ignored => ('-', "ignored"@),
    }
}

impl ConflictStatusDisplay {
    /// The display metadata of `status`.
    pub fn for_status(status: ConflictStatus) -> (d: Self)
        ensures
            (d.glyph, d.text@) == status_display(status),
    {
        match status {
            ConflictStatus::Unresolved => ConflictStatusDisplay { glyph: '!', text: "unresolved" },
            ConflictStatus::ResolvedLeft => ConflictStatusDisplay { glyph: 'L', text: "left" },
            ConflictStatus::ResolvedRight => ConflictStatusDisplay { glyph: 'R', text: "right" },
            ConflictStatus::ResolvedBoth => ConflictStatusDisplay { glyph: 'B', text: "both" },
            ConflictStatus::ResolvedManual => ConflictStatusDisplay { glyph: '~', text: "manual" },
            ConflictStatus::Ignored => ConflictStatusDisplay { glyph: '-', text: "ignored" },
        }
    }
}

/// One row of the navigator rail.
#[derive(Debug, Clone, PartialEq, Eq)]
pub struct ConflictNavigatorEntry {
    pub conflict_id: ConflictId,
    /// 1-based display number (the conflict's position, not its id).
    pub display_num: usize,
    pub status: ConflictStatus,
    pub display: ConflictStatusDisplay,
    /// `true` for the focused conflict.
    pub is_focused: bool,
}

/// An entry as values: id, display number, status, glyph, label, focus.
pub type EntryView = (ConflictId, nat, ConflictStatus, char, Seq<char>, bool);

impl ConflictNavigatorEntry {
    /// The entry as values.
    pub open spec fn view_of(self) -> EntryView {
        (self.conflict_id, self.display_num as nat, self.status, self.display.glyph, self.display.text@, self.is_focused)
    }

    /// The CSS class token of this entry's status indicator.
    pub fn css_class(&self) -> (s: &'static str)
        ensures
            s@ == match self.status {
                ConflictStatus::Unresolved => "fsk-conflict-unresolved"@,
                ConflictStatus::ResolvedLeft => "fsk-conflict-left"@,
                ConflictStatus::ResolvedRight => "fsk-conflict-right"@,
                ConflictStatus::ResolvedBoth => "fsk-conflict-both"@,
                ConflictStatus::ResolvedManual => "fsk-conflict-manual"@,
                ConflictStatus::Ignored => "fsk-conflict-ignored"@,
            },
    {
        match self.status {
            ConflictStatus::Unresolved => "fsk-conflict-unresolved",
            ConflictStatus::ResolvedLeft => "fsk-conflict-left",
            ConflictStatus::ResolvedRight => "fsk-conflict-right",
            ConflictStatus::ResolvedBoth => "fsk-conflict-both",
            ConflictStatus::ResolvedManual => "fsk-conflict-manual",
            ConflictStatus::Ignored => "fsk-conflict-ignored",
        }
    }
}

/// Summary counts shown in the navigator footer.
#[derive(Debug, Clone, Copy, PartialEq, Eq, Default)]
pub struct NavigatorSummary {
    pub total: usize,
    pub resolved: usize,
    pub unresolved: usize,
    pub auto_merged: usize,
}

/// Whether a filter shows a conflict of this status.
pub open spec fn shown(filter: ConflictFilter, s: ConflictStatus) -> bool {
    match filter {
        ConflictFilter::All => true,
        ConflictFilter::UnresolvedOnly => s == ConflictStatus::Unresolved,
    }
}

/// The rail entries of a conflict list: each shown conflict, numbered by
/// its 1-based position among all conflicts, focused when its id is the
/// focused one.
pub open spec fn nav_entries(cs: Seq<ConflictModel>, focused: Option<ConflictId>, filter: ConflictFilter) -> Seq<EntryView>
    decreases cs.len(),
{
    if cs.len() == 0 {
        Seq::empty()
    } else {
        let prev = nav_entries(cs.drop_last(), focused, filter);
        let c = cs.last();
        if shown(filter, c.4) {
            let d = status_display(c.4);
            prev.push((c.0, cs.len(), c.4, d.0, d.1, focused == Some(c.0)))
        } else {
            prev
        }
    }
}

/// The position of the first entry carrying `id`, if any.
pub open spec fn first_position(es: Seq<EntryView>, id: ConflictId) -> Option<int> {
    if exists|i: int| 0 <= i < es.len() && es[i].0 == id {
        Some(choose|i: int| 0 <= i < es.len() && es[i].0 == id && forall|j: int| 0 <= j < i ==> es[j].0 != id)
    } else {
        None
    }
}

/// View model of the conflict navigator rail.
#[derive(Debug, Clone)]
pub struct ConflictNavigator {
    pub entries: Vec<ConflictNavigatorEntry>,
    pub filter: ConflictFilter,
    pub summary: NavigatorSummary,
    focused_idx: Option<usize>,
}

/// The views of a list of entries.
pub open spec fn entry_views(es: Seq<ConflictNavigatorEntry>) -> Seq<EntryView> {
    es.map_values(|e: ConflictNavigatorEntry| e.view_of())
}

proof fn lemma_nav_entries_len(cs: Seq<ConflictModel>, focused: Option<ConflictId>, filter: ConflictFilter)
    ensures
        nav_entries(cs, focused, filter).len() <= cs.len(),
    decreases cs.len(),
{
    if cs.len() > 0 {
        lemma_nav_entries_len(cs.drop_last(), focused, filter);
    }
}

proof fn lemma_unresolved_le(cs: Seq<ConflictModel>)
    ensures
        unresolved_spec(cs) <= cs.len(),
    decreases cs.len(),
{
    if cs.len() > 0 {
        lemma_unresolved_le(cs.drop_last());
    }
}

fn position_of(entries: &Vec<ConflictNavigatorEntry>, id: ConflictId) -> (r: Option<usize>)
    ensures
        r == match first_position(entry_views(entries@), id) {
            Some(i) => Some(i as usize),
            None => None::<usize>,
        },
        r matches Some(i) ==> i < entries@.len(),
{
    let ghost es = entry_views(entries@);
    let mut k: usize = 0;
    while k < entries.len()
        invariant
            es == entry_views(entries@),
            k <= entries@.len(),
            forall|j: int| 0 <= j < k ==> es[j].0 != id,
        decreases entries@.len() - k,
    {
        if entries[k].conflict_id == id {
            proof {
                assert(es[k as int].0 == id);
                let q = choose|i: int| 0 <= i < es.len() && es[i].0 == id && forall|j: int| 0 <= j < i ==> es[j].0 != id;
                assert(0 <= q < es.len() && es[q].0 == id && forall|j: int| 0 <= j < q ==> es[j].0 != id);
                assert(q == k as int) by {
                    if q < k as int {
                        assert(es[q].0 != id);
                    } else if q > k as int {
                        assert(es[k as int].0 != id);
                    }
                }
            }
            return Some(k);
        }
        k = k + 1;
    }
    None
}

impl ConflictNavigator {
    /// The position of the focused entry.
    pub closed spec fn focused_index(self) -> Option<usize> {
        self.focused_idx
    }

    /// The entries.
    pub closed spec fn entries_spec(self) -> Seq<ConflictNavigatorEntry> {
        self.entries@
    }

    /// The filter.
    pub closed spec fn filter_spec(self) -> ConflictFilter {
        self.filter
    }

    /// The summary counts.
    pub closed spec fn summary_spec(self) -> NavigatorSummary {
        self.summary
    }

    /// Validity: the focus, if any, is an entry position.
    pub closed spec fn wf(self) -> bool {
        self.focused_idx matches Some(i) ==> i < self.entries@.len()
    }

    /// A navigator for `session`: the summary counts from the session's
    /// statistics, one entry per conflict the filter shows, and the focus
    /// on the first entry carrying `focused_id`.
    pub fn build(session: &ThreeWayMergeSession, focused_id: Option<ConflictId>, filter: ConflictFilter) -> (nav: Self)
        ensures
            nav.wf(),
            entry_views(nav.entries_spec()) == nav_entries(session.model().1, focused_id, filter),
            nav.filter_spec() == filter,
            nav.summary_spec().total == session.model().1.len(),
            nav.summary_spec().unresolved == unresolved_spec(session.model().1),
            nav.summary_spec().resolved == session.model().1.len() - unresolved_spec(session.model().1),
            nav.summary_spec().auto_merged == session.auto_merged_count(),
            focused_id is None ==> nav.focused_index() is None,
            focused_id matches Some(id) ==> nav.focused_index() == match first_position(entry_views(nav.entries_spec()), id) {
                Some(i) => Some(i as usize),
                None => None::<usize>,
            },
    {
        let stats = session.stats();
        proof {
            lemma_unresolved_le(session.model().1);
        }
        let summary = NavigatorSummary {
            total: stats.conflicts_total,
            resolved: stats.conflicts_total - stats.conflicts_unresolved,
            unresolved: stats.conflicts_unresolved,
            auto_merged: stats.auto_merged,
        };
        let cs = session.conflicts();
        let ghost cm = session.model().1;
        let mut entries: Vec<ConflictNavigatorEntry> = Vec::new();
        let mut i: usize = 0;
        proof {
            assert(cm.subrange(0, 0) =~= Seq::<ConflictModel>::empty());
            assert(entry_views(entries@) =~= Seq::<EntryView>::empty());
        }
        while i < cs.len()
            invariant
                conflict_models(cs@) == cm,
                i <= cs@.len(),
                entry_views(entries@) == nav_entries(cm.subrange(0, i as int), focused_id, filter),
            decreases cs@.len() - i,
        {
            proof {
                assert(cm.subrange(0, i as int + 1).drop_last() =~= cm.subrange(0, i as int));
                assert(cm[i as int] == cs@[i as int].model());
            }
            let c = &cs[i];
            let show = match filter {
                ConflictFilter::All => true,
                ConflictFilter::UnresolvedOnly => matches!(c.status, ConflictStatus::Unresolved),
            };
            if show {
                let focused = match focused_id {
                    Some(f) => f == c.id,
                    None => false,
                };
                entries.push(ConflictNavigatorEntry {
                    conflict_id: c.id,
                    display_num: i + 1,
                    status: c.status,
                    display: ConflictStatusDisplay::for_status(c.status),
                    is_focused: focused,
                });
            }
            assert(entry_views(entries@) =~= nav_entries(cm.subrange(0, i as int + 1), focused_id, filter));
            i = i + 1;
        }
        proof {
            assert(cm.subrange(0, cm.len() as int) =~= cm);
        }
        let focused_idx = match focused_id {
            Some(id) => position_of(&entries, id),
            None => None,
        };
        ConflictNavigator { entries, filter, summary, focused_idx }
    }

    /// The focused entry, if any.
    pub fn focused_entry(&self) -> (r: Option<&ConflictNavigatorEntry>)
        ensures
            (self.focused_index() matches Some(i) && i < self.entries_spec().len() && r == Some(&self.entries_spec()[i as int]))
                || (!(self.focused_index() matches Some(i) && i < self.entries_spec().len()) && r is None),
    {
        match self.focused_idx {
            Some(i) => {
                if i < self.entries.len() {
                    Some(&self.entries[i])
                } else {
                    None
                }
            },
            None => None,
        }
    }

    /// The id of the entry after the focus, wrapping around; the first
    /// entry when nothing is focused; `None` when there is no entry.
    pub fn next_id(&self) -> (r: Option<ConflictId>)
        ensures
            self.entries_spec().len() == 0 ==> r is None,
            self.entries_spec().len() > 0 ==> r == Some(self.entries_spec()[match self.focused_index() {
                Some(i) => (i + 1) % (self.entries_spec().len() as int),
                None => 0,
            }].conflict_id),
    {
        let n = self.entries.len();
        if n == 0 {
            return None;
        }
        let next = match self.focused_idx {
            Some(i) => {
                if i < n {
                    (i + 1) % n
                } else {
                    let k = i % n;
                    if k + 1 < n { k + 1 } else { 0 }
                }
            },
            None => 0,
        };
        proof {
            if let Some(i) = self.focused_idx {
                if i >= n {
                    assert((i + 1) % (n as int) == if i % n + 1 < n { i % n + 1 } else { 0 }) by (nonlinear_arith)
                        requires n > 0;
                }
            }
        }
        Some(self.entries[next].conflict_id)
    }

    /// The id of the entry before the focus, wrapping around; the last
    /// entry when nothing is focused; `None` when there is no entry.
    pub fn prev_id(&self) -> (r: Option<ConflictId>)
        requires
            self.wf(),
        ensures
            self.entries_spec().len() == 0 ==> r is None,
            self.entries_spec().len() > 0 ==> r == Some(self.entries_spec()[match self.focused_index() {
                Some(i) => if i == 0 { self.entries_spec().len() - 1 } else { i - 1 },
                None => self.entries_spec().len() - 1,
            }].conflict_id),
    {
        let n = self.entries.len();
        if n == 0 {
            return None;
        }
        let prev = match self.focused_idx {
            Some(i) => if i == 0 { n - 1 } else { i - 1 },
            None => n - 1,
        };
        Some(self.entries[prev].conflict_id)
    }

    /// The id of the first unresolved entry, if any.
    pub fn first_unresolved_id(&self) -> (r: Option<ConflictId>)
        ensures
            r is None <==> forall|k: int| 0 <= k < self.entries_spec().len() ==> (#[trigger] self.entries_spec()[k]).status != ConflictStatus::Unresolved,
            r matches Some(id) ==> exists|k: int| 0 <= k < self.entries_spec().len() && self.entries_spec()[k].conflict_id == id
                && self.entries_spec()[k].status == ConflictStatus::Unresolved
                && forall|j: int| 0 <= j < k ==> (#[trigger] self.entries_spec()[j]).status != ConflictStatus::Unresolved,
    {
        let mut k: usize = 0;
        while k < self.entries.len()
            invariant
                k <= self.entries@.len(),
                forall|j: int| 0 <= j < k ==> (#[trigger] self.entries@[j]).status != ConflictStatus::Unresolved,
            decreases self.entries@.len() - k,
        {
            if matches!(self.entries[k].status, ConflictStatus::Unresolved) {
                return Some(self.entries[k].conflict_id);
            }
            k = k + 1;
        }
        None
    }

    /// `true` when no conflict is unresolved.
    pub fn is_fully_resolved(&self) -> (b: bool)
        ensures
            b == (self.summary_spec().unresolved == 0),
    {
        self.summary.unresolved == 0
    }

    /// `true` when the filter hides at least one entry.
    pub fn has_hidden_entries(&self) -> (b: bool)
        ensures
            b == (self.filter_spec() == ConflictFilter::UnresolvedOnly && self.summary_spec().resolved > 0),
    {
        matches!(self.filter, ConflictFilter::UnresolvedOnly) && self.summary.resolved > 0
    }
}

/// The entry ids of a rail, in order.
pub open spec fn entry_ids(es: Seq<EntryView>) -> Seq<ConflictId> {
    es.map_values(|e: EntryView| e.0)
}

/// The entries a rail shows, and their ids, do not depend on the focus.
proof fn lemma_ids_ignore_focus(cs: Seq<ConflictModel>, f: Option<ConflictId>, g: Option<ConflictId>, filter: ConflictFilter)
    ensures
        entry_ids(nav_entries(cs, f, filter)) == entry_ids(nav_entries(cs, g, filter)),
    decreases cs.len(),
{
    if cs.len() > 0 {
        lemma_ids_ignore_focus(cs.drop_last(), f, g, filter);
        let pf = nav_entries(cs.drop_last(), f, filter);
        let pg = nav_entries(cs.drop_last(), g, filter);
        let c = cs.last();
        if shown(filter, c.4) {
            let d = status_display(c.4);
            let ef = (c.0, cs.len(), c.4, d.0, d.1, f == Some(c.0));
            let eg = (c.0, cs.len(), c.4, d.0, d.1, g == Some(c.0));
            assert(nav_entries(cs, f, filter) == pf.push(ef));
            assert(nav_entries(cs, g, filter) == pg.push(eg));
            assert(entry_ids(pf.push(ef)) =~= entry_ids(pf).push(c.0));
            assert(entry_ids(pg.push(eg)) =~= entry_ids(pg).push(c.0));
        }
    }
}

/// Stepping forward then back returns the focus: when the rail's ids are
/// distinct and entry `i` is focused, a rail built for the same conflicts
/// and filter with the focus on the next entry (wrapping around) puts the
/// focus there, and its previous entry (wrapping around) is entry `i`.
pub proof fn law_next_then_prev_returns(cs: Seq<ConflictModel>, f: Option<ConflictId>, filter: ConflictFilter, i: int)
    requires
        0 <= i < nav_entries(cs, f, filter).len(),
        entry_ids(nav_entries(cs, f, filter)).no_duplicates(),
    ensures
        ({
            let es = nav_entries(cs, f, filter);
            let n = es.len() as int;
            let j = (i + 1) % n;
            let es2 = nav_entries(cs, Some(es[j].0), filter);
            &&& es2.len() == n
            &&& first_position(es2, es[j].0) == Some(j)
            &&& es2[if j == 0 { n - 1 } else { j - 1 }].0 == es[i].0
        }),
{
    let es = nav_entries(cs, f, filter);
    let n = es.len() as int;
    let j = (i + 1) % n;
    let id = es[j].0;
    let es2 = nav_entries(cs, Some(id), filter);
    lemma_ids_ignore_focus(cs, f, Some(id), filter);
    let ids = entry_ids(es);
    assert(ids.len() == n && entry_ids(es2).len() == n);
    assert(es2.len() == n);
    assert forall|k: int| 0 <= k < n implies #[trigger] es2[k].0 == es[k].0 by {
        assert(entry_ids(es2)[k] == ids[k]);
    }
    assert(j == if i + 1 < n { i + 1 } else { 0 }) by (nonlinear_arith)
        requires
            0 <= i < n,
            j == (i + 1) % n,
    {
        if i + 1 < n {
            assert((i + 1) % n == i + 1);
        } else {
            assert(i + 1 == n);
            assert(n % n == 0);
        }
    }
    assert(es2[j].0 == id);
    assert forall|k: int| 0 <= k < j implies es2[k].0 != id by {
        assert(ids[k] != ids[j]);
    }
    assert(exists|k: int| 0 <= k < es2.len() && es2[k].0 == id);
    let c = choose|k: int| 0 <= k < es2.len() && es2[k].0 == id && forall|m: int| 0 <= m < k ==> es2[m].0 != id;
    assert(c == j) by {
        if c < j {
            assert(es2[c].0 != id);
        } else if c > j {
            assert(es2[j].0 != id);
        }
    }
}

} // verus!
