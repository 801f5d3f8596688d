//! Session schema v2: restorable path state (tab path pairs, the active
//! tab, the explorer roots), never live task identity or unsaved content.

use vstd::prelude::*;

use super::{json_envelope, probe_envelope, route_envelope, route_outcome_ok, route_spec, PersistenceError, PersistenceLoad, RouteStep};

verus! {

/// The schema name of session files.
pub const SESSION_SCHEMA_NAME: &'static str = "session";

/// The current session schema version.
pub const SESSION_SCHEMA_VERSION_V2: u32 = 2;

/// The path whose text is `s`.
pub uninterp spec fn path_of_text(s: Seq<char>) -> std::path::PathBuf;

/// A path built from its text.
///
/// Trusted: wraps `PathBuf::from(String)`, which takes over the string's
/// contents; the contract names the result as a function of the text alone.
#[verifier::external_body]
fn path_from(s: String) -> (p: std::path::PathBuf)
    ensures
        p == path_of_text(s@),
{
    std::path::PathBuf::from(s)
}

/// The restorable session state; the default is "no session yet".
#[derive(Debug, Clone, Default, PartialEq)]
pub struct PersistedSession {
    pub tabs: Vec<PersistedComparePair>,
    pub active_tab: Option<usize>,
    pub explorer_roots: Option<PersistedDirectoryPair>,
}

/// The two paths of one comparison tab.
#[derive(Debug, Clone, PartialEq, Eq)]
pub struct PersistedComparePair {
    pub left: std::path::PathBuf,
    pub right: std::path::PathBuf,
}

/// The two roots of a directory comparison.
#[derive(Debug, Clone, PartialEq, Eq)]
pub struct PersistedDirectoryPair {
    pub left: std::path::PathBuf,
    pub right: std::path::PathBuf,
}

/// The active tab after normalization: an index past the tab list falls
/// back to the first tab, or to none when there is no tab.
pub open spec fn normalized_active(active: Option<usize>, tabs: nat) -> Option<usize> {
    match active {
        Some(i) => if i >= tabs { if tabs == 0 { None } else { Some(0usize) } } else { Some(i) },
        None => None,
    }
}

/// Clamp the active tab to a valid index without dropping any tab.
pub fn normalize(v2: PersistedSession) -> (r: PersistedSession)
    ensures
        r.tabs@ == v2.tabs@,
        r.explorer_roots == v2.explorer_roots,
        r.active_tab == normalized_active(v2.active_tab, v2.tabs@.len()),
{
    let mut v2 = v2;
    if let Some(i) = v2.active_tab {
        if i >= v2.tabs.len() {
            v2.active_tab = if v2.tabs.len() == 0 { None } else { Some(0) };
        }
    }
    v2
}

/// The session a legacy file describes: its tab path pairs in order, no
/// active tab and no explorer roots.
pub fn migrate_from_v0(tabs: Vec<(String, String)>) -> (r: PersistedSession)
    ensures
        r.tabs@.len() == tabs@.len(),
        forall|i: int| 0 <= i < tabs@.len() ==> (#[trigger] r.tabs@[i]).left == path_of_text(tabs@[i].0@)
            && r.tabs@[i].right == path_of_text(tabs@[i].1@),
        (r.active_tab is None),
        (r.explorer_roots is None),
{
    let mut out: Vec<PersistedComparePair> = Vec::new();
    let mut i: usize = 0;
    while i < tabs.len()
        invariant
            i <= tabs@.len(),
            out@.len() == i,
            forall|j: int| 0 <= j < i ==> (#[trigger] out@[j]).left == path_of_text(tabs@[j].0@)
                && out@[j].right == path_of_text(tabs@[j].1@),
        decreases tabs@.len() - i,
    {
        let left = tabs[i].0.clone();
        let right = tabs[i].1.clone();
        out.push(PersistedComparePair { left: path_from(left), right: path_from(right) });
        i = i + 1;
    }
    normalize(PersistedSession { tabs: out, active_tab: None, explorer_roots: None })
}

/// The outcome of the decoding step a session envelope was routed to: the
/// legacy tab pairs migrated (a backup of the source still owed), the
/// current payload normalized, or the matching corruption when the
/// decoding failed.
pub open spec fn session_finish_ok(
    step: RouteStep,
    legacy: Option<Vec<(String, String)>>,
    current: Option<PersistedSession>,
    r: PersistenceLoad<PersistedSession>,
) -> bool {
    &&& (step == RouteStep::DecodeLegacy && legacy is None ==> (r == (PersistenceLoad::<PersistedSession>::Corrupt {
                detail: PersistenceError::UnrecognizedLegacyShape })))
    &&& (step == RouteStep::DecodeLegacy && legacy is Some ==> (r matches PersistenceLoad::MigratedLegacy { value, source_backup_required }
                && source_backup_required && value.tabs@.len() == legacy->0@.len()
                && (forall|i: int| 0 <= i < legacy->0@.len() ==> (#[trigger] value.tabs@[i]).left
                    == path_of_text(legacy->0@[i].0@) && value.tabs@[i].right == path_of_text(legacy->0@[i].1@))
                && value.active_tab is None
                && value.explorer_roots is None))
    &&& (step == RouteStep::DecodeCurrent && current is None ==> (r == (PersistenceLoad::<PersistedSession>::Corrupt {
                detail: PersistenceError::MalformedPayload })))
    &&& (step == RouteStep::DecodeCurrent && current is Some ==> (r matches PersistenceLoad::Current { value }
                && value.tabs@ == current->0.tabs@ && value.explorer_roots == current->0.explorer_roots
                && value.active_tab == normalized_active(current->0.active_tab, current->0.tabs@.len())))
}

/// The outcome of the decoding step a session envelope was routed to: the
/// legacy shape decoded (its tab pairs) or not, the current payload decoded
/// or not.
pub fn finish_session_load(step: RouteStep, legacy: Option<Vec<(String, String)>>, current: Option<PersistedSession>) -> (r: PersistenceLoad<PersistedSession>)
    ensures
        session_finish_ok(step, legacy, current, r),
{
    match step {
        RouteStep::DecodeLegacy => match legacy {
            Some(tabs) => PersistenceLoad::MigratedLegacy { value: migrate_from_v0(tabs), source_backup_required: true },
            None => PersistenceLoad::Corrupt { detail: PersistenceError::UnrecognizedLegacyShape },
        },
        RouteStep::DecodeCurrent => match current {
            Some(v2) => PersistenceLoad::Current { value: normalize(v2) },
            None => PersistenceLoad::Corrupt { detail: PersistenceError::MalformedPayload },
        },
    }
}

/// Load a raw session file: probe its envelope, route it, and finish with
/// the decoding the route asks for. `legacy` is the raw text decoded as the
/// legacy tab-pair shape and `current` its `payload` decoded as the current
/// shape, each when that decoding succeeds. No file I/O.
pub fn load_session_from(raw: &str, legacy: Option<Vec<(String, String)>>, current: Option<PersistedSession>) -> (r: PersistenceLoad<PersistedSession>)
    ensures
        route_outcome_ok(route_spec(json_envelope(raw@), "session"@, 2), r),
        route_spec(json_envelope(raw@), "session"@, 2) matches Ok(step) ==> session_finish_ok(step, legacy, current, r),
{
    let probe = probe_envelope(raw);
    proof {
        reveal_strlit("session");
    }
    match route_envelope::<PersistedSession>(&probe, SESSION_SCHEMA_NAME, SESSION_SCHEMA_VERSION_V2) {
        Err(outcome) => outcome,
        Ok(step) => finish_session_load(step, legacy, current),
    }
}

} // verus!
