//! The line-diff edit script produced by the `similar` engine, with the
//! validity facts every algorithm's output satisfies.

use vstd::prelude::*;

use similar::{Algorithm, DiffOp, TextDiffConfig};
use std::time::{Duration, Instant};

use super::options::DiffAlgorithm;

verus! {

#[verifier::external_type_specification]
#[verifier::external_body]
pub struct ExInstant(std::time::Instant);

/// One edit-script operation: tag code (`0` equal, `1` delete, `2` insert,
/// `3` replace), old range start and end, new range start and end.
pub type EditOp = (u8, usize, usize, usize, usize);

/// The views of a list of strings.
pub open spec fn strings_view(v: Seq<String>) -> Seq<Seq<char>> {
    v.map_values(|s: String| s@)
}

/// An edit script from `old` to `new`: the operations' ranges tile both
/// sequences in order from the start to the end, equal operations cover
/// equal elements, deletions insert nothing and insertions delete nothing.
pub open spec fn valid_edit_script(ops: Seq<EditOp>, old: Seq<Seq<char>>, new: Seq<Seq<char>>) -> bool {
    &&& forall|k: int| 0 <= k < ops.len() ==> {
        &&& (#[trigger] ops[k]).0 < 4
        &&& ops[k].1 <= ops[k].2 <= old.len()
        &&& ops[k].3 <= ops[k].4 <= new.len()
        &&& ops[k].0 == 0 ==> old.subrange(ops[k].1 as int, ops[k].2 as int)
            == new.subrange(ops[k].3 as int, ops[k].4 as int)
        &&& ops[k].0 == 1 ==> ops[k].3 == ops[k].4
        &&& ops[k].0 == 2 ==> ops[k].1 == ops[k].2
    }
    &&& forall|k: int, j: int| #![trigger ops[k], ops[j]] 0 <= k && j == k + 1 && j < ops.len()
        ==> ops[j].1 == ops[k].2 && ops[j].3 == ops[k].4
    &&& ops.len() == 0 ==> old.len() == 0 && new.len() == 0
    &&& ops.len() > 0 ==> ops[0].1 == 0 && ops[0].3 == 0 && ops.last().2 == old.len()
        && ops.last().4 == new.len()
}

/// The current instant.
///
/// Trusted: wraps `std::time::Instant::now`; nothing is claimed.
#[verifier::external_body]
pub(crate) fn now() -> std::time::Instant {
    std::time::Instant::now()
}

/// Whether more than `ms` milliseconds have passed since `start`.
///
/// Trusted: wraps `Instant::elapsed`; the answer depends on the clock and
/// nothing is claimed of it.
#[verifier::external_body]
pub(crate) fn elapsed_exceeds(start: &std::time::Instant, ms: u64) -> bool {
    start.elapsed() > std::time::Duration::from_millis(ms)
}

/// The instant `ms` milliseconds after `start`, when the clock can
/// represent it.
///
/// Trusted: wraps `Instant::checked_add` with `Duration::from_millis`;
/// the answer depends on the clock and nothing is claimed of it.
#[verifier::external_body]
pub(crate) fn deadline_after(start: &Instant, ms: u64) -> Option<Instant> {
    start.checked_add(Duration::from_millis(ms))
}

/// The edit script `similar` computes between two key sequences with an
/// algorithm and no deadline.
pub uninterp spec fn similar_line_ops(old: Seq<Seq<char>>, new: Seq<Seq<char>>, algorithm: DiffAlgorithm) -> Seq<EditOp>;

/// The edit script between two key sequences.
///
/// Trusted: wraps `similar::TextDiffConfig::diff_slices` (with the
/// algorithm converted one for one to `similar::Algorithm` and, when
/// `deadline` is set, that deadline)
/// and `TextDiff::ops`, each op converted by `DiffOp::as_tag_tuple` with the
/// tag as its declaration index. The contract claims:
/// - the ops form an edit script from `old` to `new`, for every algorithm
///   and whether or not the deadline cut the search short;
/// - with no deadline the ops are a function of the keys and the algorithm
///   alone, named `similar_line_ops`;
/// - with Myers, equal inputs give equal ops only: the common prefix is
///   matched before any search, whether or not a deadline is set.
/// Which script a search chooses is not stated.
#[verifier::external_body]
pub(crate) fn diff_keys(
    old: &Vec<String>,
    new: &Vec<String>,
    algorithm: DiffAlgorithm,
    deadline: Option<Instant>,
) -> (ops: Vec<EditOp>)
    ensures
        valid_edit_script(ops@, strings_view(old@), strings_view(new@)),
        deadline is None ==> ops@ == similar_line_ops(strings_view(old@), strings_view(new@), algorithm),
        (algorithm == DiffAlgorithm::Myers && strings_view(old@) == strings_view(new@)) ==> forall|k: int|
            0 <= k < ops@.len() ==> (#[trigger] ops@[k]).0 == 0,
{
    let o: Vec<&str> = old.iter().map(String::as_str).collect();
    let n: Vec<&str> = new.iter().map(String::as_str).collect();
    let mut config = TextDiffConfig::default();
    config.algorithm(match algorithm {
        DiffAlgorithm::Myers => Algorithm::Myers,
        DiffAlgorithm::Patience => Algorithm::Patience,
        DiffAlgorithm::Lcs => Algorithm::Lcs,
        DiffAlgorithm::Histogram => Algorithm::Histogram,
    });
    if let Some(d) = deadline {
        config.deadline(d);
    }
    let diff = config.diff_slices(&o, &n);
    diff.ops().iter().map(DiffOp::as_tag_tuple).map(|(t, a, b)| (t as u8, a.start, a.end, b.start, b.end)).collect()
}

} // verus!
