//! Exact byte-equality checks: sizes first, then the contents compared
//! chunk by chunk, with cancellation as an outcome of its own; and, for
//! directories, the same names at every level. Reading the files and
//! listing the directories is the caller's work; every decision is here.

use vstd::prelude::*;

use crate::diff::script::strings_view;
use crate::text::str_equal;

verus! {

broadcast use {vstd::seq_lib::group_to_multiset_ensures, vstd::multiset::group_multiset_axioms};

/// The outcome of a cancellable file comparison. A comparison interrupted
/// before it read every byte established nothing about equality, so
/// cancellation is an outcome of its own rather than `Different`.
#[derive(Debug, Clone, Copy, PartialEq, Eq, Structural)]
pub enum DigestOutcome {
    Equal,
    Different,
    /// The comparison was cancelled before it could establish either verdict.
    Cancelled,
}

/// The verdict the two sizes alone give: different sizes mean different
/// files; equal sizes decide nothing yet.
pub fn size_verdict(len_a: u64, len_b: u64) -> (r: Option<DigestOutcome>)
    ensures
        r == if len_a != len_b { Some(DigestOutcome::Different) } else { None::<DigestOutcome> },
{
    if len_a != len_b {
        Some(DigestOutcome::Different)
    } else {
        None
    }
}

/// What a streamed comparison does after reading one chunk of each file.
#[derive(Debug, Clone, Copy, PartialEq, Eq, Structural)]
pub enum DigestStep {
    /// The chunks agree; read the next ones.
    Continue,
    /// The comparison is over with this outcome.
    Done(DigestOutcome),
}

/// One step of the streamed comparison: a cancellation (polled before the
/// chunks were read) ends it as `Cancelled`; chunks of different lengths
/// or different bytes end it as `Different`; two empty chunks (both files
/// exhausted together) end it as `Equal`; equal non-empty chunks continue.
pub fn digest_step(cancelled: bool, a: &[u8], b: &[u8]) -> (s: DigestStep)
    ensures
        s == if cancelled {
            DigestStep::Done(DigestOutcome::Cancelled)
        } else if a@.len() != b@.len() {
            DigestStep::Done(DigestOutcome::Different)
        } else if a@.len() == 0 {
            DigestStep::Done(DigestOutcome::Equal)
        } else if a@ == b@ {
            DigestStep::Continue
        } else {
            DigestStep::Done(DigestOutcome::Different)
        },
{
    if cancelled {
        return DigestStep::Done(DigestOutcome::Cancelled);
    }
    if a.len() != b.len() {
        return DigestStep::Done(DigestOutcome::Different);
    }
    if a.len() == 0 {
        return DigestStep::Done(DigestOutcome::Equal);
    }
    let mut i: usize = 0;
    while i < a.len()
        invariant
            !cancelled,
            a@.len() == b@.len(),
            a@.len() > 0,
            i <= a@.len(),
            forall|k: int| 0 <= k < i ==> a@[k] == b@[k],
        decreases a@.len() - i,
    {
        if a[i] != b[i] {
            proof {
                assert(a@[i as int] != b@[i as int]);
                assert(a@ != b@);
                assert(a@.len() > 0);
            }
            return DigestStep::Done(DigestOutcome::Different);
        }
        i = i + 1;
    }
    assert(a@ =~= b@);
    DigestStep::Continue
}

/// The names at the given positions of `vb`, in order.
spec fn picked(rest: Seq<usize>, vb: Seq<Seq<char>>) -> Seq<Seq<char>> {
    rest.map_values(|k: usize| vb[k as int])
}

/// Whether two name lists hold the same names, each as often, in any order.
pub fn names_match(a: &Vec<String>, b: &Vec<String>) -> (r: bool)
    ensures
        r == (strings_view(a@).to_multiset() == strings_view(b@).to_multiset()),
{
    let ghost va = strings_view(a@);
    let ghost vb = strings_view(b@);
    let mut rest: Vec<usize> = Vec::new();
    let mut j: usize = 0;
    while j < b.len()
        invariant
            j <= b@.len(),
            rest@.len() == j,
            forall|k: int| 0 <= k < j ==> rest@[k] == k,
        decreases b@.len() - j,
    {
        rest.push(j);
        j = j + 1;
    }
    assert(picked(rest@, vb) =~= vb);
    let mut i: usize = 0;
    while i < a.len()
        invariant
            va == strings_view(a@),
            vb == strings_view(b@),
            va.len() == a@.len(),
            vb.len() == b@.len(),
            i <= a@.len(),
            forall|k: int| 0 <= k < rest@.len() ==> (#[trigger] rest@[k]) < b@.len(),
            va.take(i as int).to_multiset().add(picked(rest@, vb).to_multiset()) == vb.to_multiset(),
        decreases a@.len() - i,
    {
        let ghost rv = picked(rest@, vb);
        let mut k: usize = 0;
        let mut found = false;
        while k < rest.len() && !found
            invariant
                k <= rest@.len(),
                picked(rest@, vb) == rv,
                forall|k2: int| 0 <= k2 < rest@.len() ==> (#[trigger] rest@[k2]) < b@.len(),
                forall|m: int| 0 <= m < k ==> vb[rest@[m] as int] != va[i as int],
                found ==> k < rest@.len() && vb[rest@[k as int] as int] == va[i as int],
                vb == strings_view(b@),
                va == strings_view(a@),
                i < a@.len(),
            decreases rest@.len() - k + (if found { 0int } else { 1int }),
        {
            if str_equal(b[rest[k]].as_str(), a[i].as_str()) {
                found = true;
            } else {
                k = k + 1;
            }
        }
        if !found {
            proof {
                let x = va[i as int];
                assert(!rv.contains(x)) by {
                    if rv.contains(x) {
                        let m = choose|m: int| 0 <= m < rv.len() && rv[m] == x;
                        assert(m < rest@.len());
                        assert(rv[m] == vb[rest@[m] as int]);
                        assert(vb[rest@[m] as int] != va[i as int]);
                    }
                }
                vstd::seq_lib::to_multiset_contains(rv, x);
                assert(rv.to_multiset().count(x) == 0);
                assert(va =~= va.take(i as int) + va.skip(i as int));
                assert(va.skip(i as int)[0] == x);
                assert(va.skip(i as int).contains(x));
                vstd::seq_lib::to_multiset_contains(va.skip(i as int), x);
                assert(va.skip(i as int).to_multiset().count(x) > 0);
                vstd::seq_lib::lemma_multiset_commutative(va.take(i as int), va.skip(i as int));
                assert(va.to_multiset().count(x) == va.take(i as int).to_multiset().count(x)
                    + va.skip(i as int).to_multiset().count(x));
                assert(vb.to_multiset().count(x) == va.take(i as int).to_multiset().count(x));
            }
            return false;
        }
        proof {
            let x = va[i as int];
            assert(vb[rest@[k as int] as int] == x);
            assert(rv.remove(k as int) =~= picked(rest@.remove(k as int), vb));
            assert(va.take(i as int + 1) =~= va.take(i as int).push(x));
            assert(rv[k as int] == x);
        }
        rest.remove(k);
        proof {
            let x = va[i as int];
            let rv2 = picked(rest@, vb);
            assert(rv2.to_multiset() == rv.to_multiset().remove(x));
            assert(va.take(i as int + 1).to_multiset() == va.take(i as int).to_multiset().insert(x));
            assert(rv.to_multiset().count(x) > 0);
            assert(va.take(i as int + 1).to_multiset().add(rv2.to_multiset()) =~= vb.to_multiset());
        }
        i = i + 1;
    }
    proof {
        assert(va.take(a@.len() as int) =~= va);
        let rv = picked(rest@, vb);
        assert(rv.len() == rest@.len());
        if rest@.len() > 0 {
            assert(vb.to_multiset().len() == va.to_multiset().len() + rv.to_multiset().len());
            assert(va.to_multiset().len() == a@.len());
            assert(vb.to_multiset().len() == b@.len());
        } else {
            assert(rv =~= Seq::<Seq<char>>::empty());
            assert(rv.to_multiset() =~= vstd::multiset::Multiset::empty());
            assert(va.to_multiset().add(rv.to_multiset()) =~= va.to_multiset());
        }
    }
    rest.len() == 0
}

/// Whether two directory listings hold the same subdirectory names and the
/// same file names, in any order: the names part of recursive byte
/// equality of two directories.
pub fn listings_match(dirs_a: &Vec<String>, files_a: &Vec<String>, dirs_b: &Vec<String>, files_b: &Vec<String>) -> (b: bool)
    ensures
        b == (strings_view(dirs_a@).to_multiset() == strings_view(dirs_b@).to_multiset()
            && strings_view(files_a@).to_multiset() == strings_view(files_b@).to_multiset()),
{
    names_match(dirs_a, dirs_b) && names_match(files_a, files_b)
}

} // verus!
