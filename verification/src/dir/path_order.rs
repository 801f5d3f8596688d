//! The order of relative paths and sorted, duplicate-free path keys.
//!
//! Relative paths are held as strings with `/` between components. Two
//! such paths are ordered component by component, so a separator sorts
//! before every other character: `a/b` comes before `a-b`, as it does when
//! `Path` values are compared.

use vstd::prelude::*;

use crate::text::{chars_of, str_equal};

verus! {

/// The weight of a character when two paths are compared: the separator
/// is lighter than every other character.
pub open spec fn component_rank(c: char) -> int {
    if c == '/' {
        -1
    } else {
        (c as u32) as int
    }
}

/// `a` sorts strictly before `b` in component order.
pub open spec fn path_precedes(a: Seq<char>, b: Seq<char>) -> bool
    decreases a.len(),
{
    if a.len() == 0 {
        b.len() > 0
    } else if b.len() == 0 {
        false
    } else if a[0] == b[0] {
        path_precedes(a.drop_first(), b.drop_first())
    } else {
        component_rank(a[0]) < component_rank(b[0])
    }
}

/// No path sorts before itself.
pub proof fn lemma_path_precedes_irreflexive(a: Seq<char>)
    ensures
        !path_precedes(a, a),
    decreases a.len(),
{
    if a.len() > 0 {
        lemma_path_precedes_irreflexive(a.drop_first());
    }
}

/// Component order is transitive.
pub proof fn lemma_path_precedes_transitive(a: Seq<char>, b: Seq<char>, c: Seq<char>)
    requires
        path_precedes(a, b),
        path_precedes(b, c),
    ensures
        path_precedes(a, c),
    decreases a.len(),
{
    if a.len() > 0 && b.len() > 0 && c.len() > 0 && a[0] == b[0] && b[0] == c[0] {
        lemma_path_precedes_transitive(a.drop_first(), b.drop_first(), c.drop_first());
    }
}

/// Two different paths are always ordered one way or the other.
pub proof fn lemma_path_precedes_total(a: Seq<char>, b: Seq<char>)
    requires
        a != b,
    ensures
        path_precedes(a, b) || path_precedes(b, a),
    decreases a.len(),
{
    if a.len() == 0 && b.len() == 0 {
        assert(a =~= b);
    } else if a.len() > 0 && b.len() > 0 && a[0] == b[0] {
        if a.drop_first() == b.drop_first() {
            assert(a =~= seq![a[0]] + a.drop_first());
            assert(b =~= seq![b[0]] + b.drop_first());
        }
        lemma_path_precedes_total(a.drop_first(), b.drop_first());
    } else if a.len() > 0 && b.len() > 0 {
        let (x, y) = (a[0], b[0]);
        vstd::utf8::char_u32_cast(x, x as u32);
        vstd::utf8::char_u32_cast(y, y as u32);
        assert(x as u32 != y as u32);
        assert(component_rank(x) != component_rank(y));
        assert(path_precedes(a, b) == (component_rank(x) < component_rank(y)));
        assert(path_precedes(b, a) == (component_rank(y) < component_rank(x)));
    } else if a.len() == 0 {
        assert(path_precedes(a, b));
    } else {
        assert(path_precedes(b, a));
    }
}

/// One path never sorts both before and after another.
pub proof fn lemma_path_precedes_asymmetric(a: Seq<char>, b: Seq<char>)
    requires
        path_precedes(a, b),
    ensures
        !path_precedes(b, a),
{
    if path_precedes(b, a) {
        lemma_path_precedes_transitive(a, b, a);
        lemma_path_precedes_irreflexive(a);
    }
}

fn rank_below(x: char, y: char) -> (r: bool)
    requires
        x != y,
    ensures
        r == (component_rank(x) < component_rank(y)),
{
    if x == '/' {
        true
    } else if y == '/' {
        false
    } else {
        (x as u32) < (y as u32)
    }
}

/// Whether `a` sorts strictly before `b` in component order.
pub fn path_precedes_str(a: &str, b: &str) -> (r: bool)
    ensures
        r == path_precedes(a@, b@),
{
    let ca = chars_of(a);
    let cb = chars_of(b);
    let mut i: usize = 0;
    assert(a@.skip(0) =~= a@);
    assert(b@.skip(0) =~= b@);
    while i < ca.len() && i < cb.len()
        invariant
            ca@ == a@,
            cb@ == b@,
            i <= ca@.len(),
            i <= cb@.len(),
            path_precedes(a@, b@) == path_precedes(a@.skip(i as int), b@.skip(i as int)),
        decreases ca@.len() - i,
    {
        let x = ca[i];
        let y = cb[i];
        assert(a@.skip(i as int)[0] == x);
        assert(b@.skip(i as int)[0] == y);
        if x != y {
            return rank_below(x, y);
        }
        assert(a@.skip(i as int).drop_first() =~= a@.skip(i as int + 1));
        assert(b@.skip(i as int).drop_first() =~= b@.skip(i as int + 1));
        i = i + 1;
    }
    i == ca.len() && i < cb.len()
}

/// The character sequences of a list of strings.
pub open spec fn key_seq(keys: Seq<String>) -> Seq<Seq<char>> {
    keys.map_values(|s: String| s@)
}

/// Every key sorts strictly before every later key: the keys are sorted
/// and none occurs twice.
pub open spec fn strictly_sorted(keys: Seq<Seq<char>>) -> bool {
    forall|i: int, j: int|
        0 <= i < j < keys.len() ==> path_precedes(#[trigger] keys[i], #[trigger] keys[j])
}

/// In a strictly sorted list a key occurs at one position only.
pub proof fn lemma_sorted_unique(keys: Seq<Seq<char>>, i: int, j: int)
    requires
        strictly_sorted(keys),
        0 <= i < keys.len(),
        0 <= j < keys.len(),
        keys[i] == keys[j],
    ensures
        i == j,
{
    if i < j {
        assert(path_precedes(keys[i], keys[j]));
        lemma_path_precedes_irreflexive(keys[i]);
    } else if j < i {
        assert(path_precedes(keys[j], keys[i]));
        lemma_path_precedes_irreflexive(keys[i]);
    }
}

/// Putting a key at a position between the keys before it and the keys
/// after it keeps the list strictly sorted.
pub proof fn lemma_insert_keeps_sorted(keys: Seq<Seq<char>>, at: int, k: Seq<char>)
    requires
        strictly_sorted(keys),
        0 <= at <= keys.len(),
        forall|j: int| 0 <= j < at ==> path_precedes(#[trigger] keys[j], k),
        forall|j: int| at <= j < keys.len() ==> path_precedes(k, #[trigger] keys[j]),
    ensures
        strictly_sorted(keys.insert(at, k)),
{
    let n = keys.insert(at, k);
    assert forall|i: int, j: int| 0 <= i < j < n.len() implies path_precedes(
        #[trigger] n[i],
        #[trigger] n[j],
    ) by {
        if j < at {
            assert(n[i] == keys[i] && n[j] == keys[j]);
        } else if j == at {
            assert(n[i] == keys[i]);
        } else if i == at {
            assert(n[j] == keys[j - 1]);
        } else if i < at {
            assert(n[i] == keys[i] && n[j] == keys[j - 1]);
            lemma_path_precedes_transitive(keys[i], k, keys[j - 1]);
        } else {
            assert(n[i] == keys[i - 1] && n[j] == keys[j - 1]);
        }
    }
}

/// Where `k` belongs in a strictly sorted list of keys: the position of the
/// first key that does not sort before it, and whether that key is `k`.
pub fn find_slot(keys: &Vec<String>, k: &str) -> (r: (usize, bool))
    requires
        strictly_sorted(key_seq(keys@)),
    ensures
        r.0 <= keys@.len(),
        forall|j: int| 0 <= j < r.0 ==> path_precedes(#[trigger] keys@[j]@, k@),
        r.1 == (r.0 < keys@.len() && keys@[r.0 as int]@ == k@),
        r.1 ==> forall|j: int| r.0 < j < keys@.len() ==> path_precedes(k@, #[trigger] keys@[j]@),
        !r.1 ==> forall|j: int| r.0 <= j < keys@.len() ==> path_precedes(k@, #[trigger] keys@[j]@),
{
    let mut i: usize = 0;
    while i < keys.len()
        invariant
            strictly_sorted(key_seq(keys@)),
            i <= keys@.len(),
            forall|j: int| 0 <= j < i ==> path_precedes(#[trigger] keys@[j]@, k@),
        decreases keys@.len() - i,
    {
        if !path_precedes_str(keys[i].as_str(), k) {
            let found = str_equal(keys[i].as_str(), k);
            proof {
                let ks = key_seq(keys@);
                assert(ks[i as int] == keys@[i as int]@);
                assert forall|j: int| i < j < keys@.len() implies path_precedes(
                    k@,
                    #[trigger] keys@[j]@,
                ) by {
                    assert(ks[j] == keys@[j]@);
                    assert(path_precedes(ks[i as int], ks[j]));
                    if !found {
                        lemma_path_precedes_total(keys@[i as int]@, k@);
                        lemma_path_precedes_transitive(k@, keys@[i as int]@, keys@[j]@);
                    }
                }
                if !found {
                    lemma_path_precedes_total(keys@[i as int]@, k@);
                }
            }
            return (i, found);
        }
        i = i + 1;
    }
    (i, false)
}

/// Whether a strictly sorted list holds `k`, read off the answer of
/// [`find_slot`].
pub proof fn lemma_slot_decides_membership(keys: Seq<Seq<char>>, at: int, found: bool, k: Seq<char>)
    requires
        0 <= at <= keys.len(),
        forall|j: int| 0 <= j < at ==> path_precedes(#[trigger] keys[j], k),
        found == (at < keys.len() && keys[at] == k),
        !found ==> forall|j: int| at <= j < keys.len() ==> path_precedes(k, #[trigger] keys[j]),
    ensures
        found <==> keys.contains(k),
{
    if !found && keys.contains(k) {
        let j = choose|j: int| 0 <= j < keys.len() && keys[j] == k;
        lemma_path_precedes_irreflexive(k);
        if j < at {
            assert(path_precedes(keys[j], k));
        } else {
            assert(path_precedes(k, keys[j]));
        }
    }
}

} // verus!
