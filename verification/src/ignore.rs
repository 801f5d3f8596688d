//! User-defined ignore rules for directory listing and comparison.
//!
//! File extension rules are case-insensitive and stored without a leading
//! dot (`"o"` and `".O"` both match `file.o`). Directory-name patterns may
//! hold `*` wildcards (`"target"`, `"*.cache"`, `"tmp*"`, `"*backup*"`).
//! The rules filter discovery only; an explicit open always proceeds.

use vstd::prelude::*;

use crate::text::{
    chars_of, contains_seq, is_whitespace, occurs_at, str_contains, string_from_chars, to_lowercase, unicode_lowercase,
    unicode_white_space,
};

verus! {

/// The pieces of `s` between commas, in order (`"a,,b"` has three).
pub open spec fn split_commas(s: Seq<char>) -> Seq<Seq<char>>
    decreases s.len(),
{
    if s.len() == 0 {
        seq![Seq::empty()]
    } else {
        let prev = split_commas(s.drop_last());
        if s.last() == ',' {
            prev.push(Seq::empty())
        } else {
            prev.update(prev.len() - 1, prev.last().push(s.last()))
        }
    }
}

/// `s` without leading characters satisfying `p`.
pub open spec fn trim_start_by(s: Seq<char>, p: spec_fn(char) -> bool) -> Seq<char>
    decreases s.len(),
{
    if s.len() > 0 && p(s[0]) {
        trim_start_by(s.subrange(1, s.len() as int), p)
    } else {
        s
    }
}

/// `s` without trailing whitespace.
pub open spec fn trim_end_ws(s: Seq<char>) -> Seq<char>
    decreases s.len(),
{
    if s.len() > 0 && unicode_white_space(s.last()) {
        trim_end_ws(s.drop_last())
    } else {
        s
    }
}

/// `s` without leading and trailing whitespace (as `str::trim`).
pub open spec fn trim_ws(s: Seq<char>) -> Seq<char> {
    trim_end_ws(trim_start_by(s, |c: char| unicode_white_space(c)))
}

/// An extension rule read from one comma-separated piece: trimmed, leading
/// dots removed, lowercased.
pub open spec fn extension_rule(piece: Seq<char>) -> Seq<char> {
    unicode_lowercase(trim_start_by(trim_ws(piece), |c: char| c == '.'))
}

/// The non-empty extension rules of a settings string.
pub open spec fn extension_rules(csv: Seq<char>) -> Seq<Seq<char>> {
    split_commas(csv).map_values(|p: Seq<char>| extension_rule(p)).filter(|e: Seq<char>| e.len() > 0)
}

/// The non-empty directory patterns of a settings string (trimmed).
pub open spec fn dir_rules(csv: Seq<char>) -> Seq<Seq<char>> {
    split_commas(csv).map_values(|p: Seq<char>| trim_ws(p)).filter(|e: Seq<char>| e.len() > 0)
}

/// Whether `p` is a prefix of `s`.
pub open spec fn starts_with(s: Seq<char>, p: Seq<char>) -> bool {
    p.len() <= s.len() && s.subrange(0, p.len() as int) == p
}

/// Whether `x` is a suffix of `s`.
pub open spec fn ends_with(s: Seq<char>, x: Seq<char>) -> bool {
    x.len() <= s.len() && s.subrange(s.len() - x.len(), s.len() as int) == x
}

/// The positions of `*` in a pattern, in order.
pub open spec fn star_positions(p: Seq<char>) -> Seq<int>
    decreases p.len(),
{
    if p.len() == 0 {
        Seq::empty()
    } else if p.last() == '*' {
        star_positions(p.drop_last()).push(p.len() - 1)
    } else {
        star_positions(p.drop_last())
    }
}

/// Prefix-and-suffix matching around the stars at `a` and `b`: the name
/// is long enough for both, starts with the text before `a` and ends with
/// the text after `b`.
pub open spec fn outer_match(pattern: Seq<char>, name: Seq<char>, a: int, b: int) -> bool {
    let prefix = pattern.subrange(0, a);
    let suffix = pattern.subrange(b + 1, pattern.len() as int);
    name.len() >= prefix.len() + suffix.len() && starts_with(name, prefix) && ends_with(name, suffix)
}

/// Wildcard matching with `*`: without a star, equality; with one,
/// prefix and suffix; with two, prefix and suffix and the text between the
/// stars somewhere in what remains; with more, the first and last stars
/// only.
pub open spec fn glob_spec(pattern: Seq<char>, name: Seq<char>) -> bool {
    let st = star_positions(pattern);
    if st.len() == 0 {
        pattern == name
    } else if st.len() == 1 {
        outer_match(pattern, name, st[0], st[0])
    } else if st.len() == 2 {
        let prefix = pattern.subrange(0, st[0]);
        let middle = pattern.subrange(st[0] + 1, st[1]);
        let suffix = pattern.subrange(st[1] + 1, pattern.len() as int);
        &&& name.len() >= prefix.len() + middle.len() + suffix.len()
        &&& starts_with(name, prefix)
        &&& ends_with(name, suffix)
        &&& (middle.len() == 0 || contains_seq(name.subrange(prefix.len() as int, name.len() - suffix.len()), middle))
    } else {
        outer_match(pattern, name, st[0], st.last())
    }
}

/// A pattern piece without a `*`.
pub open spec fn star_free(s: Seq<char>) -> bool {
    !s.contains('*')
}

proof fn lemma_star_positions_free_tail(p: Seq<char>, q: Seq<char>)
    requires
        star_free(q),
    ensures
        star_positions(p + q) == star_positions(p),
    decreases q.len(),
{
    if q.len() == 0 {
        assert(p + q =~= p);
    } else {
        lemma_star_positions_free_tail(p, q.drop_last());
        assert((p + q).drop_last() =~= p + q.drop_last());
        assert((p + q).last() == q[q.len() - 1]);
        assert(star_free(q.drop_last())) by {
            if q.drop_last().contains('*') {
                let i = choose|i: int| 0 <= i < q.drop_last().len() && q.drop_last()[i] == '*';
                assert(q[i] == '*');
            }
        }
    }
}

proof fn lemma_star_positions_star(p: Seq<char>)
    ensures
        star_positions(p.push('*')) == star_positions(p).push(p.len() as int),
{
    assert(p.push('*').drop_last() =~= p);
}

/// A pattern without a `*` matches exactly the name equal to it.
pub proof fn law_glob_without_star(p: Seq<char>, name: Seq<char>)
    requires
        star_free(p),
    ensures
        glob_spec(p, name) <==> p == name,
{
    lemma_star_positions_free_tail(Seq::empty(), p);
    assert(Seq::<char>::empty() + p =~= p);
}

/// A pattern `a*b` (`a` and `b` without stars) matches exactly the names
/// that are `a`, then anything, then `b`.
pub proof fn law_glob_one_star(a: Seq<char>, b: Seq<char>, name: Seq<char>)
    requires
        star_free(a),
        star_free(b),
    ensures
        glob_spec(a + seq!['*'] + b, name) <==> exists|x: Seq<char>| name == #[trigger] (a + x + b),
{
    let pat = a + seq!['*'] + b;
    lemma_star_positions_free_tail(Seq::empty(), a);
    assert(Seq::<char>::empty() + a =~= a);
    lemma_star_positions_star(a);
    lemma_star_positions_free_tail(a.push('*'), b);
    assert(a.push('*') + b =~= pat);
    let st = star_positions(pat);
    assert(st =~= seq![a.len() as int]);
    assert(pat.subrange(0, a.len() as int) =~= a);
    assert(pat.subrange(a.len() + 1int, pat.len() as int) =~= b);
    if glob_spec(pat, name) {
        let x = name.subrange(a.len() as int, name.len() - b.len());
        assert(name =~= a + x + b) by {
            assert(name.subrange(0, a.len() as int) == a);
            assert(name.subrange(name.len() - b.len(), name.len() as int) == b);
            assert forall|i: int| 0 <= i < name.len() implies name[i] == (a + x + b)[i] by {
                if i < a.len() {
                    assert(name[i] == name.subrange(0, a.len() as int)[i]);
                } else if i >= name.len() - b.len() {
                    assert(name[i] == name.subrange(name.len() - b.len(), name.len() as int)[i - (name.len() - b.len())]);
                }
            }
        }
    }
    if exists|x: Seq<char>| name == #[trigger] (a + x + b) {
        let x = choose|x: Seq<char>| name == #[trigger] (a + x + b);
        assert(name.subrange(0, a.len() as int) =~= a);
        assert(name.subrange(name.len() - b.len(), name.len() as int) =~= b);
    }
}

/// A pattern `a*m*b` (`a`, `m` and `b` without stars) matches exactly the
/// names that are `a`, then anything, then `m`, then anything, then `b`:
/// every literal piece occurs, in order.
pub proof fn law_glob_two_stars(a: Seq<char>, m: Seq<char>, b: Seq<char>, name: Seq<char>)
    requires
        star_free(a),
        star_free(m),
        star_free(b),
    ensures
        glob_spec(a + seq!['*'] + m + seq!['*'] + b, name)
            <==> exists|x: Seq<char>, y: Seq<char>| name == #[trigger] (a + x + m + y + b),
{
    let pat = a + seq!['*'] + m + seq!['*'] + b;
    lemma_star_positions_free_tail(Seq::empty(), a);
    assert(Seq::<char>::empty() + a =~= a);
    lemma_star_positions_star(a);
    lemma_star_positions_free_tail(a.push('*'), m);
    lemma_star_positions_star(a.push('*') + m);
    lemma_star_positions_free_tail((a.push('*') + m).push('*'), b);
    assert((a.push('*') + m).push('*') + b =~= pat);
    let st = star_positions(pat);
    assert(st =~= seq![a.len() as int, a.len() + 1int + m.len()]);
    assert(pat.subrange(0, a.len() as int) =~= a);
    assert(pat.subrange(a.len() + 1int, a.len() + 1int + m.len()) =~= m);
    assert(pat.subrange(a.len() + 2int + m.len(), pat.len() as int) =~= b);
    if glob_spec(pat, name) {
        let inner = name.subrange(a.len() as int, name.len() - b.len());
        let i: int = if m.len() == 0 { 0 } else { choose|i: int| #[trigger] occurs_at(inner, m, i) };
        assert(occurs_at(inner, m, i)) by {
            if m.len() == 0 {
                assert(inner.subrange(0, 0) =~= m);
            }
        }
        let x = inner.subrange(0, i);
        let y = inner.subrange(i + m.len(), inner.len() as int);
        assert(inner =~= x + m + y) by {
            assert(inner.subrange(i, i + m.len()) == m);
            assert forall|j: int| 0 <= j < inner.len() implies inner[j] == (x + m + y)[j] by {
                if i <= j < i + m.len() {
                    assert(inner[j] == inner.subrange(i, i + m.len())[j - i]);
                }
            }
        }
        assert(name =~= a + x + m + y + b) by {
            assert(name.subrange(0, a.len() as int) == a);
            assert(name.subrange(name.len() - b.len(), name.len() as int) == b);
            assert forall|j: int| 0 <= j < name.len() implies name[j] == (a + inner + b)[j] by {
                if j < a.len() {
                    assert(name[j] == name.subrange(0, a.len() as int)[j]);
                } else if j >= name.len() - b.len() {
                    assert(name[j] == name.subrange(name.len() - b.len(), name.len() as int)[j - (name.len() - b.len())]);
                } else {
                    assert(name[j] == inner[j - a.len()]);
                }
            }
            assert(a + inner + b =~= a + x + m + y + b);
        }
    }
    if exists|x: Seq<char>, y: Seq<char>| name == #[trigger] (a + x + m + y + b) {
        let (x, y) = choose|x: Seq<char>, y: Seq<char>| name == #[trigger] (a + x + m + y + b);
        assert(name.subrange(0, a.len() as int) =~= a);
        assert(name.subrange(name.len() - b.len(), name.len() as int) =~= b);
        let inner = name.subrange(a.len() as int, name.len() - b.len());
        assert(inner =~= x + m + y);
        assert(inner.subrange(x.len() as int, x.len() + m.len() as int) =~= m);
        assert(occurs_at(inner, m, x.len() as int));
    }
}

proof fn lemma_star_positions_concat(p: Seq<char>, q: Seq<char>)
    ensures
        star_positions(p + q) == star_positions(p) + star_positions(q).map_values(|x: int| x + p.len()),
    decreases q.len(),
{
    if q.len() == 0 {
        assert(p + q =~= p);
        assert(star_positions(q).map_values(|x: int| x + p.len()) =~= Seq::<int>::empty());
        assert(star_positions(p) + Seq::<int>::empty() =~= star_positions(p));
    } else {
        lemma_star_positions_concat(p, q.drop_last());
        assert((p + q).drop_last() =~= p + q.drop_last());
        assert((p + q).last() == q.last());
        let f = |x: int| x + p.len();
        if q.last() == '*' {
            assert(star_positions(q).map_values(f) =~= star_positions(q.drop_last()).map_values(f).push(q.len() - 1 + p.len()));
        }
    }
}

/// A name that a pattern with a star matches starts with the text before
/// the pattern's first star.
pub proof fn law_glob_keeps_leading_text(a: Seq<char>, rest: Seq<char>, name: Seq<char>)
    requires
        star_free(a),
        glob_spec(a + seq!['*'] + rest, name),
    ensures
        starts_with(name, a),
{
    let pat = a + seq!['*'] + rest;
    lemma_star_positions_free_tail(Seq::empty(), a);
    assert(Seq::<char>::empty() + a =~= a);
    lemma_star_positions_star(a);
    lemma_star_positions_concat(a.push('*'), rest);
    assert(a.push('*') + rest =~= pat);
    let st = star_positions(pat);
    assert(st[0] == a.len());
    assert(pat.subrange(0, a.len() as int) =~= a);
}

/// A name that a pattern with a star matches ends with the text after the
/// pattern's last star.
pub proof fn law_glob_keeps_trailing_text(rest: Seq<char>, b: Seq<char>, name: Seq<char>)
    requires
        star_free(b),
        glob_spec(rest + seq!['*'] + b, name),
    ensures
        ends_with(name, b),
{
    let pat = rest + seq!['*'] + b;
    lemma_star_positions_star(rest);
    lemma_star_positions_free_tail(rest.push('*'), b);
    assert(rest.push('*') + b =~= pat);
    let st = star_positions(pat);
    assert(st.last() == rest.len());
    assert(st.len() == 1 ==> st[0] == st.last());
    assert(st.len() == 2 ==> st[1] == st.last());
    assert(pat.subrange(rest.len() + 1int, pat.len() as int) =~= b);
}

/// The text after the last `.` of a name, when it has one.
pub open spec fn last_extension(name: Seq<char>) -> Option<Seq<char>>
    decreases name.len(),
{
    if name.len() == 0 {
        None
    } else if name.last() == '.' {
        Some(Seq::empty())
    } else {
        match last_extension(name.drop_last()) {
            Some(e) => Some(e.push(name.last())),
            None => None,
        }
    }
}

/// Compiled ignore rules from user settings.
#[derive(Debug, Clone, Default, PartialEq)]
pub struct IgnoreRules {
    /// Lowercased extension tokens, no leading dot.
    pub file_extensions: Vec<String>,
    /// Directory-name patterns.
    pub dir_patterns: Vec<String>,
}

/// The views of a list of strings.
pub open spec fn views(v: Seq<String>) -> Seq<Seq<char>> {
    v.map_values(|s: String| s@)
}

fn split_commas_exec(chars: &Vec<char>) -> (pieces: Vec<Vec<char>>)
    ensures
        pieces@.map_values(|p: Vec<char>| p@) == split_commas(chars@),
{
    let mut pieces: Vec<Vec<char>> = Vec::new();
    pieces.push(Vec::new());
    let mut i: usize = 0;
    proof {
        assert(chars@.subrange(0, 0) =~= Seq::<char>::empty());
        assert(pieces@.map_values(|p: Vec<char>| p@) =~= split_commas(Seq::<char>::empty()));
    }
    while i < chars.len()
        invariant
            i <= chars@.len(),
            pieces@.len() > 0,
            pieces@.map_values(|p: Vec<char>| p@) == split_commas(chars@.subrange(0, i as int)),
        decreases chars@.len() - i,
    {
        let c = chars[i];
        proof {
            assert(chars@.subrange(0, i as int + 1).drop_last() =~= chars@.subrange(0, i as int));
        }
        let ghost before = pieces@.map_values(|p: Vec<char>| p@);
        if c == ',' {
            pieces.push(Vec::new());
            assert(pieces@.map_values(|p: Vec<char>| p@) =~= before.push(Seq::empty()));
        } else {
            let n = pieces.len();
            let mut last: Vec<char> = Vec::new();
            pieces.set_and_swap(n - 1, &mut last);
            last.push(c);
            pieces.set(n - 1, last);
            assert(pieces@.map_values(|p: Vec<char>| p@) =~= before.update(before.len() - 1, before.last().push(c)));
        }
        i = i + 1;
    }
    assert(chars@.subrange(0, chars@.len() as int) =~= chars@);
    pieces
}

fn trim_chars(s: &Vec<char>) -> (r: Vec<char>)
    ensures
        r@ == trim_ws(s@),
{
    let mut start: usize = 0;
    assert(s@.subrange(0, s@.len() as int) =~= s@);
    while start < s.len() && is_whitespace(s[start])
        invariant
            start <= s@.len(),
            trim_start_by(s@, |c: char| unicode_white_space(c)) == trim_start_by(s@.subrange(start as int, s@.len() as int), |c: char| unicode_white_space(c)),
        decreases s@.len() - start,
    {
        assert(s@.subrange(start as int, s@.len() as int).subrange(1, s@.len() - start) =~= s@.subrange(start + 1, s@.len() as int));
        start = start + 1;
    }
    let mut end: usize = s.len();
    let ghost mid = s@.subrange(start as int, s@.len() as int);
    assert(trim_start_by(mid, |c: char| unicode_white_space(c)) == mid) by {
        if mid.len() > 0 {
            assert(mid[0] == s@[start as int]);
        }
    }
    while end > start && is_whitespace(s[end - 1])
        invariant
            start <= end <= s@.len(),
            mid == s@.subrange(start as int, s@.len() as int),
            trim_end_ws(mid) == trim_end_ws(s@.subrange(start as int, end as int)),
        decreases end,
    {
        assert(s@.subrange(start as int, end as int).drop_last() =~= s@.subrange(start as int, end - 1));
        end = end - 1;
    }
    let mut r: Vec<char> = Vec::new();
    let mut k = start;
    while k < end
        invariant
            start <= k <= end <= s@.len(),
            r@ == s@.subrange(start as int, k as int),
        decreases end - k,
    {
        r.push(s[k]);
        assert(r@ =~= s@.subrange(start as int, k as int + 1));
        k = k + 1;
    }
    assert(trim_end_ws(s@.subrange(start as int, end as int)) == s@.subrange(start as int, end as int)) by {
        if end > start {
            assert(s@.subrange(start as int, end as int).last() == s@[end - 1]);
        }
    }
    r
}

fn trim_dots(s: &Vec<char>) -> (r: Vec<char>)
    ensures
        r@ == trim_start_by(s@, |c: char| c == '.'),
{
    let mut start: usize = 0;
    assert(s@.subrange(0, s@.len() as int) =~= s@);
    while start < s.len() && s[start] == '.'
        invariant
            start <= s@.len(),
            trim_start_by(s@, |c: char| c == '.') == trim_start_by(s@.subrange(start as int, s@.len() as int), |c: char| c == '.'),
        decreases s@.len() - start,
    {
        assert(s@.subrange(start as int, s@.len() as int).subrange(1, s@.len() - start) =~= s@.subrange(start + 1, s@.len() as int));
        start = start + 1;
    }
    let ghost rest = s@.subrange(start as int, s@.len() as int);
    assert(trim_start_by(rest, |c: char| c == '.') == rest) by {
        if rest.len() > 0 {
            assert(rest[0] == s@[start as int]);
        }
    }
    let mut r: Vec<char> = Vec::new();
    let mut k = start;
    while k < s.len()
        invariant
            start <= k <= s@.len(),
            r@ == s@.subrange(start as int, k as int),
        decreases s@.len() - k,
    {
        r.push(s[k]);
        assert(r@ =~= s@.subrange(start as int, k as int + 1));
        k = k + 1;
    }
    r
}

fn string_of(v: &Vec<char>) -> (s: String)
    ensures
        s@ == v@,
{
    let s = string_from_chars(v, 0, v.len());
    assert(v@.subrange(0, v@.len() as int) =~= v@);
    s
}

fn chars_subrange(v: &Vec<char>, from: usize, to: usize) -> (r: Vec<char>)
    requires
        from <= to <= v@.len(),
    ensures
        r@ == v@.subrange(from as int, to as int),
{
    let mut r: Vec<char> = Vec::new();
    let mut k = from;
    while k < to
        invariant
            from <= k <= to <= v@.len(),
            r@ == v@.subrange(from as int, k as int),
        decreases to - k,
    {
        r.push(v[k]);
        assert(r@ =~= v@.subrange(from as int, k as int + 1));
        k = k + 1;
    }
    r
}

fn chars_equal(a: &Vec<char>, b: &Vec<char>) -> (r: bool)
    ensures
        r == (a@ == b@),
{
    if a.len() != b.len() {
        return false;
    }
    let mut i: usize = 0;
    while i < a.len()
        invariant
            a@.len() == b@.len(),
            i <= a@.len(),
            forall|k: int| 0 <= k < i ==> a@[k] == b@[k],
        decreases a@.len() - i,
    {
        if a[i] != b[i] {
            return false;
        }
        i = i + 1;
    }
    assert(a@ =~= b@);
    true
}

fn starts_with_exec(s: &Vec<char>, p: &Vec<char>) -> (r: bool)
    ensures
        r == starts_with(s@, p@),
{
    if p.len() > s.len() {
        return false;
    }
    let head = chars_subrange(s, 0, p.len());
    chars_equal(&head, p)
}

fn ends_with_exec(s: &Vec<char>, x: &Vec<char>) -> (r: bool)
    ensures
        r == ends_with(s@, x@),
{
    if x.len() > s.len() {
        return false;
    }
    let tail = chars_subrange(s, s.len() - x.len(), s.len());
    chars_equal(&tail, x)
}

fn star_positions_exec(p: &Vec<char>) -> (st: Vec<usize>)
    ensures
        st@.map_values(|k: usize| k as int) == star_positions(p@),
        forall|k: int| 0 <= k < st@.len() ==> (#[trigger] st@[k]) < p@.len() && p@[st@[k] as int] == '*',
        forall|k: int, j: int| 0 <= k < j < st@.len() ==> st@[k] < st@[j],
{
    let mut st: Vec<usize> = Vec::new();
    let mut i: usize = 0;
    while i < p.len()
        invariant
            i <= p@.len(),
            st@.map_values(|k: usize| k as int) == star_positions(p@.subrange(0, i as int)),
            forall|k: int| 0 <= k < st@.len() ==> (#[trigger] st@[k]) < i && p@[st@[k] as int] == '*',
            forall|k: int, j: int| 0 <= k < j < st@.len() ==> st@[k] < st@[j],
        decreases p@.len() - i,
    {
        proof {
            assert(p@.subrange(0, i as int + 1).drop_last() =~= p@.subrange(0, i as int));
        }
        if p[i] == '*' {
            st.push(i);
        }
        assert(st@.map_values(|k: usize| k as int) =~= star_positions(p@.subrange(0, i as int + 1)));
        i = i + 1;
    }
    assert(p@.subrange(0, p@.len() as int) =~= p@);
    st
}

fn outer_match_exec(pattern: &Vec<char>, name: &Vec<char>, a: usize, b: usize) -> (r: bool)
    requires
        a <= b < pattern@.len(),
    ensures
        r == outer_match(pattern@, name@, a as int, b as int),
{
    assert(b < pattern.len());
    let prefix = chars_subrange(pattern, 0, a);
    let suffix = chars_subrange(pattern, b + 1, pattern.len());
    name.len() >= prefix.len() && name.len() - prefix.len() >= suffix.len()
        && starts_with_exec(name, &prefix) && ends_with_exec(name, &suffix)
}

/// Wildcard matching of a directory-name pattern (see `glob_spec`).
pub fn glob_match(pattern: &str, name: &str) -> (r: bool)
    ensures
        r == glob_spec(pattern@, name@),
{
    let p = chars_of(pattern);
    let n = chars_of(name);
    let st = star_positions_exec(&p);
    proof {
        assert(st@.len() == star_positions(p@).len());
        assert forall|k: int| 0 <= k < st@.len() implies star_positions(p@)[k] == st@[k] as int by {
            assert(st@.map_values(|k: usize| k as int)[k] == st@[k] as int);
        }
    }
    if st.len() == 0 {
        chars_equal(&p, &n)
    } else if st.len() == 1 {
        outer_match_exec(&p, &n, st[0], st[0])
    } else if st.len() == 2 {
        let s1 = st[0];
        let s2 = st[1];
        assert(s1 < s2 && s2 < p.len());
        let prefix = chars_subrange(&p, 0, s1);
        let middle = chars_subrange(&p, s1 + 1, s2);
        let suffix = chars_subrange(&p, s2 + 1, p.len());
        if n.len() < prefix.len() || n.len() - prefix.len() < middle.len()
            || n.len() - prefix.len() - middle.len() < suffix.len() {
            return false;
        }
        if !starts_with_exec(&n, &prefix) || !ends_with_exec(&n, &suffix) {
            return false;
        }
        if middle.len() == 0 {
            return true;
        }
        let inner = chars_subrange(&n, prefix.len(), n.len() - suffix.len());
        let inner_s = string_of(&inner);
        let middle_s = string_of(&middle);
        str_contains(inner_s.as_str(), middle_s.as_str())
    } else {
        let last = st[st.len() - 1];
        assert(st@[0] <= st@[st@.len() - 1]) by {
            if st@.len() > 1 {
                assert(st@[0] < st@[st@.len() - 1]);
            }
        }
        outer_match_exec(&p, &n, st[0], last)
    }
}

fn last_extension_exec(name: &Vec<char>) -> (r: Option<Vec<char>>)
    ensures
        match last_extension(name@) {
            Some(e) => r matches Some(v) && v@ == e,
            None => r is None,
        },
{
    let mut i = name.len();
    while i > 0 && name[i - 1] != '.'
        invariant
            i <= name@.len(),
            forall|k: int| i <= k < name@.len() ==> name@[k] != '.',
        decreases i,
    {
        i = i - 1;
    }
    proof {
        lemma_last_extension(name@, i as int);
    }
    if i == 0 {
        None
    } else {
        Some(chars_subrange(name, i, name.len()))
    }
}

proof fn lemma_last_extension(name: Seq<char>, i: int)
    requires
        0 <= i <= name.len(),
        forall|k: int| i <= k < name.len() ==> name[k] != '.',
        i > 0 ==> name[i - 1] == '.',
    ensures
        i == 0 ==> last_extension(name) is None,
        i > 0 ==> last_extension(name) == Some(name.subrange(i, name.len() as int)),
    decreases name.len(),
{
    if name.len() > 0 {
        if name.len() - 1 >= i {
            lemma_last_extension(name.drop_last(), i);
            if i > 0 {
                assert(name.drop_last().subrange(i, name.len() - 1).push(name.last()) =~= name.subrange(i, name.len() as int));
            }
        } else {
            assert(name.subrange(i, name.len() as int) =~= Seq::<char>::empty());
        }
    }
}

impl IgnoreRules {
    /// Parse rules from comma-separated settings strings: extensions are
    /// trimmed, stripped of leading dots and lowercased (`".o, class, .TMP"`
    /// gives `o`, `class`, `tmp`); directory patterns are trimmed; empty
    /// pieces are dropped.
    pub fn from_settings(extensions_csv: &str, dirs_csv: &str) -> (r: Self)
        ensures
            views(r.file_extensions@) == extension_rules(extensions_csv@),
            views(r.dir_patterns@) == dir_rules(dirs_csv@),
    {
        let ext_pieces = split_commas_exec(&chars_of(extensions_csv));
        let ghost ep = ext_pieces@.map_values(|p: Vec<char>| p@);
        let mut file_extensions: Vec<String> = Vec::new();
        let mut i: usize = 0;
        while i < ext_pieces.len()
            invariant
                ep == ext_pieces@.map_values(|p: Vec<char>| p@),
                i <= ext_pieces@.len(),
                views(file_extensions@) == ep.subrange(0, i as int).map_values(|p: Seq<char>| extension_rule(p)).filter(|e: Seq<char>| e.len() > 0),
            decreases ext_pieces@.len() - i,
        {
            let trimmed = trim_chars(&ext_pieces[i]);
            let undotted = trim_dots(&trimmed);
            let lowered = to_lowercase(string_of(&undotted).as_str());
            proof {
                reveal(Seq::filter);
                assert(ep.subrange(0, i as int + 1).map_values(|p: Seq<char>| extension_rule(p)).drop_last()
                    =~= ep.subrange(0, i as int).map_values(|p: Seq<char>| extension_rule(p)));
                assert(ep[i as int] == ext_pieces@[i as int]@);
            }
            if !lowered.as_str().is_empty() {
                file_extensions.push(lowered);
            }
            assert(views(file_extensions@) =~= ep.subrange(0, i as int + 1).map_values(|p: Seq<char>| extension_rule(p)).filter(|e: Seq<char>| e.len() > 0));
            i = i + 1;
        }
        assert(ep.subrange(0, ep.len() as int) =~= ep);
        let dir_pieces = split_commas_exec(&chars_of(dirs_csv));
        let ghost dp = dir_pieces@.map_values(|p: Vec<char>| p@);
        let mut dir_patterns: Vec<String> = Vec::new();
        let mut j: usize = 0;
        while j < dir_pieces.len()
            invariant
                dp == dir_pieces@.map_values(|p: Vec<char>| p@),
                j <= dir_pieces@.len(),
                views(dir_patterns@) == dp.subrange(0, j as int).map_values(|p: Seq<char>| trim_ws(p)).filter(|e: Seq<char>| e.len() > 0),
            decreases dir_pieces@.len() - j,
        {
            let trimmed = trim_chars(&dir_pieces[j]);
            proof {
                reveal(Seq::filter);
                assert(dp.subrange(0, j as int + 1).map_values(|p: Seq<char>| trim_ws(p)).drop_last()
                    =~= dp.subrange(0, j as int).map_values(|p: Seq<char>| trim_ws(p)));
                assert(dp[j as int] == dir_pieces@[j as int]@);
            }
            if trimmed.len() > 0 {
                dir_patterns.push(string_of(&trimmed));
            }
            assert(views(dir_patterns@) =~= dp.subrange(0, j as int + 1).map_values(|p: Seq<char>| trim_ws(p)).filter(|e: Seq<char>| e.len() > 0));
            j = j + 1;
        }
        assert(dp.subrange(0, dp.len() as int) =~= dp);
        IgnoreRules { file_extensions, dir_patterns }
    }

    /// `true` when no rule is defined.
    pub fn is_empty(&self) -> (b: bool)
        ensures
            b == (self.file_extensions@.len() == 0 && self.dir_patterns@.len() == 0),
    {
        self.file_extensions.len() == 0 && self.dir_patterns.len() == 0
    }

    /// `true` when a file named `name` is ignored: it has an extension
    /// (text after its last `.`) whose lowercase form is one of the rules.
    pub fn is_file_ignored(&self, name: &str) -> (b: bool)
        ensures
            b == (last_extension(name@) matches Some(e)
                && views(self.file_extensions@).contains(unicode_lowercase(e))),
    {
        if self.file_extensions.len() == 0 {
            proof {
                if let Some(e) = last_extension(name@) {
                    assert(!views(self.file_extensions@).contains(unicode_lowercase(e)));
                }
            }
            return false;
        }
        let n = chars_of(name);
        match last_extension_exec(&n) {
            None => false,
            Some(ext) => {
                let lc = to_lowercase(string_of(&ext).as_str());
                assert(last_extension(name@) == Some(ext@));
                let mut i: usize = 0;
                while i < self.file_extensions.len()
                    invariant
                        last_extension(name@) == Some(ext@),
                        lc@ == unicode_lowercase(ext@),
                        i <= self.file_extensions@.len(),
                        forall|k: int| 0 <= k < i ==> self.file_extensions@[k]@ != lc@,
                    decreases self.file_extensions@.len() - i,
                {
                    if self.file_extensions[i] == lc {
                        proof {
                            let e = last_extension(name@)->0;
                            assert(lc@ == unicode_lowercase(e));
                            assert(views(self.file_extensions@)[i as int] == lc@);
                            assert(views(self.file_extensions@).contains(unicode_lowercase(e)));
                        }
                        return true;
                    }
                    i = i + 1;
                }
                proof {
                    if views(self.file_extensions@).contains(lc@) {
                        let k = choose|k: int| 0 <= k < views(self.file_extensions@).len() && views(self.file_extensions@)[k] == lc@;
                        assert(self.file_extensions@[k]@ == lc@);
                    }
                }
                false
            },
        }
    }

    /// `true` when a directory named `name` matches some pattern
    /// (case-sensitively).
    pub fn is_dir_ignored(&self, name: &str) -> (b: bool)
        ensures
            b == exists|k: int| 0 <= k < self.dir_patterns@.len() && glob_spec(#[trigger] self.dir_patterns@[k]@, name@),
    {
        let mut i: usize = 0;
        while i < self.dir_patterns.len()
            invariant
                i <= self.dir_patterns@.len(),
                forall|k: int| 0 <= k < i ==> !glob_spec(#[trigger] self.dir_patterns@[k]@, name@),
            decreases self.dir_patterns@.len() - i,
        {
            if glob_match(self.dir_patterns[i].as_str(), name) {
                return true;
            }
            i = i + 1;
        }
        false
    }
}

} // verus!
