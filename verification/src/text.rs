//! Character-level string helpers shared by the line, patch and report
//! builders. Strings are reasoned about through their `Seq<char>` view.

use vstd::prelude::*;

verus! {

/// The characters of `s`, in order.
///
/// Trusted: wraps `str::chars` collected into a `Vec`; the contract claims
/// the vector holds exactly the characters of the string.
#[verifier::external_body]
pub(crate) fn chars_of(s: &str) -> (out: Vec<char>)
    ensures
        out@ == s@,
{
    s.chars().collect()
}

/// Appends one character to a string.
///
/// Trusted: wraps `String::push`; the contract claims the character is
/// appended at the end and nothing else changes.
#[verifier::external_body]
pub(crate) fn push_char(s: &mut String, c: char)
    ensures
        final(s)@ == old(s)@.push(c),
{
    s.push(c);
}

/// Appends a string slice to a string.
///
/// Trusted: wraps `String::push_str`; the contract claims the slice's
/// characters are appended at the end.
#[verifier::external_body]
pub(crate) fn push_str(s: &mut String, t: &str)
    ensures
        final(s)@ == old(s)@ + t@,
{
    s.push_str(t);
}

/// A string holding exactly the characters of `chars[from..to]`.
pub fn string_from_chars(chars: &Vec<char>, from: usize, to: usize) -> (s: String)
    requires
        from <= to <= chars@.len(),
    ensures
        s@ == chars@.subrange(from as int, to as int),
{
    let mut s = String::new();
    let mut i = from;
    while i < to
        invariant
            from <= i <= to,
            to <= chars@.len(),
            s@ == chars@.subrange(from as int, i as int),
        decreases to - i,
    {
        push_char(&mut s, chars[i]);
        assert(s@ =~= chars@.subrange(from as int, i as int + 1));
        i = i + 1;
    }
    s
}

/// Appends the characters of another string.
pub fn append_string(s: &mut String, t: &String)
    ensures
        final(s)@ == old(s)@ + t@,
{
    push_str(s, t.as_str());
}

/// Whether two strings hold the same characters.
pub fn str_equal(a: &str, b: &str) -> (r: bool)
    ensures
        r == (a@ == b@),
{
    let ca = chars_of(a);
    let cb = chars_of(b);
    if ca.len() != cb.len() {
        return false;
    }
    let mut i: usize = 0;
    while i < ca.len()
        invariant
            ca@ == a@,
            cb@ == b@,
            ca@.len() == cb@.len(),
            i <= ca@.len(),
            forall|k: int| 0 <= k < i ==> ca@[k] == cb@[k],
        decreases ca@.len() - i,
    {
        if ca[i] != cb[i] {
            return false;
        }
        i = i + 1;
    }
    assert(ca@ =~= cb@);
    true
}

/// ASCII lowercase of one character: `A`-`Z` map to `a`-`z`, every other
/// character is unchanged.
pub open spec fn ascii_lower_char(c: char) -> char {
    if 'A' <= c && c <= 'Z' {
        ((c as u32) + 32) as char
    } else {
        c
    }
}

/// ASCII lowercase of a string, character by character.
pub open spec fn ascii_lower(s: Seq<char>) -> Seq<char> {
    s.map_values(|c: char| ascii_lower_char(c))
}

/// The ASCII-lowercased copy of `s` (as `str::to_ascii_lowercase`).
pub fn to_ascii_lowercase(s: &str) -> (r: String)
    ensures
        r@ == ascii_lower(s@),
{
    let chars = chars_of(s);
    let mut r = String::new();
    let mut i: usize = 0;
    while i < chars.len()
        invariant
            chars@ == s@,
            i <= chars@.len(),
            r@ == ascii_lower(chars@.subrange(0, i as int)),
        decreases chars@.len() - i,
    {
        let c = chars[i];
        let lc = if 'A' <= c && c <= 'Z' {
            let code: u32 = (c as u32) + 32;
            char_from_ascii(code)
        } else {
            c
        };
        push_char(&mut r, lc);
        assert(r@ =~= ascii_lower(chars@.subrange(0, i as int + 1)));
        i = i + 1;
    }
    assert(chars@.subrange(0, chars@.len() as int) =~= chars@);
    r
}

fn char_from_ascii(code: u32) -> (c: char)
    requires
        97 <= code <= 122,
    ensures
        c == code as char,
{
    let b: u8 = code as u8;
    b as char
}

/// `needle` occurs in `hay` at position `i`.
pub open spec fn occurs_at(hay: Seq<char>, needle: Seq<char>, i: int) -> bool {
    0 <= i && i + needle.len() <= hay.len() && hay.subrange(i, i + needle.len()) == needle
}

/// `needle` occurs somewhere in `hay` (the empty string occurs everywhere).
pub open spec fn contains_seq(hay: Seq<char>, needle: Seq<char>) -> bool {
    exists|i: int| #[trigger] occurs_at(hay, needle, i)
}

fn matches_at(h: &Vec<char>, n: &Vec<char>, i: usize) -> (r: bool)
    requires
        i + n@.len() <= h@.len(),
    ensures
        r == occurs_at(h@, n@, i as int),
{
    let hl = h.len();
    let mut k: usize = 0;
    while k < n.len()
        invariant
            hl == h@.len(),
            i + n@.len() <= h@.len(),
            k <= n@.len(),
            forall|t: int| 0 <= t < k ==> h@[i + t] == n@[t],
        decreases n@.len() - k,
    {
        if h[i + k] != n[k] {
            proof {
                if occurs_at(h@, n@, i as int) {
                    assert(h@.subrange(i as int, i + n@.len())[k as int] == h@[i + k]);
                }
            }
            return false;
        }
        k = k + 1;
    }
    assert(h@.subrange(i as int, i + n@.len()) =~= n@);
    true
}

/// Whether `needle` is a substring of `hay` (as `str::contains`).
pub fn str_contains(hay: &str, needle: &str) -> (r: bool)
    ensures
        r == contains_seq(hay@, needle@),
{
    let h = chars_of(hay);
    let n = chars_of(needle);
    if n.len() > h.len() {
        proof {
            assert forall|i: int| !occurs_at(hay@, needle@, i) by {}
        }
        return false;
    }
    let limit = h.len() - n.len();
    let mut i: usize = 0;
    loop
        invariant
            h@ == hay@,
            n@ == needle@,
            limit == h@.len() - n@.len(),
            i <= limit,
            forall|j: int| 0 <= j < i ==> !occurs_at(hay@, needle@, j),
        decreases limit - i,
    {
        if matches_at(&h, &n, i) {
            return true;
        }
        if i == limit {
            proof {
                assert forall|j: int| !occurs_at(hay@, needle@, j) by {
                    if j > i {
                        assert(j + needle@.len() > hay@.len());
                    }
                }
            }
            return false;
        }
        i = i + 1;
    }
}

/// The decimal rendering of a natural number, most significant digit first,
/// without leading zeros (`0` renders as `"0"`).
pub open spec fn decimal(n: nat) -> Seq<char>
    decreases n,
{
    if n < 10 {
        seq![digit_char(n)]
    } else {
        decimal(n / 10).push(digit_char(n % 10))
    }
}

/// The ASCII digit for a value below ten.
pub open spec fn digit_char(d: nat) -> char {
    if d == 0 { '0' }
    else if d == 1 { '1' }
    else if d == 2 { '2' }
    else if d == 3 { '3' }
    else if d == 4 { '4' }
    else if d == 5 { '5' }
    else if d == 6 { '6' }
    else if d == 7 { '7' }
    else if d == 8 { '8' }
    else { '9' }
}

fn digit(d: u64) -> (c: char)
    requires
        d < 10,
    ensures
        c == digit_char(d as nat),
{
    if d == 0 { '0' }
    else if d == 1 { '1' }
    else if d == 2 { '2' }
    else if d == 3 { '3' }
    else if d == 4 { '4' }
    else if d == 5 { '5' }
    else if d == 6 { '6' }
    else if d == 7 { '7' }
    else if d == 8 { '8' }
    else { '9' }
}

/// Appends the decimal rendering of `n`.
pub fn push_decimal(s: &mut String, n: u64)
    ensures
        final(s)@ == old(s)@ + decimal(n as nat),
    decreases n,
{
    if n < 10 {
        push_char(s, digit(n));
        assert(decimal(n as nat) =~= seq![digit_char(n as nat)]);
        assert(final(s)@ =~= old(s)@ + decimal(n as nat));
    } else {
        push_decimal(s, n / 10);
        push_char(s, digit(n % 10));
        assert(final(s)@ =~= old(s)@ + decimal(n as nat));
    }
}

/// An identifier `<prefix><stamp>-<pid>`, the numbers in decimal.
pub fn tagged_id(prefix: &str, stamp: u64, pid: u32) -> (s: String)
    ensures
        s@ == prefix@ + decimal(stamp as nat) + seq!['-'] + decimal(pid as nat),
{
    let mut s = String::new();
    push_str(&mut s, prefix);
    push_decimal(&mut s, stamp);
    push_char(&mut s, '-');
    push_decimal(&mut s, pid as u64);
    assert(s@ =~= prefix@ + decimal(stamp as nat) + seq!['-'] + decimal(pid as nat));
    s
}

/// The decimal rendering of `n` as a new string.
pub fn decimal_string(n: u64) -> (s: String)
    ensures
        s@ == decimal(n as nat),
{
    let mut s = String::new();
    push_decimal(&mut s, n);
    assert(s@ =~= decimal(n as nat));
    s
}

} // verus!

verus! {

/// Whether a character has the Unicode `White_Space` property: the
/// controls U+0009 to U+000D, the space U+0020, U+0085, the no-break space
/// U+00A0, U+1680, the spaces U+2000 to U+200A, the line and paragraph
/// separators U+2028 and U+2029, U+202F, U+205F and U+3000.
pub open spec fn unicode_white_space(c: char) -> bool {
    let u = c as u32;
    ||| 0x9 <= u <= 0xD
    ||| u == 0x20
    ||| u == 0x85
    ||| u == 0xA0
    ||| u == 0x1680
    ||| 0x2000 <= u <= 0x200A
    ||| u == 0x2028
    ||| u == 0x2029
    ||| u == 0x202F
    ||| u == 0x205F
    ||| u == 0x3000
}

/// The Unicode lowercase mapping of a string, as `str::to_lowercase`
/// computes it.
pub uninterp spec fn unicode_lowercase(s: Seq<char>) -> Seq<char>;

/// Whether `c` is whitespace, by the Unicode `White_Space` property (the
/// property `char::is_whitespace` tests).
pub fn is_whitespace(c: char) -> (b: bool)
    ensures
        b == unicode_white_space(c),
{
    let u = c as u32;
    (0x9 <= u && u <= 0xD) || u == 0x20 || u == 0x85 || u == 0xA0 || u == 0x1680 || (0x2000 <= u && u <= 0x200A)
        || u == 0x2028 || u == 0x2029 || u == 0x202F || u == 0x205F || u == 0x3000
}

/// Every character of `s` is ASCII.
pub open spec fn all_ascii(s: Seq<char>) -> bool {
    forall|i: int| 0 <= i < s.len() ==> (#[trigger] s[i]) as u32 <= 0x7F
}

/// The lowercase form of `s`.
///
/// Trusted: wraps `str::to_lowercase`; the contract names its result, a
/// function of the input alone, and states the ASCII case the
/// documentation gives plainly: on ASCII text, lowercasing maps `A`..`Z`
/// to `a`..`z` and keeps every other character.
#[verifier::external_body]
pub(crate) fn to_lowercase(s: &str) -> (r: String)
    ensures
        r@ == unicode_lowercase(s@),
        all_ascii(s@) ==> r@ == ascii_lower(s@),
{
    s.to_lowercase()
}

/// `s` without its whitespace characters.
pub open spec fn without_whitespace(s: Seq<char>) -> Seq<char> {
    s.filter(|c: char| !unicode_white_space(c))
}

/// A copy of `s` with every whitespace character removed.
pub fn remove_whitespace(s: &str) -> (r: String)
    ensures
        r@ == without_whitespace(s@),
{
    let chars = chars_of(s);
    let mut r = String::new();
    let mut i: usize = 0;
    while i < chars.len()
        invariant
            i <= chars@.len(),
            chars@ == s@,
            r@ == without_whitespace(chars@.subrange(0, i as int)),
        decreases chars@.len() - i,
    {
        let c = chars[i];
        proof {
            reveal(Seq::filter);
            assert(chars@.subrange(0, i as int + 1).drop_last() =~= chars@.subrange(0, i as int));
        }
        if !is_whitespace(c) {
            push_char(&mut r, c);
        }
        i = i + 1;
    }
    assert(chars@.subrange(0, chars@.len() as int) =~= chars@);
    r
}

} // verus!
