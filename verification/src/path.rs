//! Path text helpers. Paths are handled as text; splitting a path into its
//! parts is left to `Path`, so no separator is written into the logic. The
//! contracts state the parts for plain paths, which every platform splits
//! alike.

use vstd::prelude::*;

use crate::text::{ascii_lower, str_equal, to_ascii_lowercase};

verus! {

/// Index of the last `c` in `s`, or `-1` when there is none.
pub open spec fn last_index(s: Seq<char>, c: char) -> int
    decreases s.len(),
{
    if s.len() == 0 {
        -1
    } else if s.last() == c {
        s.len() - 1
    } else {
        last_index(s.drop_last(), c)
    }
}

/// A path text that every platform splits the same way: not empty, no
/// backslash or colon (so no Windows prefix), no doubled or trailing `/`,
/// and no `.` or `..` component. Its components are the texts between the
/// `/` separators, with an optional leading `/` as the root.
pub open spec fn plain_path(p: Seq<char>) -> bool {
    &&& p.len() > 0
    &&& !p.contains('\\') && !p.contains(':')
    &&& p.last() != '/'
    &&& forall|i: int| 0 <= i < p.len() - 1 ==> !(#[trigger] p[i] == '/' && p[i + 1] == '/')
    &&& forall|i: int| 0 <= i < p.len() && #[trigger] p[i] == '.' && (i == 0 || p[i - 1] == '/') ==> {
        &&& i + 1 < p.len() && p[i + 1] != '/'
        &&& (p[i + 1] == '.' ==> i + 2 < p.len() && p[i + 2] != '/')
    }
}

/// The final component of a plain path: the text after its last `/`.
pub open spec fn file_name_spec(p: Seq<char>) -> Seq<char> {
    p.skip(last_index(p, '/') + 1)
}

/// The parent of a plain path: the text before its last `/`, the root
/// `/` when that is the only separator at the start, and empty when there
/// is no separator.
pub open spec fn parent_spec(p: Seq<char>) -> Seq<char> {
    let i = last_index(p, '/');
    if i < 0 {
        Seq::empty()
    } else if i == 0 {
        seq!['/']
    } else {
        p.take(i)
    }
}

/// The extension of a file name: the text after its last `.`, none when
/// there is no `.` or the only one starts the name.
pub open spec fn extension_spec(f: Seq<char>) -> Option<Seq<char>> {
    let i = last_index(f, '.');
    if i <= 0 {
        None
    } else {
        Some(f.skip(i + 1))
    }
}

/// The final component of a path, if it has one.
///
/// Trusted: wraps `Path::file_name`. Its parsing depends on the platform;
/// for a plain path it is the same everywhere, and the contract claims the
/// final component is the text after the last `/`. Nothing is claimed for
/// other paths.
#[verifier::external_body]
fn file_name_of(path: &str) -> (r: Option<String>)
    ensures
        plain_path(path@) ==> r is Some && r->0@ == file_name_spec(path@),
{
    std::path::Path::new(path).file_name().map(|n| n.to_string_lossy().into_owned())
}

/// The path without its final component, if there is one.
///
/// Trusted: wraps `Path::parent` and `Path::display`. For a plain path the
/// contract claims the parent's text is the text before the last `/` (the
/// root `/` when that is the leading one, empty when there is none).
/// Nothing is claimed for other paths.
#[verifier::external_body]
fn parent_of(path: &str) -> (r: Option<String>)
    ensures
        plain_path(path@) ==> r is Some && r->0@ == parent_spec(path@),
{
    std::path::Path::new(path).parent().map(|p| p.display().to_string())
}

/// The extension of a path's final component, if it has one.
///
/// Trusted: wraps `Path::extension`. For a plain path the contract claims
/// it is the extension of the final component as `extension_spec` reads
/// it. Nothing is claimed for other paths.
#[verifier::external_body]
fn extension_of(path: &str) -> (r: Option<String>)
    ensures
        plain_path(path@) ==> match r {
            Some(e) => extension_spec(file_name_spec(path@)) == Some(e@),
            None => extension_spec(file_name_spec(path@)) is None,
        },
{
    std::path::Path::new(path).extension().map(|e| e.to_string_lossy().into_owned())
}

/// Human-readable display text of a path.
pub fn display(path: &str) -> (s: String)
    ensures
        s@ == path@,
{
    String::from_str(path)
}

/// Splits a path into `(parent, file name)` display texts; a part the path
/// lacks is empty. UI headers shorten the parent, never the name.
pub fn split_parent_name(path: &str) -> (r: (String, String))
    ensures
        plain_path(path@) ==> r.0@ == parent_spec(path@) && r.1@ == file_name_spec(path@),
{
    let name = match file_name_of(path) {
        Some(n) => n,
        None => String::new(),
    };
    let parent = match parent_of(path) {
        Some(p) => p,
        None => String::new(),
    };
    (parent, name)
}

/// Whether `ext` equals, ignoring ASCII case, the extension `path` has.
pub fn extension_matches(path_extension: Option<String>, ext: &str) -> (r: bool)
    ensures
        r == (path_extension matches Some(e) && ascii_lower(e@) == ascii_lower(ext@)),
{
    match path_extension {
        Some(e) => {
            let a = to_ascii_lowercase(e.as_str());
            let b = to_ascii_lowercase(ext);
            str_equal(a.as_str(), b.as_str())
        },
        None => false,
    }
}

/// `true` when the path has the given extension, ignoring ASCII case.
pub fn has_extension(path: &str, ext: &str) -> (r: bool)
    ensures
        plain_path(path@) ==> r == (extension_spec(file_name_spec(path@)) matches Some(e)
            && ascii_lower(e) == ascii_lower(ext@)),
{
    extension_matches(extension_of(path), ext)
}

} // verus!
