//! Directory listing entries. Reading the directory is the caller's work;
//! the exact byte count shown beside each file is rendered here.

use vstd::prelude::*;

use crate::text::{chars_of, decimal, decimal_string, push_char, push_str};

verus! {

/// One file entry in a directory listing.
#[derive(Debug, Clone, PartialEq, Eq)]
pub struct FileEntry {
    pub name: String,
    pub len: u64,
    /// Human-readable size, e.g. `12.0 KB`.
    pub human_size: String,
    /// Exact byte count with separators, e.g. `12,288 bytes`.
    pub bytes_size: String,
    /// Local last-modified timestamp, or empty when unavailable.
    pub last_modified: String,
    /// `true` when a sniff of the content classifies this file as binary.
    pub is_binary: bool,
}

/// A directory listing with directories and files separated.
#[derive(Debug, Clone)]
pub struct DirectoryListing {
    pub current_dir: String,
    pub dirs: Vec<String>,
    pub files: Vec<FileEntry>,
}

/// Digits grouped in threes from the right, with commas between groups.
pub open spec fn grouped_thousands(d: Seq<char>) -> Seq<char>
    decreases d.len(),
{
    if d.len() <= 3 {
        d
    } else {
        grouped_thousands(d.take(d.len() - 3)) + ","@ + d.skip(d.len() - 3)
    }
}

/// The exact byte count text of a size: its decimal digits grouped in
/// threes, then ` bytes`.
pub open spec fn bytes_size_text(len: u64) -> Seq<char> {
    grouped_thousands(decimal(len as nat)) + " bytes"@
}

fn push_grouped(out: &mut String, digits: &Vec<char>, end: usize)
    requires
        end <= digits@.len(),
    ensures
        final(out)@ == old(out)@ + grouped_thousands(digits@.take(end as int)),
    decreases end,
{
    let ghost d = digits@.take(end as int);
    let start: usize = if end <= 3 {
        0
    } else {
        push_grouped(out, digits, end - 3);
        assert(d.take(d.len() - 3) =~= digits@.take(end - 3));
        push_str(out, ",");
        end - 3
    };
    let ghost mid = out@;
    let mut i = start;
    while i < end
        invariant
            start <= i <= end,
            end <= digits@.len(),
            out@ == mid + digits@.subrange(start as int, i as int),
        decreases end - i,
    {
        push_char(out, digits[i]);
        assert(out@ =~= mid + digits@.subrange(start as int, i as int + 1));
        i = i + 1;
    }
    if end <= 3 {
        assert(digits@.subrange(0, end as int) =~= d);
    } else {
        assert(digits@.subrange(start as int, end as int) =~= d.skip(d.len() - 3));
    }
    assert(final(out)@ =~= old(out)@ + grouped_thousands(d));
}

/// The exact byte count of a size, e.g. `12,288 bytes`.
pub fn bytes_size(len: u64) -> (s: String)
    ensures
        s@ == bytes_size_text(len),
{
    let digits_text = decimal_string(len);
    let digits = chars_of(digits_text.as_str());
    let mut s = String::new();
    push_grouped(&mut s, &digits, digits.len());
    assert(digits@.take(digits@.len() as int) =~= digits@);
    push_str(&mut s, " bytes");
    s
}

} // verus!
