//! Deterministic unified-diff serialization: file changes in stored
//! order, hunks in order, lines in order. Each line ends with its own
//! source terminator (or `\n` when it had none, followed by the standard
//! no-newline marker), matching `git diff` and `diff -u`.

use vstd::prelude::*;

use super::model::{
    change_path, origin_marker, PatchDocument, PatchFileChange, PatchHunk, PatchLine, PatchSummary,
};
use crate::diff::model::{newline_chars, NewlineMarker};
use crate::text::{contains_seq, decimal, occurs_at, push_char, push_decimal, push_str};

verus! {

/// The marker line after a line that had no trailing newline.
pub open spec fn no_newline_marker() -> Seq<char> {
    "\\ No newline at end of file"@
}

/// One patch line: origin marker, content, its terminator (`\n` when it had
/// none, then the no-newline marker line).
pub open spec fn line_text(l: PatchLine) -> Seq<char> {
    if l.newline == NewlineMarker::NoNewline {
        seq![origin_marker(l.origin)] + l.content@ + seq!['\n'] + no_newline_marker() + seq!['\n']
    } else {
        seq![origin_marker(l.origin)] + l.content@ + newline_chars(l.newline)
    }
}

/// The text of a line list.
pub open spec fn lines_text(ls: Seq<PatchLine>) -> Seq<char>
    decreases ls.len(),
{
    if ls.len() == 0 {
        Seq::empty()
    } else {
        lines_text(ls.drop_last()) + line_text(ls.last())
    }
}

/// One side of a hunk header: `start` alone for a single line, otherwise
/// `start,len`.
pub open spec fn range_text(start: u32, len: u32) -> Seq<char> {
    if len == 1 {
        decimal(start as nat)
    } else {
        decimal(start as nat) + seq![','] + decimal(len as nat)
    }
}

/// A hunk: its `@@ -old +new @@` header, then its lines.
pub open spec fn hunk_text(h: PatchHunk) -> Seq<char> {
    "@@ -"@ + range_text(h.old_start, h.old_len) + " +"@ + range_text(h.new_start, h.new_len) + " @@\n"@
        + lines_text(h.lines@)
}

/// The text of a hunk list.
pub open spec fn hunks_text(hs: Seq<PatchHunk>) -> Seq<char>
    decreases hs.len(),
{
    if hs.len() == 0 {
        Seq::empty()
    } else {
        hunks_text(hs.drop_last()) + hunk_text(hs.last())
    }
}

/// Whether a path needs git's C-style quoting: a double quote, a
/// backslash, or a control character (below space, or DEL).
pub open spec fn needs_quote(path: Seq<char>) -> bool {
    exists|i: int| 0 <= i < path.len() && quote_char(#[trigger] path[i])
}

/// A character that forces quoting.
pub open spec fn quote_char(c: char) -> bool {
    c == '"' || c == '\\' || (c as u32) < 0x20 || c == '\u{7f}'
}

/// The octal digit of a value below 8.
pub open spec fn octal_digit(d: nat) -> char {
    ((('0' as u32) + d) as char)
}

/// The escaped form of one character inside quotes: `\"`, `\\`, a
/// three-digit octal escape for control characters, itself otherwise.
pub open spec fn escape_char(c: char) -> Seq<char> {
    if c == '"' {
        seq!['\\', '"']
    } else if c == '\\' {
        seq!['\\', '\\']
    } else if (c as u32) < 0x20 || c == '\u{7f}' {
        let v = c as u32 as nat;
        seq!['\\', octal_digit(v / 64), octal_digit((v / 8) % 8), octal_digit(v % 8)]
    } else {
        seq![c]
    }
}

/// The escaped body of a string.
pub open spec fn escape_all(s: Seq<char>) -> Seq<char>
    decreases s.len(),
{
    if s.len() == 0 {
        Seq::empty()
    } else {
        escape_all(s.drop_last()) + escape_char(s.last())
    }
}

/// C-style quoting as `git diff` does it.
pub open spec fn quote_c_style_spec(s: Seq<char>) -> Seq<char> {
    seq!['"'] + escape_all(s) + seq!['"']
}

/// The `a/`- or `b/`-prefixed path of a `---`/`+++` line: quoted whole
/// when the path needs quoting, followed by a tab when it holds a space,
/// plain otherwise.
pub open spec fn path_header(prefix: char, path: Seq<char>) -> Seq<char> {
    let combined = seq![prefix, '/'] + path;
    if needs_quote(path) {
        quote_c_style_spec(combined)
    } else if path.contains(' ') {
        combined + seq!['\t']
    } else {
        combined
    }
}

/// The text of one file change.
pub open spec fn change_text(c: PatchFileChange) -> Seq<char> {
    let path = change_path(c);
    let a = path_header('a', path);
    let b = path_header('b', path);
    match c {
        PatchFileChange::Modify { hunks, .. } => "--- "@ + a + "\n+++ "@ + b + "\n"@ + hunks_text(hunks@),
        PatchFileChange::Add { lines, .. } => "--- /dev/null\n+++ "@ + b + "\n@@ -0,0 +1,"@ + decimal(lines@.len())
            + " @@\n"@ + lines_text(lines@),
        PatchFileChange::Delete { lines, .. } => "--- "@ + a + "\n+++ /dev/null\n@@ -1,"@ + decimal(lines@.len())
            + " +0,0 @@\n"@ + lines_text(lines@),
        PatchFileChange::BinaryNotice { .. } => "--- a/"@ + path + "\n+++ b/"@ + path + "\nBinary files a/"@ + path
            + " and b/"@ + path + " differ\n"@,
    }
}

/// The text of a change list.
pub open spec fn changes_text(cs: Seq<PatchFileChange>) -> Seq<char>
    decreases cs.len(),
{
    if cs.len() == 0 {
        Seq::empty()
    } else {
        changes_text(cs.drop_last()) + change_text(cs.last())
    }
}

/// The summary header line.
pub open spec fn summary_text(s: PatchSummary) -> Seq<char> {
    "# forskscope patch: "@ + decimal((s.files_changed + s.files_added + s.files_deleted + s.binary_files) as nat)
        + " files, "@ + decimal(s.additions as nat) + " additions(+), "@ + decimal(s.deletions as nat)
        + " deletions(-)\n"@
}

/// The unified-diff text of a patch.
pub open spec fn unified_spec(p: PatchDocument) -> Seq<char> {
    summary_text(p.summary) + changes_text(p.files@)
}

/// An occurrence inside a middle piece is an occurrence in the whole.
proof fn lemma_occurs_in_middle(a: Seq<char>, x: Seq<char>, c: Seq<char>, n: Seq<char>, k: int)
    requires
        occurs_at(x, n, k),
    ensures
        occurs_at(a + x + c, n, a.len() + k),
{
    assert((a + x + c).subrange(a.len() + k, a.len() + k + n.len()) =~= x.subrange(k, k + n.len()));
}

/// Where the text of hunk `j` stands in the text of a hunk list.
proof fn lemma_hunk_position(hs: Seq<PatchHunk>, j: int) -> (k: int)
    requires
        0 <= j < hs.len(),
    ensures
        occurs_at(hunks_text(hs), hunk_text(hs[j]), k),
    decreases hs.len(),
{
    let prev = hunks_text(hs.drop_last());
    if j == hs.len() - 1 {
        assert(occurs_at(hunk_text(hs[j]), hunk_text(hs[j]), 0)) by {
            assert(hunk_text(hs[j]).subrange(0, hunk_text(hs[j]).len() as int) =~= hunk_text(hs[j]));
        }
        lemma_occurs_in_middle(prev, hunk_text(hs[j]), Seq::empty(), hunk_text(hs[j]), 0);
        assert(prev + hunk_text(hs[j]) + Seq::<char>::empty() =~= hunks_text(hs));
        prev.len() as int
    } else {
        let k = lemma_hunk_position(hs.drop_last(), j);
        lemma_occurs_in_middle(Seq::empty(), prev, hunk_text(hs.last()), hunk_text(hs[j]), k);
        assert(Seq::<char>::empty() + prev + hunk_text(hs.last()) =~= hunks_text(hs));
        k
    }
}

/// Where the text of change `i` stands in the text of a change list.
proof fn lemma_change_position(cs: Seq<PatchFileChange>, i: int) -> (k: int)
    requires
        0 <= i < cs.len(),
    ensures
        occurs_at(changes_text(cs), change_text(cs[i]), k),
    decreases cs.len(),
{
    let prev = changes_text(cs.drop_last());
    if i == cs.len() - 1 {
        assert(occurs_at(change_text(cs[i]), change_text(cs[i]), 0)) by {
            assert(change_text(cs[i]).subrange(0, change_text(cs[i]).len() as int) =~= change_text(cs[i]));
        }
        lemma_occurs_in_middle(prev, change_text(cs[i]), Seq::empty(), change_text(cs[i]), 0);
        assert(prev + change_text(cs[i]) + Seq::<char>::empty() =~= changes_text(cs));
        prev.len() as int
    } else {
        let k = lemma_change_position(cs.drop_last(), i);
        lemma_occurs_in_middle(Seq::empty(), prev, change_text(cs.last()), change_text(cs[i]), k);
        assert(Seq::<char>::empty() + prev + change_text(cs.last()) =~= changes_text(cs));
        k
    }
}

/// Every hunk of every modified file is written out: a header whose `-`
/// range is the hunk's old start and old length and whose `+` range is
/// its new start and new length, followed by the hunk's lines.
pub proof fn law_hunk_headers_old_then_new(p: PatchDocument, i: int, j: int)
    requires
        0 <= i < p.files@.len(),
        p.files@[i] is Modify,
        0 <= j < p.files@[i]->Modify_hunks@.len(),
    ensures
        ({
            let h = p.files@[i]->Modify_hunks@[j];
            contains_seq(
                unified_spec(p),
                "@@ -"@ + range_text(h.old_start, h.old_len) + " +"@ + range_text(h.new_start, h.new_len) + " @@\n"@
                    + lines_text(h.lines@),
            )
        }),
{
    let c = p.files@[i];
    let hs = c->Modify_hunks@;
    let h = hs[j];
    let shown = "@@ -"@ + range_text(h.old_start, h.old_len) + " +"@ + range_text(h.new_start, h.new_len) + " @@\n"@
        + lines_text(h.lines@);
    assert(hunk_text(h) == shown);
    let k0 = lemma_hunk_position(hs, j);
    let path = change_path(c);
    let head = "--- "@ + path_header('a', path) + "\n+++ "@ + path_header('b', path) + "\n"@;
    lemma_occurs_in_middle(head, hunks_text(hs), Seq::empty(), shown, k0);
    assert(head + hunks_text(hs) + Seq::<char>::empty() =~= change_text(c));
    let k1 = lemma_change_position(p.files@, i);
    lemma_occurs_in_middle(Seq::empty(), changes_text(p.files@), Seq::empty(), change_text(c), k1);
    let k2 = head.len() + k0;
    assert(occurs_at(change_text(c), shown, k2));
    let k3 = k1 + k2;
    assert(occurs_at(changes_text(p.files@), shown, k3)) by {
        assert(changes_text(p.files@).subrange(k1, k1 + change_text(c).len()) == change_text(c));
        assert(changes_text(p.files@).subrange(k3, k3 + shown.len()) =~= change_text(c).subrange(k2, k2 + shown.len()));
    }
    lemma_occurs_in_middle(summary_text(p.summary), changes_text(p.files@), Seq::empty(), shown, k3);
    assert(summary_text(p.summary) + changes_text(p.files@) + Seq::<char>::empty() =~= unified_spec(p));
}

fn octal_char(d: u32) -> (c: char)
    requires
        d < 8,
    ensures
        c == octal_digit(d as nat),
{
    let b: u8 = 48 + d as u8;
    b as char
}

fn push_escaped(out: &mut String, c: char)
    ensures
        final(out)@ == old(out)@ + escape_char(c),
{
    if c == '"' {
        push_char(out, '\\');
        push_char(out, '"');
    } else if c == '\\' {
        push_char(out, '\\');
        push_char(out, '\\');
    } else if (c as u32) < 0x20 || c == '\u{7f}' {
        let v = c as u32;
        push_char(out, '\\');
        push_char(out, octal_char(v / 64));
        push_char(out, octal_char((v / 8) % 8));
        push_char(out, octal_char(v % 8));
    } else {
        push_char(out, c);
    }
    assert(final(out)@ =~= old(out)@ + escape_char(c));
}

fn quote_c_style(s: &Vec<char>) -> (q: String)
    ensures
        q@ == quote_c_style_spec(s@),
{
    let mut out = String::new();
    push_char(&mut out, '"');
    let mut i: usize = 0;
    while i < s.len()
        invariant
            i <= s@.len(),
            out@ == seq!['"'] + escape_all(s@.subrange(0, i as int)),
        decreases s@.len() - i,
    {
        proof {
            assert(s@.subrange(0, i as int + 1).drop_last() =~= s@.subrange(0, i as int));
        }
        push_escaped(&mut out, s[i]);
        assert(out@ =~= seq!['"'] + escape_all(s@.subrange(0, i as int + 1)));
        i = i + 1;
    }
    push_char(&mut out, '"');
    assert(s@.subrange(0, s@.len() as int) =~= s@);
    out
}

fn path_header_exec(prefix: char, path: &str) -> (h: String)
    ensures
        h@ == path_header(prefix, path@),
{
    let p = crate::text::chars_of(path);
    let mut combined: Vec<char> = Vec::new();
    combined.push(prefix);
    combined.push('/');
    let mut i: usize = 0;
    let mut quote = false;
    let mut space = false;
    while i < p.len()
        invariant
            p@ == path@,
            i <= p@.len(),
            combined@ == seq![prefix, '/'] + p@.subrange(0, i as int),
            quote == exists|k: int| 0 <= k < i && quote_char(#[trigger] p@[k]),
            space == exists|k: int| 0 <= k < i && p@[k] == ' ',
        decreases p@.len() - i,
    {
        let c = p[i];
        if c == '"' || c == '\\' || (c as u32) < 0x20 || c == '\u{7f}' {
            quote = true;
            assert(quote_char(p@[i as int]));
        }
        if c == ' ' {
            space = true;
        }
        combined.push(c);
        assert(combined@ =~= seq![prefix, '/'] + p@.subrange(0, i as int + 1));
        i = i + 1;
    }
    assert(p@.subrange(0, p@.len() as int) =~= p@);
    if quote {
        quote_c_style(&combined)
    } else {
        let mut s = String::new();
        let mut k: usize = 0;
        while k < combined.len()
            invariant
                k <= combined@.len(),
                s@ == combined@.subrange(0, k as int),
            decreases combined@.len() - k,
        {
            push_char(&mut s, combined[k]);
            assert(s@ =~= combined@.subrange(0, k as int + 1));
            k = k + 1;
        }
        assert(combined@.subrange(0, combined@.len() as int) =~= combined@);
        if space {
            push_char(&mut s, '\t');
        }
        s
    }
}

fn write_lines(out: &mut String, lines: &Vec<PatchLine>)
    ensures
        final(out)@ == old(out)@ + lines_text(lines@),
{
    let ghost start = out@;
    let mut i: usize = 0;
    while i < lines.len()
        invariant
            i <= lines@.len(),
            out@ == start + lines_text(lines@.subrange(0, i as int)),
        decreases lines@.len() - i,
    {
        proof {
            assert(lines@.subrange(0, i as int + 1).drop_last() =~= lines@.subrange(0, i as int));
        }
        let l = &lines[i];
        let ghost before = out@;
        push_char(out, l.origin.marker());
        push_str(out, l.content.as_str());
        if l.no_newline_at_eof() {
            push_char(out, '\n');
            push_str(out, "\\ No newline at end of file");
            push_char(out, '\n');
        } else {
            push_str(out, l.newline.as_str());
        }
        assert(out@ =~= before + line_text(*l));
        assert(out@ =~= start + lines_text(lines@.subrange(0, i as int + 1)));
        i = i + 1;
    }
    assert(lines@.subrange(0, lines@.len() as int) =~= lines@);
}

fn push_range(out: &mut String, start: u32, len: u32)
    ensures
        final(out)@ == old(out)@ + range_text(start, len),
{
    push_decimal(out, start as u64);
    if len != 1 {
        push_char(out, ',');
        push_decimal(out, len as u64);
    }
    assert(final(out)@ =~= old(out)@ + range_text(start, len));
}

fn write_hunks(out: &mut String, hunks: &Vec<PatchHunk>)
    ensures
        final(out)@ == old(out)@ + hunks_text(hunks@),
{
    let ghost start = out@;
    let mut i: usize = 0;
    while i < hunks.len()
        invariant
            i <= hunks@.len(),
            out@ == start + hunks_text(hunks@.subrange(0, i as int)),
        decreases hunks@.len() - i,
    {
        proof {
            assert(hunks@.subrange(0, i as int + 1).drop_last() =~= hunks@.subrange(0, i as int));
        }
        let h = &hunks[i];
        let ghost before = out@;
        push_str(out, "@@ -");
        push_range(out, h.old_start, h.old_len);
        push_str(out, " +");
        push_range(out, h.new_start, h.new_len);
        push_str(out, " @@\n");
        write_lines(out, &h.lines);
        assert(out@ =~= before + hunk_text(*h));
        assert(out@ =~= start + hunks_text(hunks@.subrange(0, i as int + 1)));
        i = i + 1;
    }
    assert(hunks@.subrange(0, hunks@.len() as int) =~= hunks@);
}

fn write_file_change(out: &mut String, change: &PatchFileChange)
    ensures
        final(out)@ == old(out)@ + change_text(*change),
{
    let path = change.path();
    let a = path_header_exec('a', path.as_str());
    let b = path_header_exec('b', path.as_str());
    let ghost before = out@;
    match change {
        PatchFileChange::Modify { hunks, .. } => {
            push_str(out, "--- ");
            push_str(out, a.as_str());
            push_str(out, "\n+++ ");
            push_str(out, b.as_str());
            push_str(out, "\n");
            write_hunks(out, hunks);
        },
        PatchFileChange::Add { lines, .. } => {
            push_str(out, "--- /dev/null\n+++ ");
            push_str(out, b.as_str());
            push_str(out, "\n@@ -0,0 +1,");
            push_decimal(out, lines.len() as u64);
            push_str(out, " @@\n");
            write_lines(out, lines);
        },
        PatchFileChange::Delete { lines, .. } => {
            push_str(out, "--- ");
            push_str(out, a.as_str());
            push_str(out, "\n+++ /dev/null\n@@ -1,");
            push_decimal(out, lines.len() as u64);
            push_str(out, " +0,0 @@\n");
            write_lines(out, lines);
        },
        PatchFileChange::BinaryNotice { .. } => {
            push_str(out, "--- a/");
            push_str(out, path.as_str());
            push_str(out, "\n+++ b/");
            push_str(out, path.as_str());
            push_str(out, "\nBinary files a/");
            push_str(out, path.as_str());
            push_str(out, " and b/");
            push_str(out, path.as_str());
            push_str(out, " differ\n");
        },
    }
    assert(out@ =~= before + change_text(*change));
}

/// Render a complete patch as unified-diff text: the summary header line,
/// then every file change in stored order.
pub fn to_unified(patch: &PatchDocument) -> (s: String)
    requires
        patch.summary.files_changed + patch.summary.files_added + patch.summary.files_deleted
            + patch.summary.binary_files <= usize::MAX,
    ensures
        s@ == unified_spec(*patch),
{
    let mut out = String::new();
    let sm = &patch.summary;
    let total = sm.files_changed + sm.files_added + sm.files_deleted + sm.binary_files;
    push_str(&mut out, "# forskscope patch: ");
    push_decimal(&mut out, total as u64);
    push_str(&mut out, " files, ");
    push_decimal(&mut out, sm.additions as u64);
    push_str(&mut out, " additions(+), ");
    push_decimal(&mut out, sm.deletions as u64);
    push_str(&mut out, " deletions(-)\n");
    assert(out@ =~= summary_text(patch.summary));
    let ghost start = out@;
    let mut i: usize = 0;
    while i < patch.files.len()
        invariant
            i <= patch.files@.len(),
            out@ == start + changes_text(patch.files@.subrange(0, i as int)),
        decreases patch.files@.len() - i,
    {
        proof {
            assert(patch.files@.subrange(0, i as int + 1).drop_last() =~= patch.files@.subrange(0, i as int));
        }
        write_file_change(&mut out, &patch.files[i]);
        assert(out@ =~= start + changes_text(patch.files@.subrange(0, i as int + 1)));
        i = i + 1;
    }
    assert(patch.files@.subrange(0, patch.files@.len() as int) =~= patch.files@);
    out
}

} // verus!
