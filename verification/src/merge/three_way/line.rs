//! Line model shared by the diff engine and the three-way merge engine.
//!
//! Lines preserve their original terminator so a merged result
//! round-trips the source line endings.

use vstd::prelude::*;

use crate::diff::model::{newline_chars, rendered_line, NewlineMarker};
use crate::text::{chars_of, push_str, string_from_chars};

verus! {

/// One source line: content without terminator, plus its terminator marker.
#[derive(Debug, Clone, PartialEq, Eq)]
pub struct MergeLine {
    pub content: String,
    pub newline: NewlineMarker,
}

impl MergeLine {
    /// The line's content followed by its terminator.
    pub open spec fn spec_rendered(self) -> Seq<char> {
        rendered_line(self.content@, self.newline)
    }

    /// Reconstruct the line including its terminator.
    pub fn rendered(&self) -> (s: String)
        ensures
            s@ == self.spec_rendered(),
    {
        let mut s = self.content.clone();
        push_str(&mut s, self.newline.as_str());
        s
    }

    /// An identical copy of this line.
    pub fn duplicate(&self) -> (r: Self)
        ensures
            r == *self,
    {
        MergeLine { content: self.content.clone(), newline: self.newline }
    }
}

/// The concatenation of the rendered lines, in order.
pub open spec fn render_spec(lines: Seq<MergeLine>) -> Seq<char>
    decreases lines.len(),
{
    if lines.len() == 0 {
        Seq::empty()
    } else {
        render_spec(lines.drop_last()) + lines.last().spec_rendered()
    }
}

/// A character that ends a line.
pub open spec fn is_line_break(c: char) -> bool {
    c == '\n' || c == '\r'
}

/// The shape every split produces: no content holds a line break, only
/// the last line may lack a terminator (and then it is not empty), and a
/// lone `\r` is never directly followed by an empty `\n` line (that pair
/// is one `\r\n` terminator).
pub open spec fn well_formed_lines(lines: Seq<MergeLine>) -> bool {
    &&& forall|i: int, k: int| 0 <= i < lines.len() && 0 <= k < lines[i].content@.len()
        ==> !is_line_break(#[trigger] lines[i].content@[k])
    &&& forall|i: int| 0 <= i < lines.len() && #[trigger] lines[i].newline == NewlineMarker::NoNewline
        ==> i == lines.len() - 1 && lines[i].content@.len() > 0
    &&& forall|i: int, j: int| #![trigger lines[i], lines[j]]
        0 <= i && j == i + 1 && j < lines.len() && lines[i].newline == NewlineMarker::Cr
        ==> !(lines[j].content@.len() == 0 && lines[j].newline == NewlineMarker::Lf)
}

proof fn lemma_render_push(lines: Seq<MergeLine>, l: MergeLine)
    ensures
        render_spec(lines.push(l)) == render_spec(lines) + l.spec_rendered(),
{
    assert(lines.push(l).drop_last() =~= lines);
}

proof fn lemma_push_well_formed(lines: Seq<MergeLine>, l: MergeLine)
    requires
        well_formed_lines(lines),
        forall|j: int| 0 <= j < lines.len() ==> lines[j].newline != NewlineMarker::NoNewline,
        forall|k: int| 0 <= k < l.content@.len() ==> !is_line_break(#[trigger] l.content@[k]),
        l.newline == NewlineMarker::NoNewline ==> l.content@.len() > 0,
        lines.len() > 0 && lines.last().newline == NewlineMarker::Cr
            ==> !(l.content@.len() == 0 && l.newline == NewlineMarker::Lf),
    ensures
        well_formed_lines(lines.push(l)),
{
    let out = lines.push(l);
    assert forall|j: int, k: int| 0 <= j < out.len() && 0 <= k < out[j].content@.len()
        implies !is_line_break(#[trigger] out[j].content@[k]) by {
        if j < lines.len() {
            assert(out[j] == lines[j]);
        }
    }
    assert forall|j: int| 0 <= j < out.len() && #[trigger] out[j].newline == NewlineMarker::NoNewline
        implies j == out.len() - 1 && out[j].content@.len() > 0 by {
        if j < lines.len() {
            assert(out[j] == lines[j]);
        }
    }
    assert forall|i: int, j: int| #![trigger out[i], out[j]]
        0 <= i && j == i + 1 && j < out.len() && out[i].newline == NewlineMarker::Cr
        implies !(out[j].content@.len() == 0 && out[j].newline == NewlineMarker::Lf) by {
        if j < lines.len() {
            assert(out[i] == lines[i]);
            assert(out[j] == lines[j]);
        } else {
            assert(out[i] == lines.last());
        }
    }
}

/// Split text into terminator-preserving lines. `\n`, `\r\n` and a lone
/// `\r` each end a line; a final line without terminator is kept.
/// Rendering the result gives back exactly `text`.
pub fn split_lines(text: &str) -> (out: Vec<MergeLine>)
    ensures
        render_spec(out@) == text@,
        well_formed_lines(out@),
{
    let chars = chars_of(text);
    let n = chars.len();
    let mut out: Vec<MergeLine> = Vec::new();
    let mut start: usize = 0;
    let mut i: usize = 0;
    while i < n
        invariant
            n == chars@.len(),
            chars@ == text@,
            start <= i <= n,
            render_spec(out@) == chars@.subrange(0, start as int),
            forall|k: int| start <= k < i ==> !is_line_break(#[trigger] chars@[k]),
            well_formed_lines(out@),
            forall|j: int| 0 <= j < out@.len() ==> out@[j].newline != NewlineMarker::NoNewline,
            out@.len() > 0 && out@.last().newline == NewlineMarker::Cr && start < n
                ==> chars@[start as int] != '\n',
        decreases n - i,
    {
        let c = chars[i];
        if c == '\n' || c == '\r' {
            let (marker, step): (NewlineMarker, usize) = if c == '\n' {
                (NewlineMarker::Lf, 1)
            } else if i + 1 < n && chars[i + 1] == '\n' {
                (NewlineMarker::CrLf, 2)
            } else {
                (NewlineMarker::Cr, 1)
            };
            let content = string_from_chars(&chars, start, i);
            let line = MergeLine { content, newline: marker };
            proof {
                lemma_render_push(out@, line);
                assert(line.spec_rendered() =~= chars@.subrange(start as int, (i + step) as int));
                assert(chars@.subrange(0, start as int) + chars@.subrange(start as int, (i + step) as int)
                    =~= chars@.subrange(0, (i + step) as int));
                assert forall|k: int| 0 <= k < line.content@.len()
                    implies !is_line_break(#[trigger] line.content@[k]) by {
                    assert(line.content@[k] == chars@[start + k]);
                }
                lemma_push_well_formed(out@, line);
            }
            out.push(line);
            i = i + step;
            start = i;
        } else {
            i = i + 1;
        }
    }
    if start < n {
        let content = string_from_chars(&chars, start, n);
        let line = MergeLine { content, newline: NewlineMarker::NoNewline };
        proof {
            lemma_render_push(out@, line);
            assert(line.spec_rendered() =~= chars@.subrange(start as int, n as int));
            assert(chars@.subrange(0, start as int) + chars@.subrange(start as int, n as int)
                =~= chars@.subrange(0, n as int));
            assert forall|k: int| 0 <= k < line.content@.len()
                implies !is_line_break(#[trigger] line.content@[k]) by {
                assert(line.content@[k] == chars@[start + k]);
            }
            lemma_push_well_formed(out@, line);
        }
        out.push(line);
    }
    assert(chars@.subrange(0, n as int) =~= chars@);
    out
}

/// Render a slice of lines back to a string.
pub fn render_lines(lines: &[MergeLine]) -> (s: String)
    ensures
        s@ == render_spec(lines@),
{
    let mut s = String::new();
    let mut i: usize = 0;
    while i < lines.len()
        invariant
            i <= lines@.len(),
            s@ == render_spec(lines@.subrange(0, i as int)),
        decreases lines@.len() - i,
    {
        proof {
            lemma_render_push(lines@.subrange(0, i as int), lines@[i as int]);
            assert(lines@.subrange(0, i as int).push(lines@[i as int]) =~= lines@.subrange(0, i as int + 1));
        }
        push_str(&mut s, lines[i].content.as_str());
        push_str(&mut s, lines[i].newline.as_str());
        assert(s@ =~= render_spec(lines@.subrange(0, i as int + 1)));
        i = i + 1;
    }
    assert(lines@.subrange(0, lines@.len() as int) =~= lines@);
    s
}

/// Comparison key for one line: full content plus terminator, so a
/// newline-only change is a real change for merge purposes.
pub fn key(line: &MergeLine) -> (k: String)
    ensures
        k@ == line.spec_rendered(),
{
    line.rendered()
}

} // verus!
