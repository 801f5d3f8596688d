//! Text decoding, encoding and newline/BOM policy. Decoding keeps the
//! resolved encoding label, whether replacement characters were produced,
//! and the dominant newline style; saving encodes through the same label
//! so a legacy-encoded file round-trips without a silent conversion.

use vstd::prelude::*;

use crate::text::{chars_of, str_equal};

verus! {

/// Resolved text encoding of a loaded document.
#[derive(Debug, Clone, PartialEq, Eq)]
pub struct TextEncoding {
    /// Canonical label, e.g. `UTF-8`, `Shift_JIS`, `windows-1252`.
    pub label: String,
}

impl TextEncoding {
    /// The UTF-8 encoding (label `UTF-8`, `encoding_rs::UTF_8.name()`).
    pub fn utf8() -> (e: Self)
        ensures
            e.label@ == "UTF-8"@,
    {
        TextEncoding { label: String::from_str("UTF-8") }
    }
}

/// Dominant newline style of a text document.
#[derive(Debug, Clone, Copy, PartialEq, Eq, Structural)]
pub enum NewlineStyle {
    Lf,
    CrLf,
    Cr,
    /// More than one style appears.
    Mixed,
    /// The document has no newline at all.
    NoNewline,
}

/// Whether the bytes are well-formed UTF-8, and their text when they are.
///
/// Trusted: wraps `std::str::from_utf8`, which succeeds exactly on valid
/// UTF-8 and then yields the decoded text.
#[verifier::external_body]
fn utf8_text(bytes: &[u8]) -> (r: Option<String>)
    ensures
        r is Some <==> vstd::utf8::valid_utf8(bytes@),
        r matches Some(s) ==> s@ == vstd::utf8::decode_utf8(bytes@),
{
    match std::str::from_utf8(bytes) {
        Ok(s) => Some(s.to_string()),
        Err(_) => None,
    }
}

/// The label `chardetng` guesses for a complete byte buffer.
pub uninterp spec fn chardet_guess(bytes: Seq<u8>) -> Seq<char>;

/// The encoding label guessed for `bytes`.
///
/// Trusted: wraps `chardetng::EncodingDetector::new`, `feed(bytes, true)`
/// and `guess(None, true)`, returning the guessed encoding's name; the
/// contract only names the result, a function of the bytes alone.
#[verifier::external_body]
fn guess_encoding(bytes: &[u8]) -> (label: String)
    ensures
        label@ == chardet_guess(bytes@),
{
    let mut detector = chardetng::EncodingDetector::new();
    detector.feed(bytes, true);
    detector.guess(None, true).name().to_string()
}

/// `encoding_rs` decoding with BOM sniffing under the encoding a
/// recognized label names: text, the encoding actually used, and whether
/// replacements were emitted.
pub uninterp spec fn rs_decode(label: Seq<char>, bytes: Seq<u8>) -> (Seq<char>, Seq<char>, bool);

/// Decode with BOM sniffing under a recognized label.
///
/// Trusted: wraps `Encoding::for_label`, which finds the encoding of a
/// recognized label, and `Encoding::decode`; the contract only names the
/// result.
#[verifier::external_body]
fn decode_sniffing(label: &str, bytes: &[u8]) -> (r: (String, String, bool))
    requires
        rs_known_label(label@),
    ensures
        (r.0@, r.1@, r.2) == rs_decode(label@, bytes@),
{
    let enc = encoding_rs::Encoding::for_label(label.as_bytes()).unwrap();
    let (text, used, had_errors) = enc.decode(bytes);
    (text.into_owned(), used.name().to_string(), had_errors)
}

/// `encoding_rs` decoding without BOM handling under the encoding a
/// recognized label names: text, that encoding's canonical name, and
/// whether replacements were emitted.
pub uninterp spec fn rs_decode_no_bom(label: Seq<char>, bytes: Seq<u8>) -> (Seq<char>, Seq<char>, bool);

/// Decode without BOM handling under a recognized label.
///
/// Trusted: wraps `Encoding::for_label`, which finds the encoding of a
/// recognized label, and `Encoding::decode_without_bom_handling`; the
/// contract names the result, and states that the labels `UTF-8`,
/// `UTF-16LE` and `UTF-16BE` find the encodings whose names they are (the
/// crate's label table maps their lowercase forms to `UTF_8`, `UTF_16LE`
/// and `UTF_16BE`, named `UTF-8`, `UTF-16LE` and `UTF-16BE`).
#[verifier::external_body]
fn decode_plain(label: &str, bytes: &[u8]) -> (r: (String, String, bool))
    requires
        rs_known_label(label@),
    ensures
        (r.0@, r.1@, r.2) == rs_decode_no_bom(label@, bytes@),
        label@ == "UTF-8"@ || label@ == "UTF-16LE"@ || label@ == "UTF-16BE"@ ==> r.1@ == label@,
{
    let enc = encoding_rs::Encoding::for_label(label.as_bytes()).unwrap();
    let (text, had_errors) = enc.decode_without_bom_handling(bytes);
    (text.into_owned(), enc.name().to_string(), had_errors)
}

/// Whether `encoding_rs` recognizes a label.
pub uninterp spec fn rs_known_label(label: Seq<char>) -> bool;

/// Whether a label names an encoding.
///
/// Trusted: wraps `Encoding::for_label(..).is_some()`; the contract names
/// the result and states that the labels `UTF-8`, `UTF-16LE` and
/// `UTF-16BE` are recognized (they are in the crate's label table).
#[verifier::external_body]
fn label_known(label: &str) -> (b: bool)
    ensures
        b == rs_known_label(label@),
        label@ == "UTF-8"@ || label@ == "UTF-16LE"@ || label@ == "UTF-16BE"@ ==> b,
{
    encoding_rs::Encoding::for_label(label.as_bytes()).is_some()
}

/// `encoding_rs` encoding of a text under a recognized label: the bytes
/// and whether unmappable characters were replaced.
pub uninterp spec fn rs_encode(label: Seq<char>, text: Seq<char>) -> (Seq<u8>, bool);

/// Encode a text under a recognized label.
///
/// Trusted: wraps `Encoding::for_label`, which finds the encoding of a
/// recognized label, and `Encoding::encode`; the contract only names the
/// result.
#[verifier::external_body]
fn encode_with(label: &str, text: &str) -> (r: (Vec<u8>, bool))
    requires
        rs_known_label(label@),
    ensures
        (r.0@, r.1) == rs_encode(label@, text@),
{
    let enc = encoding_rs::Encoding::for_label(label.as_bytes()).unwrap();
    let (bytes, _, had_errors) = enc.encode(text);
    (bytes.into_owned(), had_errors)
}

/// A recognized label as it is, UTF-8 in place of any other.
pub open spec fn known_or_utf8(label: Seq<char>) -> Seq<char> {
    if rs_known_label(label) { label } else { "UTF-8"@ }
}

/// The label `s` when it is recognized, `UTF-8` otherwise; the labels
/// `UTF-8`, `UTF-16LE` and `UTF-16BE` are always recognized.
fn recognized_label(s: &str) -> (r: &str)
    ensures
        r@ == known_or_utf8(s@),
        rs_known_label(r@),
        s@ == "UTF-8"@ || s@ == "UTF-16LE"@ || s@ == "UTF-16BE"@ ==> r@ == s@,
{
    if label_known(s) {
        s
    } else {
        let utf8 = "UTF-8";
        let utf8_known = label_known(utf8);
        assert(utf8_known);
        utf8
    }
}

/// The result of `decode_bytes`: valid UTF-8 is taken as is; otherwise
/// the guessed encoding decodes it (UTF-8 when the guess is not a
/// recognized label).
pub open spec fn decode_bytes_spec(bytes: Seq<u8>) -> (Seq<char>, Seq<char>, bool) {
    if vstd::utf8::valid_utf8(bytes) {
        (vstd::utf8::decode_utf8(bytes), "UTF-8"@, false)
    } else {
        rs_decode(known_or_utf8(chardet_guess(bytes)), bytes)
    }
}

/// Decode raw bytes into text with its encoding and whether replacement
/// characters were emitted: valid UTF-8 directly, anything else through
/// the guessed encoding.
pub fn decode_bytes(bytes: &[u8]) -> (r: (String, TextEncoding, bool))
    ensures
        (r.0@, r.1.label@, r.2) == decode_bytes_spec(bytes@),
{
    match utf8_text(bytes) {
        Some(s) => (s, TextEncoding::utf8(), false),
        None => {
            let guess = guess_encoding(bytes);
            let label = recognized_label(guess.as_str());
            let (text, used, had_errors) = decode_sniffing(label, bytes);
            (text, TextEncoding { label: used }, had_errors)
        },
    }
}

/// Whether a Byte Order Mark started a loaded file.
#[derive(Debug, Clone, Copy, PartialEq, Eq, Default, Structural)]
pub enum BomPresence {
    /// No BOM.
    #[default]
    Absent,
    /// UTF-8 BOM `EF BB BF`.
    Utf8,
    /// UTF-16 LE BOM `FF FE`.
    Utf16Le,
    /// UTF-16 BE BOM `FE FF`.
    Utf16Be,
}

/// The bytes of each BOM kind.
pub open spec fn bom_bytes(b: BomPresence) -> Seq<u8> {
    match b {
        BomPresence::Absent => Seq::empty(),
        BomPresence::Utf8 => seq![0xEFu8, 0xBBu8, 0xBFu8],
        BomPresence::Utf16Le => seq![0xFFu8, 0xFEu8],
        BomPresence::Utf16Be => seq![0xFEu8, 0xFFu8],
    }
}

/// The result of `decode_body`: a BOM selects its encoding directly
/// (decoded without BOM handling); without one, `decode_bytes` decides.
pub open spec fn decode_body_spec(bom: BomPresence, rest: Seq<u8>) -> (Seq<char>, Seq<char>, bool) {
    match bom {
        BomPresence::Utf8 => (rs_decode_no_bom("UTF-8"@, rest).0, "UTF-8"@, rs_decode_no_bom("UTF-8"@, rest).2),
        BomPresence::Utf16Le => (rs_decode_no_bom("UTF-16LE"@, rest).0, "UTF-16LE"@, rs_decode_no_bom("UTF-16LE"@, rest).2),
        BomPresence::Utf16Be => (rs_decode_no_bom("UTF-16BE"@, rest).0, "UTF-16BE"@, rs_decode_no_bom("UTF-16BE"@, rest).2),
        BomPresence::Absent => decode_bytes_spec(rest),
    }
}

/// Decode BOM-stripped bytes given the BOM that preceded them: a BOM is an
/// authoritative encoding declaration and selects that encoding; without
/// one, `decode_bytes` decides.
pub fn decode_body(bom: BomPresence, rest: &[u8]) -> (r: (String, TextEncoding, bool))
    ensures
        (r.0@, r.1.label@, r.2) == decode_body_spec(bom, rest@),
{
    match bom {
        BomPresence::Utf8 => {
            let (text, _used, had_errors) = decode_plain(recognized_label("UTF-8"), rest);
            (text, TextEncoding::utf8(), had_errors)
        },
        BomPresence::Utf16Le => {
            let (text, used, had_errors) = decode_plain(recognized_label("UTF-16LE"), rest);
            (text, TextEncoding { label: used }, had_errors)
        },
        BomPresence::Utf16Be => {
            let (text, used, had_errors) = decode_plain(recognized_label("UTF-16BE"), rest);
            (text, TextEncoding { label: used }, had_errors)
        },
        BomPresence::Absent => decode_bytes(rest),
    }
}

/// Re-decode bytes with an explicit, user-chosen encoding label (UTF-8 for
/// an unrecognized one), without guessing.
pub fn decode_with_label(bytes: &[u8], label: &str) -> (r: (String, TextEncoding, bool))
    ensures
        (r.0@, r.1.label@, r.2) == rs_decode_no_bom(known_or_utf8(label@), bytes@),
{
    let (text, used, had_errors) = decode_plain(recognized_label(label), bytes);
    (text, TextEncoding { label: used }, had_errors)
}

/// The result of encoding text for saving.
#[derive(Debug, Clone)]
pub struct EncodeOutcome {
    pub bytes: Vec<u8>,
    /// `true` when the label was not recognized and UTF-8 was used.
    pub unknown_label_fallback: bool,
    /// `true` when some character could not be represented and was
    /// replaced; the save path treats this as a refusal.
    pub lossy: bool,
}

/// Encode text for saving under a label; an unrecognized label falls back
/// to the UTF-8 bytes of the text.
pub fn encode_text(content: &str, label: &str) -> (o: EncodeOutcome)
    ensures
        rs_known_label(label@) ==> (o.bytes@, o.lossy) == rs_encode(label@, content@) && !o.unknown_label_fallback,
        !rs_known_label(label@) ==> o.bytes@ == vstd::utf8::encode_utf8(content@) && o.unknown_label_fallback && !o.lossy,
{
    if label_known(label) {
        let (bytes, lossy) = encode_with(label, content);
        EncodeOutcome { bytes, unknown_label_fallback: false, lossy }
    } else {
        let b = content.as_bytes();
        let mut bytes: Vec<u8> = Vec::new();
        let mut i: usize = 0;
        while i < b.len()
            invariant
                i <= b@.len(),
                bytes@ == b@.subrange(0, i as int),
            decreases b@.len() - i,
        {
            bytes.push(b[i]);
            assert(bytes@ =~= b@.subrange(0, i as int + 1));
            i = i + 1;
        }
        assert(b@.subrange(0, b@.len() as int) =~= b@);
        EncodeOutcome { bytes, unknown_label_fallback: true, lossy: false }
    }
}

/// Default cap on distinct unmappable characters reported by name.
pub const MAX_REPORTED_UNMAPPABLE_CHARS: usize = 5;

/// The distinct characters of `s` that a label's encoding cannot
/// represent, in order of first appearance.
pub open spec fn unmappable_distinct(label: Seq<char>, s: Seq<char>) -> Seq<char>
    decreases s.len(),
{
    if s.len() == 0 {
        Seq::empty()
    } else {
        let prev = unmappable_distinct(label, s.drop_last());
        let c = s.last();
        if rs_encode(label, seq![c]).1 && !prev.contains(c) {
            prev.push(c)
        } else {
            prev
        }
    }
}

fn char_str(c: char) -> (s: String)
    ensures
        s@ == seq![c],
{
    let mut s = String::new();
    crate::text::push_char(&mut s, c);
    assert(s@ =~= seq![c]);
    s
}

/// The distinct characters of `content` that `label`'s encoding cannot
/// represent, in order of first appearance, capped at `cap`, plus how
/// many more distinct ones exist beyond the cap; nothing for an
/// unrecognized label.
pub fn unmappable_characters(content: &str, label: &str, cap: usize) -> (r: (Vec<char>, usize))
    ensures
        !rs_known_label(label@) ==> r.0@.len() == 0 && r.1 == 0,
        rs_known_label(label@) ==> ({
            let all = unmappable_distinct(label@, content@);
            &&& r.0@ == all.take(if all.len() < cap { all.len() as int } else { cap as int })
            &&& r.1 == all.len() - r.0@.len()
        }),
{
    if !label_known(label) {
        return (Vec::new(), 0);
    }
    let chars = chars_of(content);
    let mut seen: Vec<char> = Vec::new();
    let mut i: usize = 0;
    while i < chars.len()
        invariant
            chars@ == content@,
            rs_known_label(label@),
            i <= chars@.len(),
            seen@ == unmappable_distinct(label@, chars@.subrange(0, i as int)),
            seen@.len() <= i,
        decreases chars@.len() - i,
    {
        let c = chars[i];
        proof {
            assert(chars@.subrange(0, i as int + 1).drop_last() =~= chars@.subrange(0, i as int));
        }
        let (_bytes, had_errors) = encode_with(label, char_str(c).as_str());
        if had_errors {
            let mut k: usize = 0;
            let mut found = false;
            while k < seen.len()
                invariant
                    k <= seen@.len(),
                    found == exists|j: int| 0 <= j < k && seen@[j] == c,
                decreases seen@.len() - k,
            {
                if seen[k] == c {
                    found = true;
                }
                k = k + 1;
            }
            if !found {
                seen.push(c);
            }
        }
        i = i + 1;
    }
    assert(chars@.subrange(0, chars@.len() as int) =~= chars@);
    let n = if seen.len() < cap { seen.len() } else { cap };
    let mut sample: Vec<char> = Vec::new();
    let mut k: usize = 0;
    while k < n
        invariant
            n <= seen@.len(),
            k <= n,
            sample@ == seen@.take(k as int),
        decreases n - k,
    {
        sample.push(seen[k]);
        assert(sample@ =~= seen@.take(k as int + 1));
        k = k + 1;
    }
    (sample, seen.len() - n)
}

/// Newline counts of a text read from the front: `\r\n` pairs, lone
/// `\n`, lone `\r`.
pub open spec fn newline_counts(s: Seq<char>) -> (nat, nat, nat)
    decreases s.len(),
{
    if s.len() == 0 {
        (0, 0, 0)
    } else if s[0] == '\r' && s.len() > 1 && s[1] == '\n' {
        let r = newline_counts(s.subrange(2, s.len() as int));
        (r.0 + 1, r.1, r.2)
    } else if s[0] == '\r' {
        let r = newline_counts(s.subrange(1, s.len() as int));
        (r.0, r.1, r.2 + 1)
    } else if s[0] == '\n' {
        let r = newline_counts(s.subrange(1, s.len() as int));
        (r.0, r.1 + 1, r.2)
    } else {
        newline_counts(s.subrange(1, s.len() as int))
    }
}

/// The style a text's newline counts give: none, exactly one kind, or
/// mixed.
pub open spec fn newline_style_spec(s: Seq<char>) -> NewlineStyle {
    let (crlf, lf, cr) = newline_counts(s);
    if crlf == 0 && lf == 0 && cr == 0 {
        NewlineStyle::NoNewline
    } else if crlf > 0 && lf == 0 && cr == 0 {
        NewlineStyle::CrLf
    } else if crlf == 0 && lf > 0 && cr == 0 {
        NewlineStyle::Lf
    } else if crlf == 0 && lf == 0 && cr > 0 {
        NewlineStyle::Cr
    } else {
        NewlineStyle::Mixed
    }
}

/// Detect the dominant newline style of a text.
pub fn detect_newline_style(text: &str) -> (st: NewlineStyle)
    ensures
        st == newline_style_spec(text@),
{
    let c = chars_of(text);
    let mut crlf: usize = 0;
    let mut lf: usize = 0;
    let mut cr: usize = 0;
    let mut i: usize = 0;
    assert(c@.subrange(0, c@.len() as int) =~= c@);
    while i < c.len()
        invariant
            c@ == text@,
            i <= c@.len(),
            crlf + lf + cr <= i,
            ({
                let rest = newline_counts(c@.subrange(i as int, c@.len() as int));
                newline_counts(text@) == ((crlf + rest.0) as nat, (lf + rest.1) as nat, (cr + rest.2) as nat)
            }),
        decreases c@.len() - i,
    {
        let ghost rest = c@.subrange(i as int, c@.len() as int);
        if c[i] == '\r' {
            if i + 1 < c.len() && c[i + 1] == '\n' {
                assert(rest.subrange(2, rest.len() as int) =~= c@.subrange(i + 2, c@.len() as int));
                crlf = crlf + 1;
                i = i + 2;
            } else {
                assert(rest.subrange(1, rest.len() as int) =~= c@.subrange(i + 1, c@.len() as int));
                cr = cr + 1;
                i = i + 1;
            }
        } else {
            assert(rest.subrange(1, rest.len() as int) =~= c@.subrange(i + 1, c@.len() as int));
            if c[i] == '\n' {
                lf = lf + 1;
            }
            i = i + 1;
        }
    }
    assert(c@.subrange(i as int, c@.len() as int).len() == 0);
    if crlf == 0 && lf == 0 && cr == 0 {
        NewlineStyle::NoNewline
    } else if crlf > 0 && lf == 0 && cr == 0 {
        NewlineStyle::CrLf
    } else if crlf == 0 && lf > 0 && cr == 0 {
        NewlineStyle::Lf
    } else if crlf == 0 && lf == 0 && cr > 0 {
        NewlineStyle::Cr
    } else {
        NewlineStyle::Mixed
    }
}

/// How newline endings are handled when saving a merged result.
#[derive(Debug, Clone, Copy, PartialEq, Eq, Default, Structural)]
pub enum NewlinePolicy {
    /// Keep the style detected at load. Default.
    #[default]
    Preserve,
    /// Always write LF.
    ForceLf,
    /// Always write CRLF.
    ForceCrlf,
}

/// The newline a policy writes for a detected style; `None` when
/// preserving a mixed or absent style (keep the original endings).
pub open spec fn resolve_newline(p: NewlinePolicy, detected: NewlineStyle) -> Option<Seq<char>> {
    match p {
        NewlinePolicy::ForceLf => Some(seq!['\n']),
        NewlinePolicy::ForceCrlf => Some(seq!['\r', '\n']),
        NewlinePolicy::Preserve => match detected {
            NewlineStyle::Lf => Some(seq!['\n']),
            NewlineStyle::CrLf => Some(seq!['\r', '\n']),
            NewlineStyle::Cr => Some(seq!['\r']),
            _ => None,
        },
    }
}

impl NewlinePolicy {
    /// The newline string to use when saving.
    pub fn resolve(self, detected: NewlineStyle) -> (r: Option<&'static str>)
        ensures
            match resolve_newline(self, detected) {
                Some(n) => r matches Some(s) && s@ == n,
                None => r is None,
            },
    {
        proof {
            reveal_strlit("\n");
            reveal_strlit("\r\n");
            reveal_strlit("\r");
        }
        match self {
            NewlinePolicy::ForceLf => Some("\n"),
            NewlinePolicy::ForceCrlf => Some("\r\n"),
            NewlinePolicy::Preserve => match detected {
                NewlineStyle::Lf => Some("\n"),
                NewlineStyle::CrLf => Some("\r\n"),
                NewlineStyle::Cr => Some("\r"),
                NewlineStyle::Mixed | NewlineStyle::NoNewline => None,
            },
        }
    }
}

impl BomPresence {
    /// `true` when any BOM was detected.
    pub fn is_present(self) -> (b: bool)
        ensures
            b == (self != BomPresence::Absent),
    {
        !matches!(self, BomPresence::Absent)
    }

    /// The raw BOM bytes of this kind.
    pub fn bytes(self) -> (v: Vec<u8>)
        ensures
            v@ == bom_bytes(self),
    {
        let v = match self {
            BomPresence::Absent => Vec::new(),
            BomPresence::Utf8 => vec![0xEFu8, 0xBBu8, 0xBFu8],
            BomPresence::Utf16Le => vec![0xFFu8, 0xFEu8],
            BomPresence::Utf16Be => vec![0xFEu8, 0xFFu8],
        };
        assert(v@ =~= bom_bytes(self));
        v
    }
}

/// Policy for the BOM when saving.
#[derive(Debug, Clone, Copy, PartialEq, Eq, Default, Structural)]
pub enum BomPolicy {
    /// Keep whatever BOM the loaded file had (or had not). Default.
    #[default]
    Preserve,
    /// Always strip the BOM.
    Strip,
    /// Always write a UTF-8 BOM.
    AddUtf8,
}

impl BomPolicy {
    /// The BOM bytes to prepend when saving a file loaded with `original`.
    pub fn resolve_bytes(self, original: BomPresence) -> (v: Vec<u8>)
        ensures
            v@ == match self {
                BomPolicy::Preserve => bom_bytes(original),
                BomPolicy::Strip => Seq::empty(),
                BomPolicy::AddUtf8 => bom_bytes(BomPresence::Utf8),
            },
    {
        match self {
            BomPolicy::Preserve => original.bytes(),
            BomPolicy::Strip => Vec::new(),
            BomPolicy::AddUtf8 => BomPresence::Utf8.bytes(),
        }
    }
}

/// The BOM a byte buffer starts with, checked in order UTF-8, UTF-16 LE,
/// UTF-16 BE.
pub open spec fn detected_bom(bytes: Seq<u8>) -> BomPresence {
    if bytes.len() >= 3 && bytes.take(3) == bom_bytes(BomPresence::Utf8) {
        BomPresence::Utf8
    } else if bytes.len() >= 2 && bytes.take(2) == bom_bytes(BomPresence::Utf16Le) {
        BomPresence::Utf16Le
    } else if bytes.len() >= 2 && bytes.take(2) == bom_bytes(BomPresence::Utf16Be) {
        BomPresence::Utf16Be
    } else {
        BomPresence::Absent
    }
}

/// A Byte Order Mark decides the decoding of what follows it: the reported
/// encoding is the one the mark names (`EF BB BF` UTF-8, `FF FE` UTF-16LE,
/// `FE FF` UTF-16BE), and the text and the replacement flag are those of
/// decoding the rest, without BOM handling, under that reported encoding.
pub proof fn law_bom_names_decoding(bytes: Seq<u8>)
    ensures
        ({
            let bom = detected_bom(bytes);
            let rest = bytes.subrange(bom_bytes(bom).len() as int, bytes.len() as int);
            let r = decode_body_spec(bom, rest);
            &&& bom != BomPresence::Absent ==> r.0 == rs_decode_no_bom(r.1, rest).0 && r.2 == rs_decode_no_bom(r.1, rest).2
            &&& bytes.len() >= 3 && bytes[0] == 0xEFu8 && bytes[1] == 0xBBu8 && bytes[2] == 0xBFu8 ==> r.1 == "UTF-8"@
            &&& bytes.len() >= 2 && bytes[0] == 0xFFu8 && bytes[1] == 0xFEu8 ==> r.1 == "UTF-16LE"@
            &&& bytes.len() >= 2 && bytes[0] == 0xFEu8 && bytes[1] == 0xFFu8 ==> r.1 == "UTF-16BE"@
        }),
{
    if bytes.len() >= 3 && bytes[0] == 0xEFu8 && bytes[1] == 0xBBu8 && bytes[2] == 0xBFu8 {
        assert(bytes.take(3) =~= bom_bytes(BomPresence::Utf8));
    } else if bytes.len() >= 2 && bytes[0] == 0xFFu8 && bytes[1] == 0xFEu8 {
        assert(bytes.take(2) =~= bom_bytes(BomPresence::Utf16Le));
        if bytes.len() >= 3 && bytes.take(3) == bom_bytes(BomPresence::Utf8) {
            assert(bytes.take(3)[0] == bytes[0]);
        }
    } else if bytes.len() >= 2 && bytes[0] == 0xFEu8 && bytes[1] == 0xFFu8 {
        assert(bytes.take(2) =~= bom_bytes(BomPresence::Utf16Be));
        if bytes.len() >= 3 && bytes.take(3) == bom_bytes(BomPresence::Utf8) {
            assert(bytes.take(3)[0] == bytes[0]);
        }
        if bytes.take(2) == bom_bytes(BomPresence::Utf16Le) {
            assert(bytes.take(2)[0] == bytes[0]);
        }
    }
}

/// Detect a BOM at the start of a buffer: the BOM kind and the bytes after
/// it.
pub fn detect_bom(bytes: &[u8]) -> (r: (BomPresence, &[u8]))
    ensures
        r.0 == detected_bom(bytes@),
        r.1@ == bytes@.subrange(bom_bytes(r.0).len() as int, bytes@.len() as int),
{
    let n = bytes.len();
    if n >= 3 && bytes[0] == 0xEF && bytes[1] == 0xBB && bytes[2] == 0xBF {
        assert(bytes@.take(3) =~= bom_bytes(BomPresence::Utf8));
        let (_a, rest) = bytes.split_at(3);
        return (BomPresence::Utf8, rest);
    }
    assert(!(n >= 3 && bytes@.take(3) == bom_bytes(BomPresence::Utf8))) by {
        if n >= 3 && bytes@.take(3) == bom_bytes(BomPresence::Utf8) {
            assert(bytes@.take(3)[0] == bytes@[0]);
            assert(bytes@.take(3)[1] == bytes@[1]);
            assert(bytes@.take(3)[2] == bytes@[2]);
        }
    }
    if n >= 2 && bytes[0] == 0xFF && bytes[1] == 0xFE {
        assert(bytes@.take(2) =~= bom_bytes(BomPresence::Utf16Le));
        let (_a, rest) = bytes.split_at(2);
        return (BomPresence::Utf16Le, rest);
    }
    assert(!(n >= 2 && bytes@.take(2) == bom_bytes(BomPresence::Utf16Le))) by {
        if n >= 2 && bytes@.take(2) == bom_bytes(BomPresence::Utf16Le) {
            assert(bytes@.take(2)[0] == bytes@[0]);
            assert(bytes@.take(2)[1] == bytes@[1]);
        }
    }
    if n >= 2 && bytes[0] == 0xFE && bytes[1] == 0xFF {
        assert(bytes@.take(2) =~= bom_bytes(BomPresence::Utf16Be));
        let (_a, rest) = bytes.split_at(2);
        return (BomPresence::Utf16Be, rest);
    }
    assert(!(n >= 2 && bytes@.take(2) == bom_bytes(BomPresence::Utf16Be))) by {
        if n >= 2 && bytes@.take(2) == bom_bytes(BomPresence::Utf16Be) {
            assert(bytes@.take(2)[0] == bytes@[0]);
            assert(bytes@.take(2)[1] == bytes@[1]);
        }
    }
    assert(bytes@.subrange(0, bytes@.len() as int) =~= bytes@);
    (BomPresence::Absent, bytes)
}

} // verus!
