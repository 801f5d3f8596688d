//! File identity and loaded documents. `LoadedDocument` is the canonical
//! loaded representation of one comparison side; the fingerprint taken at
//! load backs external-modification detection at save time. Reading the
//! disk is the caller's part; this module builds documents from what was
//! read.

use vstd::prelude::*;

use crate::encoding::{
    decode_bytes, decode_bytes_spec, detect_bom, detect_newline_style, detected_bom, newline_style_spec,
    BomPresence, NewlineStyle, TextEncoding,
};
use crate::error::CoreError;
use crate::file_kind::FileKind;
use crate::hash::{fnv1a64, fnv1a64_spec};
use crate::text::{push_char, push_str};

verus! {

#[verifier::external_type_specification]
#[verifier::external_body]
pub struct ExPathBuf(std::path::PathBuf);

/// Copies a path.
///
/// Trusted: `PathBuf`'s `Clone`; nothing is claimed of the copy.
pub assume_specification[ <std::path::PathBuf as Clone>::clone ](p: &std::path::PathBuf) -> std::path::PathBuf;

/// Stable identity of a file in a session.
#[derive(Debug, Clone, PartialEq, Eq)]
pub struct FileId {
    pub canonical_path: std::path::PathBuf,
    pub display_path: String,
}

impl FileId {
    /// The identity of a canonicalized path with its display string.
    pub fn new(canonical_path: std::path::PathBuf, display_path: String) -> (f: Self)
        ensures
            f.canonical_path == canonical_path,
            f.display_path@ == display_path@,
    {
        FileId { canonical_path, display_path }
    }
}

/// Fingerprint for external-modification detection: length, modification
/// time and a cheap non-cryptographic content hash.
#[derive(Debug, Clone, Copy, PartialEq, Eq, Structural)]
pub struct FileFingerprint {
    pub len: u64,
    pub modified_unix_nanos: Option<i128>,
    pub digest: Option<u64>,
}

impl FileFingerprint {
    /// The fingerprint of a file with metadata `len` and `modified`,
    /// hashing `bytes` when given.
    pub fn from_metadata(len: u64, modified_unix_nanos: Option<i128>, bytes: Option<&[u8]>) -> (f: Self)
        ensures
            f.len == len,
            f.modified_unix_nanos == modified_unix_nanos,
            bytes is None ==> f.digest is None,
            bytes matches Some(b) ==> f.digest == Some(fnv1a64_spec(b@)),
    {
        let digest = match bytes {
            Some(b) => Some(fnv1a64(b)),
            None => None,
        };
        FileFingerprint { len, modified_unix_nanos, digest }
    }
}

/// Decoded text plus its metadata.
#[derive(Debug, Clone, PartialEq, Eq)]
pub struct TextDocument {
    pub content: String,
    pub encoding: TextEncoding,
    pub newline_style: NewlineStyle,
    pub had_decode_errors: bool,
    /// The BOM the file started with, preserved on save.
    pub bom: BomPresence,
}

/// A non-fatal observation made while loading.
#[derive(Debug, Clone, Copy, PartialEq, Eq, Structural)]
pub enum LoadWarning {
    DecodeReplacementsEmitted,
    BinaryRenderedAsHexPreview,
    ExcelRenderedAsDerivedText,
}

/// Loading options.
#[derive(Debug, Clone, Copy, Default)]
pub struct LoadOptions {
    /// When `true`, a missing path loads as an empty text document instead
    /// of failing, for "one side empty" comparisons.
    pub allow_missing: bool,
}

/// Canonical loaded representation of one comparison side.
#[derive(Debug, Clone)]
pub struct LoadedDocument {
    pub file_id: Option<FileId>,
    pub fingerprint_at_load: Option<FileFingerprint>,
    pub kind: FileKind,
    pub bytes_len: u64,
    /// Decoded text, hex preview, or adapter-derived text.
    pub text: Option<TextDocument>,
    pub warnings: Vec<LoadWarning>,
}

/// The empty pseudo-document of an intentionally absent side.
pub open spec fn is_empty_document(d: LoadedDocument) -> bool {
    &&& d.file_id is None
    &&& d.fingerprint_at_load is None
    &&& d.kind is Missing
    &&& d.bytes_len == 0
    &&& d.text matches Some(t) && t.content@.len() == 0 && t.encoding.label@ == "UTF-8"@
        && t.newline_style == NewlineStyle::NoNewline && !t.had_decode_errors && t.bom == BomPresence::Absent
    &&& d.warnings@.len() == 0
}

impl LoadedDocument {
    /// The empty pseudo-document of an intentionally absent side: missing,
    /// no identity, empty UTF-8 text without newlines.
    pub fn empty() -> (d: Self)
        ensures
            d.file_id is None,
            d.fingerprint_at_load is None,
            d.kind is Missing,
            d.bytes_len == 0,
            d.text matches Some(t) && t.content@.len() == 0 && t.encoding.label@ == "UTF-8"@
                && t.newline_style == NewlineStyle::NoNewline && !t.had_decode_errors && t.bom == BomPresence::Absent,
            d.warnings@.len() == 0,
    {
        LoadedDocument {
            file_id: None,
            fingerprint_at_load: None,
            kind: FileKind::Missing,
            bytes_len: 0,
            text: Some(TextDocument {
                content: String::new(),
                encoding: TextEncoding::utf8(),
                newline_style: NewlineStyle::NoNewline,
                had_decode_errors: false,
                bom: BomPresence::Absent,
            }),
            warnings: Vec::new(),
        }
    }

    /// Text for diffing, or `""` when there is none.
    pub fn diff_text(&self) -> (s: &str)
        ensures
            self.text matches Some(t) ==> s@ == t.content@,
            self.text is None ==> s@.len() == 0,
    {
        match &self.text {
            Some(t) => t.content.as_str(),
            None => {
                proof {
                    reveal_strlit("");
                }
                ""
            },
        }
    }

    /// The document of a text file read as `bytes`: decoded (valid UTF-8
    /// directly, otherwise by the guessed encoding), its newline style and
    /// leading BOM recorded, and a warning when replacements were emitted.
    pub fn from_text_bytes(file_id: FileId, fingerprint: FileFingerprint, bytes: &[u8]) -> (d: Self)
        ensures
            d.file_id == Some(file_id),
            d.fingerprint_at_load == Some(fingerprint),
            d.kind is Text,
            d.bytes_len == bytes@.len(),
            d.text matches Some(t) && (t.content@, t.encoding.label@, t.had_decode_errors) == decode_bytes_spec(bytes@)
                && t.newline_style == newline_style_spec(t.content@) && t.bom == detected_bom(bytes@),
            d.warnings@ == if decode_bytes_spec(bytes@).2 { seq![LoadWarning::DecodeReplacementsEmitted] } else { Seq::empty() },
    {
        let (content, encoding, had_errors) = decode_bytes(bytes);
        let newline_style = detect_newline_style(content.as_str());
        let (bom, _rest) = detect_bom(bytes);
        let mut warnings: Vec<LoadWarning> = Vec::new();
        if had_errors {
            warnings.push(LoadWarning::DecodeReplacementsEmitted);
        }
        proof {
            if had_errors {
                assert(warnings@ =~= seq![LoadWarning::DecodeReplacementsEmitted]);
            } else {
                assert(warnings@ =~= Seq::<LoadWarning>::empty());
            }
        }
        LoadedDocument {
            file_id: Some(file_id),
            fingerprint_at_load: Some(fingerprint),
            kind: FileKind::Text,
            bytes_len: bytes.len() as u64,
            text: Some(TextDocument { content, encoding, newline_style, had_decode_errors: had_errors, bom }),
            warnings,
        }
    }

    /// The document of a binary file read as `bytes`: its hex preview as
    /// comparable text, labelled `(binary)`, with a warning saying so.
    pub fn from_binary_bytes(file_id: FileId, fingerprint: FileFingerprint, bytes: &[u8]) -> (d: Self)
        ensures
            d.file_id == Some(file_id),
            d.fingerprint_at_load == Some(fingerprint),
            d.kind is Binary,
            d.bytes_len == bytes@.len(),
            d.text matches Some(t) && t.content@ == hex_preview_spec(bytes@) && t.encoding.label@ == "(binary)"@
                && t.newline_style == NewlineStyle::Lf && !t.had_decode_errors && t.bom == BomPresence::Absent,
            d.warnings@ == seq![LoadWarning::BinaryRenderedAsHexPreview],
    {
        let warnings = vec![LoadWarning::BinaryRenderedAsHexPreview];
        assert(warnings@ =~= seq![LoadWarning::BinaryRenderedAsHexPreview]);
        LoadedDocument {
            file_id: Some(file_id),
            fingerprint_at_load: Some(fingerprint),
            kind: FileKind::Binary,
            bytes_len: bytes.len() as u64,
            text: Some(TextDocument {
                content: hex_preview(bytes),
                encoding: TextEncoding { label: String::from_str("(binary)") },
                newline_style: NewlineStyle::Lf,
                had_decode_errors: false,
                bom: BomPresence::Absent,
            }),
            warnings,
        }
    }
}

/// What a missing path loads as: the empty document when missing sides
/// are allowed, otherwise an invalid-path error naming the path.
pub fn load_missing(display_path: &str, options: LoadOptions) -> (r: Result<LoadedDocument, CoreError>)
    ensures
        options.allow_missing ==> (r matches Ok(d) && is_empty_document(d)),
        !options.allow_missing ==> (r matches Err(CoreError::InvalidPath { path, reason })
            && path@ == display_path@ && reason@ == "file not found"@),
{
    if options.allow_missing {
        Ok(LoadedDocument::empty())
    } else {
        Err(CoreError::InvalidPath { path: String::from_str(display_path), reason: String::from_str("file not found") })
    }
}

/// The error of loading a path that cannot be compared.
pub fn unsupported_error(display_path: &str, reason: &str) -> (e: CoreError)
    ensures
        e matches CoreError::Unsupported { message } && message@ == seq!['`'] + display_path@ + "`: "@ + reason@,
{
    let mut m = String::new();
    push_char(&mut m, '`');
    push_str(&mut m, display_path);
    push_str(&mut m, "`: ");
    push_str(&mut m, reason);
    CoreError::Unsupported { message: m }
}

/// The lowercase hexadecimal digit of a value below 16.
pub open spec fn hex_digit(d: nat) -> char {
    if d < 10 { (('0' as u32) + d) as char } else { (('a' as u32) + d - 10) as char }
}

/// The lowercase hexadecimal digits of `n`, at least `width` of them
/// (zero-padded on the left).
pub open spec fn hex_padded(n: nat, width: nat) -> Seq<char>
    decreases width, n,
{
    if n < 16 && width <= 1 {
        seq![hex_digit(n)]
    } else {
        hex_padded(n / 16, if width > 0 { (width - 1) as nat } else { 0 }).push(hex_digit(n % 16))
    }
}

/// Whether a byte prints as itself in the ASCII column: graphic ASCII or
/// space.
pub open spec fn printable(b: u8) -> bool {
    0x20 <= b && b <= 0x7e
}

/// The hex cells of a row: for each of 16 columns the byte as two hex
/// digits and a space, or three spaces past the data, with one extra space
/// after the eighth column.
pub open spec fn hex_cells(chunk: Seq<u8>, col: nat) -> Seq<char>
    decreases col,
{
    if col == 0 {
        Seq::empty()
    } else {
        let i = (col - 1) as nat;
        let cell = if i < chunk.len() { hex_padded(chunk[i as int] as nat, 2) + seq![' '] } else { seq![' ', ' ', ' '] };
        hex_cells(chunk, i) + cell + if i == 7 { seq![' '] } else { Seq::empty() }
    }
}

/// The ASCII column of a row.
pub open spec fn ascii_column(chunk: Seq<u8>) -> Seq<char> {
    chunk.map_values(|b: u8| if printable(b) { b as char } else { '.' })
}

/// One preview row: 8-digit offset, two spaces, the hex cells, a space,
/// the ASCII column, a newline.
pub open spec fn hex_row(offset: nat, chunk: Seq<u8>) -> Seq<char> {
    hex_padded(offset, 8) + seq![' ', ' '] + hex_cells(chunk, 16) + seq![' '] + ascii_column(chunk) + seq!['\n']
}

/// The hex preview of the first `rows` rows of 16 bytes.
pub open spec fn hex_rows(bytes: Seq<u8>, rows: nat) -> Seq<char>
    decreases rows,
{
    if rows == 0 {
        Seq::empty()
    } else {
        let r = (rows - 1) as nat;
        let end = if (r + 1) * 16 <= bytes.len() { (r + 1) * 16 } else { bytes.len() };
        hex_rows(bytes, r) + hex_row(r * 16, bytes.subrange((r * 16) as int, end as int))
    }
}

/// The normalized hex preview: one row per 16 bytes.
pub open spec fn hex_preview_spec(bytes: Seq<u8>) -> Seq<char> {
    hex_rows(bytes, (bytes.len() + 15) / 16)
}

fn hex_char(d: u64) -> (c: char)
    requires
        d < 16,
    ensures
        c == hex_digit(d as nat),
{
    if d < 10 {
        let code: u8 = 48 + d as u8;
        code as char
    } else {
        let code: u8 = 87 + d as u8;
        code as char
    }
}

fn push_hex(s: &mut String, n: u64, width: u64)
    ensures
        final(s)@ == old(s)@ + hex_padded(n as nat, width as nat),
    decreases width, n,
{
    if n < 16 && width <= 1 {
        push_char(s, hex_char(n));
        assert(final(s)@ =~= old(s)@ + hex_padded(n as nat, width as nat));
    } else {
        push_hex(s, n / 16, if width > 0 { width - 1 } else { 0 });
        push_char(s, hex_char(n % 16));
        assert(final(s)@ =~= old(s)@ + hex_padded(n as nat, width as nat));
    }
}

fn push_row(s: &mut String, bytes: &[u8], start: usize, end: usize)
    requires
        start <= end <= bytes@.len(),
        end - start <= 16,
    ensures
        final(s)@ == old(s)@ + hex_row(start as nat, bytes@.subrange(start as int, end as int)),
{
    let ghost chunk = bytes@.subrange(start as int, end as int);
    let ghost s0 = old(s)@;
    push_hex(s, start as u64, 8);
    push_str(s, "  ");
    proof {
        reveal_strlit("  ");
    }
    let ghost after_offset = s@;
    let mut col: usize = 0;
    while col < 16
        invariant
            start <= end <= bytes@.len(),
            end - start <= 16,
            chunk == bytes@.subrange(start as int, end as int),
            col <= 16,
            s@ == after_offset + hex_cells(chunk, col as nat),
        decreases 16 - col,
    {
        if col < end - start {
            push_hex(s, bytes[start + col] as u64, 2);
            push_char(s, ' ');
        } else {
            push_char(s, ' ');
            push_char(s, ' ');
            push_char(s, ' ');
        }
        if col == 7 {
            push_char(s, ' ');
        }
        assert(s@ =~= after_offset + hex_cells(chunk, (col + 1) as nat));
        col = col + 1;
    }
    push_char(s, ' ');
    let ghost before_ascii = s@;
    let mut k = start;
    while k < end
        invariant
            start <= k <= end <= bytes@.len(),
            chunk == bytes@.subrange(start as int, end as int),
            s@ == before_ascii + ascii_column(bytes@.subrange(start as int, k as int)),
        decreases end - k,
    {
        let b = bytes[k];
        let c = if 0x20 <= b && b <= 0x7e { b as char } else { '.' };
        push_char(s, c);
        assert(s@ =~= before_ascii + ascii_column(bytes@.subrange(start as int, k as int + 1)));
        k = k + 1;
    }
    push_char(s, '\n');
    assert(s@ =~= s0 + hex_row(start as nat, chunk));
}

/// Single normalized hex preview: offset, 16 hex bytes, ASCII column.
pub fn hex_preview(bytes: &[u8]) -> (s: String)
    ensures
        s@ == hex_preview_spec(bytes@),
{
    let mut s = String::new();
    let n = bytes.len();
    let rows = n / 16 + if n % 16 == 0 { 0 } else { 1 };
    assert(rows == (n + 15) / 16) by (nonlinear_arith)
        requires rows == n / 16 + if n % 16 == 0 { 0int } else { 1int };
    let mut r: usize = 0;
    while r < rows
        invariant
            n == bytes@.len(),
            rows == (n + 15) / 16,
            r <= rows,
            s@ == hex_rows(bytes@, r as nat),
        decreases rows - r,
    {
        assert(r * 16 < n) by (nonlinear_arith)
            requires r < rows, rows == (n + 15) / 16;
        let start = r * 16;
        let end = if n - start >= 16 { start + 16 } else { n };
        assert(end == if (r + 1) * 16 <= n { (r + 1) * 16 } else { n as int }) by (nonlinear_arith)
            requires start == r * 16, end == if n - start >= 16 { start + 16 } else { n as int };
        push_row(&mut s, bytes, start, end);
        r = r + 1;
    }
    s
}

} // verus!
