//! Diff options and named comparison profiles.

use vstd::prelude::*;

verus! {

/// Diff algorithm selection, mapped onto the engine's algorithms.
#[derive(Debug, Clone, Copy, PartialEq, Eq, Default, Structural)]
pub enum DiffAlgorithm {
    #[default]
    Myers,
    Patience,
    Lcs,
    /// Git-style histogram diff.
    Histogram,
}

/// When inline (character-level) refinement is computed.
#[derive(Debug, Clone, Copy, PartialEq, Eq, Default, Structural)]
pub enum InlineMode {
    /// Never compute inline spans.
    Disabled,
    /// Compute on request only (UI toggle).
    #[default]
    Lazy,
    /// Compute immediately for replace hunks under the size threshold.
    EagerForSmallHunks,
}

/// Options controlling one diff computation.
#[derive(Debug, Clone, Copy, PartialEq, Eq, Structural)]
pub struct DiffOptions {
    pub ignore_whitespace: bool,
    pub ignore_case: bool,
    /// When `true`, newline-style differences (LF vs CRLF) are ignored.
    pub ignore_newlines: bool,
    pub inline_mode: InlineMode,
    pub algorithm: DiffAlgorithm,
    /// Hunks whose combined text exceeds this are skipped by inline diff.
    pub max_inline_chars_per_hunk: usize,
    /// Inputs larger than this (both sides together) fall back to the
    /// large-file policy: inline disabled and a warning reported.
    pub max_file_bytes_for_full_diff: u64,
    /// Soft deadline for the line diff, in milliseconds.
    pub deadline_ms: Option<u64>,
}

impl DiffOptions {
    /// The default options: nothing ignored, lazy inline refinement, Myers,
    /// 16 KiB inline limit, 16 MiB full-diff limit, 5 second deadline.
    pub open spec fn default_spec() -> Self {
        DiffOptions {
            ignore_whitespace: false,
            ignore_case: false,
            ignore_newlines: false,
            inline_mode: InlineMode::Lazy,
            algorithm: DiffAlgorithm::Myers,
            max_inline_chars_per_hunk: 16384usize,
            max_file_bytes_for_full_diff: 16777216u64,
            deadline_ms: Some(5_000),
        }
    }
}

impl Default for DiffOptions {
    fn default() -> (r: Self)
        ensures
            r == Self::default_spec(),
    {
        DiffOptions {
            ignore_whitespace: false,
            ignore_case: false,
            ignore_newlines: false,
            inline_mode: InlineMode::Lazy,
            algorithm: DiffAlgorithm::Myers,
            max_inline_chars_per_hunk: 16 * 1024,
            max_file_bytes_for_full_diff: 16 * 1024 * 1024,
            deadline_ms: Some(5_000),
        }
    }
}

/// How whitespace is treated during comparison.
#[derive(Debug, Clone, Copy, PartialEq, Eq, Default, Structural)]
pub enum WhitespaceMode {
    /// Every whitespace character is significant.
    #[default]
    Significant,
    /// Trailing whitespace on a line is ignored.
    IgnoreTrailing,
    /// All whitespace differences are ignored.
    IgnoreAll,
    /// Lines that are entirely blank are ignored.
    IgnoreBlankLines,
}

/// How newline style differences are treated during comparison.
#[derive(Debug, Clone, Copy, PartialEq, Eq, Default, Structural)]
pub enum NewlineCompareMode {
    /// CRLF vs LF vs CR are considered different.
    #[default]
    Significant,
    /// Newline style differences are ignored.
    IgnoreDifference,
}

/// Case sensitivity for comparison.
#[derive(Debug, Clone, Copy, PartialEq, Eq, Default, Structural)]
pub enum CaseSensitivity {
    /// Case differences are significant.
    #[default]
    Sensitive,
    /// Case differences are ignored.
    Insensitive,
}

/// A named comparison profile: a preset combination of options.
#[derive(Debug, Clone, PartialEq, Eq)]
pub struct CompareProfile {
    /// Human-readable name shown in the UI toolbar.
    pub name: String,
    pub whitespace: WhitespaceMode,
    pub newlines: NewlineCompareMode,
    pub case: CaseSensitivity,
    pub inline_mode: InlineMode,
    pub algorithm: DiffAlgorithm,
}

/// The settings of a profile apart from its name.
pub open spec fn profile_is(
    p: CompareProfile,
    name: Seq<char>,
    whitespace: WhitespaceMode,
    newlines: NewlineCompareMode,
    case: CaseSensitivity,
    inline_mode: InlineMode,
    algorithm: DiffAlgorithm,
) -> bool {
    &&& p.name@ == name
    &&& p.whitespace == whitespace
    &&& p.newlines == newlines
    &&& p.case == case
    &&& p.inline_mode == inline_mode
    &&& p.algorithm == algorithm
}

impl CompareProfile {
    /// Default: all differences are significant, Myers algorithm.
    pub fn default_profile() -> (p: Self)
        ensures
            profile_is(p, "Default"@, WhitespaceMode::Significant, NewlineCompareMode::Significant,
                CaseSensitivity::Sensitive, InlineMode::Lazy, DiffAlgorithm::Myers),
    {
        Self {
            name: String::from_str("Default"),
            whitespace: WhitespaceMode::Significant,
            newlines: NewlineCompareMode::Significant,
            case: CaseSensitivity::Sensitive,
            inline_mode: InlineMode::Lazy,
            algorithm: DiffAlgorithm::Myers,
        }
    }

    /// Code Review: everything significant, histogram algorithm.
    pub fn code_review() -> (p: Self)
        ensures
            profile_is(p, "Code Review"@, WhitespaceMode::Significant, NewlineCompareMode::Significant,
                CaseSensitivity::Sensitive, InlineMode::Lazy, DiffAlgorithm::Histogram),
    {
        Self {
            name: String::from_str("Code Review"),
            whitespace: WhitespaceMode::Significant,
            newlines: NewlineCompareMode::Significant,
            case: CaseSensitivity::Sensitive,
            inline_mode: InlineMode::Lazy,
            algorithm: DiffAlgorithm::Histogram,
        }
    }

    /// Loose Text: ignore trailing whitespace and newline differences.
    pub fn loose_text() -> (p: Self)
        ensures
            profile_is(p, "Loose Text"@, WhitespaceMode::IgnoreTrailing,
                NewlineCompareMode::IgnoreDifference, CaseSensitivity::Sensitive, InlineMode::Lazy,
                DiffAlgorithm::Myers),
    {
        Self {
            name: String::from_str("Loose Text"),
            whitespace: WhitespaceMode::IgnoreTrailing,
            newlines: NewlineCompareMode::IgnoreDifference,
            case: CaseSensitivity::Sensitive,
            inline_mode: InlineMode::Lazy,
            algorithm: DiffAlgorithm::Myers,
        }
    }

    /// Large File Safe: line diff only, inline disabled.
    pub fn large_file_safe() -> (p: Self)
        ensures
            profile_is(p, "Large File Safe"@, WhitespaceMode::Significant,
                NewlineCompareMode::Significant, CaseSensitivity::Sensitive, InlineMode::Disabled,
                DiffAlgorithm::Myers),
    {
        Self {
            name: String::from_str("Large File Safe"),
            whitespace: WhitespaceMode::Significant,
            newlines: NewlineCompareMode::Significant,
            case: CaseSensitivity::Sensitive,
            inline_mode: InlineMode::Disabled,
            algorithm: DiffAlgorithm::Myers,
        }
    }

    /// All built-in profiles, in display order.
    pub fn all_presets() -> (v: Vec<Self>)
        ensures
            v@.len() == 4,
            profile_is(v@[0], "Default"@, WhitespaceMode::Significant, NewlineCompareMode::Significant,
                CaseSensitivity::Sensitive, InlineMode::Lazy, DiffAlgorithm::Myers),
            profile_is(v@[1], "Code Review"@, WhitespaceMode::Significant, NewlineCompareMode::Significant,
                CaseSensitivity::Sensitive, InlineMode::Lazy, DiffAlgorithm::Histogram),
            profile_is(v@[2], "Loose Text"@, WhitespaceMode::IgnoreTrailing,
                NewlineCompareMode::IgnoreDifference, CaseSensitivity::Sensitive, InlineMode::Lazy,
                DiffAlgorithm::Myers),
            profile_is(v@[3], "Large File Safe"@, WhitespaceMode::Significant,
                NewlineCompareMode::Significant, CaseSensitivity::Sensitive, InlineMode::Disabled,
                DiffAlgorithm::Myers),
    {
        let mut v = Vec::new();
        v.push(Self::default_profile());
        v.push(Self::code_review());
        v.push(Self::loose_text());
        v.push(Self::large_file_safe());
        v
    }

    /// The engine options this profile selects: whitespace is ignored unless
    /// significant, case is ignored when insensitive, newline style is
    /// ignored when so configured; every other option keeps its default.
    pub fn to_diff_options(&self) -> (o: DiffOptions)
        ensures
            o == (DiffOptions {
                ignore_whitespace: self.whitespace != WhitespaceMode::Significant,
                ignore_case: self.case == CaseSensitivity::Insensitive,
                ignore_newlines: self.newlines == NewlineCompareMode::IgnoreDifference,
                inline_mode: self.inline_mode,
                algorithm: self.algorithm,
                ..DiffOptions::default_spec()
            }),
    {
        let d = DiffOptions::default();
        DiffOptions {
            ignore_whitespace: !matches!(self.whitespace, WhitespaceMode::Significant),
            ignore_case: self.case == CaseSensitivity::Insensitive,
            ignore_newlines: self.newlines == NewlineCompareMode::IgnoreDifference,
            inline_mode: self.inline_mode,
            algorithm: self.algorithm,
            ..d
        }
    }
}

impl Default for CompareProfile {
    fn default() -> (p: Self)
        ensures
            profile_is(p, "Default"@, WhitespaceMode::Significant, NewlineCompareMode::Significant,
                CaseSensitivity::Sensitive, InlineMode::Lazy, DiffAlgorithm::Myers),
    {
        Self::default_profile()
    }
}

} // verus!
