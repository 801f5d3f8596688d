//! File size classification and performance limits.

use vstd::prelude::*;

verus! {

/// Classification of a file by size, selecting the diff strategy.
#[derive(Debug, Clone, Copy, PartialEq, Eq, PartialOrd, Ord, Structural)]
pub enum FileSizeClass {
    /// Full diff and eager inline diff.
    Small,
    /// Full line diff; inline diff on demand.
    Medium,
    /// Prompt before a full diff; no inline diff.
    Large,
    /// Metadata or binary summary only, unless forced.
    VeryLarge,
}

/// Configurable thresholds for large files and directories. Byte values
/// are inclusive upper bounds of the named class.
#[derive(Debug, Clone, PartialEq, Eq, Structural)]
pub struct PerformanceLimits {
    /// Upper bound (inclusive) of `Small`, in bytes.
    pub max_eager_text_bytes: u64,
    /// Upper bound (inclusive) of `Medium`, in bytes.
    pub medium_text_threshold_bytes: u64,
    /// Upper bound (inclusive) of `Large`, in bytes; above is `VeryLarge`.
    pub large_text_threshold_bytes: u64,
    /// Maximum characters in a hunk for eager inline diff.
    pub max_inline_diff_chars_per_hunk: usize,
    /// Maximum directory entries compared without backgrounding.
    pub max_directory_entries_eager: usize,
    /// Maximum lines before some UI features are disabled.
    pub max_eager_lines: usize,
}

/// The class of a byte count under `limits`.
pub open spec fn size_class(bytes: u64, limits: PerformanceLimits) -> FileSizeClass {
    if bytes <= limits.max_eager_text_bytes {
        FileSizeClass::Small
    } else if bytes <= limits.medium_text_threshold_bytes {
        FileSizeClass::Medium
    } else if bytes <= limits.large_text_threshold_bytes {
        FileSizeClass::Large
    } else {
        FileSizeClass::VeryLarge
    }
}

impl FileSizeClass {
    /// Classify a byte count: the first class whose inclusive bound holds
    /// it, `VeryLarge` above all bounds.
    pub fn classify(bytes: u64, limits: &PerformanceLimits) -> (c: Self)
        ensures
            c == size_class(bytes, *limits),
    {
        if bytes <= limits.max_eager_text_bytes {
            FileSizeClass::Small
        } else if bytes <= limits.medium_text_threshold_bytes {
            FileSizeClass::Medium
        } else if bytes <= limits.large_text_threshold_bytes {
            FileSizeClass::Large
        } else {
            FileSizeClass::VeryLarge
        }
    }

    /// `true` when inline character diff runs eagerly.
    pub fn inline_diff_eager(self) -> (b: bool)
        ensures
            b == (self == FileSizeClass::Small),
    {
        matches!(self, FileSizeClass::Small)
    }

    /// `true` when the user should be prompted before the diff.
    pub fn requires_user_prompt(self) -> (b: bool)
        ensures
            b == (self == FileSizeClass::Large || self == FileSizeClass::VeryLarge),
    {
        matches!(self, FileSizeClass::Large | FileSizeClass::VeryLarge)
    }

    /// `true` when the file is too large for any text diff.
    pub fn too_large_for_diff(self) -> (b: bool)
        ensures
            b == (self == FileSizeClass::VeryLarge),
    {
        matches!(self, FileSizeClass::VeryLarge)
    }
}

impl Default for PerformanceLimits {
    /// 512 KiB, 4 MiB and 64 MiB byte bounds; 2000 inline characters; 500
    /// eager directory entries; 50000 eager lines.
    fn default() -> (l: Self)
        ensures
            l == (PerformanceLimits {
                max_eager_text_bytes: 524288,
                medium_text_threshold_bytes: 4194304,
                large_text_threshold_bytes: 67108864,
                max_inline_diff_chars_per_hunk: 2000,
                max_directory_entries_eager: 500,
                max_eager_lines: 50000,
            }),
    {
        PerformanceLimits {
            max_eager_text_bytes: 524288,
            medium_text_threshold_bytes: 4194304,
            large_text_threshold_bytes: 67108864,
            max_inline_diff_chars_per_hunk: 2000,
            max_directory_entries_eager: 500,
            max_eager_lines: 50000,
        }
    }
}

/// Classes grow with size: a larger byte count never gets a smaller class
/// (when the bounds are ordered).
pub proof fn law_size_class_monotone(a: u64, b: u64, limits: PerformanceLimits)
    requires
        a <= b,
        limits.max_eager_text_bytes <= limits.medium_text_threshold_bytes,
        limits.medium_text_threshold_bytes <= limits.large_text_threshold_bytes,
    ensures
        class_rank(size_class(a, limits)) <= class_rank(size_class(b, limits)),
{
}

/// The rank of a class, smallest first.
pub open spec fn class_rank(c: FileSizeClass) -> int {
    match c {
        FileSizeClass::Small => 0,
        FileSizeClass::Medium => 1,
        FileSizeClass::Large => 2,
        FileSizeClass::VeryLarge => 3,
    }
}

} // verus!
