//! The settings schema: the persisted settings and compare presets, the
//! migration of the legacy plain-JSON settings, normalization into the kept
//! bounds, and the outcome of a routed settings load.

use vstd::prelude::*;

use super::{json_envelope, probe_envelope, route_envelope, route_outcome_ok, route_spec, PersistenceError, PersistenceLoad, RouteStep};
use crate::diff::options::{CaseSensitivity, DiffAlgorithm, InlineMode, NewlineCompareMode, WhitespaceMode};
use crate::encoding::NewlinePolicy;
use crate::job::limits::PerformanceLimits;

verus! {

/// The schema name of the settings envelope.
pub const SETTINGS_SCHEMA_NAME: &'static str = "settings";

/// The current settings schema version.
pub const SETTINGS_SCHEMA_VERSION_V2: u32 = 2;

/// The smallest font size kept by normalization.
pub const FONT_SIZE_MIN: u8 = 6;

/// The largest font size kept by normalization.
pub const FONT_SIZE_MAX: u8 = 50;

/// The most context lines kept by normalization.
pub const CONTEXT_LINES_MAX: usize = 20;

/// One named compare preset in persisted shape.
#[derive(Debug, Clone, PartialEq)]
pub struct PersistedDiffProfile {
    pub name: String,
    pub whitespace: WhitespaceMode,
    pub newlines: NewlineCompareMode,
    pub case: CaseSensitivity,
    pub inline_mode: InlineMode,
    pub algorithm: DiffAlgorithm,
    /// Built-in presets ship with the app and cannot be deleted.
    pub built_in: bool,
}

/// A preset as values: name, whitespace, newlines, case, inline mode,
/// algorithm, built in.
pub type ProfileModel = (Seq<char>, WhitespaceMode, NewlineCompareMode, CaseSensitivity, InlineMode, DiffAlgorithm, bool);

/// A preset as values.
pub open spec fn profile_model(p: PersistedDiffProfile) -> ProfileModel {
    (p.name@, p.whitespace, p.newlines, p.case, p.inline_mode, p.algorithm, p.built_in)
}

/// The four built-in presets users have seen: exact, ignore whitespace,
/// ignore case and histogram; significant newlines and lazy inline
/// refinement throughout.
pub open spec fn builtin_profile_models() -> Seq<ProfileModel> {
    seq![
        ("Exact (default)"@, WhitespaceMode::Significant, NewlineCompareMode::Significant, CaseSensitivity::Sensitive,
            InlineMode::Lazy, DiffAlgorithm::Myers, true),
        ("Ignore whitespace"@, WhitespaceMode::IgnoreAll, NewlineCompareMode::Significant, CaseSensitivity::Sensitive,
            InlineMode::Lazy, DiffAlgorithm::Myers, true),
        ("Ignore case"@, WhitespaceMode::Significant, NewlineCompareMode::Significant, CaseSensitivity::Insensitive,
            InlineMode::Lazy, DiffAlgorithm::Myers, true),
        ("Histogram"@, WhitespaceMode::Significant, NewlineCompareMode::Significant, CaseSensitivity::Sensitive,
            InlineMode::Lazy, DiffAlgorithm::Histogram, true),
    ]
}

fn builtin(name: &str, whitespace: WhitespaceMode, case: CaseSensitivity, algorithm: DiffAlgorithm) -> (p: PersistedDiffProfile)
    ensures
        profile_model(p) == (name@, whitespace, NewlineCompareMode::Significant, case, InlineMode::Lazy, algorithm, true),
{
    PersistedDiffProfile {
        name: String::from_str(name),
        whitespace,
        newlines: NewlineCompareMode::Significant,
        case,
        inline_mode: InlineMode::Lazy,
        algorithm,
        built_in: true,
    }
}

/// The built-in presets, in order.
pub fn ui_builtin_profiles() -> (v: Vec<PersistedDiffProfile>)
    ensures
        v@.map_values(|p: PersistedDiffProfile| profile_model(p)) == builtin_profile_models(),
{
    let mut v: Vec<PersistedDiffProfile> = Vec::new();
    v.push(builtin("Exact (default)", WhitespaceMode::Significant, CaseSensitivity::Sensitive, DiffAlgorithm::Myers));
    v.push(builtin("Ignore whitespace", WhitespaceMode::IgnoreAll, CaseSensitivity::Sensitive, DiffAlgorithm::Myers));
    v.push(builtin("Ignore case", WhitespaceMode::Significant, CaseSensitivity::Insensitive, DiffAlgorithm::Myers));
    v.push(builtin("Histogram", WhitespaceMode::Significant, CaseSensitivity::Sensitive, DiffAlgorithm::Histogram));
    assert(v@.map_values(|p: PersistedDiffProfile| profile_model(p)) =~= builtin_profile_models());
    v
}

/// The diff algorithm of a legacy preset.
#[derive(Debug, Clone, Copy, PartialEq, Eq, Default, Structural)]
pub enum LegacyDiffAlgorithmV0 {
    #[default]
    Myers,
    Patience,
    Histogram,
}

/// A compare preset in the legacy plain-JSON settings: two switches and an
/// algorithm.
#[derive(Debug, Clone)]
pub struct LegacyDiffProfileV0 {
    pub name: String,
    pub ignore_whitespace: bool,
    pub ignore_case: bool,
    pub algorithm: LegacyDiffAlgorithmV0,
    pub built_in: bool,
}

/// The persisted preset a legacy preset becomes: ignoring whitespace means
/// ignoring all of it, ignoring case means insensitive comparison, newlines
/// stay significant and inline refinement lazy.
pub open spec fn migrated_profile(p: LegacyDiffProfileV0) -> ProfileModel {
    (
        p.name@,
        if p.ignore_whitespace { WhitespaceMode::IgnoreAll } else { WhitespaceMode::Significant },
        NewlineCompareMode::Significant,
        if p.ignore_case { CaseSensitivity::Insensitive } else { CaseSensitivity::Sensitive },
        InlineMode::Lazy,
        match p.algorithm {
            LegacyDiffAlgorithmV0::Myers => DiffAlgorithm::Myers,
            LegacyDiffAlgorithmV0::Patience => DiffAlgorithm::Patience,
            LegacyDiffAlgorithmV0::Histogram => DiffAlgorithm::Histogram,
        },
        p.built_in,
    )
}

/// Migrates one legacy preset.
pub fn migrate_profile_from_v0(p: &LegacyDiffProfileV0) -> (r: PersistedDiffProfile)
    ensures
        profile_model(r) == migrated_profile(*p),
{
    PersistedDiffProfile {
        name: p.name.clone(),
        whitespace: if p.ignore_whitespace { WhitespaceMode::IgnoreAll } else { WhitespaceMode::Significant },
        newlines: NewlineCompareMode::Significant,
        case: if p.ignore_case { CaseSensitivity::Insensitive } else { CaseSensitivity::Sensitive },
        inline_mode: InlineMode::Lazy,
        algorithm: match p.algorithm {
            LegacyDiffAlgorithmV0::Myers => DiffAlgorithm::Myers,
            LegacyDiffAlgorithmV0::Patience => DiffAlgorithm::Patience,
            LegacyDiffAlgorithmV0::Histogram => DiffAlgorithm::Histogram,
        },
        built_in: p.built_in,
    }
}

/// Migrates a list of legacy presets, in order.
pub fn migrate_profiles_from_v0(ps: &Vec<LegacyDiffProfileV0>) -> (r: Vec<PersistedDiffProfile>)
    ensures
        r@.len() == ps@.len(),
        forall|j: int| 0 <= j < ps@.len() ==> profile_model(#[trigger] r@[j]) == migrated_profile(ps@[j]),
{
    let mut r: Vec<PersistedDiffProfile> = Vec::new();
    let mut i: usize = 0;
    while i < ps.len()
        invariant
            i <= ps@.len(),
            r@.len() == i,
            forall|j: int| 0 <= j < i ==> profile_model(#[trigger] r@[j]) == migrated_profile(ps@[j]),
        decreases ps@.len() - i,
    {
        let m = migrate_profile_from_v0(&ps[i]);
        r.push(m);
        i = i + 1;
    }
    r
}

fn legacy(name: &str, ignore_whitespace: bool, ignore_case: bool, algorithm: LegacyDiffAlgorithmV0) -> (p: LegacyDiffProfileV0)
    ensures
        p.name@ == name@,
        p.ignore_whitespace == ignore_whitespace,
        p.ignore_case == ignore_case,
        p.algorithm == algorithm,
        p.built_in,
{
    LegacyDiffProfileV0 { name: String::from_str(name), ignore_whitespace, ignore_case, algorithm, built_in: true }
}

/// The presets a legacy file without a preset list had: the same four
/// built-ins, in the same order.
pub fn legacy_default_profiles() -> (v: Vec<LegacyDiffProfileV0>)
    ensures
        v@.map_values(|p: LegacyDiffProfileV0| migrated_profile(p)) == builtin_profile_models(),
{
    let mut v: Vec<LegacyDiffProfileV0> = Vec::new();
    v.push(legacy("Exact (default)", false, false, LegacyDiffAlgorithmV0::Myers));
    v.push(legacy("Ignore whitespace", true, false, LegacyDiffAlgorithmV0::Myers));
    v.push(legacy("Ignore case", false, true, LegacyDiffAlgorithmV0::Myers));
    v.push(legacy("Histogram", false, false, LegacyDiffAlgorithmV0::Histogram));
    assert(v@.map_values(|p: LegacyDiffProfileV0| migrated_profile(p)) =~= builtin_profile_models());
    v
}

/// The context lines a legacy file without the field had.
pub fn legacy_default_context_lines() -> (n: usize)
    ensures
        n == 3,
{
    3
}

/// The default recent-file limit.
pub fn default_recent_limit() -> (n: usize)
    ensures
        n == 20,
{
    20
}

/// The default appearance font size.
pub fn default_appearance_font_size() -> (n: u8)
    ensures
        n == 14,
{
    14
}

/// The default diff-pane font size, a setting distinct from the appearance
/// font size.
pub fn default_diff_font_size() -> (n: u32)
    ensures
        n == 14,
{
    14
}

/// A font size clamped to the kept range.
pub open spec fn clamped_font_size(n: int) -> int {
    if n < FONT_SIZE_MIN as int {
        FONT_SIZE_MIN as int
    } else if n > FONT_SIZE_MAX as int {
        FONT_SIZE_MAX as int
    } else {
        n
    }
}

/// The appearance font size clamped to the kept range.
pub fn normalize_appearance_font_size(n: u8) -> (r: u8)
    ensures
        r == clamped_font_size(n as int),
{
    if n < FONT_SIZE_MIN {
        FONT_SIZE_MIN
    } else if n > FONT_SIZE_MAX {
        FONT_SIZE_MAX
    } else {
        n
    }
}

/// The diff-pane font size clamped to the kept range.
pub fn normalize_diff_font_size(n: u32) -> (r: u32)
    ensures
        r == clamped_font_size(n as int),
{
    if n < FONT_SIZE_MIN as u32 {
        FONT_SIZE_MIN as u32
    } else if n > FONT_SIZE_MAX as u32 {
        FONT_SIZE_MAX as u32
    } else {
        n
    }
}

/// The context lines capped at the kept maximum.
pub fn normalize_context_lines(n: usize) -> (r: usize)
    ensures
        r == if n > CONTEXT_LINES_MAX { CONTEXT_LINES_MAX } else { n },
{
    if n > CONTEXT_LINES_MAX {
        CONTEXT_LINES_MAX
    } else {
        n
    }
}

/// The preset list and active index after normalization: an empty list is
/// replaced by the built-ins, and an index past the list falls back to the
/// first preset. Presets that are there are kept.
pub fn normalize_profiles(profiles: Vec<PersistedDiffProfile>, active_profile: usize) -> (r: (Vec<PersistedDiffProfile>, usize))
    ensures
        profiles@.len() == 0 ==> r.0@.map_values(|p: PersistedDiffProfile| profile_model(p)) == builtin_profile_models(),
        profiles@.len() > 0 ==> r.0@ == profiles@,
        r.1 == if active_profile >= r.0@.len() { 0 } else { active_profile },
        r.1 < r.0@.len(),
{
    let ps = if profiles.len() == 0 {
        ui_builtin_profiles()
    } else {
        profiles
    };
    proof {
        if profiles@.len() == 0 {
            assert(ps@.map_values(|p: PersistedDiffProfile| profile_model(p)).len() == 4);
        }
    }
    let active = if active_profile >= ps.len() {
        0
    } else {
        active_profile
    };
    (ps, active)
}


/// The colour theme.
#[derive(Debug, Clone, Copy, PartialEq, Eq, Structural)]
pub enum ThemeId {
    Dark,
    Light,
    Night,
}

/// A user-interface language, by its locale tag.
#[derive(Debug, Clone, PartialEq, Eq)]
pub struct LocaleId(pub String);

impl LocaleId {
    /// English (`en`).
    pub fn english() -> (l: Self)
        ensures
            l.0@ == "en"@,
    {
        LocaleId(String::from_str("en"))
    }

    /// Japanese (`ja`).
    pub fn japanese() -> (l: Self)
        ensures
            l.0@ == "ja"@,
    {
        LocaleId(String::from_str("ja"))
    }
}

/// The diff-pane font family: three system families and two exact fonts,
/// which stay distinct from the system monospace family.
#[derive(Debug, Clone, Copy, PartialEq, Eq, Structural)]
pub enum DiffFontFamilySetting {
    SystemMono,
    SystemSans,
    SystemSerif,
    CourierNew,
    Consolas,
}

/// The appearance (application chrome) font family.
#[derive(Debug, Clone, Copy, PartialEq, Eq, Structural)]
pub enum FontFamilySetting {
    SystemSans,
    SystemSerif,
    SystemMono,
}

/// The spacing of the user interface.
#[derive(Debug, Clone, Copy, PartialEq, Eq, Structural)]
pub enum Density {
    Comfortable,
    Compact,
}

/// The canonical settings payload: the fields of the legacy plain-JSON
/// settings plus the core-owned ones. The diff-pane font and the
/// appearance font are distinct settings.
#[derive(Debug, Clone, PartialEq)]
pub struct PersistedSettings {
    pub theme: ThemeId,
    pub language: LocaleId,
    /// Diff-pane font size.
    pub diff_font_size: u32,
    /// Diff-pane font family.
    pub diff_font_family: DiffFontFamilySetting,
    /// Appearance font size.
    pub appearance_font_size: u8,
    /// Appearance font family.
    pub appearance_font_family: FontFamilySetting,
    pub density: Density,
    pub context_lines: usize,
    pub last_left_dir: Option<std::path::PathBuf>,
    pub last_right_dir: Option<std::path::PathBuf>,
    pub profiles: Vec<PersistedDiffProfile>,
    pub active_profile: usize,
    pub ignore_extensions: String,
    pub ignore_dirs: String,
    pub explorer_compact: bool,
    pub enable_binary_comparison: bool,
    pub remember_explorer_dirs: bool,
    pub show_line_numbers: bool,
    pub wrap_long_lines: bool,
    pub newline_policy: NewlinePolicy,
    pub restore_session: bool,
    pub recent_limit: usize,
    pub performance: PerformanceLimits,
}

impl Default for PersistedSettings {
    /// First-run settings, what a load returns when no settings file
    /// exists: dark theme, English, 14-point fonts (system monospace for
    /// the diff pane, system sans for the chrome), comfortable density,
    /// 3 context lines, the built-in presets with the first active, no
    /// ignore lists, explorer directories remembered, line numbers shown,
    /// no wrapping, newlines preserved, the session restored, 20 recent
    /// files and the default limits.
    fn default() -> (s: Self)
        ensures
            s.theme == ThemeId::Dark,
            s.language.0@ == "en"@,
            s.diff_font_size == 14,
            s.diff_font_family == DiffFontFamilySetting::SystemMono,
            s.appearance_font_size == 14,
            s.appearance_font_family == FontFamilySetting::SystemSans,
            s.density == Density::Comfortable,
            s.context_lines == 3,
            s.last_left_dir is None,
            s.last_right_dir is None,
            s.profiles@.map_values(|p: PersistedDiffProfile| profile_model(p)) == builtin_profile_models(),
            s.active_profile == 0,
            s.ignore_extensions@.len() == 0,
            s.ignore_dirs@.len() == 0,
            !s.explorer_compact,
            !s.enable_binary_comparison,
            s.remember_explorer_dirs,
            s.show_line_numbers,
            !s.wrap_long_lines,
            s.newline_policy == NewlinePolicy::Preserve,
            s.restore_session,
            s.recent_limit == 20,
            s.performance == (PerformanceLimits {
                max_eager_text_bytes: 524288,
                medium_text_threshold_bytes: 4194304,
                large_text_threshold_bytes: 67108864,
                max_inline_diff_chars_per_hunk: 2000,
                max_directory_entries_eager: 500,
                max_eager_lines: 50000,
            }),
    {
        PersistedSettings {
            theme: ThemeId::Dark,
            language: LocaleId::english(),
            diff_font_size: default_diff_font_size(),
            diff_font_family: DiffFontFamilySetting::SystemMono,
            appearance_font_size: default_appearance_font_size(),
            appearance_font_family: FontFamilySetting::SystemSans,
            density: Density::Comfortable,
            context_lines: legacy_default_context_lines(),
            last_left_dir: None,
            last_right_dir: None,
            profiles: ui_builtin_profiles(),
            active_profile: 0,
            ignore_extensions: String::new(),
            ignore_dirs: String::new(),
            explorer_compact: false,
            enable_binary_comparison: false,
            remember_explorer_dirs: true,
            show_line_numbers: true,
            wrap_long_lines: false,
            newline_policy: NewlinePolicy::Preserve,
            restore_session: true,
            recent_limit: default_recent_limit(),
            performance: PerformanceLimits::default(),
        }
    }
}

/// The normalized form of `v`: both font sizes clamped to 6..=50, context
/// lines capped at 20, an empty preset list replaced by the built-ins and
/// an active index past the list reset to 0; every other field kept.
pub open spec fn normalized_settings(r: PersistedSettings, v: PersistedSettings) -> bool {
    &&& r.appearance_font_size == clamped_font_size(v.appearance_font_size as int)
    &&& r.diff_font_size == clamped_font_size(v.diff_font_size as int)
    &&& r.context_lines == if v.context_lines > CONTEXT_LINES_MAX { CONTEXT_LINES_MAX } else { v.context_lines }
    &&& v.profiles@.len() == 0 ==> r.profiles@.map_values(|p: PersistedDiffProfile| profile_model(p)) == builtin_profile_models()
    &&& v.profiles@.len() > 0 ==> r.profiles@ == v.profiles@
    &&& r.active_profile == if v.active_profile >= r.profiles@.len() { 0 } else { v.active_profile }
    &&& r == (PersistedSettings {
        appearance_font_size: r.appearance_font_size,
        diff_font_size: r.diff_font_size,
        context_lines: r.context_lines,
        profiles: r.profiles,
        active_profile: r.active_profile,
        ..v
    })
}

/// Normalize settings into the kept bounds without dropping valid fields.
pub fn normalize_settings(v: PersistedSettings) -> (r: PersistedSettings)
    ensures
        normalized_settings(r, v),
        FONT_SIZE_MIN <= r.appearance_font_size <= FONT_SIZE_MAX,
        FONT_SIZE_MIN <= r.diff_font_size <= FONT_SIZE_MAX,
        r.context_lines <= CONTEXT_LINES_MAX,
        r.active_profile < r.profiles@.len(),
{
    let ghost v0 = v;
    let mut v = v;
    v.appearance_font_size = normalize_appearance_font_size(v.appearance_font_size);
    v.diff_font_size = normalize_diff_font_size(v.diff_font_size);
    v.context_lines = normalize_context_lines(v.context_lines);
    let mut profiles: Vec<PersistedDiffProfile> = Vec::new();
    std::mem::swap(&mut profiles, &mut v.profiles);
    let (ps, active) = normalize_profiles(profiles, v.active_profile);
    v.profiles = ps;
    v.active_profile = active;
    proof {
        assert(v0.profiles@.len() == 0 ==> v.profiles@.map_values(|p: PersistedDiffProfile| profile_model(p))
            == builtin_profile_models());
    }
    v
}

/// The legacy colour theme.
#[derive(Debug, Clone, Copy, PartialEq, Eq, Structural)]
pub enum LegacyThemeV0 {
    Dark,
    Light,
    Night,
}

/// The legacy language.
#[derive(Debug, Clone, Copy, PartialEq, Eq, Structural)]
pub enum LegacyLangV0 {
    En,
    Ja,
}

/// The legacy diff-pane font family.
#[derive(Debug, Clone, Copy, PartialEq, Eq, Structural)]
pub enum LegacyDiffFontFamilyV0 {
    Monospace,
    SansSerif,
    Serif,
    CourierNew,
    Consolas,
}

/// The legacy plain-JSON settings, field for field (after the defaults of
/// missing fields are filled in by the decoder).
#[derive(Debug, Clone)]
pub struct LegacyAppSettingsV0 {
    pub theme: LegacyThemeV0,
    pub language: LegacyLangV0,
    pub diff_font_size: u32,
    pub diff_font_family: LegacyDiffFontFamilyV0,
    pub context_lines: usize,
    pub last_left_dir: Option<std::path::PathBuf>,
    pub last_right_dir: Option<std::path::PathBuf>,
    pub profiles: Vec<LegacyDiffProfileV0>,
    pub active_profile: usize,
    pub ignore_extensions: String,
    pub ignore_dirs: String,
    pub explorer_compact: bool,
    pub enable_binary_comparison: bool,
    pub remember_explorer_dirs: bool,
}

/// The theme a legacy theme becomes.
pub open spec fn theme_from_v0(t: LegacyThemeV0) -> ThemeId {
    match t {
        LegacyThemeV0::Dark => ThemeId::Dark,
        LegacyThemeV0::Light => ThemeId::Light,
        LegacyThemeV0::Night => ThemeId::Night,
    }
}

/// The locale tag a legacy language becomes.
pub open spec fn locale_from_v0(l: LegacyLangV0) -> Seq<char> {
    match l {
        LegacyLangV0::En => "en"@,
        LegacyLangV0::Ja => "ja"@,
    }
}

/// The diff-pane font family a legacy family becomes: the three generic
/// families map to the system ones, the two exact fonts to themselves.
pub open spec fn diff_font_from_v0(f: LegacyDiffFontFamilyV0) -> DiffFontFamilySetting {
    match f {
        LegacyDiffFontFamilyV0::Monospace => DiffFontFamilySetting::SystemMono,
        LegacyDiffFontFamilyV0::SansSerif => DiffFontFamilySetting::SystemSans,
        LegacyDiffFontFamilyV0::Serif => DiffFontFamilySetting::SystemSerif,
        LegacyDiffFontFamilyV0::CourierNew => DiffFontFamilySetting::CourierNew,
        LegacyDiffFontFamilyV0::Consolas => DiffFontFamilySetting::Consolas,
    }
}

/// The settings a legacy file becomes before normalization, as far as
/// values go: the legacy fields carried over (theme, language and diff font
/// mapped; presets migrated one by one), and the core defaults for what the
/// legacy file had no notion of (appearance font 14 in the sans family,
/// comfortable density, line numbers shown, no wrapping, newlines
/// preserved, session restored, 20 recent files, default limits).
pub open spec fn carried_from_v0(s: PersistedSettings, v0: LegacyAppSettingsV0) -> bool {
    &&& s.theme == theme_from_v0(v0.theme)
    &&& s.language.0@ == locale_from_v0(v0.language)
    &&& s.diff_font_size == v0.diff_font_size
    &&& s.diff_font_family == diff_font_from_v0(v0.diff_font_family)
    &&& s.appearance_font_size == 14
    &&& s.appearance_font_family == FontFamilySetting::SystemSans
    &&& s.density == Density::Comfortable
    &&& s.context_lines == v0.context_lines
    &&& s.last_left_dir == v0.last_left_dir
    &&& s.last_right_dir == v0.last_right_dir
    &&& s.profiles@.len() == v0.profiles@.len()
    &&& forall|j: int| 0 <= j < v0.profiles@.len() ==> profile_model(#[trigger] s.profiles@[j]) == migrated_profile(v0.profiles@[j])
    &&& s.active_profile == v0.active_profile
    &&& s.ignore_extensions@ == v0.ignore_extensions@
    &&& s.ignore_dirs@ == v0.ignore_dirs@
    &&& s.explorer_compact == v0.explorer_compact
    &&& s.enable_binary_comparison == v0.enable_binary_comparison
    &&& s.remember_explorer_dirs == v0.remember_explorer_dirs
    &&& s.show_line_numbers
    &&& !s.wrap_long_lines
    &&& s.newline_policy == NewlinePolicy::Preserve
    &&& s.restore_session
    &&& s.recent_limit == 20
    &&& s.performance == (PerformanceLimits {
        max_eager_text_bytes: 524288,
        medium_text_threshold_bytes: 4194304,
        large_text_threshold_bytes: 67108864,
        max_inline_diff_chars_per_hunk: 2000,
        max_directory_entries_eager: 500,
        max_eager_lines: 50000,
    })
}

/// Migrate legacy settings: carry the legacy fields over, fill in the core
/// defaults, then normalize.
pub fn migrate_settings_from_v0(v0: LegacyAppSettingsV0) -> (s: PersistedSettings)
    ensures
        exists|pre: PersistedSettings| carried_from_v0(pre, v0) && #[trigger] normalized_settings(s, pre),
{
    let ghost g = v0;
    let profiles = migrate_profiles_from_v0(&v0.profiles);
    let pre = PersistedSettings {
        theme: match v0.theme {
            LegacyThemeV0::Dark => ThemeId::Dark,
            LegacyThemeV0::Light => ThemeId::Light,
            LegacyThemeV0::Night => ThemeId::Night,
        },
        language: match v0.language {
            LegacyLangV0::En => LocaleId::english(),
            LegacyLangV0::Ja => LocaleId::japanese(),
        },
        diff_font_size: v0.diff_font_size,
        diff_font_family: match v0.diff_font_family {
            LegacyDiffFontFamilyV0::Monospace => DiffFontFamilySetting::SystemMono,
            LegacyDiffFontFamilyV0::SansSerif => DiffFontFamilySetting::SystemSans,
            LegacyDiffFontFamilyV0::Serif => DiffFontFamilySetting::SystemSerif,
            LegacyDiffFontFamilyV0::CourierNew => DiffFontFamilySetting::CourierNew,
            LegacyDiffFontFamilyV0::Consolas => DiffFontFamilySetting::Consolas,
        },
        appearance_font_size: default_appearance_font_size(),
        appearance_font_family: FontFamilySetting::SystemSans,
        density: Density::Comfortable,
        context_lines: v0.context_lines,
        last_left_dir: v0.last_left_dir,
        last_right_dir: v0.last_right_dir,
        profiles,
        active_profile: v0.active_profile,
        ignore_extensions: v0.ignore_extensions,
        ignore_dirs: v0.ignore_dirs,
        explorer_compact: v0.explorer_compact,
        enable_binary_comparison: v0.enable_binary_comparison,
        remember_explorer_dirs: v0.remember_explorer_dirs,
        show_line_numbers: true,
        wrap_long_lines: false,
        newline_policy: NewlinePolicy::Preserve,
        restore_session: true,
        recent_limit: default_recent_limit(),
        performance: PerformanceLimits::default(),
    };
    assert(carried_from_v0(pre, g));
    let s = normalize_settings(pre);
    s
}

/// The outcome of the decoding step a settings envelope was routed to,
/// given the legacy settings decoded (or not) and the current payload
/// decoded (or not): migrated legacy settings, which still need a backup
/// of the source, or normalized current settings; a decoding that failed
/// is reported as the matching corruption.
pub open spec fn settings_finish_ok(
    step: RouteStep,
    legacy: Option<LegacyAppSettingsV0>,
    current: Option<PersistedSettings>,
    r: PersistenceLoad<PersistedSettings>,
) -> bool {
    match step {
        RouteStep::DecodeLegacy => match legacy {
            None => r == (PersistenceLoad::<PersistedSettings>::Corrupt { detail: PersistenceError::UnrecognizedLegacyShape }),
            Some(v0) => r matches PersistenceLoad::MigratedLegacy { value, source_backup_required }
                && source_backup_required
                && exists|pre: PersistedSettings| carried_from_v0(pre, v0) && #[trigger] normalized_settings(value, pre),
        },
        RouteStep::DecodeCurrent => match current {
            None => r == (PersistenceLoad::<PersistedSettings>::Corrupt { detail: PersistenceError::MalformedPayload }),
            Some(v2) => r matches PersistenceLoad::Current { value } && normalized_settings(value, v2),
        },
    }
}

/// Finish a settings load after routing.
pub fn finish_settings_load(
    step: RouteStep,
    legacy: Option<LegacyAppSettingsV0>,
    current: Option<PersistedSettings>,
) -> (r: PersistenceLoad<PersistedSettings>)
    ensures
        settings_finish_ok(step, legacy, current, r),
{
    match step {
        RouteStep::DecodeLegacy => match legacy {
            Some(v0) => PersistenceLoad::MigratedLegacy { value: migrate_settings_from_v0(v0), source_backup_required: true },
            None => PersistenceLoad::Corrupt { detail: PersistenceError::UnrecognizedLegacyShape },
        },
        RouteStep::DecodeCurrent => match current {
            Some(v2) => PersistenceLoad::Current { value: normalize_settings(v2) },
            None => PersistenceLoad::Corrupt { detail: PersistenceError::MalformedPayload },
        },
    }
}

/// Load a raw settings file: probe its envelope, route it, and finish with
/// the decoding the route asks for. `legacy` is the raw text decoded as the
/// legacy plain-JSON settings and `current` its `payload` decoded as the
/// current settings, each when that decoding succeeds. No file I/O.
pub fn load_settings_from(raw: &str, legacy: Option<LegacyAppSettingsV0>, current: Option<PersistedSettings>) -> (r: PersistenceLoad<PersistedSettings>)
    ensures
        route_outcome_ok(route_spec(json_envelope(raw@), "settings"@, 2), r),
        route_spec(json_envelope(raw@), "settings"@, 2) matches Ok(step) ==> settings_finish_ok(step, legacy, current, r),
{
    let probe = probe_envelope(raw);
    proof {
        reveal_strlit("settings");
    }
    match route_envelope::<PersistedSettings>(&probe, SETTINGS_SCHEMA_NAME, SETTINGS_SCHEMA_VERSION_V2) {
        Err(outcome) => outcome,
        Ok(step) => finish_settings_load(step, legacy, current),
    }
}

} // verus!
