use forskscope_core::diff::model::HunkKind;
use forskscope_core::diff::options::{CaseSensitivity, DiffAlgorithm, InlineMode, NewlineCompareMode, WhitespaceMode};
use forskscope_core::persist::schema::settings::{
    legacy_default_profiles, migrate_profile_from_v0, migrate_profiles_from_v0, normalize_appearance_font_size,
    normalize_context_lines, normalize_diff_font_size, normalize_profiles, ui_builtin_profiles, LegacyDiffAlgorithmV0,
    LegacyDiffProfileV0,
};
use forskscope_core::report::hunk_kind_label;

#[test]
fn builtin_profiles_are_the_four_shipping_presets() {
    let ps = ui_builtin_profiles();
    let names: Vec<&str> = ps.iter().map(|p| p.name.as_str()).collect();
    assert_eq!(names, vec!["Exact (default)", "Ignore whitespace", "Ignore case", "Histogram"]);
    assert!(ps.iter().all(|p| p.built_in && p.inline_mode == InlineMode::Lazy));
    assert_eq!(ps[1].whitespace, WhitespaceMode::IgnoreAll);
    assert_eq!(ps[2].case, CaseSensitivity::Insensitive);
    assert_eq!(ps[3].algorithm, DiffAlgorithm::Histogram);
}

#[test]
fn legacy_profiles_migrate_to_the_builtins() {
    let migrated = migrate_profiles_from_v0(&legacy_default_profiles());
    assert_eq!(migrated, ui_builtin_profiles());
}

#[test]
fn legacy_switches_map_to_modes() {
    let p = LegacyDiffProfileV0 {
        name: "mine".to_string(),
        ignore_whitespace: true,
        ignore_case: true,
        algorithm: LegacyDiffAlgorithmV0::Patience,
        built_in: false,
    };
    let m = migrate_profile_from_v0(&p);
    assert_eq!(m.name, "mine");
    assert_eq!(m.whitespace, WhitespaceMode::IgnoreAll);
    assert_eq!(m.newlines, NewlineCompareMode::Significant);
    assert_eq!(m.case, CaseSensitivity::Insensitive);
    assert_eq!(m.algorithm, DiffAlgorithm::Patience);
    assert!(!m.built_in);
}

#[test]
fn settings_values_are_clamped() {
    assert_eq!(normalize_appearance_font_size(2), 6);
    assert_eq!(normalize_appearance_font_size(14), 14);
    assert_eq!(normalize_appearance_font_size(200), 50);
    assert_eq!(normalize_diff_font_size(0), 6);
    assert_eq!(normalize_diff_font_size(51), 50);
    assert_eq!(normalize_context_lines(3), 3);
    assert_eq!(normalize_context_lines(99), 20);
}

#[test]
fn empty_profile_list_falls_back_to_builtins() {
    let (ps, active) = normalize_profiles(Vec::new(), 7);
    assert_eq!(ps.len(), 4);
    assert_eq!(active, 0);
    let (ps, active) = normalize_profiles(ui_builtin_profiles(), 2);
    assert_eq!(ps.len(), 4);
    assert_eq!(active, 2);
    let (_, active) = normalize_profiles(ui_builtin_profiles(), 4);
    assert_eq!(active, 0);
}

#[test]
fn hunk_kind_labels() {
    assert_eq!(hunk_kind_label(HunkKind::Equal), "equal");
    assert_eq!(hunk_kind_label(HunkKind::Insert), "insert");
    assert_eq!(hunk_kind_label(HunkKind::Delete), "delete");
    assert_eq!(hunk_kind_label(HunkKind::Replace), "replace");
}
