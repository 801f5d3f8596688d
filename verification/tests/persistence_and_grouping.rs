use forskscope_core::encoding::NewlinePolicy;
use forskscope_core::merge::three_way::{diff3, split_lines, RegionKind, ThreeWayMergeSession, ThreeWayStats};
use forskscope_core::path::{has_extension, split_parent_name};
use forskscope_core::persist::schema::session::{load_session_from, PersistedSession};
use forskscope_core::persist::schema::settings::{
    legacy_default_profiles, load_settings_from, migrate_settings_from_v0, normalize_settings, Density,
    DiffFontFamilySetting, FontFamilySetting, LegacyAppSettingsV0, LegacyDiffFontFamilyV0, LegacyLangV0,
    LegacyThemeV0, PersistedSettings, ThemeId,
};
use forskscope_core::persist::schema::{probe_envelope, NameField, PersistenceError, PersistenceLoad};

fn legacy_settings(font: u32, profiles: bool) -> LegacyAppSettingsV0 {
    LegacyAppSettingsV0 {
        theme: LegacyThemeV0::Night,
        language: LegacyLangV0::Ja,
        diff_font_size: font,
        diff_font_family: LegacyDiffFontFamilyV0::Consolas,
        context_lines: 99,
        last_left_dir: None,
        last_right_dir: None,
        profiles: if profiles { legacy_default_profiles() } else { Vec::new() },
        active_profile: 7,
        ignore_extensions: "o,a".to_string(),
        ignore_dirs: "target".to_string(),
        explorer_compact: true,
        enable_binary_comparison: false,
        remember_explorer_dirs: true,
    }
}

#[test]
fn plain_paths_split_at_the_last_slash() {
    assert_eq!(split_parent_name("a/b/c.txt"), ("a/b".to_string(), "c.txt".to_string()));
    assert_eq!(split_parent_name("/c.txt"), ("/".to_string(), "c.txt".to_string()));
    assert_eq!(split_parent_name("c.txt"), ("".to_string(), "c.txt".to_string()));
    assert!(has_extension("dir/archive.tar.GZ", "gz"));
    assert!(!has_extension("dir/.bashrc", "bashrc"));
    assert!(has_extension("dir/name.", ""));
}

#[test]
fn envelope_probe_reads_the_three_fields() {
    let p = probe_envelope(r#"{"schema_name":"session","schema_version":2,"payload":{}}"#);
    assert!(p.is_object);
    assert_eq!(p.schema_name, NameField::Text("session".to_string()));
    assert_eq!(p.schema_version, Some(2));
    assert!(p.has_payload);
    let q = probe_envelope("not json");
    assert!(!q.is_object);
    assert_eq!(q.schema_name, NameField::Absent);
    let r = probe_envelope(r#"{"schema_name":3}"#);
    assert_eq!(r.schema_name, NameField::NotString);
    assert!(!r.has_payload);
}

#[test]
fn session_text_is_routed_before_decoding() {
    match load_session_from("[1,2]", None, None) {
        PersistenceLoad::Corrupt { detail } => assert_eq!(detail, PersistenceError::MalformedJson),
        _ => panic!("an array is not an envelope"),
    }
    match load_session_from(r#"{"schema_name":"session","schema_version":9,"payload":{}}"#, None, None) {
        PersistenceLoad::FutureVersion { schema, version } => {
            assert_eq!(schema, "session");
            assert_eq!(version, 9);
        }
        _ => panic!("a newer version is preserved"),
    }
    match load_session_from(r#"{"schema_name":"session","schema_version":2,"payload":{}}"#, None, Some(PersistedSession::default())) {
        PersistenceLoad::Current { value } => assert!(value.tabs.is_empty()),
        _ => panic!("a current envelope loads"),
    }
    match load_session_from(r#"{"tabs":[]}"#, None, None) {
        PersistenceLoad::Corrupt { detail } => assert_eq!(detail, PersistenceError::UnrecognizedLegacyShape),
        _ => panic!("an undecodable legacy shape is corrupt"),
    }
}

#[test]
fn legacy_settings_migrate_and_clamp() {
    let s = migrate_settings_from_v0(legacy_settings(80, true));
    assert_eq!(s.theme, ThemeId::Night);
    assert_eq!(s.language.0, "ja");
    assert_eq!(s.diff_font_size, 50);
    assert_eq!(s.diff_font_family, DiffFontFamilySetting::Consolas);
    assert_eq!(s.appearance_font_size, 14);
    assert_eq!(s.appearance_font_family, FontFamilySetting::SystemSans);
    assert_eq!(s.density, Density::Comfortable);
    assert_eq!(s.context_lines, 20);
    assert_eq!(s.profiles.len(), 4);
    assert_eq!(s.active_profile, 0);
    assert_eq!(s.ignore_dirs, "target");
    assert!(s.explorer_compact);
    assert!(s.show_line_numbers && !s.wrap_long_lines && s.restore_session);
    assert_eq!(s.newline_policy, NewlinePolicy::Preserve);
    assert_eq!(s.recent_limit, 20);
    let small = migrate_settings_from_v0(legacy_settings(2, false));
    assert_eq!(small.diff_font_size, 6);
    assert_eq!(small.profiles.len(), 4);
    assert_eq!(small.profiles[3].name, "Histogram");
}

#[test]
fn settings_normalization_keeps_fields_and_bounds() {
    let mut s: PersistedSettings = migrate_settings_from_v0(legacy_settings(14, true));
    s.appearance_font_size = 200;
    s.diff_font_size = 0;
    s.context_lines = 5;
    s.active_profile = 3;
    let n = normalize_settings(s.clone());
    assert_eq!(n.appearance_font_size, 50);
    assert_eq!(n.diff_font_size, 6);
    assert_eq!(n.context_lines, 5);
    assert_eq!(n.active_profile, 3);
    assert_eq!(n.ignore_extensions, s.ignore_extensions);
}

#[test]
fn settings_text_is_routed_before_decoding() {
    match load_settings_from(r#"{"theme":"night"}"#, Some(legacy_settings(14, true)), None) {
        PersistenceLoad::MigratedLegacy { value, source_backup_required } => {
            assert!(source_backup_required);
            assert_eq!(value.theme, ThemeId::Night);
        }
        _ => panic!("a legacy file migrates"),
    }
    match load_settings_from(r#"{"schema_name":"session","schema_version":2,"payload":{}}"#, None, None) {
        PersistenceLoad::Corrupt { detail } => {
            assert_eq!(detail, PersistenceError::SchemaNameMismatch { found: "session".to_string() })
        }
        _ => panic!("another schema is refused"),
    }
    match load_settings_from(r#"{"schema_name":"settings","schema_version":1,"payload":{}}"#, None, None) {
        PersistenceLoad::Corrupt { detail } => assert_eq!(detail, PersistenceError::MalformedVersion),
        _ => panic!("an old unsupported version is corrupt"),
    }
    match load_settings_from(r#"{"schema_name":"settings","schema_version":2}"#, None, None) {
        PersistenceLoad::Corrupt { detail } => assert_eq!(detail, PersistenceError::MalformedPayload),
        _ => panic!("a missing payload is corrupt"),
    }
}

#[test]
fn a_divergent_change_stays_one_conflict() {
    let regions = diff3(&split_lines("a\n"), &split_lines("b\n"), &split_lines("c\n"));
    assert_eq!(regions.len(), 1);
    assert_eq!(regions[0].kind, RegionKind::Conflict);
}

#[test]
fn one_sided_changes_group_into_three_regions() {
    let s = ThreeWayMergeSession::from_texts("a\nb\nc\nd\ne\n", "A\nb\nc\nd\ne\n", "a\nb\nc\nd\nE\n");
    assert!(s.conflicts().is_empty());
    assert_eq!(
        s.stats(),
        ThreeWayStats { regions_total: 3, auto_merged: 2, conflicts_total: 0, conflicts_unresolved: 0 }
    );
    assert_eq!(s.result_text(), "A\nb\nc\nd\nE\n");
    assert!(s.can_save() && !s.is_dirty() && !s.can_undo());
}

#[test]
fn conflict_resolutions_set_the_result_text() {
    let mut s = ThreeWayMergeSession::from_texts("x\na\ny\n", "x\nb\ny\n", "x\nc\ny\n");
    assert_eq!(s.conflicts().len(), 1);
    let id = s.conflicts()[0].id;
    assert_eq!(s.result_text(), "x\ny\n");
    assert!(!s.can_save());
    s.resolve_both(id).unwrap();
    assert_eq!(s.result_text(), "x\nb\nc\ny\n");
    assert!(s.can_save());
    s.ignore(id).unwrap();
    assert_eq!(s.result_text(), "x\na\ny\n");
    s.resolve_manual(id, "z\n").unwrap();
    assert_eq!(s.result_text(), "x\nz\ny\n");
    s.reset(id).unwrap();
    assert_eq!(s.result_text(), "x\ny\n");
    assert!(!s.can_save());
}
