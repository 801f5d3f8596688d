use forskscope_core::command::registry::CommandRegistry;
use forskscope_core::command::{Availability, AvailabilityRule, CommandCategory, CommandContext, CommandId, Modifiers, Shortcut};
use forskscope_core::document::hex_preview;
use forskscope_core::encoding::{
    decode_bytes, decode_with_label, detect_bom, detect_newline_style, encode_text, BomPolicy, BomPresence,
    NewlinePolicy, NewlineStyle,
};
use forskscope_core::error::app::{AppError, AppErrorKind, ErrorId};
use forskscope_core::error::{CoreError, IoOperation};
use forskscope_core::external_tool::{
    expand_args, parse_arg, ExpandContext, ExternalToolArg, ExternalToolCommand, ExternalToolPlaceholder, ToolId,
};
use forskscope_core::fnv1a64;
use forskscope_core::ignore::{glob_match, IgnoreRules};
use forskscope_core::path::{display, extension_matches, has_extension, split_parent_name};
use forskscope_core::persist::schema::session::{finish_session_load, migrate_from_v0, normalize, PersistedSession};
use forskscope_core::persist::schema::{route_envelope, EnvelopeProbe, NameField, PersistenceError, PersistenceLoad, RouteStep};
use forskscope_core::platform::PlatformInfo;

#[test]
fn fnv1a64_known_values() {
    assert_eq!(fnv1a64(b""), 0xcbf29ce484222325);
    assert_eq!(fnv1a64(b"a"), 0xaf63dc4c8601ec8c);
}

#[test]
fn utf8_bytes_decode_directly() {
    let (text, enc, errors) = decode_bytes("h\u{e9}llo".as_bytes());
    assert_eq!(text, "h\u{e9}llo");
    assert_eq!(enc.label, "UTF-8");
    assert!(!errors);
}

#[test]
fn legacy_bytes_decode_with_label() {
    let (text, enc, errors) = decode_with_label(&[0x63, 0x61, 0x66, 0xe9], "windows-1252");
    assert_eq!(text, "caf\u{e9}");
    assert_eq!(enc.label, "windows-1252");
    assert!(!errors);
    let out = encode_text("caf\u{e9}", "windows-1252");
    assert_eq!(out.bytes, vec![0x63, 0x61, 0x66, 0xe9]);
    assert!(!out.lossy && !out.unknown_label_fallback);
}

#[test]
fn unknown_label_falls_back_to_utf8() {
    let out = encode_text("\u{e9}", "no-such-encoding");
    assert_eq!(out.bytes, vec![0xc3, 0xa9]);
    assert!(out.unknown_label_fallback);
}

#[test]
fn newline_styles_are_detected() {
    assert_eq!(detect_newline_style("a\nb\n"), NewlineStyle::Lf);
    assert_eq!(detect_newline_style("a\r\nb\r\n"), NewlineStyle::CrLf);
    assert_eq!(detect_newline_style("a\rb\r"), NewlineStyle::Cr);
    assert_eq!(detect_newline_style("a\nb\r\n"), NewlineStyle::Mixed);
    assert_eq!(detect_newline_style("abc"), NewlineStyle::NoNewline);
    assert_eq!(NewlinePolicy::Preserve.resolve(NewlineStyle::CrLf), Some("\r\n"));
    assert_eq!(NewlinePolicy::Preserve.resolve(NewlineStyle::Mixed), None);
    assert_eq!(NewlinePolicy::ForceLf.resolve(NewlineStyle::CrLf), Some("\n"));
}

#[test]
fn byte_order_marks() {
    let (bom, rest) = detect_bom(&[0xef, 0xbb, 0xbf, b'x']);
    assert_eq!(bom, BomPresence::Utf8);
    assert_eq!(rest, b"x");
    let (bom, rest) = detect_bom(&[0xff, 0xfe, 0x41, 0x00]);
    assert_eq!(bom, BomPresence::Utf16Le);
    assert_eq!(rest.len(), 2);
    assert_eq!(detect_bom(b"plain").0, BomPresence::Absent);
    assert_eq!(BomPolicy::Preserve.resolve_bytes(BomPresence::Utf8), vec![0xef, 0xbb, 0xbf]);
    assert!(BomPolicy::Strip.resolve_bytes(BomPresence::Utf8).is_empty());
    assert_eq!(BomPolicy::AddUtf8.resolve_bytes(BomPresence::Absent), vec![0xef, 0xbb, 0xbf]);
}

#[test]
fn hex_preview_layout() {
    assert_eq!(
        hex_preview(b"AB\n"),
        "00000000  41 42 0a                                          AB.\n"
    );
    assert_eq!(hex_preview(b""), "");
}

#[test]
fn glob_patterns() {
    assert!(glob_match("target", "target"));
    assert!(!glob_match("target", "targets"));
    assert!(glob_match("*.cache", "x.cache"));
    assert!(glob_match("tmp*", "tmp1"));
    assert!(glob_match("*backup*", "old_backup_2"));
    assert!(!glob_match("tmp*", "atmp"));
}

#[test]
fn ignore_rules_from_settings() {
    let r = IgnoreRules::from_settings(" .O, log ,,", "target, *.cache");
    assert!(!r.is_empty());
    assert!(r.is_file_ignored("main.o"));
    assert!(r.is_file_ignored("APP.LOG"));
    assert!(!r.is_file_ignored("notes.txt"));
    assert!(!r.is_file_ignored("o"));
    assert!(r.is_dir_ignored("target"));
    assert!(r.is_dir_ignored("a.cache"));
    assert!(!r.is_dir_ignored("Target"));
    assert!(IgnoreRules::from_settings("", "").is_empty());
}

#[test]
fn command_registry_lookup_and_search() {
    let reg = CommandRegistry::builtin();
    assert!(!reg.is_empty());
    let save = reg.get(&CommandId::new("file.save")).unwrap();
    assert_eq!(save.label, "Save");
    assert_eq!(save.category, CommandCategory::File);
    let found = reg.find_by_shortcut(&Shortcut::new(Modifiers::ctrl(), "s")).unwrap();
    assert_eq!(found.id.as_str(), "file.save");
    assert!(reg.search("SAVE").iter().any(|c| c.id.as_str() == "file.save"));
    assert!(reg.by_category(CommandCategory::File).iter().all(|c| c.category == CommandCategory::File));
    assert!(reg.get(&CommandId::new("no.such.command")).is_none());
}

#[test]
fn availability_rules_give_reasons() {
    let ctx = CommandContext::default();
    match AvailabilityRule::CanUndo.evaluate(&ctx) {
        Availability::Unavailable(r) => assert_eq!(r.as_str(), "Nothing to undo"),
        Availability::Available => panic!("undo should be unavailable"),
    }
    assert!(AvailabilityRule::Always.evaluate(&ctx).is_available());
    let mut dirty = CommandContext::default();
    dirty.active_tab_is_dirty = true;
    dirty.active_tab_is_saveable = true;
    assert!(AvailabilityRule::DirtyAndSaveable.evaluate(&dirty).is_available());
}

#[test]
fn core_errors_map_to_app_errors() {
    let e = CoreError::conflict("changed on disk");
    assert_eq!(AppErrorKind::from_core(&e), AppErrorKind::ExternalModificationDetected);
    let app = AppError::from_core(&e, ErrorId("err-1".to_string()));
    assert_eq!(app.kind, AppErrorKind::ExternalModificationDetected);
    assert_eq!(app.error_id, ErrorId("err-1".to_string()));
    let io = CoreError::Io { path: Some("/x".to_string()), operation: IoOperation::CreateBackup, message: "denied".to_string() };
    assert_eq!(AppErrorKind::from_core(&io), AppErrorKind::BackupFailed);
    assert!(AppErrorKind::InternalFault.name() == "InternalFault");
}

#[test]
fn external_tool_expansion() {
    let cmd = ExternalToolCommand {
        id: ToolId("t".to_string()),
        name: "Tool".to_string(),
        executable: "tool".to_string(),
        args: vec![
            ExternalToolArg::Literal("--goto".to_string()),
            ExternalToolArg::Placeholder(ExternalToolPlaceholder::Path),
            ExternalToolArg::Placeholder(ExternalToolPlaceholder::Line),
            ExternalToolArg::Placeholder(ExternalToolPlaceholder::Column),
        ],
    };
    let ctx = ExpandContext { path: Some("/a b".to_string()), line: Some(12), ..ExpandContext::default() };
    assert_eq!(expand_args(&cmd, &ctx), vec!["--goto", "/a b", "12"]);
}

#[test]
fn placeholder_parsing_rejects_unknown_tokens() {
    assert_eq!(parse_arg("{left}").unwrap(), ExternalToolArg::Placeholder(ExternalToolPlaceholder::LeftPath));
    assert_eq!(parse_arg("-n").unwrap(), ExternalToolArg::Literal("-n".to_string()));
    let err = parse_arg("{pat}").unwrap_err();
    assert_eq!(
        err.to_message(),
        "unknown placeholder token \"{pat}\"; valid tokens are: {path}, {left}, {right}, {line}, {column}"
    );
    assert_eq!(ExternalToolPlaceholder::from_token("{column}"), Some(ExternalToolPlaceholder::Column));
    assert_eq!(ExternalToolPlaceholder::all().len(), 5);
}

fn envelope(name: NameField, version: Option<u64>, payload: bool) -> EnvelopeProbe {
    EnvelopeProbe { is_object: true, schema_name: name, schema_version: version, has_payload: payload }
}

#[test]
fn envelope_routing() {
    let r: Result<RouteStep, PersistenceLoad<()>> = route_envelope(&envelope(NameField::Absent, None, false), "session", 2);
    assert!(matches!(r, Ok(RouteStep::DecodeLegacy)));
    let r: Result<RouteStep, PersistenceLoad<()>> =
        route_envelope(&envelope(NameField::Text("session".to_string()), Some(2), true), "session", 2);
    assert!(matches!(r, Ok(RouteStep::DecodeCurrent)));
    let r: Result<RouteStep, PersistenceLoad<()>> =
        route_envelope(&envelope(NameField::Text("session".to_string()), Some(3), true), "session", 2);
    assert!(matches!(r, Err(PersistenceLoad::FutureVersion { version: 3, .. })));
    let r: Result<RouteStep, PersistenceLoad<()>> =
        route_envelope(&envelope(NameField::Text("settings".to_string()), Some(2), true), "session", 2);
    assert!(matches!(r, Err(PersistenceLoad::Corrupt { detail: PersistenceError::SchemaNameMismatch { .. } })));
    let mut not_obj = envelope(NameField::Absent, None, false);
    not_obj.is_object = false;
    let r: Result<RouteStep, PersistenceLoad<()>> = route_envelope(&not_obj, "session", 2);
    assert!(matches!(r, Err(PersistenceLoad::Corrupt { detail: PersistenceError::MalformedJson })));
}

#[test]
fn session_migration_and_normalization() {
    let s = migrate_from_v0(vec![("a".to_string(), "b".to_string()), ("c".to_string(), "d".to_string())]);
    assert_eq!(s.tabs.len(), 2);
    assert_eq!(s.tabs[1].left, std::path::PathBuf::from("c"));
    assert_eq!(s.active_tab, None);
    let mut bad = PersistedSession::default();
    bad.tabs = s.tabs.clone();
    bad.active_tab = Some(9);
    assert_eq!(normalize(bad).active_tab, Some(0));
    let loaded = finish_session_load(RouteStep::DecodeLegacy, Some(vec![("x".to_string(), "y".to_string())]), None);
    assert!(matches!(loaded, PersistenceLoad::MigratedLegacy { source_backup_required: true, .. }));
}

#[test]
fn platform_report_lines() {
    let info = PlatformInfo {
        app_version: "1.2.3".to_string(),
        rustc_version: "unknown".to_string(),
        target_triple: "unix".to_string(),
        os: "linux".to_string(),
        arch: "x86_64".to_string(),
        logical_cpus: "8".to_string(),
        home_redacted: "/home/***".to_string(),
        config_dir_hint: "~/.config (default)".to_string(),
    };
    let s = info.to_report();
    assert!(s.contains("ForskScope"));
    assert!(s.contains("OS:"));
    assert_eq!(
        s,
        "ForskScope 1.2.3\nRust: unknown\nOS: linux (unix)\nArch: x86_64\nCPUs: 8\nHome: /home/***\nConfig: ~/.config (default)"
    );
}

#[test]
fn path_helpers() {
    assert_eq!(display("/a/b.txt"), "/a/b.txt");
    assert_eq!(split_parent_name("/a/b.txt"), ("/a".to_string(), "b.txt".to_string()));
    assert!(has_extension("/a/B.TXT", "txt"));
    assert!(!has_extension("/a/b", "txt"));
    assert!(extension_matches(Some("Md".to_string()), "mD"));
    assert!(!extension_matches(None, "md"));
}

#[test]
fn non_utf8_bytes_decode_through_the_guessed_encoding() {
    let (text, _enc, errors) = decode_bytes(&[0x63, 0x61, 0x66, 0xe9, 0x20, 0x63, 0x72, 0xe8, 0x6d, 0x65]);
    assert_eq!(text, "caf\u{e9} cr\u{e8}me");
    assert!(!errors);
}
