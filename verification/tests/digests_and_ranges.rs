use forskscope_core::file_kind::FileKind;
use forskscope_core::patch::directory::{text_patch_possible, EntryPatchStep};
use forskscope_core::diff::{compute_diff, DiffOptions, HunkKind};
use forskscope_core::dir::{digest_step, listings_match, names_match, size_verdict, DigestOutcome, DigestStep};

fn names(v: &[&str]) -> Vec<String> {
    v.iter().map(|s| s.to_string()).collect()
}

#[test]
fn sizes_decide_only_when_they_differ() {
    assert_eq!(size_verdict(3, 4), Some(DigestOutcome::Different));
    assert_eq!(size_verdict(4, 4), None);
}

#[test]
fn chunk_steps_stop_on_the_first_verdict() {
    assert_eq!(digest_step(true, b"ab", b"ab"), DigestStep::Done(DigestOutcome::Cancelled));
    assert_eq!(digest_step(false, b"ab", b"a"), DigestStep::Done(DigestOutcome::Different));
    assert_eq!(digest_step(false, b"", b""), DigestStep::Done(DigestOutcome::Equal));
    assert_eq!(digest_step(false, b"abc", b"abc"), DigestStep::Continue);
    assert_eq!(digest_step(false, b"abc", b"abd"), DigestStep::Done(DigestOutcome::Different));
}

#[test]
fn listings_match_in_any_order() {
    assert!(names_match(&names(&["b", "a", "a"]), &names(&["a", "b", "a"])));
    assert!(!names_match(&names(&["a", "a"]), &names(&["a", "b"])));
    assert!(!names_match(&names(&["a"]), &names(&["a", "a"])));
    assert!(listings_match(&names(&["d"]), &names(&["x", "y"]), &names(&["d"]), &names(&["y", "x"])));
    assert!(!listings_match(&names(&["d"]), &names(&["x"]), &names(&["e"]), &names(&["x"])));
}

#[test]
fn hunks_carry_their_operation_ranges() {
    let d = compute_diff("a\nb\nc\nd\n", "a\nb\nc\nX\n", DiffOptions::default(), 1);
    assert_eq!(d.hunks.len(), 2);
    assert_eq!(d.hunks[0].kind, HunkKind::Equal);
    assert_eq!((d.hunks[0].left_range.start, d.hunks[0].left_range.len), (1, 3));
    assert_eq!((d.hunks[0].right_range.start, d.hunks[0].right_range.len), (1, 3));
    assert_eq!(d.hunks[1].kind, HunkKind::Replace);
    assert_eq!((d.hunks[1].left_range.start, d.hunks[1].left_range.len), (4, 1));
    assert_eq!((d.hunks[1].right_range.start, d.hunks[1].right_range.len), (4, 1));
}

#[test]
fn first_run_settings_are_the_defaults() {
    let s = forskscope_core::persist::schema::settings::PersistedSettings::default();
    assert_eq!(s.language.0, "en");
    assert_eq!(s.diff_font_size, 14);
    assert_eq!(s.context_lines, 3);
    assert_eq!(s.profiles.len(), 4);
    assert!(s.remember_explorer_dirs && s.show_line_numbers && s.restore_session);
    assert_eq!(s.recent_limit, 20);
}

#[test]
fn text_patches_need_textual_sides() {
    assert!(text_patch_possible(EntryPatchStep::Modify, Some(FileKind::Text), Some(FileKind::Text)));
    assert!(!text_patch_possible(EntryPatchStep::Modify, Some(FileKind::Text), Some(FileKind::Binary)));
    assert!(text_patch_possible(EntryPatchStep::Add, None, Some(FileKind::Text)));
    assert!(!text_patch_possible(EntryPatchStep::Delete, None, Some(FileKind::Text)));
    assert!(!text_patch_possible(EntryPatchStep::Skip, Some(FileKind::Text), Some(FileKind::Text)));
}
