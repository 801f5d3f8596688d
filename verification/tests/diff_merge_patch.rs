use forskscope_core::diff::{compute_diff, pair_over_inline_limit, refine_pair, DiffAlgorithm, DiffOptions, HunkKind};
use forskscope_core::error::CoreError;
use forskscope_core::merge::MergeSession;
use forskscope_core::patch::builder::patch_from_file_diff;
use forskscope_core::patch::{to_unified, PatchOptions};

#[test]
fn identical_texts_have_no_changed_hunk() {
    let d = compute_diff("a\nb\n", "a\nb\n", DiffOptions::default(), 1);
    assert!(d.is_identical());
    assert_eq!(d.stats.hunks_changed, 0);
    assert_eq!(d.diff_id, 1);
}

#[test]
fn replaced_line_forms_one_replace_hunk() {
    let d = compute_diff("a\nb\nc\n", "a\nX\nc\n", DiffOptions::default(), 7);
    assert!(!d.is_identical());
    assert_eq!(d.stats.hunks_changed, 1);
    assert_eq!(d.stats.lines_inserted, 1);
    assert_eq!(d.stats.lines_deleted, 1);
    let replaced: Vec<_> = d.hunks.iter().filter(|h| h.kind == HunkKind::Replace).collect();
    assert_eq!(replaced.len(), 1);
    assert_eq!(replaced[0].left_range.start, 2);
    assert_eq!(replaced[0].left_range.len, 1);
    assert_eq!(replaced[0].right_range.start, 2);
    assert_eq!(replaced[0].right_range.len, 1);
    assert!(d.hunk(replaced[0].hunk_id).is_some());
}

#[test]
fn ignore_case_makes_case_only_changes_equal() {
    let mut o = DiffOptions::default();
    o.ignore_case = true;
    let d = compute_diff("Hello\n", "hello\n", o, 2);
    assert!(d.is_identical());
    let strict = compute_diff("Hello\n", "hello\n", DiffOptions::default(), 3);
    assert!(!strict.is_identical());
}

#[test]
fn refine_pair_marks_changed_characters() {
    let r = refine_pair("abc", "abd").unwrap();
    let left: String = r.left_spans.iter().map(|s| s.text.as_str()).collect();
    let right: String = r.right_spans.iter().map(|s| s.text.as_str()).collect();
    assert_eq!(left, "abc");
    assert_eq!(right, "abd");
    assert!(!pair_over_inline_limit("abc", "abd"));
}

#[test]
fn merge_apply_undo_redo_round_trip() {
    let d = compute_diff("a\nb\nc\n", "a\nX\nc\n", DiffOptions::default(), 9);
    let mut s = MergeSession::from_diff(&d);
    assert_eq!(s.result_text(), "a\nX\nc\n");
    assert!(!s.is_dirty());
    assert_eq!(s.pending_changes(), 1);
    let id = d.hunks.iter().find(|h| h.kind == HunkKind::Replace).unwrap().hunk_id;
    s.apply_left_to_right(id).unwrap();
    assert_eq!(s.result_text(), "a\nb\nc\n");
    assert!(s.is_dirty());
    assert!(s.can_undo());
    assert_eq!(s.pending_changes(), 0);
    assert_eq!(s.undo().unwrap(), id);
    assert_eq!(s.result_text(), "a\nX\nc\n");
    assert!(!s.is_dirty());
    assert_eq!(s.redo().unwrap(), id);
    assert_eq!(s.result_text(), "a\nb\nc\n");
    s.mark_saved();
    assert!(!s.is_dirty());
}

#[test]
fn merge_rejects_unknown_and_applied_hunks() {
    let d = compute_diff("a\nb\n", "a\nc\n", DiffOptions::default(), 4);
    let mut s = MergeSession::from_diff(&d);
    match s.apply_left_to_right(u64::MAX - 3) {
        Err(CoreError::Conflict { message }) => assert_eq!(message, "unknown or stale hunk id"),
        other => panic!("unexpected: {other:?}"),
    }
    let id = d.hunks.iter().find(|h| h.kind == HunkKind::Replace).unwrap().hunk_id;
    s.apply_left_to_right(id).unwrap();
    match s.apply_left_to_right(id) {
        Err(CoreError::Conflict { message }) => assert_eq!(message, "hunk has no pending change"),
        other => panic!("unexpected: {other:?}"),
    }
    assert!(s.undo().is_ok());
    assert!(s.undo().is_err());
}

#[test]
fn unified_patch_of_one_replaced_line() {
    let d = compute_diff("a\nb\nc\n", "a\nX\nc\n", DiffOptions::default(), 5);
    let p = patch_from_file_diff("f.txt", &d, PatchOptions::default()).unwrap();
    assert!(!p.is_empty());
    assert_eq!(
        to_unified(&p),
        "# forskscope patch: 1 files, 1 additions(+), 1 deletions(-)\n--- a/f.txt\n+++ b/f.txt\n@@ -1,3 +1,3 @@\n a\n-b\n+X\n c\n"
    );
}

#[test]
fn identical_files_give_no_patch() {
    let d = compute_diff("same\n", "same\n", DiffOptions::default(), 6);
    assert!(patch_from_file_diff("f.txt", &d, PatchOptions::default()).is_none());
}

#[test]
fn missing_trailing_newline_is_marked_in_patch() {
    let d = compute_diff("a\n", "b", DiffOptions::default(), 8);
    let p = patch_from_file_diff("g", &d, PatchOptions::default()).unwrap();
    let text = to_unified(&p);
    assert!(text.ends_with("+b\n\\ No newline at end of file\n"), "{text}");
}

#[test]
fn other_algorithms_agree_on_a_single_replacement() {
    for alg in [DiffAlgorithm::Patience, DiffAlgorithm::Lcs, DiffAlgorithm::Histogram] {
        let mut o = DiffOptions::default();
        o.algorithm = alg;
        let d = compute_diff("a\nb\nc\n", "a\nX\nc\n", o, 10);
        assert_eq!(d.stats.hunks_changed, 1, "{alg:?}");
        assert_eq!(d.stats.lines_inserted, 1);
    }
}
