use forskscope_core::cancel::CancellationToken;
use forskscope_core::diff::{compute_diff, DiffOptions};
use forskscope_core::diff_decoration::DiffDecorationSet;
use forskscope_core::edit_op::{RevisionId, TextOffset, TextRange};
use forskscope_core::file_kind::{classify_observed, EditabilityClass, FileKind};
use forskscope_core::job::limits::{FileSizeClass, PerformanceLimits};
use forskscope_core::job::JobHandle;
use forskscope_core::line_map::{build_mini_map, LineMap, RowId, RowState};

#[test]
fn line_map_aligns_rows_and_finds_changes() {
    let d = compute_diff("a\nb\nc\n", "a\nX\nc\n", DiffOptions::default(), 1);
    let m = LineMap::from_diff(&d);
    assert_eq!(m.rows.len(), 3);
    assert_eq!(m.changed_row_count, 1);
    assert!(!m.is_identical());
    let changed = m.changed_rows();
    assert_eq!(changed.len(), 1);
    assert_eq!(changed[0].state, RowState::Modified);
    assert!(changed[0].is_paired());
    assert_eq!(m.next_changed_row(0).unwrap().row_id, changed[0].row_id);
    assert!(m.next_changed_row(2).is_none());
    assert_eq!(m.prev_changed_row(2).unwrap().row_id, changed[0].row_id);
    assert!(m.row(RowId(0)).is_some());
    assert!(!build_mini_map(&m).is_empty());
    assert_eq!(RowState::Modified.gutter_symbol(), '~');
}

#[test]
fn decorations_count_changed_hunks() {
    let d = compute_diff("a\nb\n", "a\nc\nd\n", DiffOptions::default(), 2);
    let set = DiffDecorationSet::from_diff(&d, None);
    assert_eq!(set.changed_hunk_count(), 1);
    assert!(!set.is_empty());
    let same = compute_diff("q\n", "q\n", DiffOptions::default(), 3);
    assert_eq!(DiffDecorationSet::from_diff(&same, None).changed_hunk_count(), 0);
}

#[test]
fn classification_of_observed_files() {
    assert_eq!(classify_observed(false, false, false, b""), FileKind::Missing);
    assert_eq!(classify_observed(true, true, false, b"text"), FileKind::Text);
    assert_eq!(classify_observed(true, true, false, b"a\0b"), FileKind::Binary);
    assert_eq!(classify_observed(true, true, true, b"PK"), FileKind::ExcelXlsx);
    assert_eq!(
        classify_observed(true, false, false, b""),
        FileKind::Unsupported { reason: "not a regular file".to_string() }
    );
    assert!(FileKind::Text.is_mergeable_text());
    assert!(!FileKind::Binary.is_mergeable_text());
    let class = EditabilityClass::from_kind(&FileKind::Binary, false, "UTF-8");
    assert!(!class.is_editable());
}

#[test]
fn size_classes_follow_inclusive_bounds() {
    let l = PerformanceLimits::default();
    assert_eq!(FileSizeClass::classify(0, &l), FileSizeClass::Small);
    assert_eq!(FileSizeClass::classify(524288, &l), FileSizeClass::Small);
    assert_eq!(FileSizeClass::classify(524289, &l), FileSizeClass::Medium);
    assert_eq!(FileSizeClass::classify(4194305, &l), FileSizeClass::Large);
    assert_eq!(FileSizeClass::classify(67108865, &l), FileSizeClass::VeryLarge);
    assert!(FileSizeClass::VeryLarge.too_large_for_diff());
    assert!(FileSizeClass::Small.inline_diff_eager());
}

#[test]
fn cancellation_is_shared_between_handle_and_token() {
    let (handle, token) = JobHandle::new(7);
    assert!(!token.is_cancelled());
    handle.cancel();
    assert!(token.is_cancelled());
    assert!(handle.is_cancelled());
    let t = CancellationToken::new();
    let t2 = t.clone();
    t.cancel();
    assert!(t2.is_cancelled());
}

#[test]
fn text_ranges() {
    let r = TextRange::new(2, 5);
    assert_eq!(r.len(), 3);
    assert!(!r.is_empty());
    assert!(r.contains(TextOffset(2)));
    assert!(!r.contains(TextOffset(5)));
    assert!(r.overlaps(TextRange::new(4, 9)));
    assert!(!r.overlaps(TextRange::new(5, 9)));
    assert!(TextRange::empty_at(3).is_empty());
    assert!(RevisionId::initial().is_initial());
    assert_eq!(RevisionId::initial().next(), RevisionId(1));
}
