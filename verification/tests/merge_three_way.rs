use forskscope_core::merge::three_way::{split_lines, ThreeWayMergeSession};
use forskscope_core::merge::ConflictStatus;

#[test]
fn three_way_clean_merge_takes_both_sides() {
    let base = "a\nb\nc\n";
    let left = "A\nb\nc\n";
    let right = "a\nb\nC\n";
    let s = ThreeWayMergeSession::from_texts(base, left, right);
    assert_eq!(s.conflicts().len(), 0);
    assert!(s.can_save());
    assert_eq!(s.result_text(), "A\nb\nC\n");
}

#[test]
fn three_way_conflict_blocks_save_until_resolved() {
    let base = "a\nb\nc\n";
    let left = "a\nX\nc\n";
    let right = "a\nY\nc\n";
    let mut s = ThreeWayMergeSession::from_texts(base, left, right);
    assert_eq!(s.conflicts().len(), 1);
    assert!(!s.can_save());
    assert_eq!(s.result_text(), "a\nc\n");
    let id = s.conflicts()[0].id;
    s.resolve_both(id).unwrap();
    assert!(s.can_save());
    assert_eq!(s.result_text(), "a\nX\nY\nc\n");
    assert_eq!(s.undo().unwrap(), id);
    assert_eq!(s.conflict(id).unwrap().status, ConflictStatus::Unresolved);
    assert_eq!(s.redo().unwrap(), id);
    assert_eq!(s.conflict(id).unwrap().status, ConflictStatus::ResolvedBoth);
}

#[test]
fn split_lines_round_trips() {
    let lines = split_lines("x\r\ny\rz");
    assert_eq!(lines.len(), 3);
}
