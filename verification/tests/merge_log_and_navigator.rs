use forskscope_core::conflict_nav::{ConflictFilter, ConflictNavigator};
use forskscope_core::merge::three_way::ThreeWayMergeSession;
use forskscope_core::merge::{ConflictStatus, SessionRevision, TransactionKind, TransactionLog};

#[test]
fn revision_display_and_next() {
    let r = SessionRevision::initial();
    assert_eq!(r.0, 0);
    assert_eq!(r.next().to_display_string(), "r1");
    assert_eq!(SessionRevision(42).to_display_string(), "r42");
}

#[test]
fn transaction_labels() {
    assert_eq!(TransactionKind::ApplyHunkLeftToRight { hunk_id: 7 }.label(), "Apply hunk #7");
    assert_eq!(TransactionKind::ResolveConflictBoth { conflict_id: 3 }.label(), "Resolve conflict #3 \u{2014} use both");
    assert_eq!(TransactionKind::ApplyAllLeftToRight.label(), "Apply all changes");
    assert_eq!(TransactionKind::IgnoreConflict { conflict_id: 0 }.label(), "Ignore conflict #0");
}

#[test]
fn log_undo_then_redo_restores_revision() {
    let mut log = TransactionLog::new();
    assert!(log.is_empty());
    assert!(!log.can_undo());
    assert!(!log.is_dirty());
    log.push(TransactionKind::ManualTextEdit);
    log.push(TransactionKind::ApplyExternalPatch);
    assert_eq!(log.current_revision().0, 2);
    assert!(log.is_dirty());
    log.record_undo();
    assert_eq!(log.current_revision().0, 1);
    assert!(log.can_redo());
    assert_eq!(log.active_entries().len(), 1);
    assert_eq!(log.undone_entries().len(), 1);
    log.record_redo();
    assert_eq!(log.current_revision().0, 2);
    assert!(!log.can_redo());
    assert_eq!(log.last_active().unwrap().label, "Apply external patch");
}

#[test]
fn log_push_after_undo_discards_redo_branch() {
    let mut log = TransactionLog::new();
    log.push(TransactionKind::ManualTextEdit);
    log.push(TransactionKind::ManualTextEdit);
    log.record_undo();
    log.push(TransactionKind::ApplyAllLeftToRight);
    assert_eq!(log.len(), 2);
    assert!(!log.can_redo());
    assert_eq!(log.current_revision().0, 3);
}

#[test]
fn log_ops_since_save() {
    let mut log = TransactionLog::new();
    log.push(TransactionKind::ManualTextEdit);
    log.mark_saved();
    assert!(!log.is_dirty());
    assert_eq!(log.saved_revision().0, 1);
    assert_eq!(log.active_ops_since_save(), 0);
    log.push(TransactionKind::ManualTextEdit);
    log.push(TransactionKind::ManualTextEdit);
    assert_eq!(log.active_ops_since_save(), 2);
    log.record_undo();
    log.record_undo();
    assert!(!log.is_dirty());
}

#[test]
fn three_way_manual_resolution_and_reset() {
    let mut s = ThreeWayMergeSession::from_texts("a\nb\nc\n", "a\nL\nc\n", "a\nR\nc\n");
    let id = s.conflicts()[0].id;
    s.resolve_manual(id, "M\n").unwrap();
    assert_eq!(s.result_text(), "a\nM\nc\n");
    assert_eq!(s.conflict(id).unwrap().status, ConflictStatus::ResolvedManual);
    s.reset(id).unwrap();
    assert_eq!(s.conflict(id).unwrap().status, ConflictStatus::Unresolved);
    assert_eq!(s.unresolved_count(), 1);
    s.ignore(id).unwrap();
    assert_eq!(s.result_text(), "a\nb\nc\n");
    assert!(s.is_fully_resolved());
    assert!(s.resolve_left(id + 1000).is_err());
}

#[test]
fn three_way_left_and_right_choices() {
    let mut s = ThreeWayMergeSession::from_texts("x\n", "l\n", "r\n");
    let id = s.conflicts()[0].id;
    s.resolve_left(id).unwrap();
    assert_eq!(s.result_text(), "l\n");
    s.resolve_right(id).unwrap();
    assert_eq!(s.result_text(), "r\n");
    assert!(s.is_dirty());
    s.mark_saved();
    assert!(!s.is_dirty());
    let st = s.stats();
    assert_eq!(st.conflicts_total, 1);
    assert_eq!(st.conflicts_unresolved, 0);
}

#[test]
fn navigator_moves_between_conflicts() {
    let base = "a\nb\nc\nd\ne\n";
    let left = "a\nB1\nc\nD1\ne\n";
    let right = "a\nB2\nc\nD2\ne\n";
    let mut s = ThreeWayMergeSession::from_texts(base, left, right);
    assert_eq!(s.conflicts().len(), 2);
    let first = s.conflicts()[0].id;
    let second = s.conflicts()[1].id;
    let nav = ConflictNavigator::build(&s, Some(first), ConflictFilter::All);
    assert_eq!(nav.next_id(), Some(second));
    assert_eq!(nav.first_unresolved_id(), Some(first));
    assert!(!nav.is_fully_resolved());
    s.resolve_left(first).unwrap();
    let nav = ConflictNavigator::build(&s, None, ConflictFilter::UnresolvedOnly);
    assert_eq!(nav.first_unresolved_id(), Some(second));
    assert!(nav.has_hidden_entries());
    assert_eq!(nav.focused_entry().map(|e| e.conflict_id), None);
}
