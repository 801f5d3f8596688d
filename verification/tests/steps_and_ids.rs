use forskscope_core::command::cmd;
use forskscope_core::command::CommandId;
use forskscope_core::conflict_nav::{ConflictFilter, ConflictNavigator};
use forskscope_core::dir::{OperationId, OperationPlanId, RecursiveMerge, RightStep, SeenKind};
use forskscope_core::error::app::ErrorId;
use forskscope_core::external_tool::{parse_arg, ExternalToolArg, ExternalToolPlaceholder};
use forskscope_core::merge::three_way::ThreeWayMergeSession;
use forskscope_core::merge::{TransactionKind, TransactionLog};

#[test]
fn right_walk_steps_follow_what_was_seen() {
    let mut m = RecursiveMerge::new();
    m.record_left_file("a.txt".to_string(), 3);
    assert_eq!(m.right_entry_step("a.txt", SeenKind::File, true, true), RightStep::Stop);
    assert_eq!(m.right_entry_step("a.txt", SeenKind::File, true, false), RightStep::Compare);
    assert_eq!(m.right_entry_step("b.txt", SeenKind::File, true, false), RightStep::RecordUncompared);
    assert_eq!(m.right_entry_step("a.txt", SeenKind::File, false, false), RightStep::RecordUnchecked);
    assert_eq!(m.right_entry_step("d", SeenKind::Directory, true, false), RightStep::Descend);
    assert_eq!(m.right_entry_step("l", SeenKind::Symlink, true, false), RightStep::RecordSymlink);
    assert_eq!(m.right_entry_step("x", SeenKind::MetadataFailed, true, false), RightStep::MarkUnreadable);
    assert_eq!(m.right_entry_step("p", SeenKind::Other, true, false), RightStep::Skip);
}

#[test]
fn identifiers_are_prefix_stamp_and_process() {
    assert_eq!(OperationId::from_parts(1700000000, 42).0, "op-1700000000-42");
    assert_eq!(OperationPlanId::from_parts(0, 7).0, "plan-0-7");
    assert_eq!(ErrorId::from_parts(1234, 9).0, "err-1234-9");
    assert!(OperationId::new(5).0.starts_with("op-"));
    assert!(ErrorId::new(5).0.ends_with("-5"));
}

#[test]
fn command_ids_carry_their_text() {
    assert_eq!(CommandId::new(cmd::SAVE).0, "file.save");
    assert_eq!(cmd::COMMAND_PALETTE, "view.command_palette");
}

#[test]
fn every_placeholder_token_parses_back() {
    for p in ExternalToolPlaceholder::all() {
        assert_eq!(parse_arg(p.token()).unwrap(), ExternalToolArg::Placeholder(p));
        assert_eq!(ExternalToolPlaceholder::from_token(p.token()), Some(p));
    }
}

#[test]
fn push_then_undo_gives_back_the_log() {
    let mut l = TransactionLog::new();
    l.push(TransactionKind::ManualTextEdit);
    l.mark_saved();
    let before_rev = l.current_revision();
    let before_dirty = l.is_dirty();
    l.push(TransactionKind::ApplyAllLeftToRight);
    l.record_undo();
    assert_eq!(l.current_revision(), before_rev);
    assert_eq!(l.is_dirty(), before_dirty);
    assert_eq!(l.active_entries().len(), 1);
    assert!(l.can_redo());
    assert_eq!(l.undone_entries().len(), 1);
    assert_eq!(l.undone_entries()[0].kind, TransactionKind::ApplyAllLeftToRight);
    assert!(!l.undone_entries()[0].active);
}

#[test]
fn stepping_forward_then_back_returns_the_focus() {
    let s = ThreeWayMergeSession::from_texts("a\nb\nc\nd\ne\n", "a\nB1\nc\nD1\ne\n", "a\nB2\nc\nD2\ne\n");
    let first = s.conflicts()[0].id;
    let second = s.conflicts()[1].id;
    let n = ConflictNavigator::build(&s, Some(second), ConflictFilter::All);
    assert_eq!(n.next_id(), Some(first));
    let m = ConflictNavigator::build(&s, n.next_id(), ConflictFilter::All);
    assert_eq!(m.prev_id(), Some(second));
    let none = ConflictNavigator::build(&s, None, ConflictFilter::All);
    assert_eq!(none.next_id(), Some(first));
    assert_eq!(none.prev_id(), Some(second));
}
