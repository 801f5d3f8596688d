use forskscope_core::diff::{compute_diff, DiffAlgorithm, DiffOptions, HunkKind};
use forskscope_core::merge::MergeSession;
use forskscope_core::document::{load_missing, LoadOptions};
use forskscope_core::edit_op::{
    DocumentId, EditTransaction, RevisionId, TextEditOperation, TextOffset, TextRange, TransactionId, TransactionLabel,
};
use forskscope_core::error::CoreError;
use forskscope_core::external_tool::{expand_args, ExpandContext, ExternalToolCommand};
use forskscope_core::file_kind::FileKind;
use forskscope_core::merge::three_way::{diff3, split_lines, RegionKind};
use forskscope_core::merge::{TransactionKind, TransactionLog};
use forskscope_core::dir::RecStatus;
use forskscope_core::patch::directory::{entry_patch_step, EntryPatchStep};
use forskscope_core::patch::PatchOptions;
use forskscope_core::text::is_whitespace;

fn insert(text: &str) -> TextEditOperation {
    TextEditOperation::Insert {
        document: DocumentId::new("d"),
        base_revision: RevisionId::initial(),
        offset: TextOffset(0),
        text: text.to_string(),
    }
}

#[test]
fn transaction_is_empty_reports_held_operations() {
    let with_ops = EditTransaction::new(
        TransactionId::new("t1"),
        TransactionLabel::manual_edit(),
        vec![insert("x")],
        vec![],
    );
    assert!(with_ops.is_empty());
    assert!(!with_ops.is_reversible());
    let without = EditTransaction::new(TransactionId::new("t2"), TransactionLabel::manual_edit(), vec![], vec![]);
    assert!(!without.is_empty());
}

#[test]
fn only_operations_carrying_text_insert_text() {
    assert!(!insert("").inserts_text());
    assert!(insert("a").inserts_text());
    let delete = TextEditOperation::Delete {
        document: DocumentId::new("d"),
        base_revision: RevisionId::initial(),
        range: TextRange::new(0, 2),
    };
    assert!(!delete.inserts_text());
}

#[test]
fn vscode_preset_joins_path_and_line() {
    let cmd = ExternalToolCommand::vscode_open();
    assert_eq!(cmd.executable, "code");
    let ctx = ExpandContext { path: Some("/p/f.rs".to_string()), line: Some(42), ..ExpandContext::default() };
    assert_eq!(expand_args(&cmd, &ctx), vec!["--goto", "/p/f.rs:42"]);
    let no_line = ExpandContext { path: Some("/p/f.rs".to_string()), ..ExpandContext::default() };
    assert_eq!(expand_args(&cmd, &no_line), vec!["--goto", "/p/f.rs"]);
}

#[test]
fn push_after_save_and_undo_gets_a_fresh_revision() {
    let mut log = TransactionLog::new();
    log.push(TransactionKind::ManualTextEdit);
    log.mark_saved();
    log.record_undo();
    log.push(TransactionKind::ApplyAllLeftToRight);
    assert!(log.is_dirty());
    assert_eq!(log.len(), 1);
    assert!(!log.can_redo());
    assert_eq!(log.current_revision().0, 2);
    assert_eq!(log.last_active().unwrap().kind, TransactionKind::ApplyAllLeftToRight);
}

#[test]
fn identical_inputs_give_one_stable_region() {
    let text = "a\nb\nc\n";
    let regions = diff3(&split_lines(text), &split_lines(text), &split_lines(text));
    assert_eq!(regions.len(), 1);
    assert_eq!(regions[0].kind, RegionKind::Stable);
    assert_eq!(regions[0].base.len(), 3);
}

#[test]
fn unchanged_left_side_never_conflicts() {
    let base = split_lines("a\nb\nc\n");
    let right = split_lines("x\ny\n");
    let regions = diff3(&base, &base.clone(), &right);
    assert!(regions.iter().all(|r| r.kind != RegionKind::Conflict));
    assert!(regions.iter().any(|r| r.kind == RegionKind::RightChanged));
}

#[test]
fn allowed_missing_file_loads_as_empty_document() {
    let d = load_missing("/nowhere", LoadOptions { allow_missing: true }).unwrap();
    assert_eq!(d.kind, FileKind::Missing);
    assert!(d.file_id.is_none());
    assert!(d.fingerprint_at_load.is_none());
    assert_eq!(d.bytes_len, 0);
    assert_eq!(d.diff_text(), "");
    match load_missing("/nowhere", LoadOptions { allow_missing: false }) {
        Err(CoreError::InvalidPath { path, reason }) => {
            assert_eq!(path, "/nowhere");
            assert_eq!(reason, "file not found");
        }
        _ => panic!("a missing file is refused unless allowed"),
    }
}

#[test]
fn equal_texts_give_no_changed_hunk_under_every_algorithm() {
    let text = "one\ntwo\nthree\n";
    for algorithm in [DiffAlgorithm::Myers, DiffAlgorithm::Patience, DiffAlgorithm::Lcs, DiffAlgorithm::Histogram] {
        let options = DiffOptions { algorithm, ..DiffOptions::default() };
        let d = compute_diff(text, text, options, 7);
        assert!(d.is_identical());
    }
}

#[test]
fn directory_patch_steps_follow_status_and_options() {
    let with = PatchOptions::default();
    let without = PatchOptions { include_creation_deletion: false, ..PatchOptions::default() };
    assert_eq!(entry_patch_step(RecStatus::Changed, without), EntryPatchStep::Modify);
    assert_eq!(entry_patch_step(RecStatus::Symlink, with), EntryPatchStep::Notice);
    assert_eq!(entry_patch_step(RecStatus::RightOnly, with), EntryPatchStep::Add);
    assert_eq!(entry_patch_step(RecStatus::LeftOnly, with), EntryPatchStep::Delete);
    assert_eq!(entry_patch_step(RecStatus::RightOnly, without), EntryPatchStep::Skip);
    assert_eq!(entry_patch_step(RecStatus::LeftOnly, without), EntryPatchStep::Skip);
    assert_eq!(entry_patch_step(RecStatus::Equal, with), EntryPatchStep::Skip);
    assert_eq!(entry_patch_step(RecStatus::Computing, with), EntryPatchStep::Skip);
    assert_eq!(entry_patch_step(RecStatus::Unreadable, with), EntryPatchStep::Skip);
}

#[test]
fn whitespace_test_agrees_with_std_on_every_char() {
    for u in 0u32..=0x10FFFF {
        if let Some(c) = char::from_u32(u) {
            assert_eq!(is_whitespace(c), c.is_whitespace(), "U+{:04X}", u);
        }
    }
}

#[test]
fn undoing_every_apply_restores_the_start() {
    let d = compute_diff("a\nb\nc\nd\ne\n", "a\nB\nc\nD\ne\n", DiffOptions::default(), 3);
    let mut s = MergeSession::from_diff(&d);
    let start = s.result_text();
    let ids: Vec<u64> = d.hunks.iter().filter(|h| h.kind != HunkKind::Equal).map(|h| h.hunk_id).collect();
    assert_eq!(ids.len(), 2);
    for id in &ids {
        s.apply_left_to_right(*id).unwrap();
    }
    assert_eq!(s.result_text(), "a\nb\nc\nd\ne\n");
    assert!(s.is_dirty());
    for id in ids.iter().rev() {
        assert_eq!(s.undo().unwrap(), *id);
    }
    assert_eq!(s.result_text(), start);
    assert!(!s.is_dirty());
    assert!(!s.can_undo());
}

#[test]
fn lines_kept_by_both_sides_stay_stable() {
    let base = split_lines("a\nb\nc\nd\n");
    let left = split_lines("a\nX\nc\nd\n");
    let right = split_lines("a\nb\nc\nY\n");
    let regions = diff3(&base, &left, &right);
    let kinds: Vec<RegionKind> = regions.iter().map(|r| r.kind).collect();
    assert_eq!(kinds, vec![RegionKind::Stable, RegionKind::LeftChanged, RegionKind::Stable, RegionKind::RightChanged]);
    assert_eq!(regions[0].base.len(), 1);
    assert_eq!(regions[2].base.len(), 1);
}
