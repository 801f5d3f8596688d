use forskscope_core::dir::{
    bytes_size, execution_report, pair_entries, plan_operations, record_copy_result, BatchFailurePolicy,
    BatchItem, BatchManifest, ContentDigest, CopyDirection, CopyOutcome, DigestOutcome, DirectoryEntryRecord,
    DirectoryIndex, DirectoryMergeAction, EntryOutcome, EntrySelection, EntryType, EqualityEvidence, FileOutcome,
    IndexRevision, OperationId, OperationPlanId, RecEntry, RecStatus, RecursiveMerge, TargetProbe,
};
use forskscope_core::error::CoreError;
use std::path::PathBuf;

fn rec(rel: &str, status: RecStatus, l: Option<u64>, r: Option<u64>) -> RecEntry {
    RecEntry { rel_path: rel.to_string(), status, left_size: l, right_size: r }
}

#[test]
fn scan_entries_come_out_in_component_order() {
    let mut m = RecursiveMerge::new();
    m.record_left_file("a-b".to_string(), 1);
    m.record_left_file("a/b".to_string(), 2);
    m.record_left_file("a".to_string(), 3);
    let scan = m.into_scan(false, false);
    let paths: Vec<&str> = scan.entries.iter().map(|e| e.rel_path.as_str()).collect();
    assert_eq!(paths, vec!["a", "a/b", "a-b"]);
    assert!(!scan.left_root_unreadable);
}

#[test]
fn right_walk_merges_into_left_entries() {
    let mut m = RecursiveMerge::new();
    m.record_left_file("same.txt".to_string(), 10);
    m.record_left_file("diff.txt".to_string(), 10);
    m.record_left_file("gone.txt".to_string(), 5);
    m.record_left_file("stop.txt".to_string(), 5);
    assert!(m.right_file_needs_comparison("same.txt"));
    assert!(!m.right_file_needs_comparison("new.txt"));
    m.record_right_file("same.txt".to_string(), 10, Ok(DigestOutcome::Equal));
    m.record_right_file("diff.txt".to_string(), 11, Ok(DigestOutcome::Different));
    m.record_right_file("stop.txt".to_string(), 5, Ok(DigestOutcome::Cancelled));
    m.record_right_file("new.txt".to_string(), 3, Ok(DigestOutcome::Equal));
    let scan = m.into_scan(false, true);
    assert!(scan.right_root_unreadable);
    let expected = vec![
        rec("diff.txt", RecStatus::Changed, Some(10), Some(11)),
        rec("gone.txt", RecStatus::LeftOnly, Some(5), None),
        rec("new.txt", RecStatus::RightOnly, None, Some(3)),
        rec("same.txt", RecStatus::Equal, Some(10), Some(10)),
        rec("stop.txt", RecStatus::Computing, Some(5), Some(5)),
    ];
    assert_eq!(scan.entries, expected);
}

#[test]
fn failed_comparison_counts_as_changed() {
    let mut m = RecursiveMerge::new();
    m.record_left_file("x".to_string(), 1);
    m.record_right_file("x".to_string(), 1, Err(CoreError::internal("read failed")));
    let scan = m.into_scan(false, false);
    assert_eq!(scan.entries[0].status, RecStatus::Changed);
}

#[test]
fn unreadable_entries_are_never_turned_into_verdicts() {
    let mut m = RecursiveMerge::new();
    m.record_left_file("u".to_string(), 4);
    m.mark_unreadable("u".to_string());
    assert!(!m.right_file_needs_comparison("u"));
    m.record_right_file("u".to_string(), 4, Ok(DigestOutcome::Equal));
    m.mark_unreadable("d".to_string());
    m.record_right_file_unchecked("d".to_string(), 9);
    let scan = m.into_scan(false, false);
    assert_eq!(scan.entries, vec![
        rec("d", RecStatus::Unreadable, None, None),
        rec("u", RecStatus::Unreadable, Some(4), None),
    ]);
}

#[test]
fn fast_listing_and_symlinks() {
    let mut m = RecursiveMerge::new();
    m.record_left_file("f".to_string(), 1);
    m.record_symlink("link".to_string());
    m.record_right_symlink("link".to_string());
    m.record_right_symlink("rlink".to_string());
    m.record_right_file_unchecked("f".to_string(), 2);
    let scan = m.into_scan(false, false);
    assert_eq!(scan.entries, vec![
        rec("f", RecStatus::Computing, Some(1), Some(2)),
        rec("link", RecStatus::Symlink, None, None),
        rec("rlink", RecStatus::Symlink, None, None),
    ]);
}

fn file(rel: &str, size: Option<u64>, digest: Option<&str>) -> DirectoryEntryRecord {
    DirectoryEntryRecord {
        relative_path: rel.to_string(),
        entry_type: EntryType::File,
        size,
        modified: None,
        digest: digest.map(ContentDigest::fnv1a64),
        error: None,
    }
}

#[test]
fn pairing_gives_each_path_its_evidence() {
    let left = DirectoryIndex::from_records(
        PathBuf::from("/l"),
        vec![
            file("b", Some(3), Some("aa")),
            file("a", Some(1), None),
            file("c", Some(2), Some("01")),
            file("d", Some(5), None),
            DirectoryEntryRecord { entry_type: EntryType::Directory, size: None, ..file("dir", None, None) },
        ],
        true,
    );
    let right = DirectoryIndex::from_records(
        PathBuf::from("/r"),
        vec![
            file("b", Some(3), Some("aa")),
            file("c", Some(2), Some("02")),
            file("d", Some(6), None),
            file("e", Some(1), None),
            DirectoryEntryRecord { entry_type: EntryType::Directory, size: None, ..file("dir", None, None) },
        ],
        true,
    );
    let set = pair_entries(&left, &right);
    let got: Vec<(&str, EqualityEvidence)> =
        set.entries.iter().map(|e| (e.relative_path.as_str(), e.evidence.clone())).collect();
    assert_eq!(got, vec![
        ("a", EqualityEvidence::LeftOnly),
        ("b", EqualityEvidence::DigestEqual),
        ("c", EqualityEvidence::DigestDifferent),
        ("d", EqualityEvidence::SizeDifferent { left_size: 5, right_size: 6 }),
        ("dir", EqualityEvidence::MetadataEqual),
        ("e", EqualityEvidence::RightOnly),
    ]);
    assert_eq!(set.equal_count(), 2);
    assert_eq!(set.different_count(), 4);
    assert_eq!(set.pending_count(), 0);
    assert_eq!(set.left_only_count(), 1);
    assert_eq!(set.right_only_count(), 1);
    assert_eq!(set.entries[3].left_size(), Some(5));
    assert_eq!(set.entries[5].left_size(), None);
}

#[test]
fn pairing_errors_mismatches_and_pending() {
    let mut bad = file("x", Some(1), None);
    bad.error = Some("permission denied".to_string());
    let left = DirectoryIndex::from_records(PathBuf::from("/l"), vec![bad, file("t", Some(1), None), file("p", Some(4), None)], false);
    let mut tdir = file("t", None, None);
    tdir.entry_type = EntryType::Directory;
    let right = DirectoryIndex::from_records(PathBuf::from("/r"), vec![file("x", Some(1), None), tdir, file("p", Some(4), None)], false);
    let set = pair_entries(&left, &right);
    assert_eq!(set.entries[0].evidence, EqualityEvidence::MetadataOnly);
    assert_eq!(set.entries[1].evidence, EqualityEvidence::TypeMismatch { left: EntryType::File, right: EntryType::Directory });
    assert_eq!(set.entries[2].evidence, EqualityEvidence::Error { message: "permission denied".to_string() });
    assert_eq!(set.pending_count(), 1);
    assert!(set.entries[0].evidence.is_pending());
    assert!(set.entries[1].evidence.is_different());
    assert!(set.entries[2].evidence.present_on_both_sides());
}

#[test]
fn same_modification_time_counts_as_equal() {
    let t = std::time::SystemTime::UNIX_EPOCH + std::time::Duration::from_secs(100);
    let mut a = file("m", Some(2), None);
    a.modified = Some(t);
    let mut b = file("m", Some(2), None);
    b.modified = Some(t);
    let l = DirectoryIndex::from_records(PathBuf::from("/l"), vec![a], true);
    let r = DirectoryIndex::from_records(PathBuf::from("/r"), vec![b], true);
    let set = pair_entries(&l, &r);
    assert_eq!(set.entries[0].evidence, EqualityEvidence::MetadataEqual);
    assert!(set.entries[0].evidence.is_equal());
}

#[test]
fn index_lookup_and_filters() {
    let mut d = file("sub", None, None);
    d.entry_type = EntryType::Directory;
    let idx = DirectoryIndex::from_records(PathBuf::from("/x"), vec![file("a", Some(1), None), d], true);
    assert_eq!(idx.revision, IndexRevision(1));
    assert_eq!(idx.get("a").unwrap().size, Some(1));
    assert!(idx.get("zzz").is_none());
    assert_eq!(idx.files().len(), 1);
    assert_eq!(idx.directories().len(), 1);
    assert!(idx.entries[0].has_digest() == false && !idx.entries[0].has_error());
    let e = DirectoryIndex::empty(PathBuf::from("/y"));
    assert_eq!(e.revision.0, 0);
    assert!(!e.is_complete);
    assert_eq!(IndexRevision(4).next(), IndexRevision(5));
}

#[test]
fn digests_match_only_with_same_algorithm() {
    let a = ContentDigest::fnv1a64("abcd");
    assert_eq!(a.algorithm, "fnv1a64");
    let b = ContentDigest { algorithm: "sha256".to_string(), hex: "abcd".to_string() };
    assert!(a.matches(&ContentDigest::fnv1a64("abcd")));
    assert!(!a.matches(&b));
}

#[test]
fn byte_counts_are_grouped_in_threes() {
    assert_eq!(bytes_size(0), "0 bytes");
    assert_eq!(bytes_size(999), "999 bytes");
    assert_eq!(bytes_size(1000), "1,000 bytes");
    assert_eq!(bytes_size(12288), "12,288 bytes");
    assert_eq!(bytes_size(1234567), "1,234,567 bytes");
}

fn probe(exists: bool, writable: bool) -> TargetProbe {
    TargetProbe { exists, writable }
}

#[test]
fn plan_copies_from_the_source_side() {
    let entries = vec![
        rec("eq", RecStatus::Equal, Some(1), Some(1)),
        rec("ch", RecStatus::Changed, Some(10), Some(12)),
        rec("lo", RecStatus::LeftOnly, Some(7), None),
        rec("ro", RecStatus::RightOnly, None, Some(3)),
        rec("un", RecStatus::Unreadable, None, None),
    ];
    let probes = vec![probe(true, true), probe(true, false), probe(false, true), probe(false, true), probe(true, true)];
    let plan = plan_operations(&entries, "/left", "/right", CopyDirection::LeftToRight, EntrySelection::AllNonEqual,
        OperationPlanId("plan-1".to_string()), &probes);
    let actions: Vec<(&str, DirectoryMergeAction)> = plan.operations.iter().map(|o| (o.rel_path.as_str(), o.action)).collect();
    assert_eq!(actions, vec![
        ("ch", DirectoryMergeAction::CopyLeftToRight),
        ("lo", DirectoryMergeAction::CopyLeftToRight),
        ("ro", DirectoryMergeAction::Skip),
        ("un", DirectoryMergeAction::Skip),
    ]);
    assert!(plan.operations[0].source.is_some() && plan.operations[0].target.is_some());
    assert!(plan.operations[2].source.is_none());
    assert!(plan.operations[0].preflight.backup_required);
    assert_eq!(plan.operations[0].preflight.estimated_bytes, 10);
    assert_eq!(plan.risk_summary.total_files, 2);
    assert_eq!(plan.risk_summary.overwrites, 1);
    assert_eq!(plan.risk_summary.new_files, 1);
    assert_eq!(plan.risk_summary.estimated_bytes, 17);
    assert_eq!(plan.risk_summary.permission_blocks, 1);
    assert!(!plan.is_safe_to_execute());
    assert_eq!(plan.left_root, "/left");
}

#[test]
fn plan_selections_filter_entries() {
    let entries = vec![
        rec("ch", RecStatus::Changed, Some(1), Some(2)),
        rec("lo", RecStatus::LeftOnly, Some(7), None),
        rec("ro", RecStatus::RightOnly, None, Some(3)),
        rec("pending", RecStatus::Computing, Some(1), Some(1)),
    ];
    let probes = vec![probe(false, true); 4];
    let changed = plan_operations(&entries, "/l", "/r", CopyDirection::RightToLeft, EntrySelection::ChangedOnly,
        OperationPlanId("p".to_string()), &probes);
    assert_eq!(changed.operations.len(), 1);
    assert_eq!(changed.operations[0].action, DirectoryMergeAction::CopyRightToLeft);
    assert_eq!(changed.operations[0].preflight.estimated_bytes, 1);
    let source_only = plan_operations(&entries, "/l", "/r", CopyDirection::RightToLeft, EntrySelection::SourceOnlyEntries,
        OperationPlanId("p".to_string()), &probes);
    assert_eq!(source_only.operations.len(), 1);
    assert_eq!(source_only.operations[0].rel_path, "ro");
    assert!(source_only.is_safe_to_execute());
    assert_eq!(EntrySelection::default(), EntrySelection::AllNonEqual);
}

fn items() -> Vec<BatchItem> {
    vec![
        BatchItem { src: "s1".to_string(), dst: "d1".to_string() },
        BatchItem { src: "s2".to_string(), dst: "d2".to_string() },
        BatchItem { src: "s3".to_string(), dst: "d3".to_string() },
    ]
}

fn copied(bytes: u64, backup: Option<&str>) -> Result<CopyOutcome, CoreError> {
    Ok(CopyOutcome { src: String::new(), dst: String::new(), backup_path: backup.map(|s| s.to_string()), bytes_copied: bytes })
}

#[test]
fn stop_on_first_failure_skips_the_rest() {
    let items = items();
    let mut m = BatchManifest::new(OperationId("op-1".to_string()), "1.0".to_string(), 5);
    assert!(record_copy_result(&mut m, &items, copied(4, Some("d1.bak")), BatchFailurePolicy::StopOnFirst));
    let more = record_copy_result(&mut m, &items, Err(CoreError::internal("disk full")), BatchFailurePolicy::StopOnFirst);
    assert!(!more);
    assert_eq!(m.entries.len(), 3);
    assert!(matches!(&m.entries[2].outcome, EntryOutcome::Skipped { reason } if reason == "batch stopped on earlier failure"));
    assert_eq!(m.entries[2].dst, "d3");
    assert_eq!(m.attempted(), 2);
    assert_eq!(m.succeeded(), 1);
    assert_eq!(m.failed(), 1);
    let backups: Vec<&String> = m.backup_paths();
    assert_eq!(backups, vec!["d1.bak"]);
    assert!(m.entries[0].outcome.is_success());
}

#[test]
fn continue_on_failure_attempts_every_item() {
    let items = items();
    let mut m = BatchManifest::new(OperationId("op-2".to_string()), "1.0".to_string(), 5);
    assert!(record_copy_result(&mut m, &items, Err(CoreError::internal("x")), BatchFailurePolicy::ContinueOnFailure));
    assert!(record_copy_result(&mut m, &items, copied(1, None), BatchFailurePolicy::ContinueOnFailure));
    assert!(!record_copy_result(&mut m, &items, copied(2, None), BatchFailurePolicy::ContinueOnFailure));
    assert_eq!(m.attempted(), 3);
    assert_eq!(m.succeeded(), 2);
    assert!(m.backup_paths().is_empty());
    assert_eq!(BatchFailurePolicy::default(), BatchFailurePolicy::StopOnFirst);
}

#[test]
fn manifest_json_is_deterministic() {
    let items = vec![BatchItem { src: "a".to_string(), dst: "b".to_string() }];
    let mut m = BatchManifest::new(OperationId("op-9".to_string()), "2.1".to_string(), 77);
    record_copy_result(&mut m, &items, copied(12, None), BatchFailurePolicy::StopOnFirst);
    let expected = "{\n  \"operation_id\": \"op-9\",\n  \"app_version\": \"2.1\",\n  \"created_unix_sec\": 77,\n  \"entries\": [\n    {\n      \"src\": \"a\",\n      \"dst\": \"b\",\n      \"outcome\": \"copied\",\n      \"bytes\": 12,\n      \"backup_path\": null\n    }\n  ]\n}";
    assert_eq!(m.to_json(), expected);
}

#[test]
fn execution_report_pairs_copies_with_outcomes() {
    let entries = vec![
        rec("a", RecStatus::Changed, Some(1), Some(2)),
        rec("b", RecStatus::RightOnly, None, Some(3)),
        rec("c", RecStatus::LeftOnly, Some(4), None),
    ];
    let probes = vec![probe(true, true); 3];
    let plan = plan_operations(&entries, "/l", "/r", CopyDirection::LeftToRight, EntrySelection::AllNonEqual,
        OperationPlanId("p9".to_string()), &probes);
    let items = vec![
        BatchItem { src: "x".to_string(), dst: "y".to_string() },
        BatchItem { src: "z".to_string(), dst: "w".to_string() },
    ];
    let mut m = BatchManifest::new(OperationId("op".to_string()), "v".to_string(), 0);
    record_copy_result(&mut m, &items, copied(1, Some("y.bak")), BatchFailurePolicy::ContinueOnFailure);
    record_copy_result(&mut m, &items, Err(CoreError::internal("nope")), BatchFailurePolicy::ContinueOnFailure);
    let report = execution_report(&plan, &m);
    assert_eq!(report.plan_id, OperationPlanId("p9".to_string()));
    assert_eq!(report.succeeded, 1);
    assert_eq!(report.failed, 1);
    assert_eq!(report.skipped, 1);
    assert_eq!(report.outcomes.len(), 2);
    assert_eq!(report.outcomes[0].0, "a");
    assert!(matches!(report.outcomes[0].1, FileOutcome::Copied { bytes: 1, backup_created: true }));
    assert_eq!(report.outcomes[1].0, "c");
    assert!(matches!(report.outcomes[1].1, FileOutcome::Failed { .. }));
}

#[test]
fn evidence_classes_do_not_overlap() {
    let all = vec![
        EqualityEvidence::DigestEqual,
        EqualityEvidence::MetadataEqual,
        EqualityEvidence::MetadataOnly,
        EqualityEvidence::LeftOnly,
        EqualityEvidence::RightOnly,
        EqualityEvidence::TypeMismatch { left: EntryType::File, right: EntryType::Other },
        EqualityEvidence::SizeDifferent { left_size: 1, right_size: 2 },
        EqualityEvidence::DigestDifferent,
        EqualityEvidence::Error { message: "e".to_string() },
        EqualityEvidence::Unknown,
    ];
    for e in &all {
        let n = [e.is_equal(), e.is_different(), e.is_pending()].iter().filter(|b| **b).count();
        assert!(n <= 1, "{e:?}");
    }
    assert!(!EqualityEvidence::Error { message: String::new() }.is_equal());
    assert!(!EqualityEvidence::Unknown.present_on_both_sides());
}

#[test]
fn copies_are_new_files_or_overwrites() {
    let entries = vec![
        rec("a", RecStatus::Changed, Some(1), Some(1)),
        rec("b", RecStatus::LeftOnly, Some(2), None),
        rec("c", RecStatus::LeftOnly, Some(3), None),
    ];
    let probes = vec![probe(true, true), probe(false, true), probe(true, true)];
    let plan = plan_operations(&entries, "/l", "/r", CopyDirection::LeftToRight, EntrySelection::AllNonEqual,
        OperationPlanId("p".to_string()), &probes);
    let r = plan.risk_summary;
    assert_eq!(r.total_files, r.new_files + r.overwrites);
    assert!(plan.operations.iter().all(|o| !o.preflight.target_exists || o.preflight.backup_required));
}

#[test]
fn plan_paths_join_root_and_relative_path() {
    let entries = vec![rec("sub/f.txt", RecStatus::LeftOnly, Some(1), None)];
    let plan = plan_operations(&entries, "/left", "/right", CopyDirection::LeftToRight, EntrySelection::AllNonEqual,
        OperationPlanId("p".to_string()), &vec![probe(false, true)]);
    assert_eq!(plan.operations[0].source.as_deref(), Some("/left/sub/f.txt"));
    assert_eq!(plan.operations[0].target.as_deref(), Some("/right/sub/f.txt"));
}

#[test]
fn different_modification_times_stay_pending() {
    let t = std::time::SystemTime::UNIX_EPOCH + std::time::Duration::from_secs(100);
    let mut a = file("m", Some(2), None);
    a.modified = Some(t);
    let mut b = file("m", Some(2), None);
    b.modified = Some(t + std::time::Duration::from_secs(1));
    let l = DirectoryIndex::from_records(PathBuf::from("/l"), vec![a], true);
    let r = DirectoryIndex::from_records(PathBuf::from("/r"), vec![b], true);
    assert_eq!(pair_entries(&l, &r).entries[0].evidence, EqualityEvidence::MetadataOnly);
}

#[test]
fn plan_paths_add_no_second_separator() {
    let entries = vec![rec("f.txt", RecStatus::RightOnly, None, Some(1))];
    let plan = plan_operations(&entries, "/left/", "right", CopyDirection::RightToLeft, EntrySelection::AllNonEqual,
        OperationPlanId("p".to_string()), &vec![probe(false, true)]);
    assert_eq!(plan.operations[0].source.as_deref(), Some("right/f.txt"));
    assert_eq!(plan.operations[0].target.as_deref(), Some("/left/f.txt"));
}
