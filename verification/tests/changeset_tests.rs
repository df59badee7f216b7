use git_auto_commit::changeset::{
    files_from_deltas, should_ignore_diff, stage_write_allowed, staging_ops, status_char,
    use_staged_changes, ChangeSet, DeltaKind, DeltaRecord, FileChange, StageOp,
};
use git_auto_commit::context::AppContext;
use git_auto_commit::extract::extract_from_backticks;
use git_auto_commit::session::{GateOutcome, MenuChoice, SessionStep};

fn record(status: DeltaKind, new_path: Option<&str>, old_path: Option<&str>) -> DeltaRecord {
    DeltaRecord {
        status,
        new_path: new_path.map(|p| p.to_string()),
        old_path: old_path.map(|p| p.to_string()),
        new_binary: false,
        old_binary: false,
    }
}

#[test]
fn test_lock_file_is_ignored() {
    let records = vec![
        record(DeltaKind::Untracked, Some("Cargo.lock"), None),
        record(DeltaKind::Untracked, Some("src.rs"), None),
    ];
    let changes = files_from_deltas(&records);

    let lock_file = changes
        .iter()
        .find(|f| f.path == "Cargo.lock")
        .expect("lock file should be in changes");
    assert!(
        lock_file.diff_ignored,
        "lock file should have diff_ignored = true"
    );

    let normal_file = changes
        .iter()
        .find(|f| f.path == "src.rs")
        .expect("normal file should be in changes");
    assert!(
        !normal_file.diff_ignored,
        "normal file should not have diff_ignored = true"
    );
}

#[test]
fn binary_file_is_flagged() {
    let records = vec![
        DeltaRecord {
            status: DeltaKind::Untracked,
            new_path: Some("data.bin".to_string()),
            old_path: None,
            new_binary: true,
            old_binary: false,
        },
        record(DeltaKind::Untracked, Some("text.txt"), None),
    ];
    let changes = files_from_deltas(&records);
    assert!(changes.iter().find(|f| f.path == "data.bin").unwrap().diff_ignored);
    assert!(!changes.iter().find(|f| f.path == "text.txt").unwrap().diff_ignored);
}

#[test]
fn ignore_rules_by_path_shape() {
    assert!(should_ignore_diff("Cargo.lock"));
    assert!(should_ignore_diff("yarn-lock.yaml"));
    assert!(should_ignore_diff("package-lock.json"));
    assert!(should_ignore_diff("assets/app.min.js"));
    assert!(should_ignore_diff("assets/style.MIN.CSS"));
    assert!(should_ignore_diff("vendor/lib-min.js"));
    assert!(should_ignore_diff("vendor/lib-min.css"));
    assert!(should_ignore_diff("nested/dir/Gemfile.LOCK"));
    assert!(!should_ignore_diff("src/main.rs"));
    assert!(!should_ignore_diff(".lock"));
    assert!(!should_ignore_diff("lock"));
    assert!(!should_ignore_diff("a.lock/readme.md"));
    assert!(!should_ignore_diff("minutes.txt"));
}

#[test]
fn rename_record_becomes_one_entry_with_both_paths() {
    let records = vec![record(
        DeltaKind::Renamed,
        Some("new_name.txt"),
        Some("old_name.txt"),
    )];
    let changes = files_from_deltas(&records);
    assert_eq!(changes.len(), 1, "rename detected as single operation");
    let file = &changes[0];
    assert_eq!(file.status, DeltaKind::Renamed, "status should be R for rename");
    assert_eq!(file.path, "new_name.txt");
    assert_eq!(file.old_path, Some("old_name.txt".to_string()));
    assert_eq!(status_char(file.status), 'R');
}

#[test]
fn dissimilar_files_stay_two_entries() {
    // below the similarity threshold the provider reports a deletion and
    // an addition; they must stay two separate entries
    let records = vec![
        record(DeltaKind::Deleted, None, Some("old_name.txt")),
        record(DeltaKind::Untracked, Some("new_name.txt"), None),
    ];
    let changes = files_from_deltas(&records);
    assert_eq!(changes.len(), 2);
    assert_eq!(changes[0].status, DeltaKind::Deleted);
    assert_eq!(changes[0].path, "old_name.txt");
    assert_eq!(changes[0].old_path, None);
    assert_eq!(changes[1].path, "new_name.txt");
    assert_eq!(changes[1].old_path, None);
}

#[test]
fn unchanged_and_unreadable_deltas_are_skipped() {
    let records = vec![
        record(DeltaKind::Unmodified, Some("same.txt"), None),
        record(DeltaKind::Ignored, Some("target/out"), None),
        record(DeltaKind::Unreadable, Some("odd.txt"), None),
        record(DeltaKind::Conflicted, Some("clash.txt"), None),
        record(DeltaKind::Modified, Some("kept.txt"), None),
    ];
    let changes = files_from_deltas(&records);
    assert_eq!(changes.len(), 1);
    assert_eq!(changes[0].path, "kept.txt");
}

#[test]
fn status_characters() {
    assert_eq!(status_char(DeltaKind::Added), 'A');
    assert_eq!(status_char(DeltaKind::Copied), 'A');
    assert_eq!(status_char(DeltaKind::Untracked), 'A');
    assert_eq!(status_char(DeltaKind::Modified), 'M');
    assert_eq!(status_char(DeltaKind::Typechange), 'M');
    assert_eq!(status_char(DeltaKind::Deleted), 'D');
    assert_eq!(status_char(DeltaKind::Renamed), 'R');
    assert_eq!(status_char(DeltaKind::Conflicted), '?');
}

#[test]
fn staging_plan_for_mixed_operations() {
    let files = vec![
        FileChange {
            status: DeltaKind::Modified,
            path: "to_modify.txt".to_string(),
            old_path: None,
            diff_ignored: false,
        },
        FileChange {
            status: DeltaKind::Deleted,
            path: "to_delete.txt".to_string(),
            old_path: None,
            diff_ignored: false,
        },
        FileChange {
            status: DeltaKind::Renamed,
            path: "renamed.txt".to_string(),
            old_path: Some("to_rename.txt".to_string()),
            diff_ignored: false,
        },
        FileChange {
            status: DeltaKind::Untracked,
            path: "new_file.txt".to_string(),
            old_path: None,
            diff_ignored: false,
        },
    ];
    let ops = staging_ops(&files).expect("all entries are stageable");
    assert_eq!(
        ops,
        vec![
            StageOp::AddPath("to_modify.txt".to_string()),
            StageOp::RemovePath("to_delete.txt".to_string()),
            StageOp::RemovePath("to_rename.txt".to_string()),
            StageOp::AddPath("renamed.txt".to_string()),
            StageOp::AddPath("new_file.txt".to_string()),
        ]
    );
}

#[test]
fn staging_refuses_unexpected_states() {
    let files = vec![
        FileChange {
            status: DeltaKind::Modified,
            path: "fine.txt".to_string(),
            old_path: None,
            diff_ignored: false,
        },
        FileChange {
            status: DeltaKind::Conflicted,
            path: "clash.txt".to_string(),
            old_path: None,
            diff_ignored: false,
        },
    ];
    assert_eq!(staging_ops(&files), Err(1));
}

#[test]
fn staging_writes_only_without_errors() {
    assert!(stage_write_allowed(&vec![]));
    assert!(!stage_write_allowed(&vec!["failed to stage a.txt".to_string()]));
}

#[test]
fn staged_changes_win_whenever_any_file_is_staged() {
    assert!(!use_staged_changes(0));
    assert!(use_staged_changes(1));
    assert!(use_staged_changes(7));
}

#[test]
fn changeset_source_label() {
    let staged = ChangeSet { files: vec![], diff: String::new(), is_staged: true };
    let unstaged = ChangeSet { files: vec![], diff: String::new(), is_staged: false };
    assert_eq!(staged.source(), "staged changes");
    assert_eq!(unstaged.source(), "unstaged changes");
}

#[test]
fn accepted_changeset_is_committed_with_extracted_message() {
    // a modified text file beside a lock file whose diff is withheld;
    // the backend replies with a fenced message; the user accepts at once
    let records = vec![
        record(DeltaKind::Modified, Some("a.txt"), None),
        record(DeltaKind::Added, Some("b.lock"), None),
    ];
    let files = files_from_deltas(&records);
    assert_eq!(files.len(), 2);
    assert!(!files[0].diff_ignored);
    assert!(files[1].diff_ignored, "the lock file's diff is withheld");

    let mut ctx = AppContext::new(false, false);
    let reply = "```\nfix a bug\n```".to_string();
    let message = extract_from_backticks(reply);
    assert!(ctx.regenerate);
    let replaced = ctx.absorb_generation(Some(message));
    assert!(replaced);
    assert_eq!(ctx.length_gate(), GateOutcome::Clean);

    let step = ctx.apply_choice(MenuChoice::Accept);
    assert_eq!(step, SessionStep::Commit);
    assert_eq!(ctx.commit_description, "fix a bug");

    let ops = staging_ops(&files).expect("both files are stageable");
    assert_eq!(
        ops,
        vec![
            StageOp::AddPath("a.txt".to_string()),
            StageOp::AddPath("b.lock".to_string()),
        ],
        "both files are staged, the withheld one included"
    );
}
