use git2::{Delta, DiffFindOptions, IndexEntry, IndexTime, Oid, Repository};
use git_auto_commit::changeset::{
    files_from_deltas, stage_write_allowed, staging_ops, DeltaKind, DeltaRecord, FileChange,
    StageOp,
};
use std::path::Path;
use tempfile::TempDir;

fn setup_test_repo() -> (TempDir, Repository) {
    let temp_dir = TempDir::new().unwrap();
    let repo = Repository::init(temp_dir.path()).unwrap();
    let mut config = repo.config().unwrap();
    config.set_str("user.name", "Test User").unwrap();
    config.set_str("user.email", "test@example.com").unwrap();
    (temp_dir, repo)
}

fn entry(path: &str) -> IndexEntry {
    IndexEntry {
        ctime: IndexTime::new(0, 0),
        mtime: IndexTime::new(0, 0),
        dev: 0,
        ino: 0,
        mode: 0o100644,
        uid: 0,
        gid: 0,
        file_size: 0,
        id: Oid::zero(),
        flags: 0,
        flags_extended: 0,
        path: path.as_bytes().to_vec(),
    }
}

fn commit_index(repo: &Repository, message: &str) {
    let mut index = repo.index().unwrap();
    let tree_id = index.write_tree().unwrap();
    let tree = repo.find_tree(tree_id).unwrap();
    let signature = repo.signature().unwrap();
    let parent_commit = repo.head().ok().and_then(|h| h.peel_to_commit().ok());
    if let Some(parent) = parent_commit {
        repo.commit(Some("HEAD"), &signature, &signature, message, &tree, &[&parent])
            .unwrap();
    } else {
        repo.commit(Some("HEAD"), &signature, &signature, message, &tree, &[])
            .unwrap();
    }
}

fn kind_of(d: Delta) -> DeltaKind {
    match d {
        Delta::Added => DeltaKind::Added,
        Delta::Modified => DeltaKind::Modified,
        Delta::Deleted => DeltaKind::Deleted,
        Delta::Renamed => DeltaKind::Renamed,
        Delta::Copied => DeltaKind::Copied,
        Delta::Untracked => DeltaKind::Untracked,
        Delta::Typechange => DeltaKind::Typechange,
        Delta::Ignored => DeltaKind::Ignored,
        Delta::Unmodified => DeltaKind::Unmodified,
        Delta::Unreadable => DeltaKind::Unreadable,
        Delta::Conflicted => DeltaKind::Conflicted,
    }
}

fn staged_records(repo: &Repository, threshold: u16) -> Vec<DeltaRecord> {
    let tree = repo.head().unwrap().peel_to_tree().unwrap();
    let index = repo.index().unwrap();
    let mut diff = repo
        .diff_tree_to_index(Some(&tree), Some(&index), None)
        .unwrap();
    let mut find_opts = DiffFindOptions::new();
    find_opts.renames(true);
    find_opts.rename_threshold(threshold);
    find_opts.copy_threshold(threshold);
    diff.find_similar(Some(&mut find_opts)).unwrap();
    diff.deltas()
        .map(|delta| DeltaRecord {
            status: kind_of(delta.status()),
            new_path: delta
                .new_file()
                .path()
                .map(|p| p.to_string_lossy().into_owned()),
            old_path: delta
                .old_file()
                .path()
                .map(|p| p.to_string_lossy().into_owned()),
            new_binary: delta.new_file().is_binary(),
            old_binary: delta.old_file().is_binary(),
        })
        .collect()
}

#[test]
fn test_file_rename() {
    let (_temp_dir, repo) = setup_test_repo();

    let mut index = repo.index().unwrap();
    index
        .add_frombuffer(&entry("old_name.txt"), b"file content")
        .unwrap();
    index.write().unwrap();
    commit_index(&repo, "initial commit");

    let mut index = repo.index().unwrap();
    index.remove_path(Path::new("old_name.txt")).unwrap();
    index
        .add_frombuffer(&entry("new_name.txt"), b"file content")
        .unwrap();
    index.write().unwrap();

    let records = staged_records(&repo, 50);
    let changes = files_from_deltas(&records);

    assert_eq!(changes.len(), 1, "rename detected as single operation");
    let file = &changes[0];
    assert_eq!(file.status, DeltaKind::Renamed, "status should be R for rename");
    assert_eq!(file.path, "new_name.txt");
    assert_eq!(file.old_path, Some("old_name.txt".to_string()));
}

#[test]
fn test_file_move_to_subdirectory() {
    let (_temp_dir, repo) = setup_test_repo();

    let mut index = repo.index().unwrap();
    index.add_frombuffer(&entry("file.txt"), b"content").unwrap();
    index.write().unwrap();
    commit_index(&repo, "initial commit");

    let mut index = repo.index().unwrap();
    index.remove_path(Path::new("file.txt")).unwrap();
    index
        .add_frombuffer(&entry("subdir/file.txt"), b"content")
        .unwrap();
    index.write().unwrap();

    let records = staged_records(&repo, 50);
    let changes = files_from_deltas(&records);

    assert_eq!(changes.len(), 1, "move detected as single rename operation");
    let file = &changes[0];
    assert_eq!(file.status, DeltaKind::Renamed, "status should be R for move");
    assert_eq!(file.path, "subdir/file.txt");
    assert_eq!(file.old_path, Some("file.txt".to_string()));
}

#[test]
fn dissimilar_replacement_stays_deleted_plus_added() {
    let (_temp_dir, repo) = setup_test_repo();

    let mut index = repo.index().unwrap();
    index
        .add_frombuffer(&entry("old_name.txt"), b"alpha beta gamma delta\n")
        .unwrap();
    index.write().unwrap();
    commit_index(&repo, "initial commit");

    let mut index = repo.index().unwrap();
    index.remove_path(Path::new("old_name.txt")).unwrap();
    index
        .add_frombuffer(
            &entry("new_name.txt"),
            b"0123456789 entirely unrelated words here, nothing shared at all\n",
        )
        .unwrap();
    index.write().unwrap();

    let records = staged_records(&repo, 50);
    let changes = files_from_deltas(&records);

    assert_eq!(
        changes.len(),
        2,
        "a replacement below the similarity threshold stays two entries"
    );
    assert!(changes
        .iter()
        .any(|f| f.status == DeltaKind::Deleted && f.path == "old_name.txt"));
    assert!(changes
        .iter()
        .any(|f| f.status == DeltaKind::Added && f.path == "new_name.txt"));
}

#[test]
fn test_mixed_operations() {
    let (_temp_dir, repo) = setup_test_repo();

    let mut index = repo.index().unwrap();
    index
        .add_frombuffer(&entry("to_modify.txt"), b"original")
        .unwrap();
    index
        .add_frombuffer(&entry("to_delete.txt"), b"delete me")
        .unwrap();
    index
        .add_frombuffer(&entry("to_rename.txt"), b"rename me")
        .unwrap();
    index.write().unwrap();
    commit_index(&repo, "initial commit");

    let mut index = repo.index().unwrap();
    index
        .add_frombuffer(&entry("to_modify.txt"), b"modified")
        .unwrap();
    index.remove_path(Path::new("to_delete.txt")).unwrap();
    index.remove_path(Path::new("to_rename.txt")).unwrap();
    index
        .add_frombuffer(&entry("renamed.txt"), b"rename me")
        .unwrap();
    index.add_frombuffer(&entry("new_file.txt"), b"new").unwrap();
    index.write().unwrap();

    let records = staged_records(&repo, 50);
    let changes = files_from_deltas(&records);

    assert_eq!(changes.len(), 4, "should have 4 file changes (M, D, R, A)");
    assert!(changes
        .iter()
        .any(|f| f.status == DeltaKind::Modified && f.path == "to_modify.txt"));
    assert!(changes
        .iter()
        .any(|f| f.status == DeltaKind::Deleted && f.path == "to_delete.txt"));
    assert!(changes.iter().any(|f| f.status == DeltaKind::Renamed
        && f.path == "renamed.txt"
        && f.old_path == Some("to_rename.txt".to_string())));
    assert!(changes
        .iter()
        .any(|f| f.status == DeltaKind::Added && f.path == "new_file.txt"));
}

#[test]
fn failed_staging_leaves_the_index_unchanged() {
    // all-or-nothing: when one of the planned operations fails, nothing is
    // written back, and the index re-read from disk holds exactly what it
    // held before the attempt
    let (temp_dir, repo) = setup_test_repo();

    let mut index = repo.index().unwrap();
    index
        .add_frombuffer(&entry("kept.txt"), b"kept content")
        .unwrap();
    index.write().unwrap();
    commit_index(&repo, "initial commit");

    let before: Vec<Vec<u8>> = repo
        .index()
        .unwrap()
        .iter()
        .map(|e| e.path.clone())
        .collect();

    // one entry that can be staged in memory, one whose file is missing
    let files = vec![
        FileChange {
            status: DeltaKind::Untracked,
            path: "added.txt".to_string(),
            old_path: None,
            diff_ignored: false,
        },
        FileChange {
            status: DeltaKind::Modified,
            path: "missing.txt".to_string(),
            old_path: None,
            diff_ignored: false,
        },
    ];
    let ops = staging_ops(&files).unwrap();

    let mut index = repo.index().unwrap();
    let mut errors: Vec<String> = Vec::new();
    for op in &ops {
        match op {
            StageOp::AddPath(p) => {
                let staged = if p == "added.txt" {
                    index.add_frombuffer(&entry(p), b"new content").map_err(|e| e.to_string())
                } else {
                    index.add_path(Path::new(p)).map_err(|e| e.to_string())
                };
                if let Err(e) = staged {
                    errors.push(e);
                }
            },
            StageOp::RemovePath(p) => {
                if let Err(e) = index.remove_path(Path::new(p)) {
                    errors.push(e.to_string());
                }
            },
        }
    }
    assert!(!errors.is_empty(), "staging the missing file must fail");
    assert!(!stage_write_allowed(&errors), "no write after a failure");
    index.read(true).unwrap();

    let after: Vec<Vec<u8>> = Repository::open(temp_dir.path())
        .unwrap()
        .index()
        .unwrap()
        .iter()
        .map(|e| e.path.clone())
        .collect();
    assert_eq!(after, before, "the staged file list is what it was");
}
