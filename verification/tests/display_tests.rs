use git_auto_commit::changeset::{DeltaKind, FileChange};
use git_auto_commit::diff_format::{format_diff_events, is_ignored_path, trim_end_newlines, DiffEvent};
use git_auto_commit::display::{
    file_list_lines, generation_summary, mention_segments, split_line_at_limit,
    violation_message,
};
use git_auto_commit::text::usize_to_string;

fn plain_file(path: &str, ignored: bool) -> FileChange {
    FileChange {
        status: DeltaKind::Modified,
        path: path.to_string(),
        old_path: None,
        diff_ignored: ignored,
    }
}

#[test]
fn short_line_is_not_split() {
    let (head, tail) = split_line_at_limit("a short line");
    assert_eq!(head, "a short line");
    assert_eq!(tail, "");
}

#[test]
fn long_line_splits_at_the_limit() {
    let line = format!("{}{}", "a".repeat(72), "overflow");
    let (head, tail) = split_line_at_limit(&line);
    assert_eq!(head, "a".repeat(72));
    assert_eq!(tail, "overflow");
    assert_eq!(format!("{head}{tail}"), line);
}

#[test]
fn mention_segments_flag_each_occurrence() {
    let segs = mention_segments("ask LLM and llm again");
    let rebuilt: String = segs.iter().map(|p| p.0.as_str()).collect::<Vec<_>>().join("");
    assert_eq!(rebuilt, "ask LLM and llm again");
    let flagged: Vec<&str> = segs.iter().filter(|p| p.1).map(|p| p.0.as_str()).collect();
    assert_eq!(flagged, vec!["LLM", "llm"]);
    let unflagged: Vec<&str> = segs.iter().filter(|p| !p.1).map(|p| p.0.as_str()).collect();
    assert_eq!(unflagged, vec!["ask ", " and ", " again"]);
}

#[test]
fn mention_segments_without_mention_is_one_piece() {
    let segs = mention_segments("nothing of note");
    assert_eq!(segs.len(), 1);
    assert_eq!(segs[0], ("nothing of note".to_string(), false));
}

#[test]
fn file_list_is_bounded_with_summary_tail() {
    let files: Vec<FileChange> = (0..13).map(|i| plain_file(&format!("f{i}.rs"), false)).collect();
    let lines = file_list_lines(&files);
    assert_eq!(lines.len(), 11);
    assert_eq!(lines[0], "M f0.rs");
    assert_eq!(lines[9], "M f9.rs");
    assert_eq!(lines[10], "(+3 more)");
}

#[test]
fn file_list_shows_renames_with_arrow() {
    let files = vec![FileChange {
        status: DeltaKind::Renamed,
        path: "new.rs".to_string(),
        old_path: Some("old.rs".to_string()),
        diff_ignored: false,
    }];
    let lines = file_list_lines(&files);
    assert_eq!(lines, vec!["R old.rs \u{2192} new.rs"]);
}

#[test]
fn decimal_rendering() {
    assert_eq!(usize_to_string(0), "0");
    assert_eq!(usize_to_string(7), "7");
    assert_eq!(usize_to_string(10), "10");
    assert_eq!(usize_to_string(305), "305");
    assert_eq!(usize_to_string(98765), "98765");
}

#[test]
fn violation_message_wording() {
    assert_eq!(
        violation_message(&"a".repeat(80)),
        "commit message is longer than 72 chars"
    );
    assert_eq!(
        violation_message(&format!("{}\nsecond", "a".repeat(80))),
        "commit message has lines longer than 72 chars"
    );
}

#[test]
fn summary_counts_files() {
    assert_eq!(generation_summary("staged changes", 1), "staged changes [1 file]");
    assert_eq!(generation_summary("unstaged changes", 4), "unstaged changes [4 files]");
}

#[test]
fn ignored_lookup_finds_first_entry() {
    let files = vec![plain_file("a.txt", false), plain_file("b.lock", true)];
    assert!(!is_ignored_path(&files, "a.txt"));
    assert!(is_ignored_path(&files, "b.lock"));
    assert!(!is_ignored_path(&files, "missing.txt"));
}

#[test]
fn diff_formatting_withholds_flagged_files() {
    let files = vec![plain_file("a.txt", false), plain_file("b.lock", true)];
    let events = vec![
        DiffEvent {
            origin: 'F',
            new_path: Some("a.txt".to_string()),
            content: "diff --git a/a.txt b/a.txt\n".to_string(),
        },
        DiffEvent { origin: 'H', new_path: None, content: "@@ -1 +1 @@\n".to_string() },
        DiffEvent { origin: '-', new_path: None, content: "old\n".to_string() },
        DiffEvent { origin: '+', new_path: None, content: "new\n".to_string() },
        DiffEvent {
            origin: 'F',
            new_path: Some("b.lock".to_string()),
            content: "diff --git a/b.lock b/b.lock\n".to_string(),
        },
        DiffEvent { origin: '+', new_path: None, content: "secret lock content\n".to_string() },
    ];
    let out = format_diff_events(&events, &files);
    assert_eq!(
        out,
        "diff --git a/a.txt b/a.txt\n@@ -1 +1 @@\n-old\n+new\n--- b.lock (diff ignored)"
    );
    assert!(!out.contains("secret lock content"));
}

#[test]
fn diff_formatting_trims_trailing_newlines() {
    assert_eq!(trim_end_newlines("abc\n\n\n"), "abc");
    assert_eq!(trim_end_newlines("abc"), "abc");
    assert_eq!(trim_end_newlines("\n\n"), "");
}
