use git_auto_commit::extract::{extract_from_backticks, extraction_fell_back};

#[test]
fn extracts_fenced_interior_trimmed() {
    let raw = "here is my suggestion:\n```\nfix a bug\n```\nthanks".to_string();
    assert_eq!(extract_from_backticks(raw), "fix a bug");
}

#[test]
fn extraction_ignores_leading_and_trailing_text() {
    let a = extract_from_backticks("```\nadd feature\n```".to_string());
    let b = extract_from_backticks("preamble text\n```\nadd feature\n```".to_string());
    let c = extract_from_backticks("```\nadd feature\n```\nand an explanation".to_string());
    assert_eq!(a, "add feature");
    assert_eq!(b, "add feature");
    assert_eq!(c, "add feature");
}

#[test]
fn extraction_is_idempotent_on_well_formed_input() {
    let raw = "noise before\n```\nimprove parser errors\n```\nnoise after".to_string();
    let once = extract_from_backticks(raw);
    let twice = extract_from_backticks(once.clone());
    assert_eq!(once, "improve parser errors");
    assert_eq!(twice, once);
}

#[test]
fn extraction_fallback_returns_trimmed_input() {
    let raw = "  no fences here at all  ".to_string();
    assert!(extraction_fell_back(&raw));
    assert_eq!(extract_from_backticks(raw), "no fences here at all");
}

#[test]
fn extraction_with_unclosed_fence_falls_back() {
    let raw = "```\nopened but never closed".to_string();
    assert!(extraction_fell_back(&raw));
    assert_eq!(extract_from_backticks(raw), "```\nopened but never closed");
}

#[test]
fn extraction_takes_first_fenced_block() {
    let raw = "```\nfirst\n```\n```\nsecond\n```".to_string();
    assert!(!extraction_fell_back(&raw));
    assert_eq!(extract_from_backticks(raw), "first");
}

#[test]
fn extraction_of_empty_block_is_empty() {
    let raw = "``````".to_string();
    assert_eq!(extract_from_backticks(raw), "");
}
