use std::path::PathBuf;

use hecate::fspath::{path_join, path_starts_with};
use hecate::paths::{repo_default_segment, sanitize_segment, worktree_directory, PathError};
use hecate::task::task_layout;
use hecate::workspace_ok;

#[test]
fn workspace_ok_is_true() {
    assert!(workspace_ok());
}

#[test]
fn sanitize_trims_and_lowercases() {
    assert_eq!(sanitize_segment("  Hecate  ").unwrap(), "hecate");
}

#[test]
fn sanitize_rejects_separators_and_dotdot() {
    assert_eq!(sanitize_segment("a/b"), Err(PathError::InvalidSegment));
    assert_eq!(sanitize_segment("a\\b"), Err(PathError::InvalidSegment));
    assert_eq!(sanitize_segment(".."), Err(PathError::InvalidSegment));
    assert_eq!(sanitize_segment("foo..bar"), Err(PathError::InvalidSegment));
}

#[test]
fn sanitize_maps_special_chars() {
    assert_eq!(sanitize_segment("my branch!").unwrap(), "my-branch");
}

#[test]
fn reserved_name_gets_underscore_prefix() {
    assert_eq!(sanitize_segment("CON").unwrap(), "_con");
    assert_eq!(sanitize_segment("com1").unwrap(), "_com1");
}

#[test]
fn repo_default_segment_last_component() {
    assert_eq!(
        repo_default_segment("/home/me/projects/hecate").unwrap(),
        "hecate"
    );
    assert_eq!(repo_default_segment("C:/src/foo/bar").unwrap(), "bar");
}

#[test]
fn repo_default_segment_root_fails() {
    assert_eq!(
        repo_default_segment("/").unwrap_err(),
        PathError::NoRepoBasename
    );
}

#[test]
fn worktree_directory_joins() {
    let root = "/data/hecate-root";
    let p = worktree_directory(root, "myrepo", "wt-1").unwrap();
    assert_eq!(PathBuf::from(p), PathBuf::from("/data/hecate-root/myrepo/wt-1"));
}

#[test]
fn numeric_task() {
    let (b, w) = task_layout("42").unwrap();
    assert_eq!(b, "task/42");
    assert_eq!(w, "42");
}

#[test]
fn slug_task() {
    let (b, w) = task_layout("Fix the thing").unwrap();
    assert_eq!(b, "task/fix-the-thing");
    assert_eq!(w, "fix-the-thing");
}

#[test]
fn sanitize_empty_and_whitespace_only() {
    assert_eq!(sanitize_segment(""), Err(PathError::EmptySegment));
    assert_eq!(sanitize_segment(" \t\r\n "), Err(PathError::EmptySegment));
    assert_eq!(sanitize_segment("!!!"), Err(PathError::EmptySegment));
    assert_eq!(sanitize_segment("-."), Err(PathError::EmptySegment));
}

#[test]
fn sanitize_rejects_nul() {
    assert_eq!(sanitize_segment("a\0b"), Err(PathError::InvalidSegment));
}

#[test]
fn sanitize_collapses_and_trims_dashes() {
    assert_eq!(sanitize_segment("--a---b--").unwrap(), "a-b");
    assert_eq!(sanitize_segment("a - b").unwrap(), "a-b");
    assert_eq!(sanitize_segment("héllo wörld").unwrap(), "h-llo-w-rld");
    assert_eq!(sanitize_segment("Lpt9").unwrap(), "_lpt9");
    assert_eq!(sanitize_segment("COM10").unwrap(), "com10");
}

#[test]
fn sanitize_length_limit() {
    let ok = "a".repeat(200);
    assert_eq!(sanitize_segment(&ok).unwrap(), ok);
    assert_eq!(sanitize_segment(&"a".repeat(201)), Err(PathError::TooLong));
    // The reserved-name prefix counts toward the limit.
    assert_eq!(sanitize_segment("nul").unwrap().len(), 4);
}

#[test]
fn sanitize_is_idempotent_on_examples() {
    for raw in ["  Hecate  ", "my branch!", "CON", "--a---b--", "x.y_z-1", "Fix the thing"] {
        let once = sanitize_segment(raw).unwrap();
        assert_eq!(sanitize_segment(&once).unwrap(), once);
    }
}

#[test]
fn task_layout_trims_unicode_whitespace() {
    let (b, w) = task_layout("\u{3000} 7 \u{2003}").unwrap();
    assert_eq!(b, "task/7");
    assert_eq!(w, "7");
    assert_eq!(task_layout("   ").unwrap_err(), PathError::EmptySegment);
}

#[test]
fn worktree_directory_errors_and_layout() {
    assert_eq!(worktree_directory("/r", "a/b", "w"), Err(PathError::InvalidSegment));
    assert_eq!(worktree_directory("/r", "repo", ""), Err(PathError::EmptySegment));
    let p = worktree_directory("/r/", "My Repo", "WT").unwrap();
    assert_eq!(p, "/r/my-repo/wt");
    assert!(path_starts_with(&p, "/r"));
    assert!(path_starts_with(&p, "/r/my-repo/"));
    let rel = worktree_directory("", "a", "b").unwrap();
    assert_eq!(rel, "a/b");
}

#[test]
fn repo_default_segment_skips_dots() {
    assert_eq!(repo_default_segment("/a/b/..").unwrap(), "b");
    assert_eq!(repo_default_segment("/a/b/./").unwrap(), "b");
    assert_eq!(repo_default_segment("."), Err(PathError::NoRepoBasename));
    assert_eq!(repo_default_segment(""), Err(PathError::NoRepoBasename));
}

#[test]
fn path_join_and_components() {
    assert_eq!(path_join("/tmp", "x"), "/tmp/x");
    assert_eq!(path_join("/tmp/", "x"), "/tmp/x");
    assert_eq!(path_join("/tmp", "/etc"), "/etc");
    assert_eq!(path_join("", "x"), "x");
    assert!(path_starts_with("/a//b/./c", "/a/b"));
    assert!(path_starts_with("/a/b", "/a/b/"));
    assert!(!path_starts_with("/a/bc", "/a/b"));
    assert!(!path_starts_with("a/b", "/a"));
}
