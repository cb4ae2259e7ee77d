use hecate::git::{worktree_add_command, worktree_remove_command};
use hecate::metadata::MetadataFile;
use hecate::workflow::{register_worktree, task_worktree_record};
use hecate::git::{branch_or_detached, git_output, CommandOutput, GitError, GitRepo};
use hecate::github::Issue;
use hecate::metadata::WorktreeRecord;
use hecate::workflow::{
    decimal_chars, find_index, issue_text, label, path_matches_record, registered_conflict, same_path,
    state_text, worktree_list_text, StateOptions, StateSnapshot,
};

fn record(name: &str, branch: &str, path: &str) -> WorktreeRecord {
    WorktreeRecord {
        name: name.into(),
        path: path.into(),
        branch: branch.into(),
        base_branch: "main".into(),
        task: Some("42".into()),
        created_at: "2026-04-01T12:00:00Z".into(),
        updated_at: None,
        session: None,
    }
}

#[test]
fn human_empty_line() {
    assert!(worktree_list_text(&vec![]).contains("No worktrees registered"));
}

#[test]
fn human_includes_repo_line() {
    let snap = StateSnapshot {
        repo_root: "/tmp/r".into(),
        current_branch: Some("main".into()),
        hecate_root_configured: None,
        hecate_root_resolved: None,
        metadata_path: None,
        worktree_count: 0,
    };
    let t = state_text(&snap);
    assert!(t.contains("Repository:"));
    assert!(t.contains("main"));
}

#[test]
fn state_text_exact() {
    let snap = StateSnapshot {
        repo_root: "/tmp/r".into(),
        current_branch: None,
        hecate_root_configured: Some("p".into()),
        hecate_root_resolved: None,
        metadata_path: Some("/p/metadata.json".into()),
        worktree_count: 1203,
    };
    assert_eq!(
        state_text(&snap),
        "Repository:    /tmp/r\nBranch:        (detached HEAD)\nhecate_root (configured): p\nhecate_root (resolved):   (not set)\nMetadata file:            /p/metadata.json\nTracked worktrees:        1203\n"
    );
    assert_eq!(decimal_chars(0), vec!['0']);
    assert_eq!(decimal_chars(907), vec!['9', '0', '7']);
}

#[test]
fn list_text_exact() {
    let mut r = record("wt-1", "feat/x", "/tmp/wt-1");
    let one = worktree_list_text(&vec![record("wt-1", "feat/x", "/tmp/wt-1")]);
    assert_eq!(
        one,
        "wt-1\n  branch:      feat/x\n  base branch: main\n  task:        42\n  path:        /tmp/wt-1\n  created:     2026-04-01T12:00:00Z\n\n"
    );
    r.task = None;
    assert!(worktree_list_text(&vec![r]).contains("  task:        \u{2014}\n"));
}

#[test]
fn rm_target_selection() {
    let list = vec![record("a", "b1", "/p/a"), record("b", "b2", "/p/b"), record("a", "b3", "/p/c")];
    assert_eq!(find_index(&list, Some("a"), None), Some(0));
    assert_eq!(find_index(&list, Some("zz"), None), None);
    assert_eq!(find_index(&list, None, None), None);
    let m = vec![false, true, true];
    assert_eq!(find_index(&list, None, Some(&m)), Some(1));
    assert_eq!(label(Some("n"), None), "n");
    assert_eq!(label(None, Some("/p")), "/p");
    assert_eq!(label(None, None), "(no target)");
}

#[test]
fn path_matching() {
    assert!(same_path("/a//b/", "/a/b"));
    assert!(!same_path("/a/b", "/a/c"));
    assert!(path_matches_record("/x/y", "/x/./y", None, None));
    assert!(!path_matches_record("/x/y", "/x/z", Some("/c"), None));
    assert!(path_matches_record("/x/y", "/x/z", Some("/c"), Some("/c/")));
}

#[test]
fn start_conflicts() {
    let list = vec![record("a", "task/a", "/p/a"), record("b", "task/b", "/p/b")];
    assert_eq!(registered_conflict(&list, "b", "task/zz"), Some(1));
    assert_eq!(registered_conflict(&list, "zz", "task/a"), Some(0));
    assert_eq!(registered_conflict(&list, "c", "task/c"), None);
}

#[test]
fn state_options_default_reads_env() {
    let o = StateOptions::default();
    assert!(o.use_process_hecate_env);
    assert!(o.config_home_override.is_none());
}

fn args(v: &[&str]) -> Vec<String> {
    v.iter().map(|s| s.to_string()).collect()
}

#[test]
fn git_output_interpretation() {
    let ok = git_output(
        &args(&["rev-parse"]),
        Ok(CommandOutput { success: true, stdout: b" /repo/top\n".to_vec(), stderr: vec![] }),
    );
    assert_eq!(ok.unwrap(), "/repo/top");
    let failed = git_output(
        &args(&["remote", "get-url", "origin"]),
        Ok(CommandOutput { success: false, stdout: vec![], stderr: b"fatal: no\xff \n".to_vec() }),
    );
    match failed {
        Err(GitError::Failed { cmd, stderr }) => {
            assert_eq!(cmd, args(&["git", "remote", "get-url", "origin"]));
            assert_eq!(stderr, "fatal: no\u{FFFD}");
        }
        other => panic!("unexpected {other:?}"),
    }
    let bad = git_output(
        &args(&["x"]),
        Ok(CommandOutput { success: true, stdout: vec![0xc3], stderr: vec![] }),
    );
    assert!(matches!(bad, Err(GitError::Utf8)));
    let io = git_output(&args(&["x"]), Err(std::io::Error::other("nope")));
    assert!(matches!(io, Err(GitError::Io(_))));
}

#[test]
fn git_repo_decisions() {
    let repo = GitRepo::discover(Ok("/top".to_string())).unwrap();
    assert_eq!(repo.root(), "/top");
    let failed = || GitError::Failed { cmd: vec![], stderr: String::new() };
    assert!(matches!(GitRepo::discover(Err(failed())), Err(GitError::NotARepository)));
    assert!(matches!(GitRepo::current_branch(Err(failed())), Err(GitError::DetachedHead)));
    assert!(matches!(GitRepo::current_branch(Ok(String::new())), Err(GitError::DetachedHead)));
    assert_eq!(GitRepo::current_branch(Ok("main".into())).unwrap(), "main");
    assert_eq!(branch_or_detached(Ok("main".into())).unwrap(), Some("main".to_string()));
    assert_eq!(branch_or_detached(Err(GitError::DetachedHead)).unwrap(), None);
    assert!(matches!(branch_or_detached(Err(GitError::Utf8)), Err(GitError::Utf8)));
}

#[test]
fn issue_text_shapes() {
    let mut i = Issue {
        number: 18446744073709551615,
        title: "Crash".into(),
        state: "open".into(),
        html_url: "https://github.com/o/r/issues/1".into(),
        body: Some("details".into()),
    };
    assert_eq!(
        issue_text(&i),
        "#18446744073709551615 [open] Crash\nhttps://github.com/o/r/issues/1\n\ndetails\n"
    );
    i.number = 7;
    i.body = Some(String::new());
    assert_eq!(issue_text(&i), "#7 [open] Crash\nhttps://github.com/o/r/issues/1\n");
    i.body = None;
    assert_eq!(issue_text(&i), "#7 [open] Crash\nhttps://github.com/o/r/issues/1\n");
}

#[test]
fn registration_refuses_conflicts_and_records_the_task() {
    let mut meta = MetadataFile::default();
    let r = task_worktree_record(
        "  42 ",
        "task/42".into(),
        "42".into(),
        "/w/42".into(),
        "main".into(),
        "t".into(),
    );
    assert_eq!(r.task.as_deref(), Some("42"));
    assert_eq!(register_worktree(&mut meta, "/k".into(), r), None);
    let again = task_worktree_record("x", "task/x".into(), "42".into(), "/w/x".into(), "main".into(), "t".into());
    assert_eq!(register_worktree(&mut meta, "/k".into(), again), Some(0));
    assert_eq!(meta.worktree_count("/k"), 1);
}

#[test]
fn worktree_command_lines() {
    assert_eq!(
        worktree_add_command("/p", "task/1", "HEAD"),
        vec!["git", "worktree", "add", "-b", "task/1", "/p", "HEAD"]
    );
    assert_eq!(worktree_remove_command("/p", true), vec!["git", "worktree", "remove", "--force", "/p"]);
    assert_eq!(worktree_remove_command("/p", false), vec!["git", "worktree", "remove", "/p"]);
}
