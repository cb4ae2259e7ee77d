use hecate::github::{
    owner_repo_from_remote_url, owner_repo_from_slash, resolve_owner_repo, GitHubError,
};
use hecate::host_crate_linked;

#[test]
fn host_dependency_resolves() {
    assert_eq!(host_crate_linked(), "hecate-host");
}

#[test]
fn ssh_short_form() {
    assert_eq!(
        owner_repo_from_remote_url("git@github.com:foo/bar.git"),
        Some(("foo".into(), "bar".into()))
    );
}

#[test]
fn https() {
    assert_eq!(
        owner_repo_from_remote_url("https://github.com/foo/bar"),
        Some(("foo".into(), "bar".into()))
    );
}

#[test]
fn slash_spec() {
    assert_eq!(
        owner_repo_from_slash("myorg/hecate"),
        Some(("myorg".into(), "hecate".into()))
    );
}

#[test]
fn remote_url_shapes() {
    let want = Some(("o".to_string(), "r".to_string()));
    assert_eq!(owner_repo_from_remote_url("  ssh://git@github.com/o/r.git \n"), want);
    assert_eq!(owner_repo_from_remote_url("https://GitHub.com/o/r/?tab=1#x"), want);
    assert_eq!(owner_repo_from_remote_url("https://github.com/o/r.git"), want);
    assert_eq!(owner_repo_from_remote_url("https://github.com/o/r///"), want);
    assert_eq!(owner_repo_from_remote_url("https://gitlab.com/o/r"), None);
    assert_eq!(owner_repo_from_remote_url("https://github.com/o"), None);
    assert_eq!(owner_repo_from_remote_url("git@github.com:/r"), None);
    assert_eq!(
        owner_repo_from_remote_url("https://github.com/o/r/tree/main"),
        Some(("o".to_string(), "r/tree/main".to_string()))
    );
}

#[test]
fn slash_spec_rejects() {
    assert_eq!(owner_repo_from_slash("noslash"), None);
    assert_eq!(owner_repo_from_slash("/r"), None);
    assert_eq!(owner_repo_from_slash("o/"), None);
    assert_eq!(owner_repo_from_slash("a/b/c"), None);
    assert_eq!(
        owner_repo_from_slash("  a/b\t"),
        Some(("a".to_string(), "b".to_string()))
    );
}

#[test]
fn resolve_prefers_override() {
    let r = resolve_owner_repo("git@github.com:foo/bar.git", Some("x/y")).unwrap();
    assert_eq!(r, ("x".to_string(), "y".to_string()));
    let r = resolve_owner_repo("git@github.com:foo/bar.git", None).unwrap();
    assert_eq!(r, ("foo".to_string(), "bar".to_string()));
}

#[test]
fn resolve_error_messages() {
    match resolve_owner_repo("git@github.com:foo/bar.git", Some("bad")) {
        Err(GitHubError::UnresolvedRepo(m)) => {
            assert_eq!(m, "invalid --repo \"bad\" (expected OWNER/REPO)")
        }
        other => panic!("unexpected {other:?}"),
    }
    match resolve_owner_repo("file:///x\"y", None) {
        Err(GitHubError::UnresolvedRepo(m)) => assert_eq!(
            m,
            "could not parse github.com owner/repo from remote URL \"file:///x\\\"y\""
        ),
        other => panic!("unexpected {other:?}"),
    }
}
