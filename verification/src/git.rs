//! What the library makes of `git` runs.
//!
//! The application runs `git` and hands the outcome here: whether the
//! process could be started, its exit success, and its output bytes.

use vstd::prelude::*;
use vstd::utf8::{decode_utf8, valid_utf8};

use crate::text::{chars_of, string_of, trim_whitespace, trim_ws};

verus! {

/// Errors of `git` runs.
#[derive(Debug)]
pub enum GitError {
    /// `git` could not be run.
    Io(std::io::Error),
    /// `git` ran and failed: the command line and its trimmed standard error.
    Failed { cmd: Vec<String>, stderr: String },
    /// Not a git repository (or git failed to read it).
    NotARepository,
    /// Detached HEAD; a branch must be checked out.
    DetachedHead,
    /// The output of `git` is not UTF-8.
    Utf8,
}

/// The outcome of a process that ran: exit success and its two output streams.
pub struct CommandOutput {
    pub success: bool,
    pub stdout: Vec<u8>,
    pub stderr: Vec<u8>,
}

/// `String::from_utf8_lossy`: the bytes decoded as UTF-8, each invalid
/// sequence replaced by U+FFFD.
pub uninterp spec fn lossy_utf8_of(bytes: Seq<u8>) -> Seq<char>;

/// `String::from_utf8_lossy`: the decoded text, with invalid sequences
/// replaced. Its documentation gives the text unchanged when the bytes are
/// valid UTF-8; what the replacement does otherwise is left to the name.
#[verifier::external_body]
fn lossy_utf8(bytes: &Vec<u8>) -> (r: String)
    ensures
        r@ == lossy_utf8_of(bytes@),
        valid_utf8(bytes@) ==> r@ == decode_utf8(bytes@),
{
    String::from_utf8_lossy(bytes.as_slice()).into_owned()
}

/// `String::from_utf8`: the decoded text when the bytes are valid UTF-8,
/// `None` otherwise.
#[verifier::external_body]
fn utf8_text(bytes: &Vec<u8>) -> (r: Option<String>)
    ensures
        r is Some <==> valid_utf8(bytes@),
        r matches Some(s) ==> s@ == decode_utf8(bytes@),
{
    match String::from_utf8(bytes.clone()) {
        Ok(s) => Some(s),
        Err(_) => None,
    }
}

/// The strings of `v` seen through their characters.
pub open spec fn string_views(v: Seq<String>) -> Seq<Seq<char>> {
    v.map_values(|s: String| s@)
}

fn copy_string(s: &String) -> (r: String)
    ensures
        r@ == s@,
{
    string_of(&chars_of(s.as_str()))
}

/// `git` followed by `args`: the command line reported in a failure.
pub fn git_command_line(args: &Vec<String>) -> (r: Vec<String>)
    ensures
        string_views(r@) == seq!["git"@] + string_views(args@),
{
    let mut r: Vec<String> = Vec::new();
    r.push(string_of(&chars_of("git")));
    let mut i: usize = 0;
    while i < args.len()
        invariant
            i <= args.len(),
            string_views(r@) == seq!["git"@] + string_views(args@.take(i as int)),
        decreases args.len() - i,
    {
        let ghost before = r@;
        let c = copy_string(&args[i]);
        r.push(c);
        assert(r@ == before.push(c));
        assert(args@.take(i as int + 1) =~= args@.take(i as int).push(args@[i as int]));
        assert(string_views(before.push(c)) =~= string_views(before).push(c@));
        assert(string_views(args@.take(i as int).push(args@[i as int])) =~= string_views(
            args@.take(i as int),
        ).push(args@[i as int]@));
        i = i + 1;
        assert(string_views(r@) =~= seq!["git"@] + string_views(args@.take(i as int)));
    }
    assert(args@.take(args.len() as int) =~= args@);
    r
}

fn owned(s: &str) -> (r: String)
    ensures
        r@ == s@,
{
    string_of(&chars_of(s))
}

/// The command line reported when `git worktree add -b <new_branch> <path>
/// <start_point>` fails.
pub fn worktree_add_command(path: &str, new_branch: &str, start_point: &str) -> (r: Vec<String>)
    ensures
        string_views(r@) == seq![
            "git"@,
            "worktree"@,
            "add"@,
            "-b"@,
            new_branch@,
            path@,
            start_point@,
        ],
{
    let mut v: Vec<String> = Vec::new();
    v.push(owned("git"));
    v.push(owned("worktree"));
    v.push(owned("add"));
    v.push(owned("-b"));
    v.push(owned(new_branch));
    v.push(owned(path));
    v.push(owned(start_point));
    assert(string_views(v@) =~= seq![
        "git"@,
        "worktree"@,
        "add"@,
        "-b"@,
        new_branch@,
        path@,
        start_point@,
    ]);
    v
}

/// The command line reported when `git worktree remove [--force] <path>` fails.
pub fn worktree_remove_command(path: &str, force: bool) -> (r: Vec<String>)
    ensures
        string_views(r@) == seq!["git"@, "worktree"@, "remove"@] + (if force {
            seq!["--force"@]
        } else {
            Seq::<Seq<char>>::empty()
        }) + seq![path@],
{
    let mut v: Vec<String> = Vec::new();
    v.push(owned("git"));
    v.push(owned("worktree"));
    v.push(owned("remove"));
    if force {
        v.push(owned("--force"));
    }
    v.push(owned(path));
    assert(string_views(v@) =~= seq!["git"@, "worktree"@, "remove"@] + (if force {
        seq!["--force"@]
    } else {
        Seq::<Seq<char>>::empty()
    }) + seq![path@]);
    v
}

/// The standard error of a failed run as reported: decoded (invalid UTF-8
/// replaced) and trimmed.
pub fn failure_stderr(stderr: &Vec<u8>) -> (r: String)
    ensures
        r@ == trim_ws(lossy_utf8_of(stderr@)),
{
    string_of(&trim_whitespace(&chars_of(lossy_utf8(stderr).as_str())))
}

/// The trimmed standard output of a successful `git` run; a failed run
/// gives its command line and trimmed standard error; output that is not
/// UTF-8 gives `Utf8`; a run that could not start gives `Io`.
pub fn git_output(args: &Vec<String>, run: Result<CommandOutput, std::io::Error>) -> (res: Result<
    String,
    GitError,
>)
    ensures
        match run {
            Err(_) => res is Err && res->Err_0 is Io,
            Ok(out) => if !out.success {
                res matches Err(GitError::Failed { cmd, stderr }) && string_views(cmd@) == seq![
                    "git"@,
                ] + string_views(args@) && stderr@ == trim_ws(lossy_utf8_of(out.stderr@))
            } else if valid_utf8(out.stdout@) {
                res matches Ok(s) && s@ == trim_ws(decode_utf8(out.stdout@))
            } else {
                res matches Err(GitError::Utf8)
            },
        },
{
    let out = match run {
        Err(e) => return Err(GitError::Io(e)),
        Ok(out) => out,
    };
    if !out.success {
        let stderr = failure_stderr(&out.stderr);
        return Err(GitError::Failed { cmd: git_command_line(args), stderr });
    }
    match utf8_text(&out.stdout) {
        Some(s) => Ok(string_of(&trim_whitespace(&chars_of(s.as_str())))),
        None => Err(GitError::Utf8),
    }
}

/// Open repository at `root` (top-level directory).
#[derive(Debug)]
pub struct GitRepo {
    root: String,
}

impl GitRepo {
    /// The repository of `git rev-parse --show-toplevel`'s outcome: a failed
    /// run means "not a repository"; other errors pass through.
    pub fn discover(toplevel: Result<String, GitError>) -> (res: Result<GitRepo, GitError>)
        ensures
            match toplevel {
                Ok(top) => res matches Ok(repo) && repo.spec_root() == top@,
                Err(GitError::Failed { .. }) => res matches Err(GitError::NotARepository),
                Err(e) => res matches Err(e2) && e2 == e,
            },
    {
        match toplevel {
            Ok(top) => Ok(GitRepo { root: top }),
            Err(GitError::Failed { .. }) => Err(GitError::NotARepository),
            Err(e) => Err(e),
        }
    }

    pub closed spec fn spec_root(&self) -> Seq<char> {
        self.root@
    }

    /// The top-level directory.
    pub fn root(&self) -> (r: &str)
        ensures
            r@ == self.spec_root(),
    {
        self.root.as_str()
    }

    /// Short name of the checked-out branch from `git symbolic-ref -q --short
    /// HEAD`'s outcome: a failed run or an empty name means a detached HEAD.
    pub fn current_branch(symbolic_ref: Result<String, GitError>) -> (res: Result<String, GitError>)
        ensures
            match symbolic_ref {
                Ok(out) => if out@.len() == 0 {
                    res matches Err(GitError::DetachedHead)
                } else {
                    res matches Ok(b) && b@ == out@
                },
                Err(GitError::Failed { .. }) => res matches Err(GitError::DetachedHead),
                Err(e) => res matches Err(e2) && e2 == e,
            },
    {
        let out = match symbolic_ref {
            Err(GitError::Failed { .. }) => return Err(GitError::DetachedHead),
            Err(e) => return Err(e),
            Ok(out) => out,
        };
        if out.as_str().is_empty() {
            return Err(GitError::DetachedHead);
        }
        Ok(out)
    }
}

/// The branch shown in a state summary: the branch name, `None` for a
/// detached HEAD; other errors pass through.
pub fn branch_or_detached(current: Result<String, GitError>) -> (res: Result<Option<String>, GitError>)
    ensures
        match current {
            Ok(b) => res matches Ok(Some(b2)) && b2@ == b@,
            Err(GitError::DetachedHead) => res matches Ok(None),
            Err(e) => res matches Err(e2) && e2 == e,
        },
{
    match current {
        Ok(b) => Ok(Some(b)),
        Err(GitError::DetachedHead) => Ok(None),
        Err(e) => Err(e),
    }
}

} // verus!
