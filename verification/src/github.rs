//! GitHub integration: issues and `owner` / `repo` from remotes.
//!
//! Recognized remote shapes: `git@github.com:o/r(.git)`,
//! `ssh://git@github.com/o/r(.git)`, and any URL that holds `github.com/`
//! (ASCII case-insensitive) followed by `o/r`, with query, fragment and
//! trailing slashes dropped.

use vstd::prelude::*;

use crate::text::{
    chars_of, in_class, is_first_occurrence, lemma_first_occurrence_unique, occurs_at, trim_class, concat_chars, drop_trailing, find_chars, find_first, has_char, lower_chars,
    lower_seq, string_of, strip_prefix, strip_suffix, trim_end_chars, trim_whitespace, trim_ws,
    CharClass,
};

verus! {

/// A single issue (or pull request on hosts that expose PRs through the issues API).
pub struct Issue {
    pub number: u64,
    pub title: String,
    pub state: String,
    pub html_url: String,
    pub body: Option<String>,
}

/// Errors of the GitHub integration.
#[derive(Debug)]
pub enum GitHubError {
    /// `gh` ran and failed; its trimmed standard error.
    Gh { stderr: String },
    /// `gh` could not be run.
    Io(std::io::Error),
    /// The output of `gh` was not the expected JSON.
    Json(serde_json::Error),
    /// No `owner/repo` could be found; the message says from what.
    UnresolvedRepo(String),
}

/// `Debug` formatting of a string (`{:?}`): the quoted, escaped form.
pub uninterp spec fn debug_str_form(s: Seq<char>) -> Seq<char>;

/// `<str as Debug>::fmt` through `format!("{:?}")`: the string in double
/// quotes with its special characters escaped. What that escaping does is
/// left to the name `debug_str_form`; the contract only ties the result to it.
#[verifier::external_body]
fn debug_quoted(s: &str) -> (r: String)
    ensures
        r@ == debug_str_form(s@),
{
    format!("{:?}", s)
}

/// `s` split around the first occurrence of `c`.
pub open spec fn split_at_first(s: Seq<char>, c: char) -> Option<(Seq<char>, Seq<char>)> {
    match find_first(s, seq![c]) {
        Some(i) => Some((s.take(i), s.skip(i + 1))),
        None => None,
    }
}

/// A pair of strings seen through their characters.
pub open spec fn pair_chars(p: Option<(String, String)>) -> Option<(Seq<char>, Seq<char>)> {
    match p {
        Some((a, b)) => Some((a@, b@)),
        None => None,
    }
}

/// What `owner_repo_from_slash` gives for `spec`.
pub open spec fn spec_owner_repo_from_slash(spec: Seq<char>) -> Option<(Seq<char>, Seq<char>)> {
    match split_at_first(trim_ws(spec), '/') {
        Some((a, b)) => if a.len() == 0 || b.len() == 0 || a.contains('/') || b.contains('/') {
            None
        } else {
            Some((a, b))
        },
        None => None,
    }
}

/// What `split_owner_repo` gives: drop one `.git` suffix, then split at the first `/`.
pub open spec fn spec_split_owner_repo(path: Seq<char>) -> Option<(Seq<char>, Seq<char>)> {
    let p = match strip_suffix(path, ".git"@) {
        Some(q) => q,
        None => path,
    };
    match split_at_first(p, '/') {
        Some((owner, repo)) => if owner.len() == 0 || repo.len() == 0 {
            None
        } else {
            Some((owner, repo))
        },
        None => None,
    }
}

/// `s` cut before the first occurrence of `c`, if any.
pub open spec fn cut_at(s: Seq<char>, c: char) -> Seq<char> {
    match find_first(s, seq![c]) {
        Some(i) => s.take(i),
        None => s,
    }
}

/// What `owner_repo_from_remote_url` gives for `url`.
pub open spec fn spec_owner_repo_from_remote_url(url: Seq<char>) -> Option<(Seq<char>, Seq<char>)> {
    let u = trim_ws(url);
    if let Some(rest) = strip_prefix(u, "git@github.com:"@) {
        spec_split_owner_repo(rest)
    } else if let Some(rest) = strip_prefix(u, "ssh://git@github.com/"@) {
        spec_split_owner_repo(rest)
    } else {
        match find_first(lower_seq(u), "github.com/"@) {
            None => None,
            Some(idx) => {
                let tail = cut_at(cut_at(u.skip(idx + "github.com/"@.len()), '?'), '#');
                spec_split_owner_repo(drop_trailing(tail, CharClass::Slash))
            },
        }
    }
}

fn strip_prefix_chars(s: &Vec<char>, p: &Vec<char>) -> (r: Option<Vec<char>>)
    ensures
        match r {
            Some(v) => strip_prefix(s@, p@) == Some(v@),
            None => strip_prefix(s@, p@) is None,
        },
{
    if p.len() > s.len() {
        return None;
    }
    let mut i: usize = 0;
    while i < p.len()
        invariant
            p.len() <= s.len(),
            i <= p.len(),
            forall|j: int| 0 <= j < i ==> s@[j] == p@[j],
        decreases p.len() - i,
    {
        if s[i] != p[i] {
            assert(s@.take(p.len() as int)[i as int] != p@[i as int]);
            assert(s@.take(p.len() as int) != p@);
            return None;
        }
        i = i + 1;
    }
    assert(s@.take(p.len() as int) =~= p@);
    Some(copy_tail(s, p.len()))
}

fn copy_tail(s: &Vec<char>, from: usize) -> (r: Vec<char>)
    requires
        from <= s.len(),
    ensures
        r@ == s@.skip(from as int),
{
    let r = crate::text::copy_range(s, from, s.len());
    assert(s@.subrange(from as int, s.len() as int) =~= s@.skip(from as int));
    r
}

fn strip_suffix_chars(s: &Vec<char>, p: &Vec<char>) -> (r: Option<Vec<char>>)
    ensures
        match r {
            Some(v) => strip_suffix(s@, p@) == Some(v@),
            None => strip_suffix(s@, p@) is None,
        },
{
    if p.len() > s.len() {
        return None;
    }
    let off = s.len() - p.len();
    let mut i: usize = 0;
    while i < p.len()
        invariant
            p.len() <= s.len(),
            off == s.len() - p.len(),
            i <= p.len(),
            forall|j: int| 0 <= j < i ==> s@[off + j] == p@[j],
        decreases p.len() - i,
    {
        if s[off + i] != p[i] {
            assert(s@.skip(off as int)[i as int] != p@[i as int]);
            assert(s@.skip(off as int) != p@);
            return None;
        }
        i = i + 1;
    }
    assert(s@.skip(off as int) =~= p@);
    let r = crate::text::copy_range(s, 0, off);
    assert(s@.subrange(0, off as int) =~= s@.take(off as int));
    Some(r)
}

/// `s` split around the first occurrence of `c`.
fn split_once_chars(s: &Vec<char>, c: char) -> (r: Option<(Vec<char>, Vec<char>)>)
    ensures
        match r {
            Some((a, b)) => split_at_first(s@, c) == Some((a@, b@)),
            None => split_at_first(s@, c) is None,
        },
{
    let pat: Vec<char> = vec![c];
    assert(pat@ =~= seq![c]);
    match find_chars(s, &pat) {
        Some(i) => {
            assert(crate::text::occurs_at(s@, pat@, i as int));
            assert(pat@.len() == 1);
            let n = s.len();
            assert(i + 1 <= n);
            let a = crate::text::copy_range(s, 0, i);
            let b = copy_tail(s, i + 1);
            assert(s@.subrange(0, i as int) =~= s@.take(i as int));
            Some((a, b))
        },
        None => None,
    }
}

/// `s` cut before the first occurrence of `c`, if any.
fn cut_at_chars(s: &Vec<char>, c: char) -> (r: Vec<char>)
    ensures
        r@ == cut_at(s@, c),
{
    let pat: Vec<char> = vec![c];
    assert(pat@ =~= seq![c]);
    match find_chars(s, &pat) {
        Some(i) => {
            let a = crate::text::copy_range(s, 0, i);
            assert(s@.subrange(0, i as int) =~= s@.take(i as int));
            a
        },
        None => crate::text::copy_range(s, 0, s.len()),
    }
}

fn pair_of(a: &Vec<char>, b: &Vec<char>) -> (r: (String, String))
    ensures
        r.0@ == a@,
        r.1@ == b@,
{
    (string_of(a), string_of(b))
}

/// `owner/repo` from TOML/CLI override (not a URL).
pub fn owner_repo_from_slash(spec: &str) -> (r: Option<(String, String)>)
    ensures
        pair_chars(r) == spec_owner_repo_from_slash(spec@),
{
    let s = trim_whitespace(&chars_of(spec));
    match split_once_chars(&s, '/') {
        None => None,
        Some((a, b)) => {
            if a.len() == 0 || b.len() == 0 || has_char(&a, '/') || has_char(&b, '/') {
                None
            } else {
                Some(pair_of(&a, &b))
            }
        },
    }
}

fn split_owner_repo(path: &Vec<char>) -> (r: Option<(String, String)>)
    ensures
        pair_chars(r) == spec_split_owner_repo(path@),
{
    let suffix = chars_of(".git");
    let p = match strip_suffix_chars(path, &suffix) {
        Some(q) => q,
        None => crate::text::copy_range(path, 0, path.len()),
    };
    assert(path@.subrange(0, path@.len() as int) =~= path@);
    match split_once_chars(&p, '/') {
        None => None,
        Some((owner, repo)) => {
            if owner.len() == 0 || repo.len() == 0 {
                None
            } else {
                Some(pair_of(&owner, &repo))
            }
        },
    }
}

/// Best-effort parse for `https://github.com/o/r`, `git@github.com:o/r.git`, etc.
pub fn owner_repo_from_remote_url(url: &str) -> (r: Option<(String, String)>)
    ensures
        pair_chars(r) == spec_owner_repo_from_remote_url(url@),
{
    let u = trim_whitespace(&chars_of(url));
    let scp = chars_of("git@github.com:");
    if let Some(rest) = strip_prefix_chars(&u, &scp) {
        return split_owner_repo(&rest);
    }
    let ssh = chars_of("ssh://git@github.com/");
    if let Some(rest) = strip_prefix_chars(&u, &ssh) {
        return split_owner_repo(&rest);
    }
    let lower = lower_chars(&u);
    let host = chars_of("github.com/");
    let idx = match find_chars(&lower, &host) {
        Some(i) => i,
        None => return None,
    };
    assert(crate::text::occurs_at(lower@, host@, idx as int));
    assert(lower@.len() == u@.len());
    let un = u.len();
    assert(idx + host.len() <= un);
    let tail = copy_tail(&u, idx + host.len());
    let tail = cut_at_chars(&tail, '?');
    let tail = cut_at_chars(&tail, '#');
    let tail = trim_end_chars(&tail, CharClass::Slash);
    split_owner_repo(&tail)
}

/// The message for an override that is not `OWNER/REPO`.
pub open spec fn invalid_repo_message(spec: Seq<char>) -> Seq<char> {
    "invalid --repo "@ + debug_str_form(spec) + " (expected OWNER/REPO)"@
}

/// The message for a remote URL that holds no github.com `owner/repo`.
pub open spec fn unparsed_remote_message(url: Seq<char>) -> Seq<char> {
    "could not parse github.com owner/repo from remote URL "@ + debug_str_form(url)
}

/// `head` followed by the debug form of `s`, then `tail`.
fn message_with(head: &str, s: &str, tail: &str) -> (r: String)
    ensures
        r@ == head@ + debug_str_form(s@) + tail@,
{
    let q = debug_quoted(s);
    let m = concat_chars(&concat_chars(&chars_of(head), &chars_of(q.as_str())), &chars_of(tail));
    string_of(&m)
}

/// Resolve `owner` / `repo` from `--repo OWNER/REPO` or a `git` remote URL.
///
/// The override, when given, decides alone; the remote URL is used otherwise.
pub fn resolve_owner_repo(origin_url: &str, repo_override: Option<&str>) -> (res: Result<
    (String, String),
    GitHubError,
>)
    ensures
        match repo_override {
            Some(spec) => match spec_owner_repo_from_slash(spec@) {
                Some((o, r)) => res matches Ok((a, b)) && a@ == o && b@ == r,
                None => res matches Err(GitHubError::UnresolvedRepo(m)) && m@
                    == invalid_repo_message(spec@),
            },
            None => match spec_owner_repo_from_remote_url(origin_url@) {
                Some((o, r)) => res matches Ok((a, b)) && a@ == o && b@ == r,
                None => res matches Err(GitHubError::UnresolvedRepo(m)) && m@
                    == unparsed_remote_message(origin_url@),
            },
        },
{
    if let Some(spec) = repo_override {
        return match owner_repo_from_slash(spec) {
            Some(p) => Ok(p),
            None => Err(
                GitHubError::UnresolvedRepo(
                    message_with("invalid --repo ", spec, " (expected OWNER/REPO)"),
                ),
            ),
        };
    }
    match owner_repo_from_remote_url(origin_url) {
        Some(p) => Ok(p),
        None => {
            let m = message_with("could not parse github.com owner/repo from remote URL ", origin_url, "");
            proof {
                reveal_strlit("");
                assert(m@ =~= unparsed_remote_message(origin_url@));
            }
            Err(GitHubError::UnresolvedRepo(m))
        },
    }
}

proof fn lemma_trim_ws_identity(s: Seq<char>)
    requires
        s.len() > 0,
        !in_class(s[0], CharClass::Whitespace),
        !in_class(s.last(), CharClass::Whitespace),
    ensures
        trim_ws(s) == s,
{
    assert(trim_class(s, CharClass::Whitespace) == s);
}

/// In `a + "/" + b` with no `/` in `a`, the first `/` is the one after `a`.
proof fn lemma_split_after(a: Seq<char>, b: Seq<char>)
    requires
        !a.contains('/'),
    ensures
        split_at_first(a + seq!['/'] + b, '/') == Some((a, b)),
{
    let s = a + seq!['/'] + b;
    let n = a.len() as int;
    assert(s.subrange(n, n + 1) =~= seq!['/']);
    assert forall|j: int| 0 <= j < n implies !occurs_at(s, seq!['/'], j) by {
        assert(s[j] == a[j]);
        if occurs_at(s, seq!['/'], j) {
            assert(s.subrange(j, j + 1)[0] == s[j]);
        }
    }
    assert(is_first_occurrence(s, seq!['/'], n));
    lemma_first_occurrence_unique(s, seq!['/'], n);
    assert(s.take(n) =~= a);
    assert(s.skip(n + 1) =~= b);
}

/// An `owner/repo` override parses back to its two parts, when the owner
/// holds no `/` and neither end of the text is white space.
pub proof fn lemma_owner_repo_from_slash_roundtrip(owner: Seq<char>, repo: Seq<char>)
    requires
        owner.len() > 0,
        repo.len() > 0,
        !owner.contains('/'),
        !repo.contains('/'),
        !in_class(owner[0], CharClass::Whitespace),
        !in_class(repo.last(), CharClass::Whitespace),
    ensures
        spec_owner_repo_from_slash(owner + seq!['/'] + repo) == Some((owner, repo)),
{
    let s = owner + seq!['/'] + repo;
    assert(s[0] == owner[0]);
    assert(s.last() == repo.last());
    lemma_trim_ws_identity(s);
    lemma_split_after(owner, repo);
}

/// An SCP-style remote `git@github.com:<owner>/<repo>.git` gives back owner
/// and repo, when the owner is non-empty and holds no `/`, and the repo is
/// non-empty.
pub proof fn lemma_scp_remote_roundtrip(owner: Seq<char>, repo: Seq<char>)
    requires
        owner.len() > 0,
        repo.len() > 0,
        !owner.contains('/'),
    ensures
        spec_owner_repo_from_remote_url("git@github.com:"@ + owner + seq!['/'] + repo + ".git"@)
            == Some((owner, repo)),
{
    reveal_strlit("git@github.com:");
    reveal_strlit(".git");
    let prefix = "git@github.com:"@;
    let path = owner + seq!['/'] + repo;
    let url = prefix + path + ".git"@;
    assert(url =~= "git@github.com:"@ + owner + seq!['/'] + repo + ".git"@);
    assert(url[0] == 'g');
    assert(url.last() == 't');
    lemma_trim_ws_identity(url);
    assert(url.take(prefix.len() as int) =~= prefix);
    assert(strip_prefix(url, prefix) == Some(path + ".git"@)) by {
        assert(url.skip(prefix.len() as int) =~= path + ".git"@);
    }
    let rest = path + ".git"@;
    assert(rest.skip(rest.len() - 4) =~= ".git"@);
    assert(rest.take(rest.len() - 4) =~= path);
    assert(strip_suffix(rest, ".git"@) == Some(path));
    lemma_split_after(owner, repo);
    assert(spec_split_owner_repo(rest) == Some((owner, repo)));
}

/// An SCP-style remote `git@github.com:<owner>/<repo>` with no `.git`
/// suffix gives back owner and repo too: the suffix is optional. The owner
/// is non-empty and holds no `/`; the repo is non-empty, does not itself end
/// in `.git` (that would be dropped) and does not end in white space (that
/// would be trimmed).
pub proof fn lemma_scp_remote_without_git_suffix(owner: Seq<char>, repo: Seq<char>)
    requires
        owner.len() > 0,
        repo.len() > 0,
        !owner.contains('/'),
        strip_suffix(repo, ".git"@) is None,
        !in_class(repo.last(), CharClass::Whitespace),
    ensures
        spec_owner_repo_from_remote_url("git@github.com:"@ + owner + seq!['/'] + repo) == Some(
            (owner, repo),
        ),
{
    reveal_strlit("git@github.com:");
    reveal_strlit(".git");
    let prefix = "git@github.com:"@;
    let path = owner + seq!['/'] + repo;
    let url = prefix + path;
    assert(url =~= "git@github.com:"@ + owner + seq!['/'] + repo);
    assert(url[0] == 'g');
    assert(url.last() == repo.last());
    lemma_trim_ws_identity(url);
    assert(url.take(prefix.len() as int) =~= prefix);
    assert(strip_prefix(url, prefix) == Some(path)) by {
        assert(url.skip(prefix.len() as int) =~= path);
    }
    assert(strip_suffix(path, ".git"@) is None) by {
        if path.len() >= 4 && path.skip(path.len() - 4) == ".git"@ {
            if repo.len() >= 4 {
                assert(repo.skip(repo.len() - 4) =~= path.skip(path.len() - 4));
            } else {
                assert(path.skip(path.len() - 4)[3 - repo.len()] == '/');
            }
        }
    }
    lemma_split_after(owner, repo);
}

/// The same remote parses alike with and without a `.git` suffix.
pub proof fn lemma_scp_remote_git_suffix_optional(owner: Seq<char>, repo: Seq<char>)
    requires
        owner.len() > 0,
        repo.len() > 0,
        !owner.contains('/'),
        strip_suffix(repo, ".git"@) is None,
        !in_class(repo.last(), CharClass::Whitespace),
    ensures
        spec_owner_repo_from_remote_url("git@github.com:"@ + owner + seq!['/'] + repo)
            == spec_owner_repo_from_remote_url("git@github.com:"@ + owner + seq!['/'] + repo + ".git"@),
{
    lemma_scp_remote_without_git_suffix(owner, repo);
    lemma_scp_remote_roundtrip(owner, repo);
}

proof fn lemma_no_char_cut(s: Seq<char>, c: char)
    requires
        !s.contains(c),
    ensures
        cut_at(s, c) == s,
{
    assert forall|j: int| !occurs_at(s, seq![c], j) by {
        if occurs_at(s, seq![c], j) {
            assert(s.subrange(j, j + 1)[0] == s[j]);
            assert(s.contains(c));
        }
    }
    crate::text::lemma_no_occurrence(s, seq![c]);
}

/// An HTTPS remote `https://github.com/<owner>/<repo>` gives back owner and
/// repo, when both are non-empty and hold none of `/`, `?`, `#`, the repo
/// does not end in `.git` or white space.
pub proof fn lemma_https_remote_roundtrip(owner: Seq<char>, repo: Seq<char>)
    requires
        owner.len() > 0,
        repo.len() > 0,
        !owner.contains('/') && !owner.contains('?') && !owner.contains('#'),
        !repo.contains('/') && !repo.contains('?') && !repo.contains('#'),
        strip_suffix(repo, ".git"@) is None,
        !in_class(repo.last(), CharClass::Whitespace),
    ensures
        spec_owner_repo_from_remote_url("https://github.com/"@ + owner + seq!['/'] + repo) == Some(
            (owner, repo),
        ),
{
    reveal_strlit("https://github.com/");
    reveal_strlit("git@github.com:");
    reveal_strlit("ssh://git@github.com/");
    reveal_strlit("github.com/");
    reveal_strlit(".git");
    let host = "github.com/"@;
    let path = owner + seq!['/'] + repo;
    let url = "https://github.com/"@ + path;
    assert(url =~= "https://github.com/"@ + owner + seq!['/'] + repo);
    assert(url[0] == 'h');
    assert(url.last() == repo.last());
    lemma_trim_ws_identity(url);
    assert(strip_prefix(url, "git@github.com:"@) is None) by {
        assert(url.take(15)[0] != "git@github.com:"@[0]);
    }
    assert(strip_prefix(url, "ssh://git@github.com/"@) is None) by {
        assert(url.take(21)[0] != "ssh://git@github.com/"@[0]);
    }
    let lower = lower_seq(url);
    assert(lower.subrange(8, 19) =~= host);
    assert forall|j: int| 0 <= j < 8 implies !occurs_at(lower, host, j) by {
        assert(lower.subrange(j, j + 11)[0] == lower[j]);
        assert(lower[j] == crate::text::ascii_lower(url[j]));
    }
    assert(is_first_occurrence(lower, host, 8));
    lemma_first_occurrence_unique(lower, host, 8);
    assert(url.skip(8 + host.len() as int) =~= path);
    assert(!path.contains('?')) by {
        if path.contains('?') {
            let i = choose|i: int| 0 <= i < path.len() && path[i] == '?';
            if i < owner.len() {
                assert(owner[i] == '?');
            } else if i > owner.len() {
                assert(repo[i - owner.len() - 1] == '?');
            }
        }
    }
    assert(!path.contains('#')) by {
        if path.contains('#') {
            let i = choose|i: int| 0 <= i < path.len() && path[i] == '#';
            if i < owner.len() {
                assert(owner[i] == '#');
            } else if i > owner.len() {
                assert(repo[i - owner.len() - 1] == '#');
            }
        }
    }
    lemma_no_char_cut(path, '?');
    lemma_no_char_cut(path, '#');
    assert(path.last() == repo.last());
    assert(repo.last() != '/') by {
        assert(repo[repo.len() - 1] == repo.last());
    }
    assert(drop_trailing(path, CharClass::Slash) == path);
    assert(strip_suffix(path, ".git"@) is None) by {
        if path.len() >= 4 && path.skip(path.len() - 4) == ".git"@ {
            if repo.len() >= 4 {
                assert(repo.skip(repo.len() - 4) =~= path.skip(path.len() - 4));
            } else {
                assert(path.skip(path.len() - 4)[3 - repo.len()] == '/');
            }
        }
    }
    lemma_split_after(owner, repo);
}

} // verus!
