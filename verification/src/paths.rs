//! Worktree layout under `hecate_root`: `<hecate_root>/<repo-segment>/<worktree-name>`.
//!
//! **Sanitization** (repo basename and worktree name share these rules):
//! - Trim leading/trailing ASCII whitespace (space, tab, CR, LF).
//! - Reject empty results, `.`, `..`, any `..` substring, NUL, and `/` or `\`.
//! - Map each character: ASCII alphanumeric, `_`, `.`, and `-` kept; every other
//!   character becomes `-`.
//! - Collapse runs of `-`, then trim `-` from both ends.
//! - If the result matches a Windows reserved device name (case-insensitive), prefix `_`.
//! - Reject results longer than `MAX_SEGMENT_LEN`, then lowercase.

use vstd::prelude::*;

use crate::fspath::{
    last_normal_component, path_join, spec_components, spec_join, spec_last_normal,
};
use crate::segment_laws::{
    is_sanitized_segment, lemma_sanitize_segment_shape, lemma_worktree_directory_layout,
};
use crate::text::{
    chars_of, concat_chars, contains_seq, find_chars, has_char, lower_chars, lower_seq, string_of,
    trim_chars, trim_class, upper_chars, upper_seq, CharClass,
};

verus! {

/// Upper bound on segment length after sanitization (avoids absurd directory names).
pub const MAX_SEGMENT_LEN: usize = 200;

/// Errors from segment validation or layout joins.
#[derive(Debug, Clone, Copy, PartialEq, Eq, Structural)]
pub enum PathError {
    /// The repository path has no usable final directory name.
    NoRepoBasename,
    /// The segment is empty or whitespace-only.
    EmptySegment,
    /// The segment contains path separators, NUL, or a parent-dir sequence (`..`).
    InvalidSegment,
    /// The segment exceeds `MAX_SEGMENT_LEN` after sanitization.
    TooLong,
    /// No free repo segment after expanding the hash suffix.
    SegmentAllocationExhausted,
}

/// Characters that sanitization keeps as they are.
pub open spec fn is_kept_char(c: char) -> bool {
    ||| ('a' <= c && c <= 'z')
    ||| ('A' <= c && c <= 'Z')
    ||| ('0' <= c && c <= '9')
    ||| c == '_'
    ||| c == '.'
    ||| c == '-'
}

pub open spec fn segment_char(c: char) -> char {
    if is_kept_char(c) {
        c
    } else {
        '-'
    }
}

pub open spec fn map_segment(s: Seq<char>) -> Seq<char> {
    s.map_values(|c: char| segment_char(c))
}

/// `s` with every run of `-` replaced by a single `-`.
pub open spec fn collapse_dashes(s: Seq<char>) -> Seq<char>
    decreases s.len(),
{
    if s.len() == 0 {
        s
    } else if s.len() >= 2 && s.last() == '-' && s[s.len() - 2] == '-' {
        collapse_dashes(s.drop_last())
    } else {
        collapse_dashes(s.drop_last()).push(s.last())
    }
}

/// `s` holds NUL, `/`, `\` or the sequence `..`.
pub open spec fn has_forbidden(s: Seq<char>) -> bool {
    ||| s.contains('\0')
    ||| s.contains('/')
    ||| s.contains('\\')
    ||| contains_seq(s, seq!['.', '.'])
}

/// `s` is `.` or `..`.
pub open spec fn is_dot_name(s: Seq<char>) -> bool {
    ||| (s.len() == 1 && s[0] == '.')
    ||| (s.len() == 2 && s[0] == '.' && s[1] == '.')
}

/// `u` (already uppercase) is a Windows reserved device name.
pub open spec fn is_reserved_device_name(u: Seq<char>) -> bool {
    ||| (u.len() == 3 && ((u[0] == 'C' && u[1] == 'O' && u[2] == 'N') || (u[0] == 'P' && u[1]
        == 'R' && u[2] == 'N') || (u[0] == 'A' && u[1] == 'U' && u[2] == 'X') || (u[0] == 'N'
        && u[1] == 'U' && u[2] == 'L')))
    ||| (u.len() == 4 && ((u[0] == 'C' && u[1] == 'O' && u[2] == 'M') || (u[0] == 'L' && u[1]
        == 'P' && u[2] == 'T')) && '0' <= u[3] && u[3] <= '9')
}

/// `s` names a Windows reserved device, ignoring ASCII case.
pub open spec fn is_windows_reserved(s: Seq<char>) -> bool {
    is_reserved_device_name(upper_seq(s))
}

/// The sanitized segment before the reserved-name, length and case steps.
pub open spec fn cleaned_segment(trimmed: Seq<char>) -> Seq<char> {
    trim_class(collapse_dashes(map_segment(trimmed)), CharClass::Dash)
}

/// What `sanitize_segment` gives for the characters `raw`.
pub open spec fn spec_sanitize_segment(raw: Seq<char>) -> Result<Seq<char>, PathError> {
    let trimmed = trim_class(raw, CharClass::SegmentSpace);
    if trimmed.len() == 0 {
        Err(PathError::EmptySegment)
    } else if has_forbidden(trimmed) {
        Err(PathError::InvalidSegment)
    } else {
        let cleaned = cleaned_segment(trimmed);
        if cleaned.len() == 0 || is_dot_name(cleaned) {
            Err(PathError::EmptySegment)
        } else {
            let prefixed = if is_windows_reserved(cleaned) {
                seq!['_'] + cleaned
            } else {
                cleaned
            };
            if prefixed.len() > MAX_SEGMENT_LEN {
                Err(PathError::TooLong)
            } else {
                Ok(lower_seq(prefixed))
            }
        }
    }
}

/// A `Result` of strings seen through the characters of its `Ok` value.
pub open spec fn result_chars<E>(r: Result<String, E>) -> Result<Seq<char>, E> {
    match r {
        Ok(s) => Ok(s@),
        Err(e) => Err(e),
    }
}

fn map_segment_chars(s: &Vec<char>) -> (r: Vec<char>)
    ensures
        r@ == map_segment(s@),
{
    let mut r: Vec<char> = Vec::new();
    let mut i: usize = 0;
    while i < s.len()
        invariant
            i <= s.len(),
            r@ == map_segment(s@.take(i as int)),
        decreases s.len() - i,
    {
        let c = s[i];
        let m = if ('a' <= c && c <= 'z') || ('A' <= c && c <= 'Z') || ('0' <= c && c <= '9')
            || c == '_' || c == '.' || c == '-' {
            c
        } else {
            '-'
        };
        r.push(m);
        i = i + 1;
        assert(r@ =~= map_segment(s@.take(i as int)));
    }
    assert(s@.take(s.len() as int) =~= s@);
    r
}

fn collapse_dash_runs(s: &Vec<char>) -> (r: Vec<char>)
    ensures
        r@ == collapse_dashes(s@),
{
    let mut r: Vec<char> = Vec::new();
    let mut i: usize = 0;
    while i < s.len()
        invariant
            i <= s.len(),
            r@ == collapse_dashes(s@.take(i as int)),
        decreases s.len() - i,
    {
        let ghost prefix = s@.take(i as int + 1);
        assert(prefix.drop_last() =~= s@.take(i as int));
        if !(s[i] == '-' && i > 0 && s[i - 1] == '-') {
            r.push(s[i]);
        }
        i = i + 1;
    }
    assert(s@.take(s.len() as int) =~= s@);
    r
}

/// Whether `name` is a Windows reserved device name (ASCII case-insensitive).
fn windows_reserved(name: &Vec<char>) -> (b: bool)
    ensures
        b == is_windows_reserved(name@),
{
    let u = upper_chars(name);
    (u.len() == 3 && ((u[0] == 'C' && u[1] == 'O' && u[2] == 'N') || (u[0] == 'P' && u[1] == 'R'
        && u[2] == 'N') || (u[0] == 'A' && u[1] == 'U' && u[2] == 'X') || (u[0] == 'N' && u[1]
        == 'U' && u[2] == 'L'))) || (u.len() == 4 && ((u[0] == 'C' && u[1] == 'O' && u[2] == 'M')
        || (u[0] == 'L' && u[1] == 'P' && u[2] == 'T')) && '0' <= u[3] && u[3] <= '9')
}

/// Sanitize a single path segment (repo folder name or worktree name).
pub fn sanitize_segment(raw: &str) -> (res: Result<String, PathError>)
    ensures
        result_chars(res) == spec_sanitize_segment(raw@),
        res matches Ok(s) ==> is_sanitized_segment(s@),
{
    proof {
        lemma_sanitize_segment_shape(raw@);
    }
    let chars = chars_of(raw);
    let trimmed = trim_chars(&chars, CharClass::SegmentSpace);
    if trimmed.len() == 0 {
        return Err(PathError::EmptySegment);
    }
    let dots: Vec<char> = vec!['.', '.'];
    assert(dots@ =~= seq!['.', '.']);
    if has_char(&trimmed, '\0') || has_char(&trimmed, '/') || has_char(&trimmed, '\\')
        || find_chars(&trimmed, &dots).is_some() {
        return Err(PathError::InvalidSegment);
    }
    let mapped = map_segment_chars(&trimmed);
    let collapsed = collapse_dash_runs(&mapped);
    let cleaned = trim_chars(&collapsed, CharClass::Dash);
    if cleaned.len() == 0 || (cleaned.len() == 1 && cleaned[0] == '.') || (cleaned.len() == 2
        && cleaned[0] == '.' && cleaned[1] == '.') {
        return Err(PathError::EmptySegment);
    }
    let prefixed = if windows_reserved(&cleaned) {
        let underscore: Vec<char> = vec!['_'];
        assert(underscore@ =~= seq!['_']);
        concat_chars(&underscore, &cleaned)
    } else {
        cleaned
    };
    if prefixed.len() > MAX_SEGMENT_LEN {
        return Err(PathError::TooLong);
    }
    let lowered = lower_chars(&prefixed);
    Ok(string_of(&lowered))
}

} // verus!

verus! {

/// What `repo_default_segment` gives for the path `repo_root`.
pub open spec fn spec_repo_default_segment(repo_root: Seq<char>) -> Result<Seq<char>, PathError> {
    match spec_last_normal(repo_root) {
        None => Err(PathError::NoRepoBasename),
        Some(base) => spec_sanitize_segment(base),
    }
}

/// Default repo directory segment: sanitized last normal path component of `repo_root`.
pub fn repo_default_segment(repo_root: &str) -> (res: Result<String, PathError>)
    ensures
        result_chars(res) == spec_repo_default_segment(repo_root@),
{
    match last_normal_component(repo_root) {
        None => Err(PathError::NoRepoBasename),
        Some(base) => sanitize_segment(base.as_str()),
    }
}

/// What `worktree_directory` gives: `hecate_root / repo_segment / worktree_name`,
/// both segments sanitized, the repo segment's error first.
pub open spec fn spec_worktree_directory(
    hecate_root: Seq<char>,
    repo_segment: Seq<char>,
    worktree_name: Seq<char>,
) -> Result<Seq<char>, PathError> {
    match spec_sanitize_segment(repo_segment) {
        Err(e) => Err(e),
        Ok(r) => match spec_sanitize_segment(worktree_name) {
            Err(e) => Err(e),
            Ok(w) => Ok(spec_join(spec_join(hecate_root, r), w)),
        },
    }
}

/// Resolved worktree directory: `hecate_root` / `repo_segment` / `worktree_name`.
///
/// Both segment arguments are validated through `sanitize_segment`.
pub fn worktree_directory(hecate_root: &str, repo_segment: &str, worktree_name: &str) -> (res:
    Result<String, PathError>)
    ensures
        result_chars(res) == spec_worktree_directory(hecate_root@, repo_segment@, worktree_name@),
        res matches Ok(dir) ==> spec_components(dir@).len() == spec_components(hecate_root@).len()
            + 2 && spec_components(dir@).take(spec_components(hecate_root@).len() as int)
            == spec_components(hecate_root@),
{
    proof {
        lemma_worktree_directory_layout(hecate_root@, repo_segment@, worktree_name@);
        if let Ok(d) = spec_worktree_directory(hecate_root@, repo_segment@, worktree_name@) {
            let rc = spec_components(hecate_root@);
            if let Ok(r) = spec_sanitize_segment(repo_segment@) {
                if let Ok(w) = spec_sanitize_segment(worktree_name@) {
                    assert((rc + seq![r, w]).take(rc.len() as int) =~= rc);
                }
            }
        }
    }
    let r = match sanitize_segment(repo_segment) {
        Ok(r) => r,
        Err(e) => return Err(e),
    };
    let w = match sanitize_segment(worktree_name) {
        Ok(w) => w,
        Err(e) => return Err(e),
    };
    let repo_dir = path_join(hecate_root, r.as_str());
    Ok(path_join(repo_dir.as_str(), w.as_str()))
}

} // verus!
