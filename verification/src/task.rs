//! Task token parsing for branch names and worktree directory segments.

use vstd::prelude::*;

use crate::paths::{sanitize_segment, spec_sanitize_segment, PathError};
use crate::text::{chars_of, concat_chars, string_of, trim_whitespace, trim_ws};

verus! {

/// The branch prefix `task/`.
pub open spec fn task_branch_prefix() -> Seq<char> {
    seq!['t', 'a', 's', 'k', '/']
}

/// What `task_layout` gives: the slug is the sanitized, trimmed task; the
/// branch is `task/<slug>`.
pub open spec fn spec_task_layout(task: Seq<char>) -> Result<(Seq<char>, Seq<char>), PathError> {
    match spec_sanitize_segment(trim_ws(task)) {
        Ok(slug) => Ok((task_branch_prefix() + slug, slug)),
        Err(e) => Err(e),
    }
}

/// A layout result seen through the characters of its strings.
pub open spec fn layout_chars(r: Result<(String, String), PathError>) -> Result<
    (Seq<char>, Seq<char>),
    PathError,
> {
    match r {
        Ok((branch, slug)) => Ok((branch@, slug@)),
        Err(e) => Err(e),
    }
}

/// Git branch name (`task/<slug>`) and worktree directory name (`<slug>`) for a CLI task.
///
/// The slug is `sanitize_segment` of the trimmed task string (e.g. `42` gives `task/42` / `42`).
pub fn task_layout(task: &str) -> (res: Result<(String, String), PathError>)
    ensures
        layout_chars(res) == spec_task_layout(task@),
{
    let trimmed = string_of(&trim_whitespace(&chars_of(task)));
    let slug = match sanitize_segment(trimmed.as_str()) {
        Ok(s) => s,
        Err(e) => return Err(e),
    };
    let prefix: Vec<char> = vec!['t', 'a', 's', 'k', '/'];
    assert(prefix@ =~= task_branch_prefix());
    let branch = string_of(&concat_chars(&prefix, &chars_of(slug.as_str())));
    Ok((branch, slug))
}

} // verus!
