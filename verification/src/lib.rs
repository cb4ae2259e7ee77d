//! Task-aware Git worktree layout: segment sanitization, configuration
//! precedence, the worktree metadata registry, and GitHub remote parsing.

pub mod config;
pub mod fspath;
pub mod git;
pub mod github;
pub mod metadata;
pub mod outside;
pub mod paths;
pub mod segment_laws;
pub mod repo_segment;
pub mod task;
pub mod text;
pub mod workflow;

use vstd::prelude::*;

verus! {

/// Marker that the code-host part of this crate is linked.
pub const LINK_CHECK: &'static str = "hecate-host";

/// Keeps the GitHub integration wired to the code-host model.
pub fn host_crate_linked() -> (r: &'static str)
    ensures
        r@ == LINK_CHECK@,
{
    LINK_CHECK
}

/// Sanity check that the workspace links.
pub fn workspace_ok() -> (ok: bool)
    ensures
        ok,
{
    true
}

} // verus!
