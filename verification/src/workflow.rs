//! The decisions of the `list`, `rm`, `start` and `state` commands, apart
//! from their I/O, and the text they print.

use vstd::prelude::*;

use crate::config::ResolveHecateRootError;
use crate::github::Issue;
use crate::fspath::{chars_eq, path_components, spec_components, spec_join, views};
use crate::metadata::{metadata_path, spec_add_record, MetadataFile, WorktreeRecord};
use crate::text::{chars_of, str_eq, string_of, trim_whitespace, trim_ws};

verus! {

/// Appends the characters of `s` to `out`.
fn push_str(out: &mut Vec<char>, s: &str)
    ensures
        final(out)@ == old(out)@ + s@,
{
    let c = chars_of(s);
    let ghost start = out@;
    let mut i: usize = 0;
    while i < c.len()
        invariant
            i <= c.len(),
            out@ == start + c@.take(i as int),
        decreases c.len() - i,
    {
        out.push(c[i]);
        i = i + 1;
        assert(out@ =~= start + c@.take(i as int));
    }
    assert(c@.take(c.len() as int) =~= c@);
}

/// What names the target of `rm` in messages: the name, or the path.
pub open spec fn spec_label(name: Option<&str>, path: Option<&str>) -> Seq<char> {
    match (name, path) {
        (Some(n), None) => n@,
        (None, Some(p)) => p@,
        _ => "(no target)"@,
    }
}

/// The label of an `rm` target, for messages.
pub fn label(name: Option<&str>, path: Option<&str>) -> (r: String)
    ensures
        r@ == spec_label(name, path),
{
    match (name, path) {
        (Some(n), None) => string_of(&chars_of(n)),
        (None, Some(p)) => string_of(&chars_of(p)),
        _ => string_of(&chars_of("(no target)")),
    }
}

/// Whether two paths are equal component by component, as `Path` compares.
pub fn same_path(a: &str, b: &str) -> (r: bool)
    ensures
        r == (spec_components(a@) == spec_components(b@)),
{
    let x = path_components(a);
    let y = path_components(b);
    if x.len() != y.len() {
        assert(views(x@).len() != views(y@).len());
        return false;
    }
    let mut i: usize = 0;
    while i < x.len()
        invariant
            views(x@) == spec_components(a@),
            views(y@) == spec_components(b@),
            x.len() == y.len(),
            i <= x.len(),
            forall|j: int| 0 <= j < i ==> views(x@)[j] == views(y@)[j],
        decreases x.len() - i,
    {
        if !chars_eq(&x[i], &y[i]) {
            assert(views(x@)[i as int] != views(y@)[i as int]);
            return false;
        }
        i = i + 1;
    }
    assert(views(x@) =~= views(y@));
    true
}

/// Whether a user-given path names a registered worktree: their absolute
/// forms are equal, or else both canonical forms are known and equal.
pub fn path_matches_record(
    user_abs: &str,
    record_abs: &str,
    canonical_user: Option<&str>,
    canonical_record: Option<&str>,
) -> (r: bool)
    ensures
        r == (spec_components(user_abs@) == spec_components(record_abs@) || (canonical_user is Some
            && canonical_record is Some && spec_components(canonical_user.unwrap()@)
            == spec_components(canonical_record.unwrap()@))),
{
    if same_path(user_abs, record_abs) {
        return true;
    }
    match (canonical_user, canonical_record) {
        (Some(a), Some(b)) => same_path(a, b),
        _ => false,
    }
}

/// `i` is the first record named `n`.
pub open spec fn is_first_named(list: Seq<WorktreeRecord>, n: Seq<char>, i: int) -> bool {
    &&& 0 <= i < list.len()
    &&& list[i].name@ == n
    &&& forall|j: int| 0 <= j < i ==> list[j].name@ != n
}

/// `i` is the first record whose path matched.
pub open spec fn is_first_match(list: Seq<WorktreeRecord>, m: Seq<bool>, i: int) -> bool {
    &&& 0 <= i < list.len()
    &&& i < m.len()
    &&& m[i]
    &&& forall|j: int| 0 <= j < i ==> !m[j]
}

/// The record that `rm` targets: the first with the given name when a name
/// is given; else the first whose path matched (`path_matches[i]` for
/// record `i`), when a path was given; else none.
#[verifier::loop_isolation(false)]
pub fn find_index(
    list: &Vec<WorktreeRecord>,
    name: Option<&str>,
    path_matches: Option<&Vec<bool>>,
) -> (r: Option<usize>)
    ensures
        match name {
            Some(n) => match r {
                Some(i) => is_first_named(list@, n@, i as int),
                None => forall|j: int| 0 <= j < list@.len() ==> list@[j].name@ != n@,
            },
            None => match path_matches {
                None => r is None,
                Some(m) => match r {
                    Some(i) => is_first_match(list@, m@, i as int),
                    None => forall|j: int| 0 <= j < list@.len() && j < m@.len() ==> !m@[j],
                },
            },
        },
{
    if let Some(n) = name {
        let mut i: usize = 0;
        while i < list.len()
            invariant
                i <= list.len(),
                forall|j: int| 0 <= j < i ==> list@[j].name@ != n@,
            decreases list.len() - i,
        {
            if str_eq(list[i].name.as_str(), n) {
                return Some(i);
            }
            i = i + 1;
        }
        return None;
    }
    let m = match path_matches {
        Some(m) => m,
        None => return None,
    };
    let mut i: usize = 0;
    while i < list.len() && i < m.len()
        invariant
            i <= list.len(),
            forall|j: int| 0 <= j < i && j < m@.len() ==> !m@[j],
        decreases list.len() - i,
    {
        if m[i] {
            return Some(i);
        }
        i = i + 1;
    }
    None
}

/// `i` is the first record that has the worktree name or the branch.
pub open spec fn is_first_conflict(
    list: Seq<WorktreeRecord>,
    worktree_name: Seq<char>,
    branch: Seq<char>,
    i: int,
) -> bool {
    &&& 0 <= i < list.len()
    &&& (list[i].name@ == worktree_name || list[i].branch@ == branch)
    &&& forall|j: int|
        0 <= j < i ==> list[j].name@ != worktree_name && list[j].branch@ != branch
}

/// The first registered worktree of a clone that already uses the
/// worktree name or the branch that `start` would create.
pub fn registered_conflict(list: &Vec<WorktreeRecord>, worktree_name: &str, branch: &str) -> (r:
    Option<usize>)
    ensures
        match r {
            Some(i) => is_first_conflict(list@, worktree_name@, branch@, i as int),
            None => forall|j: int|
                0 <= j < list@.len() ==> list@[j].name@ != worktree_name@ && list@[j].branch@
                    != branch@,
        },
{
    let mut i: usize = 0;
    while i < list.len()
        invariant
            i <= list.len(),
            forall|j: int|
                0 <= j < i ==> list@[j].name@ != worktree_name@ && list@[j].branch@ != branch@,
        decreases list.len() - i,
    {
        if str_eq(list[i].name.as_str(), worktree_name) || str_eq(list[i].branch.as_str(), branch) {
            return Some(i);
        }
        i = i + 1;
    }
    None
}

/// No two worktrees of a clone share a name or a branch.
pub open spec fn names_and_branches_distinct(rs: Seq<WorktreeRecord>) -> bool {
    forall|i: int, j: int|
        0 <= i < rs.len() && 0 <= j < rs.len() && i != j ==> (#[trigger] rs[i]).name@ != (
        #[trigger] rs[j]).name@ && rs[i].branch@ != rs[j].branch@
}

/// Registering a worktree whose name and branch no registered worktree
/// has keeps names and branches distinct.
pub proof fn lemma_registration_keeps_distinct(rs: Seq<WorktreeRecord>, record: WorktreeRecord)
    requires
        names_and_branches_distinct(rs),
        forall|j: int|
            0 <= j < rs.len() ==> (#[trigger] rs[j]).name@ != record.name@ && rs[j].branch@
                != record.branch@,
    ensures
        names_and_branches_distinct(rs.push(record)),
{
    let u = rs.push(record);
    assert forall|i: int, j: int|
        0 <= i < u.len() && 0 <= j < u.len() && i != j implies (#[trigger] u[i]).name@ != (
        #[trigger] u[j]).name@ && u[i].branch@ != u[j].branch@ by {
        if i < rs.len() && j < rs.len() {
            assert(u[i] == rs[i] && u[j] == rs[j]);
        } else if i < rs.len() {
            assert(u[i] == rs[i]);
        } else {
            assert(u[j] == rs[j]);
        }
    }
}

/// The worktrees of `key` in a registry (none when the key is absent).
pub open spec fn records_of(repos: Map<Seq<char>, Seq<WorktreeRecord>>, key: Seq<char>) -> Seq<
    WorktreeRecord,
> {
    if repos.contains_key(key) {
        repos[key]
    } else {
        Seq::<WorktreeRecord>::empty()
    }
}

/// The record that `start` registers for `task`: the worktree name and
/// branch of its layout, the trimmed task, no update time and no session.
pub fn task_worktree_record(
    task: &str,
    branch: String,
    worktree_name: String,
    path: String,
    base_branch: String,
    created_at: String,
) -> (r: WorktreeRecord)
    ensures
        r.name == worktree_name,
        r.branch == branch,
        r.path == path,
        r.base_branch == base_branch,
        r.created_at == created_at,
        r.task matches Some(t) && t@ == trim_ws(task@),
        r.updated_at is None,
        r.session is None,
{
    WorktreeRecord {
        name: worktree_name,
        path,
        branch,
        base_branch,
        task: Some(string_of(&trim_whitespace(&chars_of(task)))),
        created_at,
        updated_at: None,
        session: None,
    }
}

/// Registers `record` for the clone `clone_key` unless a registered worktree
/// of that clone already has its name or branch; then it returns the first
/// such worktree's index and leaves the registry as it was. Registering
/// keeps the names and the branches of the clone's worktrees distinct.
pub fn register_worktree(meta: &mut MetadataFile, clone_key: String, record: WorktreeRecord) -> (r:
    Option<usize>)
    ensures
        match r {
            Some(i) => final(meta)@ == old(meta)@ && is_first_conflict(
                records_of(old(meta)@.repos, clone_key@),
                record.name@,
                record.branch@,
                i as int,
            ),
            None => {
                &&& final(meta)@.version == old(meta)@.version
                &&& final(meta)@.repos == spec_add_record(old(meta)@.repos, clone_key@, record)
                &&& forall|j: int|
                    0 <= j < records_of(old(meta)@.repos, clone_key@).len() ==> (
                    #[trigger] records_of(old(meta)@.repos, clone_key@)[j]).name@ != record.name@
                        && records_of(old(meta)@.repos, clone_key@)[j].branch@ != record.branch@
                &&& names_and_branches_distinct(records_of(old(meta)@.repos, clone_key@))
                    ==> names_and_branches_distinct(records_of(final(meta)@.repos, clone_key@))
            },
        },
{
    let conflict = match meta.records_for(clone_key.as_str()) {
        Some(list) => registered_conflict(list, record.name.as_str(), record.branch.as_str()),
        None => None,
    };
    if let Some(i) = conflict {
        return Some(i);
    }
    let ghost old_list = records_of(meta@.repos, clone_key@);
    let ghost rec = record;
    meta.add_record(clone_key, record);
    proof {
        assert(records_of(meta@.repos, clone_key@) == old_list.push(rec));
        if names_and_branches_distinct(old_list) {
            lemma_registration_keeps_distinct(old_list, rec);
        }
    }
    None
}

/// The lines that `list` prints for one worktree.
pub open spec fn record_text(r: WorktreeRecord) -> Seq<char> {
    r.name@ + "\n"@ + "  branch:      "@ + r.branch@ + "\n"@ + "  base branch: "@ + r.base_branch@
        + "\n"@ + "  task:        "@ + (match r.task {
        Some(t) => t@,
        None => "\u{2014}"@,
    }) + "\n"@ + "  path:        "@ + r.path@ + "\n"@ + "  created:     "@ + r.created_at@ + "\n"@
        + "\n"@
}

pub open spec fn records_text(rs: Seq<WorktreeRecord>) -> Seq<char>
    decreases rs.len(),
{
    if rs.len() == 0 {
        Seq::<char>::empty()
    } else {
        records_text(rs.drop_last()) + record_text(rs.last())
    }
}

/// What `list` prints for the worktrees of a clone.
pub open spec fn spec_worktree_list_text(rs: Seq<WorktreeRecord>) -> Seq<char> {
    if rs.len() == 0 {
        "No worktrees registered for this clone in metadata.\n"@
    } else {
        records_text(rs)
    }
}

/// The list of one worktree is that worktree's block.
pub proof fn lemma_list_text_single(r: WorktreeRecord)
    ensures
        spec_worktree_list_text(seq![r]) == record_text(r),
{
    let one = seq![r];
    assert(one.drop_last() =~= Seq::<WorktreeRecord>::empty());
    assert(one.last() == r);
    assert(records_text(Seq::<WorktreeRecord>::empty()) == Seq::<char>::empty());
    assert(records_text(one) == records_text(one.drop_last()) + record_text(r));
    assert(Seq::<char>::empty() + record_text(r) =~= record_text(r));
}

/// Listing two non-empty runs of worktrees one after the other prints the
/// list of the first, then the list of the second: every worktree is
/// listed, in order.
pub proof fn lemma_list_text_concat(a: Seq<WorktreeRecord>, b: Seq<WorktreeRecord>)
    requires
        a.len() > 0,
        b.len() > 0,
    ensures
        spec_worktree_list_text(a + b) == spec_worktree_list_text(a) + spec_worktree_list_text(b),
    decreases b.len(),
{
    lemma_records_text_concat(a, b);
}

proof fn lemma_records_text_concat(a: Seq<WorktreeRecord>, b: Seq<WorktreeRecord>)
    ensures
        records_text(a + b) == records_text(a) + records_text(b),
    decreases b.len(),
{
    if b.len() == 0 {
        assert(a + b =~= a);
        assert(records_text(a) + Seq::<char>::empty() =~= records_text(a));
    } else {
        lemma_records_text_concat(a, b.drop_last());
        assert((a + b).drop_last() =~= a + b.drop_last());
        assert((a + b).last() == b.last());
        assert(records_text(a + b) =~= records_text(a) + records_text(b));
    }
}

/// Adding a worktree to a non-empty list appends that worktree's block to
/// the printed list.
pub proof fn lemma_list_text_push(rs: Seq<WorktreeRecord>, r: WorktreeRecord)
    requires
        rs.len() > 0,
    ensures
        spec_worktree_list_text(rs.push(r)) == spec_worktree_list_text(rs) + record_text(r),
{
    assert(rs.push(r) =~= rs + seq![r]);
    lemma_list_text_concat(rs, seq![r]);
    lemma_list_text_single(r);
}

fn push_record(out: &mut Vec<char>, r: &WorktreeRecord)
    ensures
        final(out)@ == old(out)@ + record_text(*r),
{
    let ghost start = out@;
    push_str(out, r.name.as_str());
    push_str(out, "\n");
    push_str(out, "  branch:      ");
    push_str(out, r.branch.as_str());
    push_str(out, "\n");
    push_str(out, "  base branch: ");
    push_str(out, r.base_branch.as_str());
    push_str(out, "\n");
    push_str(out, "  task:        ");
    match &r.task {
        Some(t) => push_str(out, t.as_str()),
        None => push_str(out, "\u{2014}"),
    }
    push_str(out, "\n");
    push_str(out, "  path:        ");
    push_str(out, r.path.as_str());
    push_str(out, "\n");
    push_str(out, "  created:     ");
    push_str(out, r.created_at.as_str());
    push_str(out, "\n");
    push_str(out, "\n");
    assert(out@ =~= start + record_text(*r));
}

/// The text that `list` prints for the worktrees of a clone.
pub fn worktree_list_text(records: &Vec<WorktreeRecord>) -> (r: String)
    ensures
        r@ == spec_worktree_list_text(records@),
{
    if records.len() == 0 {
        return string_of(&chars_of("No worktrees registered for this clone in metadata.\n"));
    }
    let mut out: Vec<char> = Vec::new();
    let mut i: usize = 0;
    while i < records.len()
        invariant
            i <= records.len(),
            out@ == records_text(records@.take(i as int)),
        decreases records.len() - i,
    {
        assert(records@.take(i as int + 1).drop_last() =~= records@.take(i as int));
        push_record(&mut out, &records[i]);
        i = i + 1;
    }
    assert(records@.take(records.len() as int) =~= records@);
    string_of(&out)
}

/// Overrides for gathering the state (e.g. tests: an isolated config home).
pub struct StateOptions {
    pub config_home_override: Option<String>,
    /// When `false`, `HECATE_ROOT` is not read (deterministic tests).
    pub use_process_hecate_env: bool,
}

impl Default for StateOptions {
    fn default() -> (r: Self)
        ensures
            r.config_home_override is None,
            r.use_process_hecate_env,
    {
        StateOptions { config_home_override: None, use_process_hecate_env: true }
    }
}

/// Snapshot of a repository's hecate state, for display and JSON.
pub struct StateSnapshot {
    /// Git repository top-level (absolute).
    pub repo_root: String,
    /// Current branch short name, or `None` if detached.
    pub current_branch: Option<String>,
    /// `hecate_root` after config merge (before resolving), if any.
    pub hecate_root_configured: Option<String>,
    /// Absolute `hecate_root`, if configured.
    pub hecate_root_resolved: Option<String>,
    /// `{hecate_root}/metadata.json` when `hecate_root` is configured.
    pub metadata_path: Option<String>,
    /// Rows in metadata for this clone.
    pub worktree_count: usize,
}

/// Where the state of a clone is kept: the resolved root and its metadata
/// file; `None` when `hecate_root` is not configured; other errors pass through.
pub fn hecate_root_location(resolved: Result<String, ResolveHecateRootError>) -> (res: Result<
    Option<(String, String)>,
    ResolveHecateRootError,
>)
    ensures
        match resolved {
            Ok(root) => res matches Ok(Some((r, m))) && r@ == root@ && m@ == spec_join(
                root@,
                "metadata.json"@,
            ),
            Err(ResolveHecateRootError::NotConfigured) => res matches Ok(None),
            Err(e) => res matches Err(e2) && e2 == e,
        },
{
    match resolved {
        Ok(root) => {
            let m = metadata_path(root.as_str());
            Ok(Some((root, m)))
        },
        Err(ResolveHecateRootError::NotConfigured) => Ok(None),
        Err(e) => Err(e),
    }
}

pub open spec fn digit_char(d: nat) -> char {
    ((d + 48) as u32) as char
}

/// The decimal digits of `n`.
pub open spec fn decimal(n: nat) -> Seq<char>
    decreases n,
{
    if n < 10 {
        seq![digit_char(n)]
    } else {
        decimal(n / 10).push(digit_char(n % 10))
    }
}

/// The decimal digits of `n`.
pub fn decimal_chars(n: u64) -> (r: Vec<char>)
    ensures
        r@ == decimal(n as nat),
    decreases n,
{
    let d = ((n % 10) as u8 + 48) as char;
    assert(d == digit_char((n % 10) as nat));
    if n < 10 {
        let mut r: Vec<char> = Vec::new();
        r.push(d);
        assert(r@ =~= seq![d]);
        r
    } else {
        let mut r = decimal_chars(n / 10);
        r.push(d);
        r
    }
}

/// Text of an optional path, `(not set)` when absent.
pub open spec fn or_not_set(p: Option<String>) -> Seq<char> {
    match p {
        Some(s) => s@,
        None => "(not set)"@,
    }
}

/// What `state` prints for a snapshot.
pub open spec fn spec_state_text(s: StateSnapshot) -> Seq<char> {
    "Repository:    "@ + s.repo_root@ + "\n"@ + (match s.current_branch {
        Some(b) => "Branch:        "@ + b@ + "\n"@,
        None => "Branch:        (detached HEAD)\n"@,
    }) + "hecate_root (configured): "@ + or_not_set(s.hecate_root_configured) + "\n"@
        + "hecate_root (resolved):   "@ + or_not_set(s.hecate_root_resolved) + "\n"@
        + "Metadata file:            "@ + or_not_set(s.metadata_path) + "\n"@
        + "Tracked worktrees:        "@ + decimal(s.worktree_count as nat) + "\n"@
}

fn push_opt(out: &mut Vec<char>, p: &Option<String>)
    ensures
        final(out)@ == old(out)@ + or_not_set(*p),
{
    match p {
        Some(s) => push_str(out, s.as_str()),
        None => push_str(out, "(not set)"),
    }
}

/// The text that `state` prints for a snapshot.
pub fn state_text(s: &StateSnapshot) -> (r: String)
    ensures
        r@ == spec_state_text(*s),
{
    let mut out: Vec<char> = Vec::new();
    push_str(&mut out, "Repository:    ");
    push_str(&mut out, s.repo_root.as_str());
    push_str(&mut out, "\n");
    let ghost after_repo = out@;
    match &s.current_branch {
        Some(b) => {
            push_str(&mut out, "Branch:        ");
            push_str(&mut out, b.as_str());
            push_str(&mut out, "\n");
        },
        None => push_str(&mut out, "Branch:        (detached HEAD)\n"),
    }
    let ghost after_branch = out@;
    push_str(&mut out, "hecate_root (configured): ");
    push_opt(&mut out, &s.hecate_root_configured);
    push_str(&mut out, "\n");
    push_str(&mut out, "hecate_root (resolved):   ");
    push_opt(&mut out, &s.hecate_root_resolved);
    push_str(&mut out, "\n");
    push_str(&mut out, "Metadata file:            ");
    push_opt(&mut out, &s.metadata_path);
    push_str(&mut out, "\n");
    push_str(&mut out, "Tracked worktrees:        ");
    let digits = decimal_chars(s.worktree_count as u64);
    let ghost before_digits = out@;
    let mut i: usize = 0;
    while i < digits.len()
        invariant
            i <= digits.len(),
            out@ == before_digits + digits@.take(i as int),
        decreases digits.len() - i,
    {
        out.push(digits[i]);
        i = i + 1;
        assert(out@ =~= before_digits + digits@.take(i as int));
    }
    assert(digits@.take(digits.len() as int) =~= digits@);
    push_str(&mut out, "\n");
    assert(out@ =~= spec_state_text(*s));
    string_of(&out)
}

/// What `issue show` prints for an issue: number, state and title, the URL,
/// then the body after a blank line when there is a non-empty one.
pub open spec fn spec_issue_text(i: Issue) -> Seq<char> {
    "#"@ + decimal(i.number as nat) + " ["@ + i.state@ + "] "@ + i.title@ + "\n"@ + i.html_url@
        + "\n"@ + (match i.body {
        Some(b) => if b@.len() > 0 {
            "\n"@ + b@ + "\n"@
        } else {
            Seq::<char>::empty()
        },
        None => Seq::<char>::empty(),
    })
}

fn push_chars(out: &mut Vec<char>, c: &Vec<char>)
    ensures
        final(out)@ == old(out)@ + c@,
{
    let ghost start = out@;
    let mut i: usize = 0;
    while i < c.len()
        invariant
            i <= c.len(),
            out@ == start + c@.take(i as int),
        decreases c.len() - i,
    {
        out.push(c[i]);
        i = i + 1;
        assert(out@ =~= start + c@.take(i as int));
    }
    assert(c@.take(c.len() as int) =~= c@);
}

/// The text that `issue show` prints for an issue.
pub fn issue_text(i: &Issue) -> (r: String)
    ensures
        r@ == spec_issue_text(*i),
{
    let mut out: Vec<char> = Vec::new();
    push_str(&mut out, "#");
    push_chars(&mut out, &decimal_chars(i.number));
    push_str(&mut out, " [");
    push_str(&mut out, i.state.as_str());
    push_str(&mut out, "] ");
    push_str(&mut out, i.title.as_str());
    push_str(&mut out, "\n");
    push_str(&mut out, i.html_url.as_str());
    push_str(&mut out, "\n");
    let ghost head = out@;
    match &i.body {
        Some(b) => {
            if !b.as_str().is_empty() {
                push_str(&mut out, "\n");
                push_str(&mut out, b.as_str());
                push_str(&mut out, "\n");
            }
        },
        None => {},
    }
    assert(out@ =~= spec_issue_text(*i));
    string_of(&out)
}

} // verus!
