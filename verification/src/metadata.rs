//! `{hecate_root}/metadata.json`: a versioned registry of worktrees per main
//! clone path.
//!
//! The registry maps each clone key (the main clone's path) to the list of
//! its worktrees; no key appears twice. The JSON file itself is read and
//! written by the application; this module holds the registry and its rules.

use vstd::prelude::*;

use crate::fspath::{path_join, spec_join};
use crate::text::str_eq;

verus! {

/// Current on-disk `version` field of the metadata file.
pub const METADATA_VERSION: u32 = 1;

/// Path to the metadata file under `hecate_root`.
pub fn metadata_path(hecate_root: &str) -> (r: String)
    ensures
        r@ == spec_join(hecate_root@, "metadata.json"@),
{
    path_join(hecate_root, "metadata.json")
}

/// The version assumed when the file does not give one.
pub fn default_version() -> (v: u32)
    ensures
        v == METADATA_VERSION,
{
    METADATA_VERSION
}

/// Errors of reading, writing and checking the metadata file.
#[derive(Debug)]
pub enum MetadataError {
    IoRead { path: String, source: std::io::Error },
    IoWrite { path: String, source: std::io::Error },
    JsonParse { path: String, source: serde_json::Error },
    JsonSerialize(serde_json::Error),
    /// Only `METADATA_VERSION` can be read or written.
    UnsupportedVersion { found: u32 },
}

/// One registered Git worktree under a given main clone.
#[derive(Debug)]
pub struct WorktreeRecord {
    pub name: String,
    pub path: String,
    pub branch: String,
    pub base_branch: String,
    pub task: Option<String>,
    /// ISO 8601 / RFC 3339 timestamp string.
    pub created_at: String,
    pub updated_at: Option<String>,
    pub session: Option<serde_json::Value>,
}

/// The worktrees registered for one main clone.
#[derive(Debug)]
pub struct RepoWorktrees {
    pub clone_key: String,
    pub worktrees: Vec<WorktreeRecord>,
}

/// Root document stored at `{hecate_root}/metadata.json`.
///
/// The registry is held as a `Vec` of entries whose clone keys are distinct,
/// not as a `HashMap<String, _>`: vstd specifies `HashMap` only for key types
/// that it knows to obey its key model (integers, `bool`), and `String` is
/// not among them, so over a hash map keyed by strings Verus proves nothing of
/// what a lookup gives after an insert. The type invariant `keys_distinct`
/// keeps the map view (`entries_map`) exact.
#[derive(Debug)]
pub struct MetadataFile {
    version: u32,
    repos: Vec<RepoWorktrees>,
}

/// What a metadata file holds: its version, and the worktrees of each clone key.
pub struct MetadataView {
    pub version: u32,
    pub repos: Map<Seq<char>, Seq<WorktreeRecord>>,
}

/// The clone keys of `entries`, in order.
pub open spec fn entry_keys(entries: Seq<RepoWorktrees>) -> Seq<Seq<char>> {
    entries.map_values(|e: RepoWorktrees| e.clone_key@)
}

pub open spec fn keys_distinct(entries: Seq<RepoWorktrees>) -> bool {
    forall|i: int, j: int|
        0 <= i < entries.len() && 0 <= j < entries.len() && i != j ==> (#[trigger] entries[i]).clone_key@
            != (#[trigger] entries[j]).clone_key@
}

pub open spec fn has_entry(entries: Seq<RepoWorktrees>, k: Seq<char>) -> bool {
    exists|i: int| 0 <= i < entries.len() && (#[trigger] entries[i]).clone_key@ == k
}

pub open spec fn entry_index(entries: Seq<RepoWorktrees>, k: Seq<char>) -> int {
    choose|i: int| 0 <= i < entries.len() && (#[trigger] entries[i]).clone_key@ == k
}

/// The map from clone key to worktrees that `entries` stand for.
pub open spec fn entries_map(entries: Seq<RepoWorktrees>) -> Map<Seq<char>, Seq<WorktreeRecord>> {
    Map::new(
        |k: Seq<char>| has_entry(entries, k),
        |k: Seq<char>| entries[entry_index(entries, k)].worktrees@,
    )
}

pub proof fn lemma_entry_in_map(entries: Seq<RepoWorktrees>, i: int)
    requires
        keys_distinct(entries),
        0 <= i < entries.len(),
    ensures
        entries_map(entries).contains_key(entries[i].clone_key@),
        entries_map(entries)[entries[i].clone_key@] == entries[i].worktrees@,
{
    let k = entries[i].clone_key@;
    assert(has_entry(entries, k));
    let j = entry_index(entries, k);
    assert(entries[j].clone_key@ == k);
}

proof fn lemma_set_at(entries: Seq<RepoWorktrees>, i: int, e: RepoWorktrees)
    requires
        keys_distinct(entries),
        0 <= i < entries.len(),
        e.clone_key@ == entries[i].clone_key@,
    ensures
        keys_distinct(entries.update(i, e)),
        entries_map(entries.update(i, e)) == entries_map(entries).insert(
            e.clone_key@,
            e.worktrees@,
        ),
{
    let u = entries.update(i, e);
    assert forall|a: int, b: int|
        0 <= a < u.len() && 0 <= b < u.len() && a != b implies (#[trigger] u[a]).clone_key@
            != (#[trigger] u[b]).clone_key@ by {
        assert(u[a].clone_key@ == entries[a].clone_key@);
        assert(u[b].clone_key@ == entries[b].clone_key@);
    }
    let m = entries_map(entries).insert(e.clone_key@, e.worktrees@);
    assert forall|k: Seq<char>| #[trigger] entries_map(u).contains_key(k) <==> m.contains_key(k) by {
        if has_entry(u, k) {
            let j = choose|j: int| 0 <= j < u.len() && (#[trigger] u[j]).clone_key@ == k;
            if j != i {
                assert(entries[j].clone_key@ == k);
            }
        }
        if has_entry(entries, k) {
            let j = choose|j: int| 0 <= j < entries.len() && (#[trigger] entries[j]).clone_key@ == k;
            assert(u[j].clone_key@ == k);
        }
        if k == e.clone_key@ {
            assert(u[i].clone_key@ == k);
        }
    }
    assert forall|k: Seq<char>| #[trigger] entries_map(u).contains_key(k) implies entries_map(u)[k]
        == m[k] by {
        let j = entry_index(u, k);
        assert(u[j].clone_key@ == k);
        if k == e.clone_key@ {
            assert(j == i);
        } else {
            assert(j != i);
            assert(entries[j].clone_key@ == k);
            lemma_entry_in_map(entries, j);
        }
    }
    assert(entries_map(u) =~= m);
}

proof fn lemma_push_new(entries: Seq<RepoWorktrees>, e: RepoWorktrees)
    requires
        keys_distinct(entries),
        !has_entry(entries, e.clone_key@),
    ensures
        keys_distinct(entries.push(e)),
        entries_map(entries.push(e)) == entries_map(entries).insert(e.clone_key@, e.worktrees@),
{
    let u = entries.push(e);
    let n = entries.len() as int;
    assert forall|a: int, b: int|
        0 <= a < u.len() && 0 <= b < u.len() && a != b implies (#[trigger] u[a]).clone_key@
            != (#[trigger] u[b]).clone_key@ by {
        if a < n && b < n {
            assert(u[a] == entries[a]);
            assert(u[b] == entries[b]);
        } else if a < n {
            assert(u[a] == entries[a]);
        } else {
            assert(u[b] == entries[b]);
        }
    }
    let m = entries_map(entries).insert(e.clone_key@, e.worktrees@);
    assert forall|k: Seq<char>| #[trigger] entries_map(u).contains_key(k) <==> m.contains_key(k) by {
        if has_entry(u, k) {
            let j = choose|j: int| 0 <= j < u.len() && (#[trigger] u[j]).clone_key@ == k;
            if j < n {
                assert(entries[j].clone_key@ == k);
            }
        }
        if has_entry(entries, k) {
            let j = choose|j: int| 0 <= j < entries.len() && (#[trigger] entries[j]).clone_key@ == k;
            assert(u[j].clone_key@ == k);
        }
        if k == e.clone_key@ {
            assert(u[n].clone_key@ == k);
        }
    }
    assert forall|k: Seq<char>| #[trigger] entries_map(u).contains_key(k) implies entries_map(u)[k]
        == m[k] by {
        let j = entry_index(u, k);
        assert(u[j].clone_key@ == k);
        if k == e.clone_key@ {
            if j < n {
                assert(entries[j].clone_key@ == k);
            }
        } else {
            assert(j < n);
            assert(entries[j].clone_key@ == k);
            lemma_entry_in_map(entries, j);
        }
    }
    assert(entries_map(u) =~= m);
}

proof fn lemma_remove_at(entries: Seq<RepoWorktrees>, i: int)
    requires
        keys_distinct(entries),
        0 <= i < entries.len(),
    ensures
        keys_distinct(entries.remove(i)),
        entries_map(entries.remove(i)) == entries_map(entries).remove(entries[i].clone_key@),
{
    let u = entries.remove(i);
    let key = entries[i].clone_key@;
    assert forall|a: int| 0 <= a < u.len() implies #[trigger] u[a] == entries[if a < i {
        a
    } else {
        a + 1
    }] by {}
    assert forall|a: int, b: int|
        0 <= a < u.len() && 0 <= b < u.len() && a != b implies (#[trigger] u[a]).clone_key@
            != (#[trigger] u[b]).clone_key@ by {
        let a2 = if a < i {
            a
        } else {
            a + 1
        };
        let b2 = if b < i {
            b
        } else {
            b + 1
        };
        assert(u[a] == entries[a2]);
        assert(u[b] == entries[b2]);
    }
    let m = entries_map(entries).remove(key);
    assert forall|k: Seq<char>| #[trigger] entries_map(u).contains_key(k) <==> m.contains_key(k) by {
        if has_entry(u, k) {
            let j = choose|j: int| 0 <= j < u.len() && (#[trigger] u[j]).clone_key@ == k;
            let j2 = if j < i {
                j
            } else {
                j + 1
            };
            assert(u[j] == entries[j2]);
            assert(entries[j2].clone_key@ == k);
            assert(j2 != i);
        }
        if has_entry(entries, k) && k != key {
            let j = choose|j: int| 0 <= j < entries.len() && (#[trigger] entries[j]).clone_key@ == k;
            assert(j != i);
            let j3 = if j < i {
                j
            } else {
                j - 1
            };
            assert(u[j3] == entries[j]);
        }
    }
    assert forall|k: Seq<char>| #[trigger] entries_map(u).contains_key(k) implies entries_map(u)[k]
        == m[k] by {
        let j = entry_index(u, k);
        assert(u[j].clone_key@ == k);
        let j2 = if j < i {
            j
        } else {
            j + 1
        };
        assert(u[j] == entries[j2]);
        lemma_entry_in_map(entries, j2);
    }
    assert(entries_map(u) =~= m);
}

/// Every key of the map is the key of one entry, which holds its worktrees.
pub proof fn lemma_map_key_entry(entries: Seq<RepoWorktrees>, k: Seq<char>) -> (j: int)
    requires
        keys_distinct(entries),
        entries_map(entries).contains_key(k),
    ensures
        0 <= j < entries.len(),
        entries[j].clone_key@ == k,
        entries_map(entries)[k] == entries[j].worktrees@,
{
    let j = entry_index(entries, k);
    j
}

/// The registry after `record` is appended to the worktrees of `key`.
pub open spec fn spec_add_record(
    repos: Map<Seq<char>, Seq<WorktreeRecord>>,
    key: Seq<char>,
    record: WorktreeRecord,
) -> Map<Seq<char>, Seq<WorktreeRecord>> {
    repos.insert(
        key,
        (if repos.contains_key(key) {
            repos[key]
        } else {
            Seq::<WorktreeRecord>::empty()
        }).push(record),
    )
}

/// The registry after worktree `idx` of `key` is removed; a clone left with
/// no worktrees is dropped.
pub open spec fn spec_remove_record(
    repos: Map<Seq<char>, Seq<WorktreeRecord>>,
    key: Seq<char>,
    idx: int,
) -> Map<Seq<char>, Seq<WorktreeRecord>> {
    if repos[key].len() == 1 {
        repos.remove(key)
    } else {
        repos.insert(key, repos[key].remove(idx))
    }
}

/// Removing the worktree that was just added gives it back and restores the
/// registry, unless the clone was registered with an empty list (the
/// removal then drops the clone's entry).
pub proof fn lemma_remove_undoes_add(
    repos: Map<Seq<char>, Seq<WorktreeRecord>>,
    key: Seq<char>,
    record: WorktreeRecord,
)
    requires
        !(repos.contains_key(key) && repos[key].len() == 0),
    ensures
        ({
            let added = spec_add_record(repos, key, record);
            let idx = added[key].len() - 1;
            &&& added[key][idx] == record
            &&& spec_remove_record(added, key, idx) == repos
        }),
{
    let added = spec_add_record(repos, key, record);
    let idx = added[key].len() - 1;
    if repos.contains_key(key) {
        assert(added[key].remove(idx) =~= repos[key]);
        assert(spec_remove_record(added, key, idx) =~= repos);
    } else {
        assert(spec_remove_record(added, key, idx) =~= repos);
    }
}

/// Removing worktree `idx` of a clone keeps every other worktree of that
/// clone, in order: the clone's list loses exactly element `idx` (those
/// before it stay in place, those after it move down by one), the clone is
/// dropped only when that was its last worktree, and every other clone is
/// left as it was.
pub proof fn lemma_remove_record_keeps_others(
    repos: Map<Seq<char>, Seq<WorktreeRecord>>,
    key: Seq<char>,
    idx: int,
)
    requires
        repos.contains_key(key),
        0 <= idx < repos[key].len(),
    ensures
        ({
            let after = spec_remove_record(repos, key, idx);
            &&& after.contains_key(key) <==> repos[key].len() > 1
            &&& after.contains_key(key) ==> {
                &&& after[key].len() == repos[key].len() - 1
                &&& forall|i: int| 0 <= i < idx ==> #[trigger] after[key][i] == repos[key][i]
                &&& forall|i: int|
                    idx <= i < after[key].len() ==> #[trigger] after[key][i] == repos[key][i + 1]
            }
            &&& forall|k: Seq<char>|
                k != key ==> (#[trigger] after.contains_key(k) == repos.contains_key(k)
                    && (repos.contains_key(k) ==> after[k] == repos[k]))
        }),
{
}

impl View for MetadataFile {
    type V = MetadataView;

    closed spec fn view(&self) -> MetadataView {
        MetadataView { version: self.version, repos: entries_map(self.repos@) }
    }
}

impl MetadataFile {
    #[verifier::type_invariant]
    spec fn wf(self) -> bool {
        keys_distinct(self.repos@)
    }

    /// An empty registry with the given version.
    pub fn new(version: u32) -> (r: Self)
        ensures
            r@.version == version,
            r@.repos == Map::<Seq<char>, Seq<WorktreeRecord>>::empty(),
    {
        let r = MetadataFile { version, repos: Vec::new() };
        assert(r@.repos =~= Map::<Seq<char>, Seq<WorktreeRecord>>::empty());
        r
    }

    /// The schema version.
    pub fn version(&self) -> (v: u32)
        ensures
            v == self@.version,
    {
        self.version
    }

    /// Whether no clone has registered worktrees.
    pub fn is_empty(&self) -> (b: bool)
        ensures
            b == (self@.repos == Map::<Seq<char>, Seq<WorktreeRecord>>::empty()),
    {
        proof {
            use_type_invariant(self);
        }
        if self.repos.len() == 0 {
            assert(self@.repos =~= Map::<Seq<char>, Seq<WorktreeRecord>>::empty());
            true
        } else {
            proof {
                lemma_entry_in_map(self.repos@, 0);
            }
            assert(self@.repos.contains_key(self.repos@[0].clone_key@));
            false
        }
    }

    /// The entries of the registry, one per clone key.
    pub fn entries(&self) -> (r: &Vec<RepoWorktrees>)
        ensures
            keys_distinct(r@),
            entries_map(r@) == self@.repos,
    {
        proof {
            use_type_invariant(self);
        }
        &self.repos
    }

    /// The index of the entry of `key`, if any.
    fn find_key(&self, key: &str) -> (r: Option<usize>)
        ensures
            match r {
                Some(i) => i < self.repos.len() && self.repos@[i as int].clone_key@ == key@,
                None => !has_entry(self.repos@, key@),
            },
    {
        let mut i: usize = 0;
        while i < self.repos.len()
            invariant
                i <= self.repos.len(),
                forall|j: int| 0 <= j < i ==> self.repos@[j].clone_key@ != key@,
            decreases self.repos.len() - i,
        {
            if str_eq(self.repos[i].clone_key.as_str(), key) {
                return Some(i);
            }
            i = i + 1;
        }
        None
    }

    /// The worktrees registered for `key`, if the key is present.
    pub fn records_for(&self, key: &str) -> (r: Option<&Vec<WorktreeRecord>>)
        ensures
            match r {
                Some(v) => self@.repos.contains_key(key@) && v@ == self@.repos[key@],
                None => !self@.repos.contains_key(key@),
            },
    {
        proof {
            use_type_invariant(self);
        }
        match self.find_key(key) {
            Some(i) => {
                proof {
                    lemma_entry_in_map(self.repos@, i as int);
                }
                Some(&self.repos[i].worktrees)
            },
            None => None,
        }
    }

    /// The number of worktrees registered for `key` (0 when none).
    pub fn worktree_count(&self, key: &str) -> (n: usize)
        ensures
            n == (if self@.repos.contains_key(key@) {
                self@.repos[key@].len()
            } else {
                0
            }),
    {
        match self.records_for(key) {
            Some(v) => v.len(),
            None => 0,
        }
    }

    /// Sets the worktrees of `key`, replacing any earlier list.
    pub fn set_records(&mut self, key: String, records: Vec<WorktreeRecord>)
        ensures
            final(self)@.version == old(self)@.version,
            final(self)@.repos == old(self)@.repos.insert(key@, records@),
    {
        proof {
            use_type_invariant(&*self);
        }
        let ghost old_repos = self.repos@;
        match self.find_key(key.as_str()) {
            Some(i) => {
                let mut repos: Vec<RepoWorktrees> = Vec::new();
                std::mem::swap(&mut repos, &mut self.repos);
                proof {
                    lemma_set_at(old_repos, i as int, RepoWorktrees { clone_key: key, worktrees: records });
                }
                repos.set(i, RepoWorktrees { clone_key: key, worktrees: records });
                self.repos = repos;
            },
            None => {
                let mut repos: Vec<RepoWorktrees> = Vec::new();
                std::mem::swap(&mut repos, &mut self.repos);
                proof {
                    lemma_push_new(old_repos, RepoWorktrees { clone_key: key, worktrees: records });
                }
                repos.push(RepoWorktrees { clone_key: key, worktrees: records });
                self.repos = repos;
            },
        }
    }

    /// Appends `record` to the worktrees of `key`, creating the entry if needed.
    pub fn add_record(&mut self, key: String, record: WorktreeRecord)
        ensures
            final(self)@.version == old(self)@.version,
            final(self)@.repos == spec_add_record(old(self)@.repos, key@, record),
    {
        proof {
            use_type_invariant(&*self);
        }
        let ghost old_repos = self.repos@;
        match self.find_key(key.as_str()) {
            Some(i) => {
                let mut repos: Vec<RepoWorktrees> = Vec::new();
                std::mem::swap(&mut repos, &mut self.repos);
                proof {
                    lemma_entry_in_map(old_repos, i as int);
                }
                let mut entry = repos.remove(i);
                let ghost before = entry.worktrees@;
                entry.worktrees.push(record);
                proof {
                    assert(repos@.insert(i as int, entry) =~= old_repos.update(i as int, entry));
                    lemma_set_at(old_repos, i as int, entry);
                }
                repos.insert(i, entry);
                self.repos = repos;
            },
            None => {
                let mut repos: Vec<RepoWorktrees> = Vec::new();
                std::mem::swap(&mut repos, &mut self.repos);
                let mut list: Vec<WorktreeRecord> = Vec::new();
                list.push(record);
                assert(list@ =~= Seq::<WorktreeRecord>::empty().push(record));
                proof {
                    lemma_push_new(old_repos, RepoWorktrees { clone_key: key, worktrees: list });
                }
                repos.push(RepoWorktrees { clone_key: key, worktrees: list });
                self.repos = repos;
            },
        }
    }

    /// Removes worktree `idx` of `key` and returns it; a clone left with no
    /// worktrees is dropped from the registry.
    pub fn remove_record(&mut self, key: &str, idx: usize) -> (r: WorktreeRecord)
        requires
            old(self)@.repos.contains_key(key@),
            idx < old(self)@.repos[key@].len(),
        ensures
            r == old(self)@.repos[key@][idx as int],
            final(self)@.version == old(self)@.version,
            final(self)@.repos == spec_remove_record(old(self)@.repos, key@, idx as int),
    {
        proof {
            use_type_invariant(&*self);
        }
        let ghost old_repos = self.repos@;
        let found = self.find_key(key);
        assert(found is Some) by {
            if found is None {
                assert(has_entry(old_repos, key@));
            }
        }
        let i = found.unwrap();
        proof {
            lemma_entry_in_map(old_repos, i as int);
        }
        let mut repos: Vec<RepoWorktrees> = Vec::new();
                std::mem::swap(&mut repos, &mut self.repos);
        let mut entry = repos.remove(i);
        let removed = entry.worktrees.remove(idx);
        if entry.worktrees.len() == 0 {
            proof {
                lemma_remove_at(old_repos, i as int);
            }
        } else {
            proof {
                assert(repos@.insert(i as int, entry) =~= old_repos.update(i as int, entry));
                lemma_set_at(old_repos, i as int, entry);
            }
            repos.insert(i, entry);
        }
        self.repos = repos;
        removed
    }

    /// `Ok` when the version is `METADATA_VERSION`, the version error otherwise.
    pub fn check_version(&self) -> (res: Result<(), MetadataError>)
        ensures
            res is Ok <==> self@.version == METADATA_VERSION,
            res matches Err(e) ==> e matches MetadataError::UnsupportedVersion { found }
                && found == self@.version,
    {
        if self.version != METADATA_VERSION {
            Err(MetadataError::UnsupportedVersion { found: self.version })
        } else {
            Ok(())
        }
    }
}

impl Default for MetadataFile {
    fn default() -> (r: Self)
        ensures
            r@.version == METADATA_VERSION,
            r@.repos == Map::<Seq<char>, Seq<WorktreeRecord>>::empty(),
    {
        MetadataFile::new(METADATA_VERSION)
    }
}

} // verus!
