//! The repo directory segment under `hecate_root`: the sanitized basename of
//! the repository, or `{basename}-{hash prefix}` when another clone already
//! keeps worktrees in that folder.

use sha2::Digest;
use vstd::prelude::*;

use crate::fspath::{path_join, path_starts_with, spec_join, spec_path_starts_with};
use crate::metadata::{entries_map, MetadataFile, WorktreeRecord};
use crate::paths::{repo_default_segment, result_chars, spec_repo_default_segment, PathError};
use crate::text::{chars_of, concat_chars, copy_range, str_eq, string_of};

verus! {

/// `s` with every `\` replaced by `/`.
pub open spec fn forward_slashes(s: Seq<char>) -> Seq<char> {
    s.map_values(|c: char| if c == '\\' { '/' } else { c })
}

/// The identity string of a resolved clone path: `\` normalized to `/`.
pub fn identity_key_of(resolved: &str) -> (r: String)
    ensures
        r@ == forward_slashes(resolved@),
{
    let s = chars_of(resolved);
    let mut out: Vec<char> = Vec::new();
    let mut i: usize = 0;
    while i < s.len()
        invariant
            i <= s.len(),
            out@ == forward_slashes(s@.take(i as int)),
        decreases s.len() - i,
    {
        out.push(if s[i] == '\\' { '/' } else { s[i] });
        i = i + 1;
        assert(out@ =~= forward_slashes(s@.take(i as int)));
    }
    assert(s@.take(s.len() as int) =~= s@);
    string_of(&out)
}

/// Stable string for hashing: the canonical path of `repo_root` when the
/// caller could compute it (`canonical`), else its absolute form, else
/// `repo_root` itself; with `\` normalized to `/`.
pub fn clone_identity_key(repo_root: &str, canonical: Option<&str>) -> (r: String)
    ensures
        match canonical {
            Some(c) => r@ == forward_slashes(c@),
            None => {
                &&& r@ == forward_slashes(repo_root@) || exists|a: Seq<char>|
                    crate::fspath::is_absolute(a) && r@ == forward_slashes(a)
                &&& crate::fspath::is_absolute(repo_root@) ==> exists|a: Seq<char>|
                    crate::fspath::spec_components(a) == crate::fspath::spec_components(
                        repo_root@,
                    ) && r@ == forward_slashes(a)
                &&& exists|a: Seq<char>|
                    crate::fspath::is_suffix_of(
                        crate::fspath::without_cur_dir(crate::fspath::spec_components(repo_root@)),
                        crate::fspath::spec_components(a),
                    ) && r@ == forward_slashes(a)
            },
        },
{
    match canonical {
        Some(c) => identity_key_of(c),
        None => {
            let resolved = crate::config::absolute_norm(repo_root, "");
            proof {
                assert(spec_join(Seq::<char>::empty(), repo_root@) == repo_root@) by {
                    if !crate::fspath::is_absolute(repo_root@) {
                        assert(Seq::<char>::empty() + repo_root@ =~= repo_root@);
                    }
                }
                reveal_strlit("");
            }
            identity_key_of(resolved.as_str())
        },
    }
}

/// The lowercase hex SHA-256 digest of the UTF-8 bytes of `input`.
pub uninterp spec fn sha256_hex_of(input: Seq<char>) -> Seq<char>;

pub open spec fn is_lower_hex(c: char) -> bool {
    ('0' <= c && c <= '9') || ('a' <= c && c <= 'f')
}

/// `sha2::Sha256` over the bytes of `input`, printed with `{:x}`. The digest
/// itself is left to the name `sha256_hex_of`; the contract states that it
/// is printed as 64 lowercase hex digits (32 bytes, two digits each, as the
/// `LowerHex` impl of `generic_array` writes them).
#[verifier::external_body]
fn sha256_hex(input: &str) -> (r: String)
    ensures
        r@ == sha256_hex_of(input@),
        r@.len() == 64,
        forall|i: int| 0 <= i < r@.len() ==> is_lower_hex(#[trigger] r@[i]),
{
    format!("{:x}", sha2::Sha256::digest(input.as_bytes()))
}

/// Some clone other than `exclude_clone_key` has a worktree at or below
/// `hecate_root/segment`.
pub open spec fn spec_segment_used(
    repos: Map<Seq<char>, Seq<WorktreeRecord>>,
    hecate_root: Seq<char>,
    segment: Seq<char>,
    exclude_clone_key: Seq<char>,
) -> bool {
    exists|k: Seq<char>, i: int|
        #![trigger repos[k][i]]
        repos.contains_key(k) && k != exclude_clone_key && 0 <= i < repos[k].len()
            && spec_path_starts_with(repos[k][i].path@, spec_join(hecate_root, segment))
}

/// `true` if some **other** clone (any metadata key other than `exclude_clone_key`) has a
/// worktree whose path lies under `hecate_root/segment` (same directory or nested).
#[verifier::loop_isolation(false)]
pub fn segment_dir_used_by_other_clones(
    metadata: &MetadataFile,
    hecate_root: &str,
    segment: &str,
    exclude_clone_key: &str,
) -> (b: bool)
    ensures
        b == spec_segment_used(metadata@.repos, hecate_root@, segment@, exclude_clone_key@),
{
    let base = path_join(hecate_root, segment);
    let entries = metadata.entries();
    let ghost m = metadata@.repos;
    let mut e: usize = 0;
    while e < entries.len()
        invariant
            e <= entries.len(),
            crate::metadata::keys_distinct(entries@),
            entries_map(entries@) == m,
            base@ == spec_join(hecate_root@, segment@),
            forall|j: int, i: int|
                #![trigger entries@[j].worktrees@[i]]
                0 <= j < e && entries@[j].clone_key@ != exclude_clone_key@ && 0 <= i
                    < entries@[j].worktrees@.len() ==> !spec_path_starts_with(
                    entries@[j].worktrees@[i].path@,
                    base@,
                ),
        decreases entries.len() - e,
    {
        let entry = &entries[e];
        if !str_eq(entry.clone_key.as_str(), exclude_clone_key) {
            let mut r: usize = 0;
            while r < entry.worktrees.len()
                invariant
                    r <= entry.worktrees.len(),
                    forall|i: int|
                        0 <= i < r ==> !spec_path_starts_with(
                            (#[trigger] entry.worktrees@[i]).path@,
                            base@,
                        ),
                decreases entry.worktrees.len() - r,
            {
                if path_starts_with(entry.worktrees[r].path.as_str(), base.as_str()) {
                    proof {
                        crate::metadata::lemma_entry_in_map(entries@, e as int);
                        assert(entry.clone_key@ != exclude_clone_key@);
                        let k = entry.clone_key@;
                        assert(m[k][r as int] == entry.worktrees@[r as int]);
                    }
                    return true;
                }
                r = r + 1;
            }
        }
        assert forall|j: int, i: int|
            0 <= j < e + 1 && entries@[j].clone_key@ != exclude_clone_key@ && 0 <= i
                < entries@[j].worktrees@.len() implies !spec_path_starts_with(
                #[trigger] entries@[j].worktrees@[i].path@,
                base@,
            ) by {
            if j == e {
                assert(entries@[j] == *entry);
            }
        }
        e = e + 1;
    }
    proof {
        assert forall|k: Seq<char>, i: int|
            #![trigger m[k][i]]
            m.contains_key(k) && k != exclude_clone_key@ && 0 <= i < m[k].len()
                implies !spec_path_starts_with(m[k][i].path@, base@) by {
            let j = crate::metadata::lemma_map_key_entry(entries@, k);
            assert(entries@[j].worktrees@[i] == m[k][i]);
        }
    }
    false
}

/// The candidate segment `default-{first end hex digits of hash}`, `end`
/// capped at the hash length.
pub open spec fn candidate_segment(default_seg: Seq<char>, hash_hex: Seq<char>, n: int) -> Seq<
    char,
> {
    let end = if n < hash_hex.len() {
        n
    } else {
        hash_hex.len() as int
    };
    default_seg + seq!['-'] + hash_hex.take(end)
}

/// The first free candidate from hash prefix length `n` on, growing by 4
/// until the whole hash is used.
pub open spec fn first_free_candidate(
    repos: Map<Seq<char>, Seq<WorktreeRecord>>,
    hecate_root: Seq<char>,
    exclude_clone_key: Seq<char>,
    default_seg: Seq<char>,
    hash_hex: Seq<char>,
    n: int,
) -> Result<Seq<char>, PathError>
    decreases hash_hex.len() + 4 - n,
{
    let cand = candidate_segment(default_seg, hash_hex, n);
    if !spec_segment_used(repos, hecate_root, cand, exclude_clone_key) {
        Ok(cand)
    } else if n >= hash_hex.len() {
        Err(PathError::SegmentAllocationExhausted)
    } else {
        first_free_candidate(repos, hecate_root, exclude_clone_key, default_seg, hash_hex, n + 4)
    }
}

/// What `pick_repo_segment` gives: the default segment when no other clone
/// uses it, else the first free hashed candidate.
pub open spec fn spec_pick_repo_segment(
    repos: Map<Seq<char>, Seq<WorktreeRecord>>,
    hecate_root: Seq<char>,
    exclude_clone_key: Seq<char>,
    default_seg: Seq<char>,
    hash_hex: Seq<char>,
) -> Result<Seq<char>, PathError> {
    if !spec_segment_used(repos, hecate_root, default_seg, exclude_clone_key) {
        Ok(default_seg)
    } else {
        first_free_candidate(repos, hecate_root, exclude_clone_key, default_seg, hash_hex, 8)
    }
}

/// Every segment that the candidate search returns is free.
proof fn lemma_first_free_is_free(
    repos: Map<Seq<char>, Seq<WorktreeRecord>>,
    hecate_root: Seq<char>,
    exclude_clone_key: Seq<char>,
    default_seg: Seq<char>,
    hash_hex: Seq<char>,
    n: int,
)
    ensures
        first_free_candidate(repos, hecate_root, exclude_clone_key, default_seg, hash_hex, n) matches Ok(s)
            ==> !spec_segment_used(repos, hecate_root, s, exclude_clone_key),
    decreases hash_hex.len() + 4 - n,
{
    let cand = candidate_segment(default_seg, hash_hex, n);
    if spec_segment_used(repos, hecate_root, cand, exclude_clone_key) && n < hash_hex.len() {
        lemma_first_free_is_free(repos, hecate_root, exclude_clone_key, default_seg, hash_hex, n + 4);
    }
}

/// `s` is `d`, a `-` and between 8 and 64 lowercase hex digits.
pub open spec fn is_hashed_variant(s: Seq<char>, d: Seq<char>) -> bool {
    &&& d.len() + 9 <= s.len() <= d.len() + 65
    &&& s.take(d.len() + 1int) == d.push('-')
    &&& forall|i: int| d.len() + 1 <= i < s.len() ==> is_lower_hex(#[trigger] s[i])
}

/// With a 64-digit lowercase hex hash, every candidate the search returns
/// is a hashed variant of the default segment.
proof fn lemma_first_free_is_hashed(
    repos: Map<Seq<char>, Seq<WorktreeRecord>>,
    hecate_root: Seq<char>,
    exclude_clone_key: Seq<char>,
    default_seg: Seq<char>,
    hash_hex: Seq<char>,
    n: int,
)
    requires
        n >= 8,
        hash_hex.len() == 64,
        forall|i: int| 0 <= i < hash_hex.len() ==> is_lower_hex(#[trigger] hash_hex[i]),
    ensures
        first_free_candidate(repos, hecate_root, exclude_clone_key, default_seg, hash_hex, n) matches Ok(s)
            ==> is_hashed_variant(s, default_seg),
    decreases hash_hex.len() + 4 - n,
{
    let cand = candidate_segment(default_seg, hash_hex, n);
    if spec_segment_used(repos, hecate_root, cand, exclude_clone_key) {
        if n < hash_hex.len() {
            lemma_first_free_is_hashed(repos, hecate_root, exclude_clone_key, default_seg, hash_hex, n + 4);
        }
    } else {
        let end = if n < hash_hex.len() { n } else { hash_hex.len() as int };
        let d = default_seg;
        assert(cand.take(d.len() + 1int) =~= d.push('-'));
        assert forall|i: int| d.len() + 1 <= i < cand.len() implies is_lower_hex(#[trigger] cand[i]) by {
            assert(cand[i] == hash_hex[i - d.len() - 1]);
        }
    }
}

/// Chooses between the default segment and its hashed variants, given the
/// hex digest `hash_hex` of the clone's identity.
pub fn pick_repo_segment(
    default_seg: &str,
    hash_hex: &str,
    hecate_root: &str,
    metadata: &MetadataFile,
    current_clone_key: &str,
) -> (res: Result<String, PathError>)
    ensures
        result_chars(res) == spec_pick_repo_segment(
            metadata@.repos,
            hecate_root@,
            current_clone_key@,
            default_seg@,
            hash_hex@,
        ),
        res matches Ok(s) ==> !spec_segment_used(
            metadata@.repos,
            hecate_root@,
            s@,
            current_clone_key@,
        ),
{
    let ghost repos = metadata@.repos;
    proof {
        lemma_first_free_is_free(repos, hecate_root@, current_clone_key@, default_seg@, hash_hex@, 8);
    }
    if !segment_dir_used_by_other_clones(metadata, hecate_root, default_seg, current_clone_key) {
        return Ok(string_of(&chars_of(default_seg)));
    }
    let d = chars_of(default_seg);
    let h = chars_of(hash_hex);
    let dash: Vec<char> = vec!['-'];
    assert(dash@ =~= seq!['-']);
    let head = concat_chars(&d, &dash);
    let mut n: usize = 8;
    loop
        invariant
            8 <= n,
            d@ == default_seg@,
            h@ == hash_hex@,
            head@ == default_seg@ + seq!['-'],
            repos == metadata@.repos,
            spec_segment_used(repos, hecate_root@, default_seg@, current_clone_key@),
            first_free_candidate(repos, hecate_root@, current_clone_key@, default_seg@, hash_hex@, 8) matches Ok(s)
                ==> !spec_segment_used(repos, hecate_root@, s, current_clone_key@),
            first_free_candidate(repos, hecate_root@, current_clone_key@, default_seg@, hash_hex@, 8)
                == first_free_candidate(
                repos,
                hecate_root@,
                current_clone_key@,
                default_seg@,
                hash_hex@,
                n as int,
            ),
        decreases hash_hex@.len() + 4 - n,
    {
        let suffix_end = if n < h.len() {
            n
        } else {
            h.len()
        };
        let candidate = string_of(&concat_chars(&head, &copy_range(&h, 0, suffix_end)));
        assert(h@.subrange(0, suffix_end as int) =~= h@.take(suffix_end as int));
        assert(candidate@ =~= candidate_segment(default_seg@, hash_hex@, n as int));
        if !segment_dir_used_by_other_clones(
            metadata,
            hecate_root,
            candidate.as_str(),
            current_clone_key,
        ) {
            return Ok(candidate);
        }
        if suffix_end >= h.len() {
            return Err(PathError::SegmentAllocationExhausted);
        }
        let ghost rootv = hecate_root@;
        assert(first_free_candidate(repos, rootv, current_clone_key@, default_seg@, hash_hex@, n as int)
            == first_free_candidate(repos, rootv, current_clone_key@, default_seg@, hash_hex@, n + 4));
        if n > usize::MAX - 4 {
            proof {
                assert(first_free_candidate(repos, rootv, current_clone_key@, default_seg@, hash_hex@, usize::MAX as int)
                    == first_free_candidate(repos, rootv, current_clone_key@, default_seg@, hash_hex@, n + 4));
                assert(candidate_segment(default_seg@, hash_hex@, usize::MAX as int)
                    == candidate_segment(default_seg@, hash_hex@, n + 4));
            }
            n = usize::MAX;
        } else {
            n = n + 4;
        }
    }
}

/// What `choose_repo_segment` gives, with the clone's identity key given.
pub open spec fn spec_choose_repo_segment(
    repos: Map<Seq<char>, Seq<WorktreeRecord>>,
    repo_root: Seq<char>,
    hecate_root: Seq<char>,
    current_clone_key: Seq<char>,
    identity_key: Seq<char>,
) -> Result<Seq<char>, PathError> {
    match spec_repo_default_segment(repo_root) {
        Err(e) => Err(e),
        Ok(d) => spec_pick_repo_segment(
            repos,
            hecate_root,
            current_clone_key,
            d,
            sha256_hex_of(identity_key),
        ),
    }
}

/// Choose the repo directory segment: default sanitized basename, or
/// `{basename}-{hash...}` when another clone already uses that folder under
/// `hecate_root`. `identity_key` is the clone's `clone_identity_key`.
pub fn choose_repo_segment(
    repo_root: &str,
    hecate_root: &str,
    metadata: &MetadataFile,
    current_clone_key: &str,
    identity_key: &str,
) -> (res: Result<String, PathError>)
    ensures
        result_chars(res) == spec_choose_repo_segment(
            metadata@.repos,
            repo_root@,
            hecate_root@,
            current_clone_key@,
            identity_key@,
        ),
        res matches Ok(s) ==> !spec_segment_used(
            metadata@.repos,
            hecate_root@,
            s@,
            current_clone_key@,
        ),
        res matches Ok(s) ==> (spec_repo_default_segment(repo_root@) matches Ok(d) && (s@ == d
            || is_hashed_variant(s@, d))),
{
    let default_seg = match repo_default_segment(repo_root) {
        Ok(d) => d,
        Err(e) => return Err(e),
    };
    if !segment_dir_used_by_other_clones(
        metadata,
        hecate_root,
        default_seg.as_str(),
        current_clone_key,
    ) {
        return Ok(default_seg);
    }
    let hash_hex = sha256_hex(identity_key);
    proof {
        lemma_first_free_is_hashed(
            metadata@.repos,
            hecate_root@,
            current_clone_key@,
            default_seg@,
            hash_hex@,
            8,
        );
    }
    pick_repo_segment(default_seg.as_str(), hash_hex.as_str(), hecate_root, metadata, current_clone_key)
}

} // verus!
