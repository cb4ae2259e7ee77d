//! What every sanitized segment looks like, and that sanitizing it again
//! changes nothing.

use vstd::prelude::*;

use crate::fspath::{is_plain_name, lemma_join_components, spec_components, spec_join};
use crate::paths::{
    spec_worktree_directory,
    cleaned_segment, collapse_dashes, has_forbidden, is_dot_name, is_kept_char,
    is_windows_reserved, map_segment, segment_char,
    spec_repo_default_segment, spec_sanitize_segment, MAX_SEGMENT_LEN,
};
use crate::text::{
    ascii_lower, ascii_upper, contains_seq, drop_leading, drop_trailing, in_class, lower_seq,
    occurs_at, trim_class, upper_seq, CharClass,
};

verus! {

/// Characters that a sanitized segment may hold.
pub open spec fn is_segment_output_char(c: char) -> bool {
    ||| ('a' <= c && c <= 'z')
    ||| ('0' <= c && c <= '9')
    ||| c == '_'
    ||| c == '.'
    ||| c == '-'
}

/// `s[i]` is `x` and `s[i + 1]` is `y`.
pub open spec fn pair_at(s: Seq<char>, i: int, x: char, y: char) -> bool {
    s[i] == x && s[i + 1] == y
}

/// `x` is never directly followed by `y` in `s`.
pub open spec fn no_pair(s: Seq<char>, x: char, y: char) -> bool {
    forall|i: int| 0 <= i < s.len() - 1 ==> !#[trigger] pair_at(s, i, x, y)
}

/// The shape of every segment that `sanitize_segment` accepts: non-empty,
/// at most `MAX_SEGMENT_LEN` characters of `[a-z0-9_.-]`, no leading or
/// trailing `-`, no `--` and no `..`, not `.` and not a Windows device name.
pub open spec fn is_sanitized_segment(s: Seq<char>) -> bool {
    &&& 0 < s.len() <= MAX_SEGMENT_LEN
    &&& forall|i: int| 0 <= i < s.len() ==> is_segment_output_char(#[trigger] s[i])
    &&& s[0] != '-'
    &&& s.last() != '-'
    &&& no_pair(s, '-', '-')
    &&& no_pair(s, '.', '.')
    &&& !is_dot_name(s)
    &&& !is_windows_reserved(s)
}

proof fn lemma_contains_pair(s: Seq<char>, x: char, y: char)
    ensures
        contains_seq(s, seq![x, y]) <==> !no_pair(s, x, y),
{
    if contains_seq(s, seq![x, y]) {
        let i = choose|i: int| occurs_at(s, seq![x, y], i);
        assert(s.subrange(i, i + 2)[0] == s[i]);
        assert(s.subrange(i, i + 2)[1] == s[i + 1]);
        assert(pair_at(s, i, x, y));
    }
    if !no_pair(s, x, y) {
        let i = choose|i: int| 0 <= i < s.len() - 1 && #[trigger] pair_at(s, i, x, y);
        assert(s.subrange(i, i + 2) =~= seq![x, y]);
        assert(occurs_at(s, seq![x, y], i));
    }
}

proof fn lemma_drop_leading_skip(s: Seq<char>, k: CharClass) -> (n: int)
    ensures
        0 <= n <= s.len(),
        drop_leading(s, k) == s.skip(n),
        drop_leading(s, k).len() > 0 ==> !in_class(drop_leading(s, k)[0], k),
    decreases s.len(),
{
    if s.len() > 0 && in_class(s[0], k) {
        let m = lemma_drop_leading_skip(s.drop_first(), k);
        assert(s.drop_first().skip(m) =~= s.skip(m + 1));
        m + 1
    } else {
        assert(s.skip(0) =~= s);
        0
    }
}

proof fn lemma_drop_trailing_take(s: Seq<char>, k: CharClass) -> (e: int)
    ensures
        0 <= e <= s.len(),
        drop_trailing(s, k) == s.take(e),
        drop_trailing(s, k).len() > 0 ==> !in_class(drop_trailing(s, k).last(), k),
    decreases s.len(),
{
    if s.len() > 0 && in_class(s.last(), k) {
        let m = lemma_drop_trailing_take(s.drop_last(), k);
        assert(s.drop_last().take(m) =~= s.take(m));
        m
    } else {
        assert(s.take(s.len() as int) =~= s);
        s.len() as int
    }
}

/// Trimming keeps a contiguous range of `s` whose ends are outside the class.
proof fn lemma_trim_range(s: Seq<char>, k: CharClass) -> (r: (int, int))
    ensures
        0 <= r.0 <= r.1 <= s.len(),
        trim_class(s, k) == s.subrange(r.0, r.1),
        trim_class(s, k).len() > 0 ==> !in_class(trim_class(s, k)[0], k) && !in_class(
            trim_class(s, k).last(),
            k,
        ),
{
    let l = drop_leading(s, k);
    let n = lemma_drop_leading_skip(s, k);
    let e = lemma_drop_trailing_take(l, k);
    assert(l.take(e) =~= s.subrange(n, n + e));
    if trim_class(s, k).len() > 0 {
        assert(trim_class(s, k)[0] == l[0]);
    }
    (n, n + e)
}

/// Nothing is trimmed when neither end is in the class.
proof fn lemma_trim_identity(s: Seq<char>, k: CharClass)
    requires
        s.len() > 0,
        !in_class(s[0], k),
        !in_class(s.last(), k),
    ensures
        trim_class(s, k) == s,
{
}

proof fn lemma_collapse_last(s: Seq<char>)
    requires
        s.len() > 0,
    ensures
        collapse_dashes(s).len() > 0,
        collapse_dashes(s).last() == s.last(),
    decreases s.len(),
{
    if s.len() >= 2 && s.last() == '-' && s[s.len() - 2] == '-' {
        lemma_collapse_last(s.drop_last());
    }
}

/// Collapsing keeps only characters of `s`, leaves no `--`, and adds no `..`.
proof fn lemma_collapse_props(s: Seq<char>)
    requires
        no_pair(s, '.', '.'),
        forall|i: int| 0 <= i < s.len() ==> is_kept_char(#[trigger] s[i]),
    ensures
        forall|i: int|
            0 <= i < collapse_dashes(s).len() ==> is_kept_char(#[trigger] collapse_dashes(s)[i]),
        no_pair(collapse_dashes(s), '-', '-'),
        no_pair(collapse_dashes(s), '.', '.'),
    decreases s.len(),
{
    if s.len() > 0 {
        let t = s.drop_last();
        assert forall|i: int| 0 <= i < t.len() - 1 implies !#[trigger] pair_at(t, i, '.', '.') by {
            assert(!pair_at(s, i, '.', '.'));
        }
        lemma_collapse_props(t);
        let c = collapse_dashes(t);
        if s.len() >= 2 && s.last() == '-' && s[s.len() - 2] == '-' {
        } else {
            let r = c.push(s.last());
            if t.len() > 0 {
                lemma_collapse_last(t);
                assert(!pair_at(s, s.len() - 2, '.', '.'));
            }
            assert forall|i: int| 0 <= i < r.len() - 1 implies !#[trigger] pair_at(r, i, '-', '-')
                by {
                if i < c.len() - 1 {
                    assert(!pair_at(c, i, '-', '-'));
                }
            }
            assert forall|i: int| 0 <= i < r.len() - 1 implies !#[trigger] pair_at(r, i, '.', '.')
                by {
                if i < c.len() - 1 {
                    assert(!pair_at(c, i, '.', '.'));
                }
            }
        }
    }
}

/// Collapsing leaves a string without `--` unchanged.
proof fn lemma_collapse_identity(s: Seq<char>)
    requires
        no_pair(s, '-', '-'),
    ensures
        collapse_dashes(s) == s,
    decreases s.len(),
{
    if s.len() > 0 {
        let t = s.drop_last();
        assert forall|i: int| 0 <= i < t.len() - 1 implies !#[trigger] pair_at(t, i, '-', '-') by {
            assert(!pair_at(s, i, '-', '-'));
        }
        lemma_collapse_identity(t);
        if s.len() >= 2 {
            assert(!pair_at(s, s.len() - 2, '-', '-'));
        }
        assert(t.push(s.last()) =~= s);
    }
}

proof fn lemma_upper_lower(c: char)
    ensures
        ascii_upper(ascii_lower(c)) == ascii_upper(c),
{
}

/// The cleaned form of a trimmed, accepted string is a contiguous run of
/// kept characters with no `--`, no `..` and no `-` at either end.
proof fn lemma_cleaned_props(trimmed: Seq<char>)
    requires
        !has_forbidden(trimmed),
    ensures
        ({
            let d = cleaned_segment(trimmed);
            &&& forall|i: int| 0 <= i < d.len() ==> is_kept_char(#[trigger] d[i])
            &&& no_pair(d, '-', '-')
            &&& no_pair(d, '.', '.')
            &&& d.len() > 0 ==> d[0] != '-' && d.last() != '-'
        }),
{
    let m = map_segment(trimmed);
    lemma_contains_pair(trimmed, '.', '.');
    assert forall|i: int| 0 <= i < m.len() - 1 implies !#[trigger] pair_at(m, i, '.', '.') by {
        assert(!pair_at(trimmed, i, '.', '.'));
        assert(m[i] == segment_char(trimmed[i]));
        assert(m[i + 1] == segment_char(trimmed[i + 1]));
    }
    assert forall|i: int| 0 <= i < m.len() implies is_kept_char(#[trigger] m[i]) by {
        assert(m[i] == segment_char(trimmed[i]));
    }
    lemma_collapse_props(m);
    let c = collapse_dashes(m);
    let (a, b) = lemma_trim_range(c, CharClass::Dash);
    let d = cleaned_segment(trimmed);
    assert(d == c.subrange(a, b));
    assert forall|i: int| 0 <= i < d.len() implies is_kept_char(#[trigger] d[i]) by {
        assert(d[i] == c[i + a]);
    }
    assert forall|i: int| 0 <= i < d.len() - 1 implies !#[trigger] pair_at(d, i, '-', '-') by {
        assert(!pair_at(c, i + a, '-', '-'));
    }
    assert forall|i: int| 0 <= i < d.len() - 1 implies !#[trigger] pair_at(d, i, '.', '.') by {
        assert(!pair_at(c, i + a, '.', '.'));
    }
}

/// Every segment that sanitization accepts has the sanitized shape.
pub proof fn lemma_sanitize_segment_shape(raw: Seq<char>)
    ensures
        spec_sanitize_segment(raw) matches Ok(s) ==> is_sanitized_segment(s),
{
    let trimmed = trim_class(raw, CharClass::SegmentSpace);
    if trimmed.len() > 0 && !has_forbidden(trimmed) {
        let d = cleaned_segment(trimmed);
        if d.len() > 0 && !is_dot_name(d) {
            lemma_cleaned_props(trimmed);
            let p = if is_windows_reserved(d) {
                seq!['_'] + d
            } else {
                d
            };
            if p.len() <= MAX_SEGMENT_LEN {
                let s = lower_seq(p);
                assert(spec_sanitize_segment(raw) == Ok::<Seq<char>, crate::paths::PathError>(s));
                assert forall|i: int| 0 <= i < p.len() implies (is_kept_char(#[trigger] p[i])
                    || p[i] == '_') by {
                    if is_windows_reserved(d) && i > 0 {
                        assert(p[i] == d[i - 1]);
                    }
                }
                assert forall|i: int| 0 <= i < s.len() implies is_segment_output_char(
                    #[trigger] s[i],
                ) by {
                    assert(s[i] == ascii_lower(p[i]));
                }
                assert forall|i: int| 0 <= i < s.len() - 1 implies !#[trigger] pair_at(
                    s,
                    i,
                    '-',
                    '-',
                ) by {
                    assert(s[i] == ascii_lower(p[i]));
                    assert(s[i + 1] == ascii_lower(p[i + 1]));
                    if is_windows_reserved(d) {
                        if i > 0 {
                            assert(!pair_at(d, i - 1, '-', '-'));
                        }
                    } else {
                        assert(!pair_at(d, i, '-', '-'));
                    }
                }
                assert forall|i: int| 0 <= i < s.len() - 1 implies !#[trigger] pair_at(
                    s,
                    i,
                    '.',
                    '.',
                ) by {
                    assert(s[i] == ascii_lower(p[i]));
                    assert(s[i + 1] == ascii_lower(p[i + 1]));
                    if is_windows_reserved(d) {
                        if i > 0 {
                            assert(!pair_at(d, i - 1, '.', '.'));
                        }
                    } else {
                        assert(!pair_at(d, i, '.', '.'));
                    }
                }
                assert(s[0] == ascii_lower(p[0]));
                assert(s.last() == ascii_lower(p.last()));
                if s.len() >= 1 {
                    assert(s[0] == ascii_lower(p[0]));
                }
                if s.len() >= 2 {
                    assert(s[1] == ascii_lower(p[1]));
                }
                let u = upper_seq(s);
                let up = upper_seq(p);
                assert forall|i: int| 0 <= i < u.len() implies #[trigger] u[i] == up[i] by {
                    lemma_upper_lower(p[i]);
                }
                assert(u =~= up);
                if is_windows_reserved(d) {
                    assert(up[0] == '_');
                } else {
                    assert(up == upper_seq(d));
                }
            }
        }
    }
}

/// A segment of the sanitized shape sanitizes to itself.
pub proof fn lemma_sanitized_fixed_point(s: Seq<char>)
    requires
        is_sanitized_segment(s),
    ensures
        spec_sanitize_segment(s) == Ok::<Seq<char>, crate::paths::PathError>(s),
{
    lemma_trim_identity(s, CharClass::SegmentSpace);
    assert(!s.contains('\0'));
    assert(!s.contains('/'));
    assert(!s.contains('\\'));
    lemma_contains_pair(s, '.', '.');
    assert(!has_forbidden(s));
    let m = map_segment(s);
    assert forall|i: int| 0 <= i < s.len() implies #[trigger] m[i] == s[i] by {
        assert(is_segment_output_char(s[i]));
    }
    assert(m =~= s);
    lemma_collapse_identity(s);
    lemma_trim_identity(s, CharClass::Dash);
    assert(cleaned_segment(s) == s);
    let l = lower_seq(s);
    assert forall|i: int| 0 <= i < s.len() implies #[trigger] l[i] == s[i] by {
        assert(is_segment_output_char(s[i]));
    }
    assert(l =~= s);
}

/// Sanitizing is idempotent: a sanitized segment sanitizes to itself.
pub proof fn lemma_sanitize_segment_idempotent(raw: Seq<char>)
    ensures
        spec_sanitize_segment(raw) matches Ok(s) ==> spec_sanitize_segment(s) == Ok::<
            Seq<char>,
            crate::paths::PathError,
        >(s),
{
    lemma_sanitize_segment_shape(raw);
    if let Ok(s) = spec_sanitize_segment(raw) {
        lemma_sanitized_fixed_point(s);
    }
}

/// A sanitized segment can be joined below a directory as one component.
pub proof fn lemma_sanitized_is_plain_name(s: Seq<char>)
    requires
        is_sanitized_segment(s),
    ensures
        is_plain_name(s),
{
    assert(!s.contains('/')) by {
        if s.contains('/') {
            let i = choose|i: int| 0 <= i < s.len() && s[i] == '/';
            assert(is_segment_output_char(s[i]));
        }
    }
}

/// The worktree layout is `<hecate_root>/<repo-segment>/<worktree-name>`: the
/// directory's components are those of `hecate_root` followed by exactly the
/// two sanitized segments.
pub proof fn lemma_worktree_directory_layout(
    hecate_root: Seq<char>,
    repo_segment: Seq<char>,
    worktree_name: Seq<char>,
)
    ensures
        spec_worktree_directory(hecate_root, repo_segment, worktree_name) matches Ok(dir) ==> {
            &&& spec_sanitize_segment(repo_segment) matches Ok(r)
            &&& spec_sanitize_segment(worktree_name) matches Ok(w)
            &&& spec_components(dir) == spec_components(hecate_root) + seq![r, w]
        },
{
    lemma_sanitize_segment_shape(repo_segment);
    lemma_sanitize_segment_shape(worktree_name);
    if let Ok(r) = spec_sanitize_segment(repo_segment) {
        if let Ok(w) = spec_sanitize_segment(worktree_name) {
            lemma_sanitized_is_plain_name(r);
            lemma_sanitized_is_plain_name(w);
            lemma_join_components(hecate_root, r);
            lemma_join_components(spec_join(hecate_root, r), w);
            assert(spec_components(hecate_root).push(r).push(w) =~= spec_components(hecate_root)
                + seq![r, w]);
        }
    }
}

/// The default segment of a repository at `base/name` comes from `name`
/// itself, whatever its first character, when `name` is neither `.` nor
/// `..`: it is `name` sanitized.
pub proof fn lemma_default_segment_of_join(base: Seq<char>, name: Seq<char>)
    requires
        name.len() > 0,
        !name.contains('/'),
        name != seq!['.'],
        name != seq!['.', '.'],
    ensures
        spec_repo_default_segment(spec_join(base, name)) == spec_sanitize_segment(name),
{
    crate::fspath::lemma_last_normal_of_join(base, name);
}

} // verus!
