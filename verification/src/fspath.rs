//! A model of Unix file-system paths held as text.
//!
//! A path is split at each `/` into pieces. Its components are, in order:
//! a root component `/` when the path starts with `/`; a current-dir
//! component `.` when a relative path starts with the piece `.`; then every
//! piece that is neither empty nor `.` (a `..` piece is the parent-dir
//! component). Repeated separators, inner `.` pieces and a trailing slash are
//! thus normalized away, and nothing else is, as `std::path::Path::components`
//! documents. A component is held as its text: `/`, `.`, `..` or the name.
//! Two paths are equal, and one starts with another, by their components.

use vstd::prelude::*;

use crate::text::{chars_of, string_of};

verus! {

/// The pieces of `s` between its `/` separators, empty pieces included.
pub open spec fn split_pieces(s: Seq<char>) -> Seq<Seq<char>>
    decreases s.len(),
{
    if s.len() == 0 {
        seq![Seq::<char>::empty()]
    } else {
        let p = split_pieces(s.drop_last());
        if s.last() == '/' {
            p.push(Seq::<char>::empty())
        } else {
            p.update(p.len() - 1, p.last().push(s.last()))
        }
    }
}

pub open spec fn is_cur_dir(p: Seq<char>) -> bool {
    p.len() == 1 && p[0] == '.'
}

/// A piece that stands as a component after normalization.
pub open spec fn is_kept_piece(p: Seq<char>) -> bool {
    p.len() > 0 && !is_cur_dir(p)
}

pub open spec fn kept_pieces(ps: Seq<Seq<char>>) -> Seq<Seq<char>>
    decreases ps.len(),
{
    if ps.len() == 0 {
        Seq::<Seq<char>>::empty()
    } else {
        let r = kept_pieces(ps.drop_last());
        if is_kept_piece(ps.last()) {
            r.push(ps.last())
        } else {
            r
        }
    }
}

pub open spec fn is_absolute(p: Seq<char>) -> bool {
    p.len() > 0 && p[0] == '/'
}

/// The components of the path `p`, each as its text.
pub open spec fn spec_components(p: Seq<char>) -> Seq<Seq<char>> {
    let ps = split_pieces(p);
    if is_absolute(p) {
        seq![seq!['/']] + kept_pieces(ps)
    } else if is_cur_dir(ps[0]) {
        seq![seq!['.']] + kept_pieces(ps.drop_first())
    } else {
        kept_pieces(ps)
    }
}

/// A component that names a file or directory (not `/`, `.` or `..`).
pub open spec fn is_normal_component(c: Seq<char>) -> bool {
    &&& !(c.len() == 1 && (c[0] == '/' || c[0] == '.'))
    &&& !(c.len() == 2 && c[0] == '.' && c[1] == '.')
}

pub open spec fn last_normal(cs: Seq<Seq<char>>) -> Option<Seq<char>>
    decreases cs.len(),
{
    if cs.len() == 0 {
        None
    } else if is_normal_component(cs.last()) {
        Some(cs.last())
    } else {
        last_normal(cs.drop_last())
    }
}

/// The last component of `p` that names a file or directory, if any.
pub open spec fn spec_last_normal(p: Seq<char>) -> Option<Seq<char>> {
    last_normal(spec_components(p))
}

/// `base` joined with `seg` as `PathBuf::push` does on Unix: an absolute
/// `seg` replaces `base`; otherwise a `/` is put between them unless `base`
/// is empty or already ends with one.
pub open spec fn spec_join(base: Seq<char>, seg: Seq<char>) -> Seq<char> {
    if is_absolute(seg) {
        seg
    } else if base.len() == 0 || base.last() == '/' {
        base + seg
    } else {
        base + seq!['/'] + seg
    }
}

pub open spec fn is_prefix_of<A>(a: Seq<A>, b: Seq<A>) -> bool {
    a.len() <= b.len() && b.take(a.len() as int) == a
}

/// `a` is the tail of `b`.
pub open spec fn is_suffix_of<A>(a: Seq<A>, b: Seq<A>) -> bool {
    a.len() <= b.len() && b.skip(b.len() - a.len()) == a
}

/// Components without a leading current-dir component `.`.
pub open spec fn without_cur_dir(cs: Seq<Seq<char>>) -> Seq<Seq<char>> {
    if cs.len() > 0 && cs[0] == seq!['.'] {
        cs.drop_first()
    } else {
        cs
    }
}

/// Dropping a leading `.` leaves a tail of the components.
pub proof fn lemma_without_cur_dir_suffix(cs: Seq<Seq<char>>)
    ensures
        is_suffix_of(without_cur_dir(cs), cs),
{
    if cs.len() > 0 && cs[0] == seq!['.'] {
        assert(cs.skip(1) =~= cs.drop_first());
    } else {
        assert(cs.skip(0) =~= cs);
    }
}

/// `path` is `base` or lies below it, compared component by component.
pub open spec fn spec_path_starts_with(path: Seq<char>, base: Seq<char>) -> bool {
    is_prefix_of(spec_components(base), spec_components(path))
}

/// A name that can be joined below a directory: not empty, not `.`, no `/`.
pub open spec fn is_plain_name(seg: Seq<char>) -> bool {
    &&& seg.len() > 0
    &&& !is_cur_dir(seg)
    &&& !seg.contains('/')
}

pub open spec fn views(vs: Seq<Vec<char>>) -> Seq<Seq<char>> {
    vs.map_values(|v: Vec<char>| v@)
}

pub proof fn lemma_split_pieces_nonempty(s: Seq<char>)
    ensures
        split_pieces(s).len() >= 1,
    decreases s.len(),
{
    if s.len() > 0 {
        lemma_split_pieces_nonempty(s.drop_last());
    }
}

proof fn lemma_split_append(s: Seq<char>, t: Seq<char>)
    requires
        !t.contains('/'),
    ensures
        split_pieces(s + t) == split_pieces(s).update(
            split_pieces(s).len() - 1,
            split_pieces(s).last() + t,
        ),
    decreases t.len(),
{
    lemma_split_pieces_nonempty(s);
    if t.len() == 0 {
        assert(s + t =~= s);
        assert(split_pieces(s).last() + t =~= split_pieces(s).last());
        assert(split_pieces(s).update(split_pieces(s).len() - 1, split_pieces(s).last())
            =~= split_pieces(s));
    } else {
        let t2 = t.drop_last();
        assert(!t2.contains('/')) by {
            if t2.contains('/') {
                let i = choose|i: int| 0 <= i < t2.len() && t2[i] == '/';
                assert(t[i] == '/');
            }
        }
        lemma_split_append(s, t2);
        assert((s + t).drop_last() =~= s + t2);
        assert((s + t).last() == t.last());
        assert(t.last() != '/') by {
            assert(t[t.len() - 1] == t.last());
        }
        let p = split_pieces(s);
        assert((p.last() + t2).push(t.last()) =~= p.last() + t);
        assert(split_pieces(s + t) =~= p.update(p.len() - 1, p.last() + t));
    }
}

proof fn lemma_kept_update_empty_last(ps: Seq<Seq<char>>, x: Seq<char>)
    requires
        ps.len() >= 1,
        ps.last().len() == 0,
        is_kept_piece(x),
    ensures
        kept_pieces(ps.update(ps.len() - 1, x)) == kept_pieces(ps).push(x),
{
    let u = ps.update(ps.len() - 1, x);
    assert(u.drop_last() =~= ps.drop_last());
}

/// Joining a plain name below a path adds exactly that name as its last component.
pub proof fn lemma_join_components(base: Seq<char>, seg: Seq<char>)
    requires
        is_plain_name(seg),
    ensures
        spec_components(spec_join(base, seg)) == spec_components(base).push(seg),
{
    assert(!is_absolute(seg)) by {
        if is_absolute(seg) {
            assert(seg.contains('/'));
        }
    }
    lemma_split_pieces_nonempty(base);
    let p = split_pieces(base);
    if base.len() == 0 {
        lemma_split_append(base, seg);
        assert(base + seg =~= seg);
        assert(split_pieces(seg) =~= seq![seg]);
        assert(seq![seg].drop_last() =~= Seq::<Seq<char>>::empty());
        assert(kept_pieces(Seq::<Seq<char>>::empty()) == Seq::<Seq<char>>::empty());
        assert(kept_pieces(seq![seg]) =~= seq![seg]);
        assert(p == seq![Seq::<char>::empty()]);
        assert(p.drop_last() =~= Seq::<Seq<char>>::empty());
        assert(kept_pieces(p) =~= Seq::<Seq<char>>::empty());
    } else if base.last() == '/' {
        lemma_split_append(base, seg);
        assert(p =~= split_pieces(base.drop_last()).push(Seq::<char>::empty()));
        lemma_split_pieces_nonempty(base.drop_last());
        let q = p.update(p.len() - 1, seg);
        assert(p.last() + seg =~= seg);
        lemma_kept_update_empty_last(p, seg);
        assert(spec_join(base, seg) == base + seg);
        assert(is_absolute(base + seg) == is_absolute(base)) by {
            assert((base + seg)[0] == base[0]);
        }
        assert(q[0] == p[0]);
        if !is_absolute(base) && is_cur_dir(p[0]) {
            lemma_kept_update_empty_last(p.drop_first(), seg);
            assert(q.drop_first() =~= p.drop_first().update(p.len() - 2, seg));
        }
    } else {
        let b2 = base.push('/');
        assert(split_pieces(b2) == p.push(Seq::<char>::empty())) by {
            assert(b2.drop_last() =~= base);
        }
        lemma_split_append(b2, seg);
        let q = p.push(seg);
        assert(split_pieces(b2 + seg) =~= q);
        assert(spec_join(base, seg) =~= b2 + seg);
        assert(is_absolute(b2 + seg) == is_absolute(base)) by {
            assert((b2 + seg)[0] == base[0]);
        }
        assert(q[0] == p[0]);
        assert(kept_pieces(q) == kept_pieces(p).push(seg)) by {
            assert(q.drop_last() =~= p);
        }
        if !is_absolute(base) && is_cur_dir(p[0]) {
            assert(q.drop_first() =~= p.drop_first().push(seg));
            assert(q.drop_first().drop_last() =~= p.drop_first());
        }
    }
}

/// A component is normal exactly when it is not `/`, `.` or `..`: any
/// other name joined below a path is that path's last normal component.
pub proof fn lemma_last_normal_of_join(base: Seq<char>, name: Seq<char>)
    requires
        name.len() > 0,
        !name.contains('/'),
        name != seq!['.'],
        name != seq!['.', '.'],
    ensures
        spec_last_normal(spec_join(base, name)) == Some(name),
{
    assert(!is_cur_dir(name)) by {
        if is_cur_dir(name) {
            assert(name =~= seq!['.']);
        }
    }
    lemma_join_components(base, name);
    let cs = spec_components(base).push(name);
    assert(cs.last() == name);
    assert(is_normal_component(name)) by {
        if name.len() == 1 && name[0] == '/' {
            assert(name.contains('/'));
        }
        if name.len() == 2 && name[0] == '.' && name[1] == '.' {
            assert(name =~= seq!['.', '.']);
        }
    }
}

/// Joining `.` or `..` below a path adds no normal component: the last
/// normal component is that of the path before the join.
pub proof fn lemma_last_normal_skips_dots(base: Seq<char>, dots: Seq<char>)
    requires
        dots == seq!['.', '.'],
    ensures
        spec_last_normal(spec_join(base, dots)) == spec_last_normal(base),
{
    assert(is_plain_name(dots)) by {
        assert(!dots.contains('/')) by {
            if dots.contains('/') {
                let i = choose|i: int| 0 <= i < dots.len() && dots[i] == '/';
                assert(dots[i] == '.');
            }
        }
    }
    lemma_join_components(base, dots);
    let cs = spec_components(base).push(dots);
    assert(cs.drop_last() =~= spec_components(base));
}

fn split_path(s: &Vec<char>) -> (r: Vec<Vec<char>>)
    ensures
        views(r@) == split_pieces(s@),
{
    let mut done: Vec<Vec<char>> = Vec::new();
    let mut cur: Vec<char> = Vec::new();
    let mut i: usize = 0;
    assert(s@.take(0) =~= Seq::<char>::empty());
    assert(views(done@).push(cur@) =~= split_pieces(s@.take(0)));
    while i < s.len()
        invariant
            i <= s.len(),
            views(done@).push(cur@) == split_pieces(s@.take(i as int)),
        decreases s.len() - i,
    {
        let ghost t = s@.take(i as int + 1);
        assert(t.drop_last() =~= s@.take(i as int));
        assert(t.last() == s@[i as int]);
        let c = s[i];
        if c == '/' {
            let finished = cur;
            done.push(finished);
            cur = Vec::new();
            assert(views(done@).push(cur@) =~= views(done@.drop_last()).push(finished@).push(
                Seq::<char>::empty(),
            ));
        } else {
            let ghost before = views(done@).push(cur@);
            cur.push(c);
            assert(views(done@).push(cur@) =~= before.update(
                before.len() - 1,
                before.last().push(c),
            ));
        }
        i = i + 1;
    }
    assert(s@.take(s.len() as int) =~= s@);
    done.push(cur);
    assert(views(done@) =~= views(done@.drop_last()).push(done@.last()@));
    done
}

/// Whether `a` and `b` hold the same characters.
pub fn chars_eq(a: &Vec<char>, b: &Vec<char>) -> (r: bool)
    ensures
        r == (a@ == b@),
{
    if a.len() != b.len() {
        return false;
    }
    let mut i: usize = 0;
    while i < a.len()
        invariant
            a.len() == b.len(),
            i <= a.len(),
            forall|j: int| 0 <= j < i ==> a@[j] == b@[j],
        decreases a.len() - i,
    {
        if a[i] != b[i] {
            return false;
        }
        i = i + 1;
    }
    assert(a@ =~= b@);
    true
}

fn clone_chars(v: &Vec<char>) -> (r: Vec<char>)
    ensures
        r@ == v@,
{
    let mut r: Vec<char> = Vec::new();
    let mut i: usize = 0;
    while i < v.len()
        invariant
            i <= v.len(),
            r@ == v@.take(i as int),
        decreases v.len() - i,
    {
        r.push(v[i]);
        i = i + 1;
        assert(r@ =~= v@.take(i as int));
    }
    assert(v@.take(v.len() as int) =~= v@);
    r
}

/// The pieces `ps[start..]` that stand as components.
fn keep_pieces(ps: &Vec<Vec<char>>, start: usize, out: &mut Vec<Vec<char>>)
    requires
        start <= ps.len(),
    ensures
        views(final(out)@) == views(old(out)@) + kept_pieces(
            views(ps@).subrange(start as int, ps.len() as int),
        ),
{
    let ghost base = views(out@);
    let mut i: usize = start;
    assert(views(ps@).subrange(start as int, start as int) =~= Seq::<Seq<char>>::empty());
    assert(views(out@) =~= base + kept_pieces(Seq::<Seq<char>>::empty()));
    while i < ps.len()
        invariant
            start <= i <= ps.len(),
            views(out@) == base + kept_pieces(views(ps@).subrange(start as int, i as int)),
        decreases ps.len() - i,
    {
        let ghost sub = views(ps@).subrange(start as int, i as int + 1);
        assert(sub.drop_last() =~= views(ps@).subrange(start as int, i as int));
        assert(sub.last() == ps@[i as int]@);
        let p = &ps[i];
        if p.len() > 0 && !(p.len() == 1 && p[0] == '.') {
            let ghost before = views(out@);
            out.push(clone_chars(p));
            assert(views(out@) =~= before.push(p@));
        }
        i = i + 1;
    }
}

/// The components of the path `p`, each as its text.
pub fn path_components(p: &str) -> (r: Vec<Vec<char>>)
    ensures
        views(r@) == spec_components(p@),
{
    let s = chars_of(p);
    let ps = split_path(&s);
    proof {
        lemma_split_pieces_nonempty(s@);
    }
    let mut out: Vec<Vec<char>> = Vec::new();
    if s.len() > 0 && s[0] == '/' {
        let root: Vec<char> = vec!['/'];
        assert(root@ =~= seq!['/']);
        out.push(root);
        assert(views(out@) =~= seq![seq!['/']]);
        keep_pieces(&ps, 0, &mut out);
        assert(views(ps@).subrange(0, ps.len() as int) =~= views(ps@));
    } else if ps[0].len() == 1 && ps[0][0] == '.' {
        let cur: Vec<char> = vec!['.'];
        assert(cur@ =~= seq!['.']);
        out.push(cur);
        assert(views(out@) =~= seq![seq!['.']]);
        keep_pieces(&ps, 1, &mut out);
        assert(views(ps@).subrange(1, ps.len() as int) =~= views(ps@).drop_first());
    } else {
        keep_pieces(&ps, 0, &mut out);
        assert(views(ps@).subrange(0, ps.len() as int) =~= views(ps@));
        assert(views(out@) =~= kept_pieces(views(ps@)));
    }
    out
}

/// Whether `p` is absolute (starts with `/`).
pub fn path_is_absolute(p: &str) -> (b: bool)
    ensures
        b == is_absolute(p@),
{
    let s = chars_of(p);
    s.len() > 0 && s[0] == '/'
}

/// `base` joined with `seg` (see `spec_join`).
pub fn path_join(base: &str, seg: &str) -> (r: String)
    ensures
        r@ == spec_join(base@, seg@),
{
    let b = chars_of(base);
    let s = chars_of(seg);
    let mut out: Vec<char>;
    if s.len() > 0 && s[0] == '/' {
        out = s;
    } else {
        out = clone_chars(&b);
        if !(b.len() == 0 || b[b.len() - 1] == '/') {
            out.push('/');
        }
        let mut i: usize = 0;
        let ghost head = out@;
        while i < s.len()
            invariant
                i <= s.len(),
                out@ == head + s@.take(i as int),
            decreases s.len() - i,
        {
            out.push(s[i]);
            i = i + 1;
            assert(out@ =~= head + s@.take(i as int));
        }
        assert(s@.take(s.len() as int) =~= s@);
    }
    string_of(&out)
}

/// The last component of `p` that names a file or directory, if any.
pub fn last_normal_component(p: &str) -> (r: Option<String>)
    ensures
        match r {
            Some(n) => spec_last_normal(p@) == Some(n@),
            None => spec_last_normal(p@) is None,
        },
{
    let cs = path_components(p);
    let mut i: usize = cs.len();
    assert(views(cs@).take(cs.len() as int) =~= views(cs@));
    while i > 0
        invariant
            i <= cs.len(),
            views(cs@) == spec_components(p@),
            last_normal(views(cs@)) == last_normal(views(cs@).take(i as int)),
        decreases i,
    {
        let ghost t = views(cs@).take(i as int);
        assert(t.drop_last() =~= views(cs@).take(i as int - 1));
        assert(t.last() == cs@[i as int - 1]@);
        let c = &cs[i - 1];
        if !(c.len() == 1 && (c[0] == '/' || c[0] == '.')) && !(c.len() == 2 && c[0] == '.'
            && c[1] == '.') {
            return Some(string_of(c));
        }
        i = i - 1;
    }
    None
}

/// Whether `path` is `base` or lies below it, compared by components.
pub fn path_starts_with(path: &str, base: &str) -> (b: bool)
    ensures
        b == spec_path_starts_with(path@, base@),
{
    let pc = path_components(path);
    let bc = path_components(base);
    if bc.len() > pc.len() {
        return false;
    }
    let mut i: usize = 0;
    while i < bc.len()
        invariant
            bc.len() <= pc.len(),
            views(pc@) == spec_components(path@),
            views(bc@) == spec_components(base@),
            i <= bc.len(),
            forall|j: int| 0 <= j < i ==> views(bc@)[j] == views(pc@)[j],
        decreases bc.len() - i,
    {
        if !chars_eq(&bc[i], &pc[i]) {
            assert(views(pc@).take(bc.len() as int)[i as int] != views(bc@)[i as int]);
            assert(views(pc@).take(bc.len() as int) != views(bc@));
            return false;
        }
        i = i + 1;
    }
    assert(views(pc@).take(bc.len() as int) =~= views(bc@));
    true
}

} // verus!
