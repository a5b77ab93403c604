//! Unix path text operations: absoluteness, joining, parent and prefix tests.

use vstd::prelude::*;

use crate::lex::{lemma_lex_asymmetric, lemma_lex_irreflexive, lemma_lex_total, lemma_lex_transitive, lex_lt,
    text_lt};
use crate::text::{same_text, views};

verus! {

/// A path is absolute when it starts at the root.
pub open spec fn is_absolute_spec(p: Seq<char>) -> bool {
    p.len() > 0 && p[0] == '/'
}

/// `base.join(p)`: an absolute `p` replaces `base`; otherwise `p` follows
/// `base` with one separator between them when `base` lacks a trailing one.
pub open spec fn join_spec(base: Seq<char>, p: Seq<char>) -> Seq<char> {
    if is_absolute_spec(p) {
        p
    } else if base.len() == 0 {
        p
    } else if base.last() == '/' {
        base + p
    } else {
        base + seq!['/'] + p
    }
}

pub fn is_absolute(p: &str) -> (r: bool)
    ensures
        r == is_absolute_spec(p@),
{
    p.unicode_len() > 0 && p.get_char(0) == '/'
}

/// `Path::new(base).join(p)` as text.
pub fn join(base: &str, p: &str) -> (r: String)
    ensures
        r@ == join_spec(base@, p@),
{
    proof {
        reveal_strlit("/");
    }
    if is_absolute(p) {
        p.to_owned()
    } else {
        let n = base.unicode_len();
        if n == 0 {
            p.to_owned()
        } else if base.get_char(n - 1) == '/' {
            let mut out = base.to_owned();
            out.append(p);
            out
        } else {
            let mut out = base.to_owned();
            out.append("/");
            out.append(p);
            out
        }
    }
}

/// Removes trailing separators and trailing `.` components, keeping a
/// leading root or a lone `.`.
pub open spec fn trim_end_spec(s: Seq<char>) -> Seq<char>
    decreases s.len(),
{
    if s.len() > 1 && s.last() == '/' {
        trim_end_spec(s.drop_last())
    } else if s.len() > 1 && s.last() == '.' && s[s.len() - 2] == '/' {
        trim_end_spec(s.drop_last())
    } else {
        s
    }
}

/// The index of the last separator in `s`, or -1.
pub open spec fn last_sep(s: Seq<char>) -> int
    decreases s.len(),
{
    if s.len() == 0 {
        -1
    } else if s.last() == '/' {
        s.len() - 1
    } else {
        last_sep(s.drop_last())
    }
}

/// `Path::parent`: the path without its final component; none for the empty
/// path and the root.
pub open spec fn parent_spec(p: Seq<char>) -> Option<Seq<char>> {
    let t = trim_end_spec(p);
    if t.len() == 0 || t == seq!['/'] {
        None
    } else if last_sep(t) < 0 {
        Some(Seq::empty())
    } else if last_sep(t) == 0 {
        Some(seq!['/'])
    } else {
        Some(trim_end_spec(t.subrange(0, last_sep(t))))
    }
}

proof fn lemma_last_sep_bounds(s: Seq<char>)
    ensures
        -1 <= last_sep(s) < s.len(),
        last_sep(s) >= 0 ==> s[last_sep(s)] == '/',
        forall|i: int| last_sep(s) < i < s.len() ==> s[i] != '/',
    decreases s.len(),
{
    if s.len() > 0 && s.last() != '/' {
        lemma_last_sep_bounds(s.drop_last());
        assert forall|i: int| last_sep(s) < i < s.len() implies s[i] != '/' by {
            if i < s.len() - 1 {
                assert(s.drop_last()[i] == s[i]);
            }
        }
    }
}

proof fn lemma_trim_end_len(s: Seq<char>)
    ensures
        trim_end_spec(s).len() <= s.len(),
    decreases s.len(),
{
    if s.len() > 1 && (s.last() == '/' || (s.last() == '.' && s[s.len() - 2] == '/')) {
        lemma_trim_end_len(s.drop_last());
    }
}

/// A parent is shorter than its path.
pub proof fn lemma_parent_shorter(p: Seq<char>)
    ensures
        parent_spec(p) matches Some(q) ==> q.len() < p.len(),
{
    let t = trim_end_spec(p);
    lemma_trim_end_len(p);
    lemma_last_sep_bounds(t);
    if t.len() > 0 && t != seq!['/'] && last_sep(t) > 0 {
        lemma_trim_end_len(t.subrange(0, last_sep(t)));
    }
    if t.len() > 0 && t != seq!['/'] && last_sep(t) == 0 && t.len() == 1 {
        assert(t =~= seq!['/']);
    }
}

/// The length of `trim_end_spec(s.take(n))`.
fn trimmed_len(s: &str, n: usize) -> (r: usize)
    requires
        n <= s@.len(),
    ensures
        r <= n,
        s@.take(r as int) == trim_end_spec(s@.take(n as int)),
    decreases n,
{
    if n > 1 {
        let c = s.get_char(n - 1);
        if c == '/' {
            proof {
                assert(s@.take(n as int).drop_last() =~= s@.take(n - 1));
            }
            return trimmed_len(s, n - 1);
        }
        if c == '.' && s.get_char(n - 2) == '/' {
            proof {
                assert(s@.take(n as int).drop_last() =~= s@.take(n - 1));
            }
            return trimmed_len(s, n - 1);
        }
    }
    n
}

/// The index of the last separator among the first `n` characters.
fn last_sep_in(s: &str, n: usize) -> (r: Option<usize>)
    requires
        n <= s@.len(),
    ensures
        match r {
            Some(i) => last_sep(s@.take(n as int)) == i,
            None => last_sep(s@.take(n as int)) == -1,
        },
    decreases n,
{
    if n == 0 {
        None
    } else if s.get_char(n - 1) == '/' {
        Some(n - 1)
    } else {
        proof {
            assert(s@.take(n as int).drop_last() =~= s@.take(n - 1));
        }
        last_sep_in(s, n - 1)
    }
}

/// `Path::new(p).parent()` as text.
pub fn parent(p: &str) -> (r: Option<String>)
    ensures
        match r {
            Some(q) => parent_spec(p@) == Some(q@),
            None => parent_spec(p@) is None,
        },
{
    proof {
        reveal_strlit("/");
    }
    let n = p.unicode_len();
    proof {
        assert(p@.take(n as int) =~= p@);
    }
    let t = trimmed_len(p, n);
    let ghost ts = p@.take(t as int);
    if t == 0 {
        return None;
    }
    if t == 1 && p.get_char(0) == '/' {
        assert(ts =~= seq!['/']);
        return None;
    }
    proof {
        if ts == seq!['/'] {
            assert(ts[0] == p@[0]);
        }
    }
    proof {
        lemma_last_sep_bounds(ts);
    }
    match last_sep_in(p, t) {
        None => Some(String::new()),
        Some(0) => Some("/".to_owned()),
        Some(i) => {
            let k = trimmed_len(p, i);
            proof {
                assert(ts.subrange(0, i as int) =~= p@.take(i as int));
            }
            Some(p.substring_char(0, k).to_owned())
        },
    }
}

/// The pieces of `s` between separators, empty ones included.
pub open spec fn segments(s: Seq<char>) -> Seq<Seq<char>>
    decreases s.len(),
{
    if s.len() == 0 {
        seq![Seq::empty()]
    } else {
        let r = segments(s.drop_last());
        if s.last() == '/' {
            r.push(Seq::empty())
        } else {
            r.update(r.len() - 1, r.last().push(s.last()))
        }
    }
}

pub proof fn lemma_segments_nonempty(s: Seq<char>)
    ensures
        segments(s).len() >= 1,
    decreases s.len(),
{
    if s.len() > 0 {
        lemma_segments_nonempty(s.drop_last());
    }
}

/// Whether segment `i` names a component: it is not empty, and it is not
/// `.` unless it begins a relative path.
pub open spec fn kept_segment(segs: Seq<Seq<char>>, i: int, rooted: bool) -> bool {
    segs[i].len() > 0 && (segs[i] != seq!['.'] || (i == 0 && !rooted))
}

/// The segments that name components, in order.
pub open spec fn kept_segments(segs: Seq<Seq<char>>, rooted: bool) -> Seq<Seq<char>>
    decreases segs.len(),
{
    if segs.len() == 0 {
        Seq::empty()
    } else {
        kept_segments(segs.drop_last(), rooted) + if kept_segment(segs, segs.len() - 1, rooted) {
            seq![segs.last()]
        } else {
            Seq::empty()
        }
    }
}

/// The components of a Unix path, as `Path::components` yields them: the
/// root as `/`, a leading `.` of a relative path, then the names between
/// separators, without empty names and other `.` names.
pub open spec fn components(p: Seq<char>) -> Seq<Seq<char>> {
    let rooted = p.len() > 0 && p[0] == '/';
    (if rooted {
        seq![seq!['/']]
    } else {
        Seq::empty()
    }) + kept_segments(segments(p), rooted)
}

/// `Path::new(a) == Path::new(b)`: the same components.
pub open spec fn same_path_spec(a: Seq<char>, b: Seq<char>) -> bool {
    components(a) == components(b)
}

/// One of the paths of `s` is the same path as `p`, as `PathBuf`
/// equality (and a `BTreeSet<PathBuf>`) sees it.
pub open spec fn holds_same_path(s: Seq<Seq<char>>, p: Seq<char>) -> bool {
    exists|i: int| 0 <= i < s.len() && same_path_spec(#[trigger] s[i], p)
}

/// `Path::new(p).starts_with(base)`: the components of `base` begin those
/// of `p`.
pub open spec fn path_starts_with_spec(p: Seq<char>, base: Seq<char>) -> bool {
    let cp = components(p);
    let cb = components(base);
    cb.len() <= cp.len() && cp.subrange(0, cb.len() as int) == cb
}

/// The components of `p`.
pub fn path_components(p: &str) -> (r: Vec<String>)
    ensures
        views(r@) == components(p@),
{
    let n = p.unicode_len();
    let rooted = n > 0 && p.get_char(0) == '/';
    let mut out: Vec<String> = Vec::new();
    if rooted {
        out.push("/".to_owned());
    }
    let ghost prefix: Seq<Seq<char>> = if rooted {
        seq![seq!['/']]
    } else {
        Seq::empty()
    };
    proof {
        reveal_strlit("/");
        reveal_strlit(".");
        assert("/"@ =~= seq!['/']);
        assert("."@ =~= seq!['.']);
        assert(views(out@) =~= prefix);
        assert(p@.take(0) =~= Seq::<char>::empty());
        assert(segments(p@.take(0)) =~= seq![Seq::<char>::empty()]);
        assert(kept_segments(seq![Seq::<char>::empty()].drop_last(), rooted) =~= Seq::empty());
        assert(p@.subrange(0, 0) =~= Seq::<char>::empty());
    }
    let mut start: usize = 0;
    let mut index: usize = 0;
    let mut i: usize = 0;
    while i < n
        invariant
            n == p@.len(),
            i <= n,
            start <= i,
            rooted == (p@.len() > 0 && p@[0] == '/'),
            prefix == (if rooted {
                seq![seq!['/']]
            } else {
                Seq::<Seq<char>>::empty()
            }),
            segments(p@.take(i as int)).len() == index + 1,
            index <= i,
            p@.subrange(start as int, i as int) == segments(p@.take(i as int)).last(),
            views(out@) == prefix + kept_segments(segments(p@.take(i as int)).drop_last(), rooted),
        decreases n - i,
    {
        let c = p.get_char(i);
        let ghost old_segs = segments(p@.take(i as int));
        proof {
            assert(p@.take(i + 1).drop_last() =~= p@.take(i as int));
            assert(p@.take(i + 1).last() == c);
        }
        if c == '/' {
            let cur = p.substring_char(start, i);
            let keep = cur.unicode_len() > 0 && (!same_text(cur, ".") || (index == 0 && !rooted));
            proof {
                reveal_strlit(".");
                assert("."@ =~= seq!['.']);
                let new_segs = segments(p@.take(i + 1));
                assert(new_segs == old_segs.push(Seq::empty()));
                assert(new_segs.drop_last() =~= old_segs);
                assert(old_segs =~= old_segs.drop_last().push(old_segs.last()));
                assert(keep == kept_segment(old_segs, old_segs.len() - 1, rooted));
                assert(new_segs.last() =~= p@.subrange(i + 1, i + 1));
            }
            let ghost before = views(out@);
            if keep {
                out.push(cur.to_owned());
                proof {
                    assert(views(out@) =~= before.push(old_segs.last()));
                }
            }
            proof {
                assert(views(out@) =~= prefix + kept_segments(old_segs, rooted));
            }
            start = i + 1;
            index = index + 1;
        } else {
            proof {
                let new_segs = segments(p@.take(i + 1));
                assert(new_segs == old_segs.update(old_segs.len() - 1, old_segs.last().push(c)));
                assert(new_segs.drop_last() =~= old_segs.drop_last());
                assert(p@.subrange(start as int, i + 1) =~= p@.subrange(start as int, i as int).push(c));
            }
        }
        i = i + 1;
    }
    proof {
        assert(p@.take(n as int) =~= p@);
        reveal_strlit(".");
        assert("."@ =~= seq!['.']);
    }
    let ghost segs = segments(p@);
    let cur = p.substring_char(start, n);
    let keep = cur.unicode_len() > 0 && (!same_text(cur, ".") || (index == 0 && !rooted));
    proof {
        assert(segs =~= segs.drop_last().push(segs.last()));
        assert(keep == kept_segment(segs, segs.len() - 1, rooted));
    }
    let ghost before = views(out@);
    if keep {
        out.push(cur.to_owned());
        proof {
            assert(views(out@) =~= before.push(segs.last()));
        }
    }
    proof {
        assert(views(out@) =~= prefix + kept_segments(segs, rooted));
    }
    out
}

fn same_texts(a: &Vec<String>, b: &Vec<String>, m: usize) -> (r: bool)
    requires
        m <= a@.len(),
        m <= b@.len(),
    ensures
        r == (views(a@).take(m as int) == views(b@).take(m as int)),
{
    let mut i: usize = 0;
    while i < m
        invariant
            m <= a@.len(),
            m <= b@.len(),
            i <= m,
            forall|k: int| 0 <= k < i ==> a@[k]@ == b@[k]@,
        decreases m - i,
    {
        if !same_text(a[i].as_str(), b[i].as_str()) {
            assert(views(a@).take(m as int)[i as int] != views(b@).take(m as int)[i as int]);
            return false;
        }
        i = i + 1;
    }
    assert(views(a@).take(m as int) =~= views(b@).take(m as int));
    true
}

/// Whether two paths have the same components.
pub fn same_path(a: &str, b: &str) -> (r: bool)
    ensures
        r == same_path_spec(a@, b@),
{
    let ca = path_components(a);
    let cb = path_components(b);
    if ca.len() != cb.len() {
        return false;
    }
    let eq = same_texts(&ca, &cb, ca.len());
    proof {
        assert(views(ca@).take(ca@.len() as int) =~= views(ca@));
        assert(views(cb@).take(cb@.len() as int) =~= views(cb@));
    }
    eq
}

/// Whether one of `items` is the same path as `p`.
pub fn contains_same_path(items: &Vec<String>, p: &str) -> (r: bool)
    ensures
        r == holds_same_path(views(items@), p@),
{
    let n = items.len();
    let mut i: usize = 0;
    while i < n
        invariant
            n == items@.len(),
            i <= n,
            forall|k: int| 0 <= k < i ==> !same_path_spec(#[trigger] views(items@)[k], p@),
        decreases n - i,
    {
        if same_path(items[i].as_str(), p) {
            proof {
                assert(same_path_spec(views(items@)[i as int], p@));
            }
            return true;
        }
        i = i + 1;
    }
    false
}

/// Whether path `p` begins with the components of `base`.
pub fn path_starts_with(p: &str, base: &str) -> (r: bool)
    ensures
        r == path_starts_with_spec(p@, base@),
{
    let cp = path_components(p);
    let cb = path_components(base);
    if cb.len() > cp.len() {
        return false;
    }
    let eq = same_texts(&cp, &cb, cb.len());
    proof {
        assert(views(cb@).take(cb@.len() as int) =~= views(cb@));
        assert(views(cp@).take(cb@.len() as int) =~= components(p@).subrange(0, cb@.len() as int));
    }
    eq
}


/// The place of a component kind in the order of `Component`: the root,
/// then `.`, then `..`, then names.
pub open spec fn comp_rank(c: Seq<char>) -> int {
    if c == seq!['/'] {
        1
    } else if c == seq!['.'] {
        2
    } else if c == seq!['.', '.'] {
        3
    } else {
        4
    }
}

/// The order of two components: by kind, then names by their text.
pub open spec fn comp_lt(x: Seq<char>, y: Seq<char>) -> bool {
    comp_rank(x) < comp_rank(y) || (comp_rank(x) == 4 && comp_rank(y) == 4 && lex_lt(x, y))
}

/// The order of paths, `Ord for Path`: their components compared in turn.
pub open spec fn path_order_lt(a: Seq<Seq<char>>, b: Seq<Seq<char>>) -> bool
    decreases a.len(),
{
    if a.len() == 0 {
        b.len() > 0
    } else if b.len() == 0 {
        false
    } else if a[0] != b[0] {
        comp_lt(a[0], b[0])
    } else {
        path_order_lt(a.drop_first(), b.drop_first())
    }
}

proof fn lemma_comp_total(x: Seq<char>, y: Seq<char>)
    ensures
        !comp_lt(x, x),
        x == y || comp_lt(x, y) || comp_lt(y, x),
        !(comp_lt(x, y) && comp_lt(y, x)),
{
    lemma_lex_irreflexive(x);
    lemma_lex_total(x, y);
    lemma_lex_asymmetric(x, y);
}

proof fn lemma_comp_transitive(x: Seq<char>, y: Seq<char>, z: Seq<char>)
    requires
        comp_lt(x, y),
        comp_lt(y, z),
    ensures
        comp_lt(x, z),
{
    if comp_rank(x) == 4 && comp_rank(y) == 4 && comp_rank(z) == 4 {
        lemma_lex_transitive(x, y, z);
    }
}

pub proof fn lemma_path_order_irreflexive(a: Seq<Seq<char>>)
    ensures
        !path_order_lt(a, a),
    decreases a.len(),
{
    if a.len() > 0 {
        lemma_path_order_irreflexive(a.drop_first());
    }
}

pub proof fn lemma_path_order_total(a: Seq<Seq<char>>, b: Seq<Seq<char>>)
    ensures
        a == b || path_order_lt(a, b) || path_order_lt(b, a),
        !(path_order_lt(a, b) && path_order_lt(b, a)),
    decreases a.len(),
{
    if a.len() > 0 && b.len() > 0 {
        lemma_comp_total(a[0], b[0]);
        if a[0] == b[0] {
            lemma_path_order_total(a.drop_first(), b.drop_first());
            if a.drop_first() == b.drop_first() {
                assert(a =~= seq![a[0]] + a.drop_first());
                assert(b =~= seq![b[0]] + b.drop_first());
            }
        }
    } else if a.len() == 0 && b.len() == 0 {
        assert(a =~= b);
    }
}

pub proof fn lemma_path_order_transitive(a: Seq<Seq<char>>, b: Seq<Seq<char>>, c: Seq<Seq<char>>)
    requires
        path_order_lt(a, b),
        path_order_lt(b, c),
    ensures
        path_order_lt(a, c),
    decreases a.len(),
{
    if a.len() > 0 && b.len() > 0 && c.len() > 0 {
        if a[0] == b[0] && b[0] == c[0] {
            lemma_path_order_transitive(a.drop_first(), b.drop_first(), c.drop_first());
        } else if a[0] != b[0] && b[0] != c[0] {
            lemma_comp_transitive(a[0], b[0], c[0]);
            lemma_comp_total(a[0], c[0]);
        }
    }
}

fn component_rank(c: &str) -> (r: u8)
    ensures
        r == comp_rank(c@),
{
    proof {
        reveal_strlit("/");
        reveal_strlit(".");
        reveal_strlit("..");
        assert("/"@ =~= seq!['/']);
        assert("."@ =~= seq!['.']);
        assert(".."@ =~= seq!['.', '.']);
    }
    if same_text(c, "/") {
        1
    } else if same_text(c, ".") {
        2
    } else if same_text(c, "..") {
        3
    } else {
        4
    }
}

/// Whether component list `a` sorts before `b`.
pub fn components_lt(a: &Vec<String>, b: &Vec<String>) -> (r: bool)
    ensures
        r == path_order_lt(views(a@), views(b@)),
{
    let n = a.len();
    let m = b.len();
    let ghost va = views(a@);
    let ghost vb = views(b@);
    let mut i: usize = 0;
    proof {
        assert(va.skip(0) =~= va);
        assert(vb.skip(0) =~= vb);
    }
    while i < n && i < m
        invariant
            n == a@.len(),
            m == b@.len(),
            va == views(a@),
            vb == views(b@),
            i <= n,
            i <= m,
            path_order_lt(va, vb) == path_order_lt(va.skip(i as int), vb.skip(i as int)),
        decreases n - i,
    {
        proof {
            assert(va.skip(i as int)[0] == a@[i as int]@);
            assert(vb.skip(i as int)[0] == b@[i as int]@);
        }
        if !same_text(a[i].as_str(), b[i].as_str()) {
            let ra = component_rank(a[i].as_str());
            let rb = component_rank(b[i].as_str());
            return ra < rb || (ra == 4 && rb == 4 && text_lt(a[i].as_str(), b[i].as_str()));
        }
        proof {
            assert(va.skip(i as int).drop_first() =~= va.skip(i + 1));
            assert(vb.skip(i as int).drop_first() =~= vb.skip(i + 1));
        }
        i = i + 1;
    }
    i < m
}

/// Whether two component lists are equal.
pub fn same_components(a: &Vec<String>, b: &Vec<String>) -> (r: bool)
    ensures
        r == (views(a@) == views(b@)),
{
    if a.len() != b.len() {
        return false;
    }
    let eq = same_texts(a, b, a.len());
    proof {
        assert(views(a@).take(a@.len() as int) =~= views(a@));
        assert(views(b@).take(b@.len() as int) =~= views(b@));
    }
    eq
}

} // verus!
