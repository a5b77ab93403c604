//! The service dependency graph: a depth-first walk that either lists the
//! services of a scope with every dependency before its dependents, or
//! names a service that lies on a dependency cycle.

use vstd::prelude::*;
use vstd::set_lib::lemma_len_subset;

use crate::config::{contains_text, ServiceConfig};
use crate::name_map::{lookup, NameMap};
use crate::planning::{dep_path, lemma_reaches_dep, reaches};
use crate::text::views;

verus! {

/// The declared dependencies of service `u` (none for an unknown name).
pub open spec fn deps_of(ps: Seq<(Seq<char>, ServiceConfig)>, u: Seq<char>) -> Seq<Seq<char>> {
    match lookup(ps, u) {
        Some(s) => views(s.depends_on@),
        None => Seq::empty(),
    }
}

/// `u` depends on `w`, and `w` is in scope.
pub open spec fn edge(
    ps: Seq<(Seq<char>, ServiceConfig)>,
    sc: Seq<Seq<char>>,
    u: Seq<char>,
    w: Seq<char>,
) -> bool {
    sc.contains(w) && deps_of(ps, u).contains(w)
}

/// `c` is a dependency cycle among the services of the scope.
pub open spec fn is_cycle(
    ps: Seq<(Seq<char>, ServiceConfig)>,
    sc: Seq<Seq<char>>,
    c: Seq<Seq<char>>,
) -> bool {
    &&& c.len() > 0
    &&& forall|i: int| 0 <= i < c.len() ==> sc.contains(#[trigger] c[i])
    &&& forall|i: int| 0 <= i < c.len() - 1 ==> #[trigger] edge(ps, sc, c[i], c[i + 1])
    &&& edge(ps, sc, c.last(), c[0])
}

/// Service `x` lies on a dependency cycle within the scope.
pub open spec fn on_cycle(ps: Seq<(Seq<char>, ServiceConfig)>, sc: Seq<Seq<char>>, x: Seq<char>) -> bool {
    exists|c: Seq<Seq<char>>| #[trigger] is_cycle(ps, sc, c) && c[0] == x
}

/// No dependency cycle lies within the scope.
pub open spec fn acyclic(ps: Seq<(Seq<char>, ServiceConfig)>, sc: Seq<Seq<char>>) -> bool {
    forall|c: Seq<Seq<char>>| !#[trigger] is_cycle(ps, sc, c)
}

/// Every in-scope dependency of each listed service is listed before it.
pub open spec fn deps_first(
    ps: Seq<(Seq<char>, ServiceConfig)>,
    sc: Seq<Seq<char>>,
    dn: Seq<Seq<char>>,
) -> bool {
    forall|i: int, w: Seq<char>|
        #![trigger edge(ps, sc, dn[i], w)]
        0 <= i < dn.len() && edge(ps, sc, dn[i], w) ==> dn.take(i).contains(w)
}

/// Each step of the stack `vis` follows an edge.
pub open spec fn is_path(
    ps: Seq<(Seq<char>, ServiceConfig)>,
    sc: Seq<Seq<char>>,
    vis: Seq<Seq<char>>,
) -> bool {
    forall|i: int| 0 <= i < vis.len() - 1 ==> #[trigger] edge(ps, sc, vis[i], vis[i + 1])
}

/// The state that the walk keeps between steps.
pub open spec fn walk_inv(
    ps: Seq<(Seq<char>, ServiceConfig)>,
    sc: Seq<Seq<char>>,
    vis: Seq<Seq<char>>,
    dn: Seq<Seq<char>>,
) -> bool {
    &&& vis.no_duplicates()
    &&& dn.no_duplicates()
    &&& forall|x: Seq<char>| vis.contains(x) ==> sc.contains(x)
    &&& forall|x: Seq<char>| dn.contains(x) ==> sc.contains(x)
    &&& forall|x: Seq<char>| !(#[trigger] vis.contains(x) && dn.contains(x))
    &&& is_path(ps, sc, vis)
    &&& deps_first(ps, sc, dn)
}

/// A duplicate-free sequence drawn from a duplicate-free sequence is no
/// longer than it.
pub proof fn lemma_distinct_subset_len(a: Seq<Seq<char>>, b: Seq<Seq<char>>)
    requires
        a.no_duplicates(),
        b.no_duplicates(),
        forall|x: Seq<char>| a.contains(x) ==> b.contains(x),
    ensures
        a.len() <= b.len(),
{
    a.unique_seq_to_set();
    b.unique_seq_to_set();
    assert(a.to_set().subset_of(b.to_set()));
    lemma_len_subset(a.to_set(), b.to_set());
}

proof fn lemma_extends_contains(old_dn: Seq<Seq<char>>, dn: Seq<Seq<char>>, x: Seq<char>)
    requires
        old_dn.len() <= dn.len(),
        dn.take(old_dn.len() as int) == old_dn,
        old_dn.contains(x),
    ensures
        dn.contains(x),
{
    let i = choose|i: int| 0 <= i < old_dn.len() && old_dn[i] == x;
    assert(dn.take(old_dn.len() as int)[i] == x);
    assert(dn[i] == x);
}

/// The position of `x` in `dn`.
pub open spec fn pos(dn: Seq<Seq<char>>, x: Seq<char>) -> int {
    choose|i: int| 0 <= i < dn.len() && dn[i] == x
}

proof fn lemma_pos(dn: Seq<Seq<char>>, x: Seq<char>, i: int)
    requires
        dn.no_duplicates(),
        0 <= i < dn.len(),
        dn[i] == x,
    ensures
        pos(dn, x) == i,
{
    let p = pos(dn, x);
    assert(0 <= p < dn.len() && dn[p] == x);
}

proof fn lemma_edge_lowers(
    ps: Seq<(Seq<char>, ServiceConfig)>,
    sc: Seq<Seq<char>>,
    dn: Seq<Seq<char>>,
    u: Seq<char>,
    w: Seq<char>,
)
    requires
        dn.no_duplicates(),
        deps_first(ps, sc, dn),
        dn.contains(u),
        edge(ps, sc, u, w),
    ensures
        dn.contains(w),
        pos(dn, w) < pos(dn, u),
{
    let iu = choose|i: int| 0 <= i < dn.len() && dn[i] == u;
    lemma_pos(dn, u, iu);
    assert(edge(ps, sc, dn[iu], w));
    assert(dn.take(iu).contains(w));
    let jw = choose|j: int| 0 <= j < dn.take(iu).len() && dn.take(iu)[j] == w;
    assert(dn[jw] == w);
    lemma_pos(dn, w, jw);
}

/// A walk that listed the whole scope with dependencies first leaves no
/// cycle in the scope.
pub proof fn lemma_listing_acyclic(
    ps: Seq<(Seq<char>, ServiceConfig)>,
    sc: Seq<Seq<char>>,
    dn: Seq<Seq<char>>,
)
    requires
        dn.no_duplicates(),
        deps_first(ps, sc, dn),
        forall|x: Seq<char>| sc.contains(x) ==> dn.contains(x),
    ensures
        acyclic(ps, sc),
{
    assert forall|c: Seq<Seq<char>>| !#[trigger] is_cycle(ps, sc, c) by {
        if is_cycle(ps, sc, c) {
            assert(sc.contains(c[0]));
            lemma_cycle_lowers(ps, sc, dn, c, c.len() - 1);
            lemma_edge_lowers(ps, sc, dn, c.last(), c[0]);
        }
    }
}

proof fn lemma_cycle_lowers(
    ps: Seq<(Seq<char>, ServiceConfig)>,
    sc: Seq<Seq<char>>,
    dn: Seq<Seq<char>>,
    c: Seq<Seq<char>>,
    k: int,
)
    requires
        is_cycle(ps, sc, c),
        dn.no_duplicates(),
        deps_first(ps, sc, dn),
        dn.contains(c[0]),
        0 <= k < c.len(),
    ensures
        dn.contains(c[k]),
        k == 0 || pos(dn, c[k]) < pos(dn, c[0]),
    decreases k,
{
    if k > 0 {
        lemma_cycle_lowers(ps, sc, dn, c, k - 1);
        let i = k - 1;
        assert(edge(ps, sc, c[i], c[i + 1]));
        lemma_edge_lowers(ps, sc, dn, c[i], c[i + 1]);
    }
}

/// The depth-first walk from `u`, with `vis` the services being walked and
/// `dn` those already listed: the listing after `u` and everything it
/// reaches that is not yet listed, or the first dependency met that is
/// already being walked.
pub open spec fn dfs_visit(
    ps: Seq<(Seq<char>, ServiceConfig)>,
    sc: Seq<Seq<char>>,
    u: Seq<char>,
    vis: Seq<Seq<char>>,
    dn: Seq<Seq<char>>,
) -> Result<Seq<Seq<char>>, Seq<char>>
    decreases sc.len() - vis.len(), 0int,
{
    if vis.len() >= sc.len() {
        Ok(dn)
    } else {
        match dfs_deps(ps, sc, u, 0, vis.push(u), dn) {
            Ok(d) => Ok(d.push(u)),
            Err(x) => Err(x),
        }
    }
}

/// The walk through the dependencies of `u` from the `k`-th on, in their
/// declared order: out-of-scope and listed ones are passed over.
pub open spec fn dfs_deps(
    ps: Seq<(Seq<char>, ServiceConfig)>,
    sc: Seq<Seq<char>>,
    u: Seq<char>,
    k: int,
    vis: Seq<Seq<char>>,
    dn: Seq<Seq<char>>,
) -> Result<Seq<Seq<char>>, Seq<char>>
    decreases sc.len() - vis.len(), deps_of(ps, u).len() - k + 1,
{
    if k < 0 || k >= deps_of(ps, u).len() || vis.len() > sc.len() {
        Ok(dn)
    } else {
        let w = deps_of(ps, u)[k];
        if !sc.contains(w) || dn.contains(w) {
            dfs_deps(ps, sc, u, k + 1, vis, dn)
        } else if vis.contains(w) {
            Err(w)
        } else {
            match dfs_visit(ps, sc, w, vis, dn) {
                Ok(d) => dfs_deps(ps, sc, u, k + 1, vis, d),
                Err(x) => Err(x),
            }
        }
    }
}

/// The walk of the first `k` services of the scope, in scope order, each
/// walked unless already listed.
pub open spec fn dfs_scope(ps: Seq<(Seq<char>, ServiceConfig)>, sc: Seq<Seq<char>>, k: int) -> Result<
    Seq<Seq<char>>,
    Seq<char>,
>
    decreases k,
{
    if k <= 0 {
        Ok(Seq::empty())
    } else {
        match dfs_scope(ps, sc, k - 1) {
            Err(x) => Err(x),
            Ok(d) => if d.contains(sc[k - 1]) {
                Ok(d)
            } else {
                dfs_visit(ps, sc, sc[k - 1], Seq::empty(), d)
            },
        }
    }
}

proof fn lemma_dfs_scope_err(ps: Seq<(Seq<char>, ServiceConfig)>, sc: Seq<Seq<char>>, k: int, m: int)
    requires
        0 <= k <= m,
        dfs_scope(ps, sc, k) is Err,
    ensures
        dfs_scope(ps, sc, m) == dfs_scope(ps, sc, k),
    decreases m - k,
{
    if k < m {
        lemma_dfs_scope_err(ps, sc, k, m - 1);
    }
}

/// Walks from `u`: lists `u` after everything it reaches that is not yet
/// listed, or names a service on a cycle.
fn visit(
    services: &NameMap<ServiceConfig>,
    scope: &Vec<String>,
    u: &str,
    visiting: &mut Vec<String>,
    done: &mut Vec<String>,
    Ghost(roots): Ghost<Seq<Seq<char>>>,
) -> (r: Result<(), String>)
    requires
        reaches(services.pairs(), roots, u@),
        forall|x: Seq<char>| #[trigger] views(old(visiting)@).contains(x) ==> reaches(services.pairs(), roots, x),
        views(scope@).no_duplicates(),
        views(scope@).contains(u@),
        !views(old(visiting)@).contains(u@),
        !views(old(done)@).contains(u@),
        views(old(visiting)@).len() > 0 ==> edge(
            services.pairs(),
            views(scope@),
            views(old(visiting)@).last(),
            u@,
        ),
        walk_inv(services.pairs(), views(scope@), views(old(visiting)@), views(old(done)@)),
    ensures
        match r {
            Ok(()) => {
                &&& views(final(visiting)@) == views(old(visiting)@)
                &&& views(final(done)@).len() >= views(old(done)@).len()
                &&& views(final(done)@).take(views(old(done)@).len() as int) == views(old(done)@)
                &&& views(final(done)@).contains(u@)
                &&& walk_inv(
                    services.pairs(),
                    views(scope@),
                    views(final(visiting)@),
                    views(final(done)@),
                )
            },
            Err(x) => on_cycle(services.pairs(), views(scope@), x@) && reaches(services.pairs(), roots, x@),
        },
        match r {
            Ok(()) => dfs_visit(
                services.pairs(),
                views(scope@),
                u@,
                views(old(visiting)@),
                views(old(done)@),
            ) == Ok::<Seq<Seq<char>>, Seq<char>>(views(final(done)@)),
            Err(x) => dfs_visit(
                services.pairs(),
                views(scope@),
                u@,
                views(old(visiting)@),
                views(old(done)@),
            ) == Err::<Seq<Seq<char>>, Seq<char>>(x@),
        },
    decreases views(scope@).len() - views(old(visiting)@).len(),
{
    let ghost ps = services.pairs();
    let ghost sc = views(scope@);
    let ghost old_vis = views(visiting@);
    let ghost old_dn = views(done@);
    proof {
        lemma_distinct_subset_len(old_vis.push(u@), sc);
    }
    visiting.push(u.to_owned());
    proof {
        assert(views(visiting@) =~= old_vis.push(u@));
        let vis = old_vis.push(u@);
        assert forall|x: Seq<char>| vis.contains(x) implies sc.contains(x) by {
            crate::config::lemma_contains_drop_last(vis, x);
            assert(vis.drop_last() =~= old_vis);
        }
        assert forall|x: Seq<char>| !(#[trigger] vis.contains(x) && old_dn.contains(x)) by {
            crate::config::lemma_contains_drop_last(vis, x);
            assert(vis.drop_last() =~= old_vis);
        }
        assert forall|i: int| 0 <= i < vis.len() - 1 implies #[trigger] edge(
            ps,
            sc,
            vis[i],
            vis[i + 1],
        ) by {
            if i < old_vis.len() - 1 {
                assert(edge(ps, sc, old_vis[i], old_vis[i + 1]));
            }
        }
        assert forall|i: int, j: int| 0 <= i < vis.len() && 0 <= j < vis.len() && i != j implies vis[i]
            != vis[j] by {
            if i == old_vis.len() {
                assert(old_vis.contains(vis[j]));
            } else if j == old_vis.len() {
                assert(old_vis.contains(vis[i]));
            }
        }
    }
    let empty: Vec<String> = Vec::new();
    let deps = match services.get(u) {
        Some(s) => &s.depends_on,
        None => &empty,
    };
    proof {
        assert(views(deps@) == deps_of(ps, u@));
    }
    let n = deps.len();
    let mut j: usize = 0;
    while j < n
        invariant
            n == deps@.len(),
            views(deps@) == deps_of(ps, u@),
            ps == services.pairs(),
            sc == views(scope@),
            sc.no_duplicates(),
            sc.contains(u@),
            views(visiting@) == old_vis.push(u@),
            old_vis == views(old(visiting)@),
            old_dn == views(old(done)@),
            reaches(ps, roots, u@),
            forall|x: Seq<char>| #[trigger] old_vis.contains(x) ==> reaches(ps, roots, x),
            old_vis.len() + 1 <= sc.len(),
            !old_vis.contains(u@),
            old_vis.len() > 0 ==> edge(ps, sc, old_vis.last(), u@),
            walk_inv(ps, sc, views(visiting@), views(done@)),
            views(done@).len() >= old_dn.len(),
            views(done@).take(old_dn.len() as int) == old_dn,
            j <= n,
            forall|k: int|
                0 <= k < j ==> sc.contains(#[trigger] views(deps@)[k]) ==> views(done@).contains(
                    views(deps@)[k],
                ),
            dfs_deps(ps, sc, u@, 0, old_vis.push(u@), old_dn) == dfs_deps(
                ps,
                sc,
                u@,
                j as int,
                old_vis.push(u@),
                views(done@),
            ),
        decreases n - j,
    {
        let w = deps[j].as_str();
        if !contains_text(scope, w) {
            j = j + 1;
            continue;
        }
        if contains_text(done, w) {
            j = j + 1;
            continue;
        }
        if contains_text(visiting, w) {
            proof {
                let vis = views(visiting@);
                let jj = choose|jj: int| 0 <= jj < vis.len() && vis[jj] == w@;
                let c = vis.subrange(jj, vis.len() as int);
                assert(deps_of(ps, u@).contains(w@)) by {
                    assert(views(deps@)[j as int] == w@);
                }
                assert(c.last() == u@);
                assert forall|i: int| 0 <= i < c.len() - 1 implies #[trigger] edge(
                    ps,
                    sc,
                    c[i],
                    c[i + 1],
                ) by {
                    assert(edge(ps, sc, vis[jj + i], vis[jj + i + 1]));
                }
                assert forall|i: int| 0 <= i < c.len() implies sc.contains(#[trigger] c[i]) by {
                    assert(vis.contains(vis[jj + i]));
                }
                assert(is_cycle(ps, sc, c));
                assert(deps_of(ps, u@)[j as int] == w@);
                crate::config::lemma_contains_drop_last(vis, w@);
                assert(vis.drop_last() =~= old_vis);
                assert(dfs_deps(ps, sc, u@, j as int, old_vis.push(u@), views(done@)) == Err::<
                    Seq<Seq<char>>,
                    Seq<char>,
                >(w@));
                assert(dfs_visit(ps, sc, u@, old_vis, old_dn) == Err::<Seq<Seq<char>>, Seq<char>>(w@));
            }
            return Err(w.to_owned());
        }
        proof {
            assert(views(deps@)[j as int] == w@);
            assert(views(visiting@).last() == u@);
        }
        let ghost mid_dn = views(done@);
        proof {
            assert(deps_of(ps, u@).contains(w@));
            lemma_reaches_dep(ps, roots, u@, w@);
            assert forall|x: Seq<char>| #[trigger] views(visiting@).contains(x) implies reaches(ps, roots, x) by {
                crate::config::lemma_contains_drop_last(views(visiting@), x);
                assert(views(visiting@).drop_last() =~= old_vis);
            }
        }
        match visit(services, scope, w, visiting, done, Ghost(roots)) {
            Ok(()) => {},
            Err(x) => {
                proof {
                    assert(deps_of(ps, u@)[j as int] == w@);
                    assert(dfs_deps(ps, sc, u@, j as int, old_vis.push(u@), mid_dn) == Err::<
                        Seq<Seq<char>>,
                        Seq<char>,
                    >(x@));
                    assert(dfs_visit(ps, sc, u@, old_vis, old_dn) == Err::<Seq<Seq<char>>, Seq<char>>(
                        x@,
                    ));
                }
                return Err(x);
            },
        }
        proof {
            assert forall|k: int|
                0 <= k < j + 1 && sc.contains(#[trigger] views(deps@)[k]) implies views(
                done@,
            ).contains(views(deps@)[k]) by {
                if k < j && sc.contains(views(deps@)[k]) {
                    lemma_extends_contains(mid_dn, views(done@), views(deps@)[k]);
                }
            }
            assert(views(done@).take(old_dn.len() as int) =~= old_dn) by {
                assert(views(done@).take(mid_dn.len() as int).take(old_dn.len() as int)
                    =~= views(done@).take(old_dn.len() as int));
            }
        }
        j = j + 1;
    }
    let ghost dn = views(done@);
    let ghost prev = visiting@;
    visiting.pop();
    proof {
        assert(views(visiting@) =~= views(prev).drop_last());
        assert(views(prev).drop_last() =~= old_vis);
        assert(!dn.contains(u@)) by {
            assert(views(visiting@).contains(u@) || !views(visiting@).contains(u@));
            assert(old_vis.push(u@).contains(u@)) by {
                assert(old_vis.push(u@)[old_vis.len() as int] == u@);
            }
        }
    }
    done.push(u.to_owned());
    proof {
        let ndn = dn.push(u@);
        assert(views(done@) =~= ndn);
        assert forall|i: int, w: Seq<char>|
            #![trigger edge(ps, sc, ndn[i], w)]
            0 <= i < ndn.len() && edge(ps, sc, ndn[i], w) implies ndn.take(i).contains(w) by {
            if i < dn.len() {
                assert(ndn[i] == dn[i]);
                assert(edge(ps, sc, dn[i], w));
                assert(ndn.take(i) =~= dn.take(i));
            } else {
                assert(ndn.take(i) =~= dn);
                let k = choose|k: int| 0 <= k < deps_of(ps, u@).len() && deps_of(ps, u@)[k] == w;
                assert(views(deps@)[k] == w);
            }
        }
        assert forall|x: Seq<char>| ndn.contains(x) implies sc.contains(x) by {
            crate::config::lemma_contains_drop_last(ndn, x);
            assert(ndn.drop_last() =~= dn);
        }
        assert forall|x: Seq<char>| !(#[trigger] old_vis.contains(x) && ndn.contains(x)) by {
            crate::config::lemma_contains_drop_last(ndn, x);
            assert(ndn.drop_last() =~= dn);
            if old_vis.contains(x) {
                crate::config::lemma_contains_drop_last(old_vis.push(u@), x);
                assert(old_vis.push(u@).drop_last() =~= old_vis);
            }
        }
        assert forall|a: int, b: int| 0 <= a < ndn.len() && 0 <= b < ndn.len() && a != b implies ndn[a]
            != ndn[b] by {
            if a == dn.len() {
                assert(dn.contains(ndn[b]));
            } else if b == dn.len() {
                assert(dn.contains(ndn[a]));
            }
        }
        assert(ndn.take(old_dn.len() as int) =~= old_dn) by {
            assert(ndn.take(old_dn.len() as int) =~= dn.take(old_dn.len() as int));
        }
        assert(ndn[dn.len() as int] == u@);
    }
    Ok(())
}

/// The outcome of walking the scope: all of it listed with dependencies
/// first, or a service on a cycle.
pub open spec fn walk_ok(
    ps: Seq<(Seq<char>, ServiceConfig)>,
    sc: Seq<Seq<char>>,
    dn: Seq<Seq<char>>,
) -> bool {
    &&& dn.no_duplicates()
    &&& forall|x: Seq<char>| dn.contains(x) <==> sc.contains(x)
    &&& deps_first(ps, sc, dn)
    &&& acyclic(ps, sc)
}

/// Walks the scope in its order.
pub fn walk_scope(services: &NameMap<ServiceConfig>, scope: &Vec<String>) -> (r: Result<
    Vec<String>,
    String,
>)
    requires
        views(scope@).no_duplicates(),
    ensures
        match r {
            Ok(listed) => walk_ok(services.pairs(), views(scope@), views(listed@)),
            Err(x) => on_cycle(services.pairs(), views(scope@), x@),
        },
        match r {
            Ok(listed) => dfs_scope(services.pairs(), views(scope@), views(scope@).len() as int)
                == Ok::<Seq<Seq<char>>, Seq<char>>(views(listed@)),
            Err(x) => dfs_scope(services.pairs(), views(scope@), views(scope@).len() as int) == Err::<
                Seq<Seq<char>>,
                Seq<char>,
            >(x@),
        },
{
    let ghost ps = services.pairs();
    let ghost sc = views(scope@);
    let mut visiting: Vec<String> = Vec::new();
    let mut done: Vec<String> = Vec::new();
    proof {
        assert(views(visiting@) =~= Seq::<Seq<char>>::empty());
        assert(views(done@) =~= Seq::<Seq<char>>::empty());
    }
    let n = scope.len();
    let mut i: usize = 0;
    while i < n
        invariant
            n == scope@.len(),
            ps == services.pairs(),
            sc == views(scope@),
            sc.no_duplicates(),
            views(visiting@) == Seq::<Seq<char>>::empty(),
            walk_inv(ps, sc, views(visiting@), views(done@)),
            i <= n,
            forall|k: int| 0 <= k < i ==> views(done@).contains(#[trigger] sc[k]),
            dfs_scope(ps, sc, i as int) == Ok::<Seq<Seq<char>>, Seq<char>>(views(done@)),
        decreases n - i,
    {
        let name = scope[i].as_str();
        proof {
            assert(sc[i as int] == name@);
        }
        if contains_text(&done, name) {
            i = i + 1;
            continue;
        }
        let ghost before = views(done@);
        proof {
            assert(dep_path(ps, sc, seq![name@]));
            assert(reaches(ps, sc, name@));
        }
        match visit(services, scope, name, &mut visiting, &mut done, Ghost(sc)) {
            Ok(()) => {},
            Err(x) => {
                proof {
                    assert(dfs_scope(ps, sc, i + 1) == Err::<Seq<Seq<char>>, Seq<char>>(x@));
                    lemma_dfs_scope_err(ps, sc, i + 1, n as int);
                }
                return Err(x);
            },
        }
        proof {
            assert forall|k: int| 0 <= k < i + 1 implies views(done@).contains(#[trigger] sc[k]) by {
                if k < i {
                    lemma_extends_contains(before, views(done@), sc[k]);
                }
            }
        }
        i = i + 1;
    }
    proof {
        let dn = views(done@);
        assert forall|x: Seq<char>| sc.contains(x) implies dn.contains(x) by {
            let k = choose|k: int| 0 <= k < sc.len() && sc[k] == x;
            assert(dn.contains(sc[k]));
        }
        lemma_listing_acyclic(ps, sc, dn);
    }
    Ok(done)
}


/// A service listed by a walk that keeps dependencies first lies on no
/// cycle of the scope.
pub proof fn lemma_listed_off_cycles(
    ps: Seq<(Seq<char>, ServiceConfig)>,
    sc: Seq<Seq<char>>,
    dn: Seq<Seq<char>>,
    c: Seq<Seq<char>>,
)
    requires
        dn.no_duplicates(),
        deps_first(ps, sc, dn),
        is_cycle(ps, sc, c),
    ensures
        !dn.contains(c[0]),
{
    if dn.contains(c[0]) {
        lemma_cycle_lowers(ps, sc, dn, c, c.len() - 1);
        lemma_edge_lowers(ps, sc, dn, c.last(), c[0]);
    }
}

/// Walks from each of `roots` that is in the scope, in order: lists
/// everything they reach in the scope with dependencies first, or names a
/// service on a cycle that they reach.
pub fn walk_from(services: &NameMap<ServiceConfig>, scope: &Vec<String>, roots: &Vec<String>) -> (r: Result<
    Vec<String>,
    String,
>)
    requires
        views(scope@).no_duplicates(),
    ensures
        match r {
            Ok(listed) => {
                &&& views(listed@).no_duplicates()
                &&& deps_first(services.pairs(), views(scope@), views(listed@))
                &&& forall|x: Seq<char>|
                    #[trigger] views(roots@).contains(x) && views(scope@).contains(x) ==> views(
                        listed@,
                    ).contains(x)
            },
            Err(x) => on_cycle(services.pairs(), views(scope@), x@) && reaches(
                services.pairs(),
                views(roots@),
                x@,
            ),
        },
{
    let ghost ps = services.pairs();
    let ghost sc = views(scope@);
    let ghost rs = views(roots@);
    let mut visiting: Vec<String> = Vec::new();
    let mut done: Vec<String> = Vec::new();
    proof {
        assert(views(visiting@) =~= Seq::<Seq<char>>::empty());
        assert(views(done@) =~= Seq::<Seq<char>>::empty());
    }
    let n = roots.len();
    let mut i: usize = 0;
    while i < n
        invariant
            n == roots@.len(),
            ps == services.pairs(),
            sc == views(scope@),
            rs == views(roots@),
            sc.no_duplicates(),
            views(visiting@) == Seq::<Seq<char>>::empty(),
            walk_inv(ps, sc, views(visiting@), views(done@)),
            i <= n,
            forall|k: int| 0 <= k < i ==> sc.contains(#[trigger] rs[k]) ==> views(done@).contains(rs[k]),
        decreases n - i,
    {
        let name = roots[i].as_str();
        proof {
            assert(rs[i as int] == name@);
        }
        if !contains_text(scope, name) || contains_text(&done, name) {
            i = i + 1;
            continue;
        }
        let ghost before = views(done@);
        proof {
            assert(dep_path(ps, rs, seq![name@]));
            assert(reaches(ps, rs, name@));
        }
        match visit(services, scope, name, &mut visiting, &mut done, Ghost(rs)) {
            Ok(()) => {},
            Err(x) => {
                return Err(x);
            },
        }
        proof {
            assert forall|k: int| 0 <= k < i + 1 && sc.contains(#[trigger] rs[k]) implies views(done@).contains(
                rs[k],
            ) by {
                if k < i {
                    lemma_extends_contains(before, views(done@), rs[k]);
                }
            }
        }
        i = i + 1;
    }
    proof {
        assert forall|x: Seq<char>| #[trigger] rs.contains(x) && sc.contains(x) implies views(done@).contains(x) by {
            let k = choose|k: int| 0 <= k < rs.len() && rs[k] == x;
            assert(sc.contains(rs[k]));
        }
    }
    Ok(done)
}

} // verus!
