//! Planning a run: which services take part, the order they start in, and
//! everything resolved against the project root.

use vstd::prelude::*;

use crate::config::{
    copy_string_map, copy_strings, cwd_spec, resolve_cwd, resolved_service_matches, ActionConfig,
    LogConfig, ProjectConfig, ResolvedActionConfig, ResolvedLogConfig, ResolvedServiceConfig,
    ServiceConfig,
};
use crate::error::{AppError, AppResult, ExitCode};
use crate::graph::{acyclic, deps_of, dfs_scope, is_cycle, lemma_distinct_subset_len};
use crate::name_map::{
    distinct_names, is_first, lemma_first_unique, lookup, lookup_index, names_of, NameMap,
};
use crate::lex::lex_lt;
use crate::name_map::sorted_names;
use crate::paths::{join_spec, parent, parent_spec};
use crate::text::{concat3, views};

verus! {

/// Service `x` exists and is enabled.
pub open spec fn selectable(ps: Seq<(Seq<char>, ServiceConfig)>, x: Seq<char>) -> bool {
    lookup(ps, x) matches Some(s) && s.disabled != Some(true)
}

/// `p` leads from one of `roots` along declared dependencies.
pub open spec fn dep_path(
    ps: Seq<(Seq<char>, ServiceConfig)>,
    roots: Seq<Seq<char>>,
    p: Seq<Seq<char>>,
) -> bool {
    &&& p.len() > 0
    &&& roots.contains(p[0])
    &&& forall|i: int| 0 <= i < p.len() - 1 ==> #[trigger] deps_of(ps, p[i]).contains(p[i + 1])
}

/// `x` is one of `roots` or a dependency, direct or not, of one of them.
pub open spec fn reaches(
    ps: Seq<(Seq<char>, ServiceConfig)>,
    roots: Seq<Seq<char>>,
    x: Seq<char>,
) -> bool {
    exists|p: Seq<Seq<char>>| #[trigger] dep_path(ps, roots, p) && p.last() == x
}

/// No dependency cycle among the configured services passes through a
/// service that `roots` reach.
pub open spec fn acyclic_from(ps: Seq<(Seq<char>, ServiceConfig)>, roots: Seq<Seq<char>>) -> bool {
    forall|c: Seq<Seq<char>>| #[trigger] is_cycle(ps, names_of(ps), c) ==> !reaches(ps, roots, c[0])
}

/// Why `x` cannot be selected.
pub open spec fn selection_error(ps: Seq<(Seq<char>, ServiceConfig)>, x: Seq<char>) -> Seq<char> {
    if lookup(ps, x) is None {
        "service `"@ + x + "` is not defined in configuration"@
    } else {
        "service `"@ + x + "` is disabled and cannot be selected"@
    }
}

/// `x` belongs to the set `sel`.
pub open spec fn in_set(sel: Seq<(Seq<char>, ())>, x: Seq<char>) -> bool {
    lookup(sel, x) is Some
}

/// Every member of `sel` is selectable and brings its dependencies along.
pub open spec fn closed_selection(
    ps: Seq<(Seq<char>, ServiceConfig)>,
    sel: Seq<(Seq<char>, ())>,
) -> bool {
    forall|x: Seq<char>| #[trigger]
        in_set(sel, x) ==> selectable(ps, x) && forall|w: Seq<char>|
            #[trigger] deps_of(ps, x).contains(w) ==> in_set(sel, w)
}

/// A service that starts when no service is named.
pub open spec fn autostarts(s: ServiceConfig) -> bool {
    s.disabled != Some(true) && s.autostart != Some(false)
}

/// The autostarting services among the first `k`, in order.
pub open spec fn autostart_upto(ps: Seq<(Seq<char>, ServiceConfig)>, k: int) -> Seq<Seq<char>>
    decreases k,
{
    if k <= 0 || k > ps.len() {
        Seq::empty()
    } else {
        autostart_upto(ps, k - 1) + if autostarts(ps[k - 1].1) {
            seq![ps[k - 1].0]
        } else {
            Seq::empty()
        }
    }
}

/// The services a run starts from: the named ones, or the autostarting
/// ones when none is named.
pub open spec fn selection_roots(
    ps: Seq<(Seq<char>, ServiceConfig)>,
    targets: Seq<Seq<char>>,
) -> Seq<Seq<char>> {
    if targets.len() == 0 {
        autostart_upto(ps, ps.len() as int)
    } else {
        targets
    }
}

/// A name that has an entry is one of the names.
pub proof fn lemma_known_named<V>(ps: Seq<(Seq<char>, V)>, x: Seq<char>)
    requires
        lookup(ps, x) is Some,
    ensures
        names_of(ps).contains(x),
{
    let i = lookup_index(ps, x)->0;
    assert(is_first(ps, x, i));
    assert(names_of(ps)[i] == x);
}

/// The names of a map with distinct names have no duplicates.
pub proof fn lemma_names_distinct<V>(ps: Seq<(Seq<char>, V)>)
    requires
        distinct_names(ps),
    ensures
        names_of(ps).no_duplicates(),
{
    assert forall|i: int, j: int|
        0 <= i < names_of(ps).len() && 0 <= j < names_of(ps).len() && i != j implies names_of(
        ps,
    )[i] != names_of(ps)[j] by {
        assert(ps[i].0 != ps[j].0);
    }
}

/// A closed selection that holds every root holds everything they reach.
pub proof fn lemma_closed_holds_reached(
    ps: Seq<(Seq<char>, ServiceConfig)>,
    roots: Seq<Seq<char>>,
    sel: Seq<(Seq<char>, ())>,
    p: Seq<Seq<char>>,
)
    requires
        closed_selection(ps, sel),
        forall|r: Seq<char>| roots.contains(r) ==> in_set(sel, r),
        dep_path(ps, roots, p),
    ensures
        in_set(sel, p.last()),
    decreases p.len(),
{
    if p.len() > 1 {
        let q = p.drop_last();
        assert forall|i: int| 0 <= i < q.len() - 1 implies #[trigger] deps_of(ps, q[i]).contains(
            q[i + 1],
        ) by {
            assert(q[i] == p[i] && q[i + 1] == p[i + 1]);
            assert(deps_of(ps, p[i]).contains(p[i + 1]));
        }
        assert(q[0] == p[0]);
        lemma_closed_holds_reached(ps, roots, sel, q);
        let j = p.len() - 2;
        assert(q.last() == p[j]);
        assert(deps_of(ps, p[j]).contains(p[j + 1]));
    }
}

/// The message when no service is named and none autostarts.
pub open spec fn no_autostart_message() -> Seq<char> {
    "configuration does not contain any autostart-enabled services"@
}

/// Adds `name` and everything it depends on to `selected`.
fn collect_with_dependencies(
    config: &ProjectConfig,
    name: &str,
    selected: &mut NameMap<()>,
    Ghost(roots): Ghost<Seq<Seq<char>>>,
    Ghost(stack): Ghost<Seq<Seq<char>>>,
) -> (r: AppResult<()>)
    requires
        acyclic_from(config.services.pairs(), roots),
        closed_selection(config.services.pairs(), old(selected).pairs()),
        forall|x: Seq<char>| #[trigger]
            in_set(old(selected).pairs(), x) ==> reaches(config.services.pairs(), roots, x),
        dep_path(config.services.pairs(), roots, stack.push(name@)),
        stack.no_duplicates(),
    ensures
        match r {
            Ok(()) => {
                &&& closed_selection(config.services.pairs(), final(selected).pairs())
                &&& forall|x: Seq<char>| #[trigger]
                    in_set(final(selected).pairs(), x) ==> reaches(
                        config.services.pairs(),
                        roots,
                        x,
                    )
                &&& forall|x: Seq<char>|
                    #[trigger] in_set(old(selected).pairs(), x) ==> in_set(
                        final(selected).pairs(),
                        x,
                    )
                &&& in_set(final(selected).pairs(), name@)
            },
            Err(e) => {
                &&& e.exit_code == ExitCode::ConfigInvalid
                &&& exists|x: Seq<char>|
                    reaches(config.services.pairs(), roots, x) && !selectable(
                        config.services.pairs(),
                        x,
                    ) && e.message@ == #[trigger] selection_error(config.services.pairs(), x)
            },
        },
    decreases names_of(config.services.pairs()).len() - stack.len(),
{
    let ghost ps = config.services.pairs();
    let ghost all = names_of(ps);
    let ghost path = stack.push(name@);
    proof {
        assert(dep_path(ps, roots, path) && path.last() == name@);
        assert(reaches(ps, roots, name@));
    }
    if selected.contains_key(name) {
        return Ok(());
    }
    let service = match config.services.get(name) {
        Some(s) => s,
        None => {
            proof {
                reveal_strlit("service `");
                reveal_strlit("` is not defined in configuration");
            }
            let e = AppError::config_invalid(
                concat3("service `", name, "` is not defined in configuration"),
            );
            proof {
                assert(selection_error(ps, name@) == e.message@);
            }
            return Err(e);
        },
    };
    if service.is_disabled() {
        proof {
            reveal_strlit("service `");
            reveal_strlit("` is disabled and cannot be selected");
        }
        let e = AppError::config_invalid(
            concat3("service `", name, "` is disabled and cannot be selected"),
        );
        proof {
            assert(selection_error(ps, name@) == e.message@);
        }
        return Err(e);
    }
    proof {
        // Every member of the path is a configured service.
        assert forall|i: int| 0 <= i < path.len() implies #[trigger] all.contains(path[i]) by {
            if i < path.len() - 1 {
                assert(deps_of(ps, path[i]).contains(path[i + 1]));
                assert(lookup(ps, path[i]) is Some);
            }
            lemma_known_named(ps, path[i]);
        }
        // `name` is not already on the path: that would close a cycle.
        if stack.contains(name@) {
            let k = choose|k: int| 0 <= k < stack.len() && stack[k] == name@;
            let c = stack.subrange(k, stack.len() as int);
            assert forall|i: int| 0 <= i < c.len() implies all.contains(#[trigger] c[i]) by {
                assert(c[i] == path[k + i]);
            }
            assert forall|i: int| 0 <= i < c.len() - 1 implies #[trigger] crate::graph::edge(
                ps,
                all,
                c[i],
                c[i + 1],
            ) by {
                assert(c[i] == path[k + i] && c[i + 1] == path[k + i + 1]);
                assert(deps_of(ps, path[k + i]).contains(path[k + i + 1]));
            }
            let j = stack.len() - 1;
            assert(c.last() == path[j]);
            assert(deps_of(ps, path[j]).contains(path[j + 1]));
            assert(path[j + 1] == c[0]);
            assert(is_cycle(ps, all, c));
            let pre = path.take(k + 1);
            assert forall|i: int| 0 <= i < pre.len() - 1 implies #[trigger] deps_of(ps, pre[i]).contains(
                pre[i + 1],
            ) by {
                assert(pre[i] == path[i] && pre[i + 1] == path[i + 1]);
            }
            assert(pre[0] == path[0]);
            assert(dep_path(ps, roots, pre) && pre.last() == c[0]);
            assert(reaches(ps, roots, c[0]));
            assert(false);
        }
        assert(path.no_duplicates());
        lemma_names_distinct(ps);
        lemma_distinct_subset_len(path, all);
    }
    let ghost start = selected.pairs();
    let n = service.depends_on.len();
    let mut i: usize = 0;
    while i < n
        invariant
            n == service.depends_on@.len(),
            i <= n,
            ps == config.services.pairs(),
            lookup(ps, name@) == Some(*service),
            service.disabled != Some(true),
            acyclic_from(ps, roots),
            dep_path(ps, roots, path),
            path == stack.push(name@),
            path.no_duplicates(),
            path.len() <= names_of(ps).len(),
            closed_selection(ps, selected.pairs()),
            forall|x: Seq<char>| #[trigger]
                in_set(selected.pairs(), x) ==> reaches(ps, roots, x),
            forall|x: Seq<char>| #[trigger] in_set(start, x) ==> in_set(selected.pairs(), x),
            forall|j: int| 0 <= j < i ==> in_set(selected.pairs(), #[trigger] service.depends_on@[j]@),
        decreases n - i,
    {
        let dep = service.depends_on[i].as_str();
        proof {
            let next = path.push(dep@);
            assert(deps_of(ps, name@) == views(service.depends_on@));
            assert(views(service.depends_on@)[i as int] == dep@);
            assert(deps_of(ps, name@).contains(dep@));
            assert forall|j: int| 0 <= j < next.len() - 1 implies #[trigger] deps_of(
                ps,
                next[j],
            ).contains(next[j + 1]) by {
                if j < path.len() - 1 {
                    assert(next[j] == path[j] && next[j + 1] == path[j + 1]);
                }
            }
            assert(next[0] == path[0]);
        }
        let ghost before = selected.pairs();
        match collect_with_dependencies(config, dep, selected, Ghost(roots), Ghost(path)) {
            Ok(()) => {},
            Err(e) => {
                return Err(e);
            },
        }
        proof {
            assert forall|j: int| 0 <= j < i + 1 implies in_set(
                selected.pairs(),
                #[trigger] service.depends_on@[j]@,
            ) by {
                if j < i {
                    assert(in_set(before, service.depends_on@[j]@));
                }
            }
        }
        i = i + 1;
    }
    let ghost mid = selected.pairs();
    selected.insert(name.to_owned(), ());
    proof {
        let fin = selected.pairs();
        assert forall|x: Seq<char>| #[trigger] in_set(fin, x) implies selectable(ps, x) && forall|
            w: Seq<char>,
        | #[trigger] deps_of(ps, x).contains(w) ==> in_set(fin, w) by {
            if x == name@ {
                assert forall|w: Seq<char>| #[trigger] deps_of(ps, x).contains(w) implies in_set(
                    fin,
                    w,
                ) by {
                    assert(deps_of(ps, name@) == views(service.depends_on@));
                    let j = choose|j: int|
                        0 <= j < views(service.depends_on@).len() && views(service.depends_on@)[j]
                            == w;
                    assert(in_set(mid, service.depends_on@[j]@));
                    assert(lookup(fin, w) == lookup(mid, w) || w == name@);
                }
            } else {
                assert(in_set(mid, x));
                assert forall|w: Seq<char>| #[trigger] deps_of(ps, x).contains(w) implies in_set(
                    fin,
                    w,
                ) by {
                    assert(in_set(mid, w));
                    assert(lookup(fin, w) == lookup(mid, w) || w == name@);
                }
            }
        }
        assert forall|x: Seq<char>| #[trigger] in_set(fin, x) implies reaches(ps, roots, x) by {
            if x != name@ {
                assert(in_set(mid, x));
            }
        }
        assert forall|x: Seq<char>| #[trigger] in_set(start, x) implies in_set(fin, x) by {
            assert(in_set(mid, x));
            assert(lookup(fin, x) == lookup(mid, x) || x == name@);
        }
    }
    Ok(())
}

} // verus!

verus! {

/// Reaching a service reaches its dependencies.
pub proof fn lemma_reaches_dep(
    ps: Seq<(Seq<char>, ServiceConfig)>,
    roots: Seq<Seq<char>>,
    x: Seq<char>,
    w: Seq<char>,
)
    requires
        reaches(ps, roots, x),
        deps_of(ps, x).contains(w),
    ensures
        reaches(ps, roots, w),
{
    let p = choose|p: Seq<Seq<char>>| #[trigger] dep_path(ps, roots, p) && p.last() == x;
    let q = p.push(w);
    assert forall|i: int| 0 <= i < q.len() - 1 implies #[trigger] deps_of(ps, q[i]).contains(
        q[i + 1],
    ) by {
        if i < p.len() - 1 {
            assert(q[i] == p[i] && q[i + 1] == p[i + 1]);
        } else {
            assert(q[i] == x && q[i + 1] == w);
        }
    }
    assert(q[0] == p[0]);
    assert(dep_path(ps, roots, q) && q.last() == w);
}

/// In a map with distinct names, a name is listed exactly when it has an
/// entry.
pub proof fn lemma_named_iff_known<V>(ps: Seq<(Seq<char>, V)>, x: Seq<char>)
    requires
        distinct_names(ps),
    ensures
        names_of(ps).contains(x) <==> lookup(ps, x) is Some,
{
    if names_of(ps).contains(x) {
        let i = choose|i: int| 0 <= i < names_of(ps).len() && names_of(ps)[i] == x;
        assert(is_first(ps, x, i));
        lemma_first_unique(ps, x, i);
    }
    if lookup(ps, x) is Some {
        lemma_known_named(ps, x);
    }
}

/// The services that start when none is named, in configuration order.
fn autostart_names(config: &ProjectConfig) -> (r: Vec<String>)
    ensures
        views(r@) == autostart_upto(config.services.pairs(), config.services.pairs().len() as int),
{
    let ghost ps = config.services.pairs();
    let mut auto: Vec<String> = Vec::new();
    let n = config.services.len();
    let mut i: usize = 0;
    while i < n
        invariant
            n == ps.len(),
            ps == config.services.pairs(),
            i <= n,
            views(auto@) == autostart_upto(ps, i as int),
        decreases n - i,
    {
        let s = config.services.value_at(i);
        let starts = !s.is_disabled() && match s.autostart {
            Some(a) => a,
            None => true,
        };
        if starts {
            let ghost prev = auto@;
            let name = config.services.name_at(i).clone();
            auto.push(name);
            proof {
                assert(views(auto@) =~= views(prev).push(name@));
            }
        }
        proof {
            assert(views(auto@) =~= autostart_upto(ps, i + 1));
        }
        i = i + 1;
    }
    auto
}

/// Chooses the services of a run: the named ones, or the autostarting ones
/// when none is named, together with everything they depend on.
pub fn select_services(config: &ProjectConfig, targets: &Vec<String>) -> (r: AppResult<
    NameMap<()>,
>)
    requires
        acyclic_from(config.services.pairs(), selection_roots(config.services.pairs(), views(targets@))),
    ensures
        selection_roots(config.services.pairs(), views(targets@)).len() == 0 ==> (r matches Err(e)
            && e.exit_code == ExitCode::ConfigInvalid && e.message@ == no_autostart_message()),
        selection_roots(config.services.pairs(), views(targets@)).len() > 0 ==> (r is Ok <==> forall|
            x: Seq<char>,
        |
            #[trigger] reaches(
                config.services.pairs(),
                selection_roots(config.services.pairs(), views(targets@)),
                x,
            ) ==> selectable(config.services.pairs(), x)),
        match r {
            Ok(sel) => forall|x: Seq<char>| #[trigger]
                in_set(sel.pairs(), x) <==> reaches(
                    config.services.pairs(),
                    selection_roots(config.services.pairs(), views(targets@)),
                    x,
                ),
            Err(e) => e.exit_code == ExitCode::ConfigInvalid && (selection_roots(
                config.services.pairs(),
                views(targets@),
            ).len() > 0 ==> exists|x: Seq<char>|
                reaches(
                    config.services.pairs(),
                    selection_roots(config.services.pairs(), views(targets@)),
                    x,
                ) && !selectable(config.services.pairs(), x) && e.message@
                    == #[trigger] selection_error(config.services.pairs(), x)),
        },
{
    let ghost ps = config.services.pairs();
    let roots: Vec<String> = if targets.len() == 0 {
        let auto = autostart_names(config);
        if auto.len() == 0 {
            proof {
                reveal_strlit("configuration does not contain any autostart-enabled services");
            }
            return Err(
                AppError::config_invalid(
                    "configuration does not contain any autostart-enabled services".to_owned(),
                ),
            );
        }
        auto
    } else {
        crate::config::copy_strings(targets)
    };
    let ghost rs = views(roots@);
    proof {
        assert(rs == selection_roots(ps, views(targets@)));
    }
    let mut selected: NameMap<()> = NameMap::new();
    let m = roots.len();
    let mut i: usize = 0;
    while i < m
        invariant
            m == roots@.len(),
            rs == views(roots@),
            rs == selection_roots(config.services.pairs(), views(targets@)),
            ps == config.services.pairs(),
            acyclic_from(ps, rs),
            i <= m,
            closed_selection(ps, selected.pairs()),
            forall|x: Seq<char>| #[trigger] in_set(selected.pairs(), x) ==> reaches(ps, rs, x),
            forall|j: int| 0 <= j < i ==> in_set(selected.pairs(), #[trigger] rs[j]),
        decreases m - i,
    {
        let root = roots[i].as_str();
        proof {
            assert(rs[i as int] == root@);
            let p = Seq::<Seq<char>>::empty().push(root@);
            assert(p[0] == root@);
            assert(dep_path(ps, rs, p));
        }
        let ghost before = selected.pairs();
        match collect_with_dependencies(
            config,
            root,
            &mut selected,
            Ghost(rs),
            Ghost(Seq::<Seq<char>>::empty()),
        ) {
            Ok(()) => {},
            Err(e) => {
                proof {
                    let x = choose|x: Seq<char>|
                        reaches(ps, rs, x) && !selectable(ps, x) && e.message@
                            == #[trigger] selection_error(ps, x);
                    assert(reaches(ps, rs, x) && !selectable(ps, x));
                }
                return Err(e);
            },
        }
        proof {
            assert forall|j: int| 0 <= j < i + 1 implies in_set(selected.pairs(), #[trigger] rs[j]) by {
                if j < i {
                    assert(in_set(before, rs[j]));
                }
            }
        }
        i = i + 1;
    }
    proof {
        let sel = selected.pairs();
        assert forall|r: Seq<char>| rs.contains(r) implies in_set(sel, r) by {
            let j = choose|j: int| 0 <= j < rs.len() && rs[j] == r;
            assert(in_set(sel, rs[j]));
        }
        assert forall|x: Seq<char>| #[trigger] in_set(sel, x) <==> reaches(ps, rs, x) by {
            if reaches(ps, rs, x) {
                let p = choose|p: Seq<Seq<char>>| #[trigger] dep_path(ps, rs, p) && p.last() == x;
                lemma_closed_holds_reached(ps, rs, sel, p);
            }
        }
        assert forall|x: Seq<char>| #[trigger] reaches(ps, rs, x) implies selectable(ps, x) by {
            assert(in_set(sel, x));
        }
    }
    Ok(selected)
}

/// The message of a dependency cycle met while planning.
pub open spec fn planning_cycle_message(x: Seq<char>) -> Seq<char> {
    "dependency cycle detected while planning around `"@ + x + "`"@
}

/// Orders the selected services so that each comes after its dependencies.
pub fn topo_sort(config: &ProjectConfig, selected: &NameMap<()>) -> (r: AppResult<Vec<String>>)
    ensures
        distinct_names(selected.pairs()),
        sorted_names(selected.pairs()),
        acyclic(config.services.pairs(), names_of(selected.pairs())) ==> r is Ok,
        match r {
            Ok(order) => crate::graph::walk_ok(
                config.services.pairs(),
                names_of(selected.pairs()),
                views(order@),
            ),
            Err(e) => e.exit_code == ExitCode::ConfigInvalid && exists|x: Seq<char>|
                crate::graph::on_cycle(config.services.pairs(), names_of(selected.pairs()), x)
                    && e.message@ == #[trigger] planning_cycle_message(x),
        },
        match r {
            Ok(order) => dfs_scope(
                config.services.pairs(),
                names_of(selected.pairs()),
                selected.pairs().len() as int,
            ) == Ok::<Seq<Seq<char>>, Seq<char>>(views(order@)),
            Err(e) => dfs_scope(
                config.services.pairs(),
                names_of(selected.pairs()),
                selected.pairs().len() as int,
            ) matches Err(x) && e.message@ == planning_cycle_message(x),
        },
{
    let scope = selected.names();
    match crate::graph::walk_scope(&config.services, &scope) {
        Ok(order) => Ok(order),
        Err(x) => {
            proof {
                crate::validation::lemma_cycle_not_acyclic(
                    config.services.pairs(),
                    names_of(selected.pairs()),
                    x@,
                );
                reveal_strlit("dependency cycle detected while planning around `");
                reveal_strlit("`");
            }
            let e = AppError::config_invalid(
                concat3("dependency cycle detected while planning around `", x.as_str(), "`"),
            );
            proof {
                assert(e.message@ == planning_cycle_message(x@));
            }
            Err(e)
        },
    }
}

} // verus!

verus! {

/// Action `name` resolved against `root`.
pub open spec fn resolved_action_matches(
    ra: ResolvedActionConfig,
    name: Seq<char>,
    root: Seq<char>,
    a: ActionConfig,
) -> bool {
    &&& ra.name@ == name
    &&& ra.executable@ == a.executable@
    &&& ra.args@ == a.args@
    &&& ra.cwd@ == cwd_spec(root, a.cwd)
    &&& ra.env.pairs() == a.env.pairs()
    &&& ra.timeout_secs == a.timeout_secs
}

/// The resolved form of `acts` for name `x`: absent for unknown and
/// disabled actions.
pub open spec fn action_resolved_as(
    out: Seq<(Seq<char>, ResolvedActionConfig)>,
    acts: Seq<(Seq<char>, ActionConfig)>,
    root: Seq<char>,
    x: Seq<char>,
) -> bool {
    match lookup(acts, x) {
        Some(a) => if a.disabled == Some(true) {
            lookup(out, x) is None
        } else {
            lookup(out, x) matches Some(ra) && resolved_action_matches(ra, x, root, a)
        },
        None => lookup(out, x) is None,
    }
}

impl ProjectConfig {
    /// Every enabled action, resolved against `project_root`.
    pub fn resolve_actions(&self, project_root: &str) -> (r: AppResult<
        NameMap<ResolvedActionConfig>,
    >)
        ensures
            r matches Ok(out) && forall|x: Seq<char>|
                #![trigger lookup(out.pairs(), x)]
                #![trigger lookup(self.actions.pairs(), x)]
                action_resolved_as(out.pairs(), self.actions.pairs(), project_root@, x),
    {
        let ghost acts = self.actions.pairs();
        let mut out: NameMap<ResolvedActionConfig> = NameMap::new();
        let n = self.actions.len();
        let mut i: usize = 0;
        while i < n
            invariant
                n == acts.len(),
                acts == self.actions.pairs(),
                distinct_names(acts),
                i <= n,
                forall|j: int|
                    0 <= j < i ==> #[trigger] action_resolved_as(
                        out.pairs(),
                        acts,
                        project_root@,
                        acts[j].0,
                    ),
                forall|x: Seq<char>| #[trigger]
                    lookup(out.pairs(), x) is Some ==> exists|j: int|
                        0 <= j < i && #[trigger] acts[j].0 == x,
            decreases n - i,
        {
            let action = self.actions.value_at(i);
            let ghost before = out.pairs();
            proof {
                crate::name_map::lemma_distinct_lookup(acts, i as int);
            }
            if !action.is_disabled() {
                let name = self.actions.name_at(i);
                let resolved = ResolvedActionConfig {
                    name: name.clone(),
                    executable: action.executable.clone(),
                    args: copy_strings(&action.args),
                    cwd: resolve_cwd(project_root, &action.cwd),
                    env: copy_string_map(&action.env),
                    timeout_secs: action.timeout_secs,
                };
                out.insert(name.clone(), resolved);
            }
            proof {
                assert forall|j: int| 0 <= j < i + 1 implies #[trigger] action_resolved_as(
                    out.pairs(),
                    acts,
                    project_root@,
                    acts[j].0,
                ) by {
                    crate::name_map::lemma_distinct_lookup(acts, j);
                    if j < i {
                        assert(acts[j].0 != acts[i as int].0);
                        assert(action_resolved_as(before, acts, project_root@, acts[j].0));
                    }
                }
                assert forall|x: Seq<char>| #[trigger]
                    lookup(out.pairs(), x) is Some implies exists|j: int|
                        0 <= j < i + 1 && #[trigger] acts[j].0 == x by {
                    if x != acts[i as int].0 {
                        assert(lookup(before, x) is Some);
                        let j = choose|j: int| 0 <= j < i && #[trigger] acts[j].0 == x;
                        assert(0 <= j < i + 1 && acts[j].0 == x);
                    } else {
                        assert(acts[i as int].0 == x);
                    }
                }
            }
            i = i + 1;
        }
        proof {
            let ops = out.pairs();
            assert forall|x: Seq<char>|
                #![trigger lookup(ops, x)]
                #![trigger lookup(acts, x)]
                action_resolved_as(ops, acts, project_root@, x) by {
                crate::name_map::lemma_absent_iff(acts, x);
                match lookup_index(acts, x) {
                    Some(j) => {
                        assert(is_first(acts, x, j));
                        assert(action_resolved_as(ops, acts, project_root@, acts[j].0));
                    },
                    None => {
                        if lookup(ops, x) is Some {
                            let j = choose|j: int| 0 <= j < n && #[trigger] acts[j].0 == x;
                            assert(acts[j].0 == x);
                        }
                    },
                }
            }
        }
        Ok(out)
    }
}

} // verus!

verus! {

/// Everything a run needs, resolved against the project root.
#[derive(Debug)]
pub struct RunPlan {
    pub project_root: String,
    pub config_path: String,
    pub actions: NameMap<ResolvedActionConfig>,
    pub instance_log: Option<ResolvedLogConfig>,
    pub services: Vec<ResolvedServiceConfig>,
}

/// The names of resolved services, in order.
pub open spec fn service_order(services: Seq<ResolvedServiceConfig>) -> Seq<Seq<char>> {
    services.map_values(|s: ResolvedServiceConfig| s.name@)
}

/// `dn` lists exactly what `roots` reach, once each, every service after
/// its dependencies.
pub open spec fn start_order(
    ps: Seq<(Seq<char>, ServiceConfig)>,
    roots: Seq<Seq<char>>,
    dn: Seq<Seq<char>>,
) -> bool {
    &&& dn.no_duplicates()
    &&& forall|x: Seq<char>| #[trigger] dn.contains(x) <==> reaches(ps, roots, x)
    &&& forall|i: int, w: Seq<char>|
        0 <= i < dn.len() && #[trigger] deps_of(ps, dn[i]).contains(w) ==> dn.take(i).contains(w)
}

/// The top-level log resolved against `root`, as `resolve_project_log`
/// gives it.
pub open spec fn log_resolved_as(
    r: Option<ResolvedLogConfig>,
    root: Seq<char>,
    log: Option<LogConfig>,
) -> bool {
    match log {
        Some(l) => r matches Some(rl) && rl.file@ == join_spec(root, l.file@) && rl.append
            == l.append && rl.max_file_bytes == l.max_file_bytes && rl.overflow_strategy
            == l.overflow_strategy && rl.rotate_file_count == l.rotate_file_count,
        None => r is None,
    }
}

/// `plan` is the plan for a run from `roots` of the configuration at
/// `config_path`, whose directory is `root`.
pub open spec fn plan_matches(
    plan: RunPlan,
    config: ProjectConfig,
    config_path: Seq<char>,
    root: Seq<char>,
    roots: Seq<Seq<char>>,
) -> bool {
    &&& plan.project_root@ == root
    &&& plan.config_path@ == config_path
    &&& forall|x: Seq<char>|
        #![trigger lookup(plan.actions.pairs(), x)]
        #![trigger lookup(config.actions.pairs(), x)]
        action_resolved_as(plan.actions.pairs(), config.actions.pairs(), root, x)
    &&& log_resolved_as(plan.instance_log, root, config.log)
    &&& start_order(config.services.pairs(), roots, service_order(plan.services@))
    &&& forall|i: int|
        0 <= i < plan.services@.len() ==> (lookup(
            config.services.pairs(),
            #[trigger] plan.services@[i].name@,
        ) matches Some(s) && resolved_service_matches(
            plan.services@[i],
            config,
            plan.services@[i].name@,
            root,
            s,
        ))
}

/// The message when the configuration path has no directory part.
pub open spec fn no_parent_message() -> Seq<char> {
    "configuration file must have a parent directory"@
}

/// `sc` lists, in ascending order of their names, exactly the services
/// that `roots` reach.
pub open spec fn ascending_reach(
    ps: Seq<(Seq<char>, ServiceConfig)>,
    roots: Seq<Seq<char>>,
    sc: Seq<Seq<char>>,
) -> bool {
    &&& forall|i: int, j: int| 0 <= i < j < sc.len() ==> lex_lt(#[trigger] sc[i], #[trigger] sc[j])
    &&& forall|x: Seq<char>| #[trigger] sc.contains(x) <==> reaches(ps, roots, x)
}

/// Plans a run of the configuration at `config_path` (already made
/// canonical): the named services, or the autostarting ones, with their
/// dependencies, in start order, and every enabled action.
/// What planning the configuration at `config_path` for `targets` gives:
/// no directory part is an error; otherwise the plan succeeds exactly when
/// some service is chosen and every service it needs can run, and then
/// holds them in start order.
pub open spec fn planned(config: ProjectConfig, config_path: Seq<char>, targets: Seq<Seq<char>>, r: AppResult<RunPlan>) -> bool {
    &&& parent_spec(config_path) is None ==> (r matches Err(e) && e.exit_code
            == ExitCode::ConfigInvalid && e.message@ == no_parent_message())
    &&& parent_spec(config_path) is Some ==> ({
            let ps = config.services.pairs();
            let rs = selection_roots(ps, targets);
            &&& r is Ok <==> (rs.len() > 0 && forall|x: Seq<char>| #[trigger]
                reaches(ps, rs, x) ==> selectable(ps, x))
            &&& match r {
                Ok(plan) => plan_matches(plan, config, config_path, parent_spec(config_path)->0, rs)
                    && exists|sc: Seq<Seq<char>>|
                    #[trigger] ascending_reach(ps, rs, sc) && dfs_scope(ps, sc, sc.len() as int) == Ok::<
                        Seq<Seq<char>>,
                        Seq<char>,
                    >(service_order(plan.services@)),
                Err(e) => e.exit_code == ExitCode::ConfigInvalid && (rs.len() == 0 ==> e.message@
                    == no_autostart_message()) && (rs.len() > 0 ==> exists|x: Seq<char>|
                    reaches(ps, rs, x) && !selectable(ps, x) && e.message@
                        == #[trigger] selection_error(ps, x)),
            }
        })
}

pub fn build_run_plan(config: &ProjectConfig, config_path: &str, targets: &Vec<String>) -> (r:
    AppResult<RunPlan>)
    requires
        acyclic_from(config.services.pairs(), selection_roots(config.services.pairs(), views(targets@))),
    ensures
        planned(*config, config_path@, views(targets@), r),
{
    let ghost ps = config.services.pairs();
    let project_root = match parent(config_path) {
        Some(p) => p,
        None => {
            proof {
                reveal_strlit("configuration file must have a parent directory");
            }
            return Err(
                AppError::config_invalid(
                    "configuration file must have a parent directory".to_owned(),
                ),
            );
        },
    };
    let ghost rs = selection_roots(ps, views(targets@));
    let selected = match select_services(config, targets) {
        Ok(s) => s,
        Err(e) => {
            return Err(e);
        },
    };
    let ghost sel = selected.pairs();
    let topo = topo_sort(config, &selected);
    proof {
        assert forall|x: Seq<char>| names_of(sel).contains(x) implies names_of(ps).contains(x) by {
            lemma_named_iff_known(sel, x);
            assert(in_set(sel, x));
            assert(reaches(ps, rs, x));
            lemma_known_named(ps, x);
        }
        assert forall|c: Seq<Seq<char>>| !#[trigger] is_cycle(ps, names_of(sel), c) by {
            if is_cycle(ps, names_of(sel), c) {
                assert forall|i: int| 0 <= i < c.len() - 1 implies #[trigger] crate::graph::edge(
                    ps,
                    names_of(ps),
                    c[i],
                    c[i + 1],
                ) by {
                    assert(crate::graph::edge(ps, names_of(sel), c[i], c[i + 1]));
                }
                assert(crate::graph::edge(ps, names_of(sel), c.last(), c[0]));
                assert(forall|i: int| 0 <= i < c.len() ==> names_of(sel).contains(#[trigger] c[i]));
                assert(is_cycle(ps, names_of(ps), c));
                assert(names_of(sel).contains(c[0]));
                lemma_named_iff_known(sel, c[0]);
                assert(in_set(sel, c[0]));
            }
        }
    }
    let order = match topo {
        Ok(o) => o,
        Err(e) => {
            return Err(e);
        },
    };
    let ghost dn = views(order@);
    proof {
        assert forall|x: Seq<char>| #[trigger] dn.contains(x) <==> reaches(ps, rs, x) by {
            lemma_named_iff_known(sel, x);
            if reaches(ps, rs, x) {
                assert(in_set(sel, x));
            }
            if dn.contains(x) {
                assert(in_set(sel, x));
            }
        }
        assert forall|x: Seq<char>| #[trigger] dn.contains(x) implies selectable(ps, x) by {}
        assert forall|j: int, w: Seq<char>|
            0 <= j < dn.len() && #[trigger] deps_of(ps, dn[j]).contains(w) implies dn.take(
            j,
        ).contains(w) by {
            assert(dn.contains(dn[j]));
            lemma_reaches_dep(ps, rs, dn[j], w);
            lemma_named_iff_known(sel, w);
            assert(crate::graph::edge(ps, names_of(sel), dn[j], w));
        }
        assert(start_order(ps, rs, dn));
    }
    let actions = match config.resolve_actions(project_root.as_str()) {
        Ok(a) => a,
        Err(e) => {
            return Err(e);
        },
    };
    let instance_log = config.resolve_project_log(project_root.as_str());
    let mut services: Vec<ResolvedServiceConfig> = Vec::new();
    let n = order.len();
    let mut i: usize = 0;
    while i < n
        invariant
            n == order@.len(),
            dn == views(order@),
            ps == config.services.pairs(),
            forall|x: Seq<char>| #[trigger] dn.contains(x) ==> selectable(ps, x),
            i <= n,
            services@.len() == i,
            forall|j: int|
                0 <= j < i ==> (#[trigger] services@[j]).name@ == dn[j] && (lookup(
                    ps,
                    services@[j].name@,
                ) matches Some(s) && resolved_service_matches(
                    services@[j],
                    *config,
                    services@[j].name@,
                    project_root@,
                    s,
                )),
        decreases n - i,
    {
        proof {
            assert(dn.contains(dn[i as int]));
        }
        let resolved = match config.resolve_service(order[i].as_str(), project_root.as_str()) {
            Ok(s) => s,
            Err(e) => {
                return Err(e);
            },
        };
        services.push(resolved);
        i = i + 1;
    }
    let plan = RunPlan {
        project_root,
        config_path: config_path.to_owned(),
        actions,
        instance_log,
        services,
    };
    proof {
        assert(service_order(plan.services@) =~= dn);
        let sc = names_of(sel);
        assert forall|a: int, b: int| 0 <= a < b < sc.len() implies lex_lt(#[trigger] sc[a], #[trigger] sc[b]) by {
            assert(sc[a] == sel[a].0 && sc[b] == sel[b].0);
        }
        assert forall|x: Seq<char>| #[trigger] sc.contains(x) <==> reaches(ps, rs, x) by {
            lemma_named_iff_known(sel, x);
            if reaches(ps, rs, x) {
                assert(in_set(sel, x));
            }
        }
        assert(ascending_reach(ps, rs, sc));
        assert(dfs_scope(ps, sc, sc.len() as int) == Ok::<Seq<Seq<char>>, Seq<char>>(service_order(plan.services@)));
    }
    Ok(plan)
}

/// A walk from `rs` that lists every root in the configuration with
/// dependencies first leaves no cycle through a service that `rs` reach.
pub proof fn lemma_walk_leaves_no_reached_cycle(
    ps: Seq<(Seq<char>, ServiceConfig)>,
    rs: Seq<Seq<char>>,
    dn: Seq<Seq<char>>,
)
    requires
        dn.no_duplicates(),
        crate::graph::deps_first(ps, names_of(ps), dn),
        forall|x: Seq<char>| #[trigger] rs.contains(x) && names_of(ps).contains(x) ==> dn.contains(x),
    ensures
        acyclic_from(ps, rs),
{
    let sc = names_of(ps);
    assert forall|c: Seq<Seq<char>>| #[trigger] is_cycle(ps, sc, c) implies !reaches(ps, rs, c[0]) by {
        if reaches(ps, rs, c[0]) {
            let p = choose|p: Seq<Seq<char>>| #[trigger] dep_path(ps, rs, p) && p.last() == c[0];
            assert(sc.contains(c[0]));
            assert forall|i: int| 0 <= i < p.len() implies sc.contains(#[trigger] p[i]) by {
                if i < p.len() - 1 {
                    assert(deps_of(ps, p[i]).contains(p[i + 1]));
                    assert(lookup(ps, p[i]) is Some);
                    lemma_known_named(ps, p[i]);
                }
            }
            lemma_path_listed(ps, rs, dn, p, p.len() - 1);
            crate::graph::lemma_listed_off_cycles(ps, sc, dn, c);
        }
    }
}

proof fn lemma_path_listed(
    ps: Seq<(Seq<char>, ServiceConfig)>,
    rs: Seq<Seq<char>>,
    dn: Seq<Seq<char>>,
    p: Seq<Seq<char>>,
    k: int,
)
    requires
        crate::graph::deps_first(ps, names_of(ps), dn),
        forall|x: Seq<char>| #[trigger] rs.contains(x) && names_of(ps).contains(x) ==> dn.contains(x),
        dep_path(ps, rs, p),
        forall|i: int| 0 <= i < p.len() ==> names_of(ps).contains(#[trigger] p[i]),
        0 <= k < p.len(),
    ensures
        dn.contains(p[k]),
    decreases k,
{
    if k == 0 {
        assert(rs.contains(p[0]) && names_of(ps).contains(p[0]));
    } else {
        lemma_path_listed(ps, rs, dn, p, k - 1);
        let j = choose|j: int| 0 <= j < dn.len() && dn[j] == p[k - 1];
        let i = k - 1;
        assert(deps_of(ps, p[i]).contains(p[i + 1]));
        assert(names_of(ps).contains(p[k]));
        assert(crate::graph::edge(ps, names_of(ps), dn[j], p[k]));
        assert(dn.take(j).contains(p[k]));
        let q = choose|q: int| 0 <= q < dn.take(j).len() && dn.take(j)[q] == p[k];
        assert(dn[q] == p[k]);
    }
}

/// Plans a run as `build_run_plan` does when no dependency cycle passes
/// through a service that the run reaches; a cycle that it reaches gives
/// the planning error about a service on it.  Cycles elsewhere in the
/// configuration do not matter.
pub fn plan_run(config: &ProjectConfig, config_path: &str, targets: &Vec<String>) -> (r: AppResult<RunPlan>)
    ensures
        acyclic_from(config.services.pairs(), selection_roots(config.services.pairs(), views(targets@)))
            ==> planned(*config, config_path@, views(targets@), r),
        !acyclic_from(config.services.pairs(), selection_roots(config.services.pairs(), views(targets@)))
            ==> (r matches Err(e) && e.exit_code == ExitCode::ConfigInvalid && exists|x: Seq<char>|
            crate::graph::on_cycle(config.services.pairs(), names_of(config.services.pairs()), x)
                && reaches(
                config.services.pairs(),
                selection_roots(config.services.pairs(), views(targets@)),
                x,
            ) && e.message@ == #[trigger] planning_cycle_message(x)),
{
    let ghost ps = config.services.pairs();
    let roots = if targets.len() == 0 {
        autostart_names(config)
    } else {
        crate::config::copy_strings(targets)
    };
    let ghost rs = views(roots@);
    proof {
        assert(rs == selection_roots(ps, views(targets@)));
    }
    let names = config.services.names();
    match crate::graph::walk_from(&config.services, &names, &roots) {
        Ok(listed) => {
            proof {
                lemma_walk_leaves_no_reached_cycle(ps, rs, views(listed@));
            }
            build_run_plan(config, config_path, targets)
        },
        Err(x) => {
            proof {
                let c = choose|c: Seq<Seq<char>>| #[trigger] is_cycle(ps, names_of(ps), c) && c[0] == x@;
                assert(!acyclic_from(ps, rs));
            }
            let m = concat3("dependency cycle detected while planning around `", x.as_str(), "`");
            proof {
                reveal_strlit("dependency cycle detected while planning around `");
                reveal_strlit("`");
                assert(m@ == planning_cycle_message(x@));
            }
            Err(AppError::config_invalid(m))
        },
    }
}

} // verus!
