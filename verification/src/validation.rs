//! Checking a whole configuration: names, executables, logs, watch paths,
//! dependencies, hook references, placeholders and dependency cycles.

use vstd::prelude::*;

use crate::config::{
    hook_references, hook_supports, hook_text, is_valid_action_name, is_valid_service_name,
    log_config_problem, resolve_path, valid_action_name, valid_service_name, validate_log_config,
    ActionConfig, HookName, LogConfig, ProjectConfig, ServiceConfig, ServiceWatchConfig,
};
use crate::error::{AppError, AppResult, ExitCode};
use crate::graph::{acyclic, dfs_scope, is_cycle, on_cycle, walk_scope};
use crate::name_map::{lookup, names_of, NameMap};
use crate::paths::{holds_same_path, join, join_spec, parent, parent_spec, same_path_spec};
use crate::placeholders::{names_spec, placeholder_names};
use crate::text::{concat3, dec_digits, decimal, is_blank, is_blank_spec, views};

verus! {

/// What a watched path turned out to be on disk.
#[derive(Debug)]
pub enum PathStatus {
    /// Nothing exists at the path.
    Missing,
    File,
    Dir,
    Symlink,
    /// Something other than a file, a directory or a link.
    Other,
    /// The path exists but could not be inspected; the reason.
    Unreadable(String),
}

/// The status recorded for `p`, missing when none was recorded.
pub open spec fn status_of(probes: Seq<(Seq<char>, PathStatus)>, p: Seq<char>) -> PathStatus {
    match lookup(probes, p) {
        Some(s) => s,
        None => PathStatus::Missing,
    }
}

/// The directory that relative paths of a configuration at `path` start from.
pub open spec fn config_root_spec(path: Seq<char>) -> Seq<char> {
    match parent_spec(path) {
        Some(p) => p,
        None => "."@,
    }
}

/// The problem with watch path `i`, given that the earlier ones passed.
pub open spec fn watch_path_problem(
    owner: Seq<char>,
    paths: Seq<Seq<char>>,
    root: Seq<char>,
    probes: Seq<(Seq<char>, PathStatus)>,
    i: int,
) -> Option<Seq<char>> {
    let label = owner + " watch.paths["@ + dec_digits(i as nat) + "]"@;
    let resolved = join_spec(root, paths[i]);
    if paths[i].len() == 0 {
        Some(label + " must not be empty"@)
    } else {
        match status_of(probes, resolved) {
            PathStatus::Missing => Some(label + " resolved watch path does not exist: "@ + resolved),
            PathStatus::Unreadable(e) => Some(
                label + " failed to inspect "@ + resolved + ": "@ + e@,
            ),
            PathStatus::Other => Some(label + " must resolve to a file or directory: "@ + resolved),
            _ => if holds_same_path(paths.take(i).map_values(|p: Seq<char>| join_spec(root, p)), resolved) {
                Some(owner + " watch.paths contains duplicate resolved path: "@ + resolved)
            } else {
                None
            },
        }
    }
}

/// The first problem among the first `k` watch paths.
pub open spec fn first_watch_path_problem(
    owner: Seq<char>,
    paths: Seq<Seq<char>>,
    root: Seq<char>,
    probes: Seq<(Seq<char>, PathStatus)>,
    k: int,
) -> Option<Seq<char>>
    decreases k,
{
    if k <= 0 {
        None
    } else {
        match first_watch_path_problem(owner, paths, root, probes, k - 1) {
            Some(m) => Some(m),
            None => watch_path_problem(owner, paths, root, probes, k - 1),
        }
    }
}

/// What is wrong with a watch configuration, if anything.
pub open spec fn watch_problem(
    owner: Seq<char>,
    watch: ServiceWatchConfig,
    root: Seq<char>,
    probes: Seq<(Seq<char>, PathStatus)>,
) -> Option<Seq<char>> {
    if watch.paths@.len() == 0 {
        Some(owner + " watch.paths must be a non-empty array"@)
    } else if watch.debounce_ms == Some(0u64) {
        Some(owner + " watch.debounce_ms must be greater than 0"@)
    } else {
        first_watch_path_problem(owner, views(watch.paths@), root, probes, watch.paths@.len() as int)
    }
}

/// An optional message as a list of zero or one messages.
pub open spec fn opt_list(m: Option<Seq<char>>) -> Seq<Seq<char>> {
    match m {
        Some(x) => seq![x],
        None => Seq::empty(),
    }
}

/// The problems of action `name`.
pub open spec fn action_errors(name: Seq<char>, a: ActionConfig) -> Seq<Seq<char>> {
    (if valid_action_name(name) {
        Seq::empty()
    } else {
        seq!["action name `"@ + name + "` is invalid; use letters, digits, `_`, or `-`"@]
    }) + (if is_blank_spec(a.executable@) {
        seq!["action `"@ + name + "` must define a non-empty executable"@]
    } else {
        Seq::empty()
    }) + (if a.timeout_secs == Some(0u64) {
        seq!["action `"@ + name + "` timeout_secs must be greater than 0"@]
    } else {
        Seq::empty()
    }) + match names_spec(views(a.args@)) {
        Ok(_) => Seq::empty(),
        Err(e) => seq!["action `"@ + name + "` args "@ + e],
    }
}

/// The problems of the first `k` actions.
pub open spec fn actions_errors(ps: Seq<(Seq<char>, ActionConfig)>, k: int) -> Seq<Seq<char>>
    decreases k,
{
    if k <= 0 || k > ps.len() {
        Seq::empty()
    } else {
        actions_errors(ps, k - 1) + action_errors(ps[k - 1].0, ps[k - 1].1)
    }
}

/// The unknown dependencies among the first `k` of `deps`.
pub open spec fn unknown_dep_errors(
    name: Seq<char>,
    deps: Seq<Seq<char>>,
    services: Seq<(Seq<char>, ServiceConfig)>,
    k: int,
) -> Seq<Seq<char>>
    decreases k,
{
    if k <= 0 || k > deps.len() {
        Seq::empty()
    } else {
        unknown_dep_errors(name, deps, services, k - 1) + if lookup(services, deps[k - 1]) is Some {
            Seq::empty()
        } else {
            seq!["service `"@ + name + "` depends on unknown service `"@ + deps[k - 1] + "`"@]
        }
    }
}

/// The placeholders among the first `k` of `ns` that `hook` does not offer.
pub open spec fn unsupported_errors(
    name: Seq<char>,
    hook: HookName,
    action_name: Seq<char>,
    ns: Seq<(Seq<char>, ())>,
    k: int,
) -> Seq<Seq<char>>
    decreases k,
{
    if k <= 0 || k > ns.len() {
        Seq::empty()
    } else {
        unsupported_errors(name, hook, action_name, ns, k - 1) + if hook_supports(hook, ns[k - 1].0) {
            Seq::empty()
        } else {
            seq![
                "service `"@ + name + "` hook `"@ + hook_text(hook) + "` action `"@ + action_name
                    + "` cannot use placeholder `${"@ + ns[k - 1].0 + "}`"@,
            ]
        }
    }
}

/// The problems of one hook reference of service `name`.
pub open spec fn reference_errors(
    name: Seq<char>,
    hook: HookName,
    action_name: Seq<char>,
    actions: Seq<(Seq<char>, ActionConfig)>,
) -> Seq<Seq<char>> {
    match lookup(actions, action_name) {
        None => seq![
            "service `"@ + name + "` hook `"@ + hook_text(hook) + "` references unknown action `"@
                + action_name + "`"@,
        ],
        Some(a) => if a.disabled == Some(true) {
            seq![
                "service `"@ + name + "` hook `"@ + hook_text(hook)
                    + "` references disabled action `"@ + action_name + "`"@,
            ]
        } else {
            match names_spec(views(a.args@)) {
                Ok(ns) => unsupported_errors(name, hook, action_name, ns, ns.len() as int),
                Err(e) => seq!["action `"@ + action_name + "` args "@ + e],
            }
        },
    }
}

/// The problems of the first `k` hook references of service `name`.
pub open spec fn references_errors(
    name: Seq<char>,
    refs: Seq<(HookName, Seq<char>)>,
    actions: Seq<(Seq<char>, ActionConfig)>,
    k: int,
) -> Seq<Seq<char>>
    decreases k,
{
    if k <= 0 || k > refs.len() {
        Seq::empty()
    } else {
        references_errors(name, refs, actions, k - 1) + reference_errors(
            name,
            refs[k - 1].0,
            refs[k - 1].1,
            actions,
        )
    }
}

/// The owner label used in messages about service `name`.
pub open spec fn service_label(name: Seq<char>) -> Seq<char> {
    "service `"@ + name + "`"@
}

/// The name and executable problems of service `name`.
pub open spec fn service_head_errors(name: Seq<char>, s: ServiceConfig) -> Seq<Seq<char>> {
    (if valid_service_name(name) {
        Seq::empty()
    } else {
        seq![
            "service name `"@ + name
                + "` is invalid; use lowercase letters, digits, `_`, or `-`"@,
        ]
    }) + (if is_blank_spec(s.executable@) {
        seq!["service `"@ + name + "` must define a non-empty executable"@]
    } else {
        Seq::empty()
    })
}

/// The log problems of service `name`.
pub open spec fn service_log_errors(name: Seq<char>, s: ServiceConfig) -> Seq<Seq<char>> {
    match s.log {
        Some(l) => (if l.file@.len() == 0 {
            seq!["service `"@ + name + "` log.file must not be empty"@]
        } else {
            Seq::empty()
        }) + opt_list(log_config_problem(service_label(name), l)),
        None => Seq::empty(),
    }
}

/// The watch problems of service `name`.
pub open spec fn service_watch_errors(
    name: Seq<char>,
    s: ServiceConfig,
    root: Seq<char>,
    probes: Seq<(Seq<char>, PathStatus)>,
) -> Seq<Seq<char>> {
    match s.watch {
        Some(w) => opt_list(watch_problem(service_label(name), w, root, probes)),
        None => Seq::empty(),
    }
}

/// The problems of service `name`.
pub open spec fn service_errors(
    cfg: ProjectConfig,
    name: Seq<char>,
    s: ServiceConfig,
    root: Seq<char>,
    probes: Seq<(Seq<char>, PathStatus)>,
) -> Seq<Seq<char>> {
    service_head_errors(name, s) + service_log_errors(name, s) + service_watch_errors(
        name,
        s,
        root,
        probes,
    ) + unknown_dep_errors(name, views(s.depends_on@), cfg.services.pairs(), s.depends_on@.len() as int)
        + references_errors(
        name,
        hook_references(s.hooks),
        cfg.actions.pairs(),
        hook_references(s.hooks).len() as int,
    )
}

/// The problems of the first `k` services.
pub open spec fn services_errors(
    cfg: ProjectConfig,
    root: Seq<char>,
    probes: Seq<(Seq<char>, PathStatus)>,
    k: int,
) -> Seq<Seq<char>>
    decreases k,
{
    let ps = cfg.services.pairs();
    if k <= 0 || k > ps.len() {
        Seq::empty()
    } else {
        services_errors(cfg, root, probes, k - 1) + service_errors(
            cfg,
            ps[k - 1].0,
            ps[k - 1].1,
            root,
            probes,
        )
    }
}

/// Services among the first `k` whose log file is the top-level one.
pub open spec fn conflict_errors(
    ps: Seq<(Seq<char>, ServiceConfig)>,
    root: Seq<char>,
    top: Seq<char>,
    k: int,
) -> Seq<Seq<char>>
    decreases k,
{
    if k <= 0 || k > ps.len() {
        Seq::empty()
    } else {
        conflict_errors(ps, root, top, k - 1) + match ps[k - 1].1.log {
            Some(l) => if same_path_spec(join_spec(root, l.file@), top) {
                seq![
                    "top-level log.file conflicts with service `"@ + ps[k - 1].0 + "` log.file: "@
                        + join_spec(root, l.file@),
                ]
            } else {
                Seq::empty()
            },
            None => Seq::empty(),
        }
    }
}

/// Every problem of the configuration at `path` other than a dependency
/// cycle, in the order they are reported.
pub open spec fn base_errors(
    cfg: ProjectConfig,
    path: Seq<char>,
    probes: Seq<(Seq<char>, PathStatus)>,
) -> Seq<Seq<char>> {
    let root = config_root_spec(path);
    (if cfg.services.pairs().len() == 0 {
        seq!["configuration at "@ + path + " must define at least one service"@]
    } else {
        Seq::empty()
    }) + match cfg.log {
        Some(l) => (if l.file@.len() == 0 {
            seq!["top-level log.file must not be empty"@]
        } else {
            Seq::empty()
        }) + opt_list(log_config_problem("top-level"@, l)),
        None => Seq::empty(),
    } + actions_errors(cfg.actions.pairs(), cfg.actions.pairs().len() as int) + services_errors(
        cfg,
        root,
        probes,
        cfg.services.pairs().len() as int,
    ) + match cfg.log {
        Some(l) => conflict_errors(
            cfg.services.pairs(),
            root,
            join_spec(root, l.file@),
            cfg.services.pairs().len() as int,
        ),
        None => Seq::empty(),
    }
}

/// The message of a dependency cycle through service `name`.
pub open spec fn cycle_message(name: Seq<char>) -> Seq<char> {
    "dependency cycle detected around service `"@ + name + "`"@
}

/// The numbered lines after the first `k` errors.
pub open spec fn numbered(errors: Seq<Seq<char>>, k: int) -> Seq<char>
    decreases k,
{
    if k <= 0 || k > errors.len() {
        Seq::empty()
    } else {
        numbered(errors, k - 1) + "\n"@ + dec_digits(k as nat) + ". "@ + errors[k - 1]
    }
}

/// Several errors as one message: a lone error stands as it is, more are
/// counted and numbered.
pub open spec fn join_errors_spec(errors: Seq<Seq<char>>) -> Seq<char> {
    if errors.len() == 1 {
        errors[0]
    } else {
        "found "@ + dec_digits(errors.len()) + " configuration errors:"@ + numbered(
            errors,
            errors.len() as int,
        )
    }
}

/// Joins error messages into the single message that validation reports.
pub fn join_config_errors(errors: Vec<String>) -> (r: String)
    ensures
        r@ == join_errors_spec(views(errors@)),
{
    if errors.len() == 1 {
        return errors[0].clone();
    }
    let mut message = "found ".to_owned();
    let count = decimal(errors.len() as u64);
    message.append(count.as_str());
    message.append(" configuration errors:");
    let ghost head = message@;
    let n = errors.len();
    let mut i: usize = 0;
    while i < n
        invariant
            n == errors@.len(),
            i <= n,
            message@ == head + numbered(views(errors@), i as int),
        decreases n - i,
    {
        message.append("\n");
        let number = decimal((i + 1) as u64);
        message.append(number.as_str());
        message.append(". ");
        message.append(errors[i].as_str());
        i = i + 1;
    }
    message
}

/// The names of all services, in order.
pub fn service_names(config: &ProjectConfig) -> (r: Vec<String>)
    ensures
        views(r@) == names_of(config.services.pairs()),
        views(r@).no_duplicates(),
{
    let mut out: Vec<String> = Vec::new();
    let n = config.services.len();
    let mut i: usize = 0;
    while i < n
        invariant
            n == config.services.pairs().len(),
            i <= n,
            views(out@) == names_of(config.services.pairs()).take(i as int),
        decreases n - i,
    {
        let ghost prev = out@;
        let name = config.services.name_at(i).clone();
        out.push(name);
        proof {
            assert(views(out@) =~= views(prev).push(name@));
            assert(names_of(config.services.pairs()).take(i + 1) =~= names_of(
                config.services.pairs(),
            ).take(i as int).push(config.services.pairs()[i as int].0));
        }
        i = i + 1;
    }
    assert(names_of(config.services.pairs()).take(n as int) =~= names_of(
        config.services.pairs(),
    ));
    proof {
        let ps = config.services.pairs();
        assert forall|i: int, j: int|
            0 <= i < names_of(ps).len() && 0 <= j < names_of(ps).len() && i != j implies names_of(
            ps,
        )[i] != names_of(ps)[j] by {
            assert(ps[i].0 != ps[j].0);
        }
    }
    out
}

fn push_all(errors: &mut Vec<String>, more: Vec<String>)
    ensures
        views(final(errors)@) == views(old(errors)@) + views(more@),
{
    let n = more.len();
    let mut i: usize = 0;
    let ghost start = views(errors@);
    while i < n
        invariant
            n == more@.len(),
            i <= n,
            views(errors@) == start + views(more@).take(i as int),
        decreases n - i,
    {
        let ghost prev = errors@;
        let item = more[i].clone();
        errors.push(item);
        proof {
            assert(views(errors@) =~= views(prev).push(item@));
            assert(views(more@).take(i + 1) =~= views(more@).take(i as int).push(more@[i as int]@));
            assert(views(errors@) =~= start + views(more@).take(i + 1));
        }
        i = i + 1;
    }
    assert(views(more@).take(n as int) =~= views(more@));
}

fn build_action_errors(name: &str, action: &ActionConfig) -> (r: Vec<String>)
    ensures
        views(r@) == action_errors(name@, *action),
{
    let mut out: Vec<String> = Vec::new();
    if !is_valid_action_name(name) {
        out.push(concat3("action name `", name, "` is invalid; use letters, digits, `_`, or `-`"));
    }
    if is_blank(action.executable.as_str()) {
        out.push(concat3("action `", name, "` must define a non-empty executable"));
    }
    if action.timeout_secs == Some(0u64) {
        out.push(concat3("action `", name, "` timeout_secs must be greater than 0"));
    }
    match placeholder_names(&action.args) {
        Ok(_) => {},
        Err(error) => {
            let mut m = concat3("action `", name, "` args ");
            m.append(error.as_str());
            out.push(m);
        },
    }
    proof {
        assert(views(out@) =~= action_errors(name@, *action));
    }
    out
}

proof fn lemma_first_problem_stays(
    owner: Seq<char>,
    paths: Seq<Seq<char>>,
    root: Seq<char>,
    probes: Seq<(Seq<char>, PathStatus)>,
    i: int,
    n: int,
)
    requires
        0 <= i < n,
        first_watch_path_problem(owner, paths, root, probes, i) is None,
        watch_path_problem(owner, paths, root, probes, i) is Some,
    ensures
        first_watch_path_problem(owner, paths, root, probes, n) == watch_path_problem(
            owner,
            paths,
            root,
            probes,
            i,
        ),
    decreases n - i,
{
    if n > i + 1 {
        lemma_first_problem_stays(owner, paths, root, probes, i, n - 1);
    }
}

fn build_watch_problem(
    owner: &str,
    watch: &ServiceWatchConfig,
    root: &str,
    probes: &NameMap<PathStatus>,
) -> (r: Option<String>)
    ensures
        match watch_problem(owner@, *watch, root@, probes.pairs()) {
            Some(m) => r matches Some(x) && x@ == m,
            None => r is None,
        },
{
    if watch.paths.len() == 0 {
        return Some(crate::text::concat2(owner, " watch.paths must be a non-empty array"));
    }
    if watch.debounce_ms == Some(0u64) {
        return Some(crate::text::concat2(owner, " watch.debounce_ms must be greater than 0"));
    }
    let ghost paths = views(watch.paths@);
    let mut seen: Vec<String> = Vec::new();
    let n = watch.paths.len();
    let mut i: usize = 0;
    while i < n
        invariant
            n == watch.paths@.len(),
            n > 0,
            watch.debounce_ms != Some(0u64),
            paths == views(watch.paths@),
            i <= n,
            views(seen@) == paths.take(i as int).map_values(|p: Seq<char>| join_spec(root@, p)),
            first_watch_path_problem(owner@, paths, root@, probes.pairs(), i as int) is None,
        decreases n - i,
    {
        let p = watch.paths[i].as_str();
        let mut label = crate::text::concat2(owner, " watch.paths[");
        let digits = decimal(i as u64);
        label.append(digits.as_str());
        label.append("]");
        assert(paths[i as int] == p@);
        if p.unicode_len() == 0 {
            label.append(" must not be empty");
            proof {
                lemma_first_problem_stays(owner@, paths, root@, probes.pairs(), i as int, n as int);
            }
            return Some(label);
        }
        let resolved = resolve_path(root, p);
        match probes.get(resolved.as_str()) {
            None | Some(PathStatus::Missing) => {
                label.append(" resolved watch path does not exist: ");
                label.append(resolved.as_str());
                proof {
                    lemma_first_problem_stays(owner@, paths, root@, probes.pairs(), i as int, n as int);
                }
                return Some(label);
            },
            Some(PathStatus::Unreadable(e)) => {
                label.append(" failed to inspect ");
                label.append(resolved.as_str());
                label.append(": ");
                label.append(e.as_str());
                proof {
                    lemma_first_problem_stays(owner@, paths, root@, probes.pairs(), i as int, n as int);
                }
                return Some(label);
            },
            Some(PathStatus::Other) => {
                label.append(" must resolve to a file or directory: ");
                label.append(resolved.as_str());
                proof {
                    lemma_first_problem_stays(owner@, paths, root@, probes.pairs(), i as int, n as int);
                }
                return Some(label);
            },
            _ => {},
        }
        if crate::paths::contains_same_path(&seen, resolved.as_str()) {
            proof {
                lemma_first_problem_stays(owner@, paths, root@, probes.pairs(), i as int, n as int);
            }
            return Some(
                concat3(owner, " watch.paths contains duplicate resolved path: ", resolved.as_str()),
            );
        }
        let ghost prev = views(seen@);
        let ghost rv = resolved@;
        let ghost raw = seen@;
        seen.push(resolved);
        proof {
            assert(views(seen@) =~= views(raw).push(rv));
            assert(paths.take(i + 1) =~= paths.take(i as int).push(paths[i as int]));
            assert(paths.take(i + 1).map_values(|q: Seq<char>| join_spec(root@, q)) =~= paths.take(
                i as int,
            ).map_values(|q: Seq<char>| join_spec(root@, q)).push(rv));
            assert(views(seen@) =~= paths.take(i + 1).map_values(|q: Seq<char>| join_spec(root@, q)));
        }
        i = i + 1;
    }
    None
}

fn build_unknown_dep_errors(name: &str, deps: &Vec<String>, services: &NameMap<ServiceConfig>) -> (r:
    Vec<String>)
    ensures
        views(r@) == unknown_dep_errors(name@, views(deps@), services.pairs(), deps@.len() as int),
{
    let mut out: Vec<String> = Vec::new();
    let n = deps.len();
    let mut i: usize = 0;
    while i < n
        invariant
            n == deps@.len(),
            i <= n,
            views(out@) == unknown_dep_errors(name@, views(deps@), services.pairs(), i as int),
        decreases n - i,
    {
        if !services.contains_key(deps[i].as_str()) {
            let mut m = concat3("service `", name, "` depends on unknown service `");
            m.append(deps[i].as_str());
            m.append("`");
            let ghost prev = out@;
            out.push(m);
            proof {
                assert(views(out@) =~= views(prev).push(m@));
            }
        }
        proof {
            assert(views(deps@)[i as int] == deps@[i as int]@);
            assert(views(out@) =~= unknown_dep_errors(name@, views(deps@), services.pairs(), i + 1));
        }
        i = i + 1;
    }
    out
}

fn build_reference_errors(
    name: &str,
    hook: HookName,
    action_name: &str,
    actions: &NameMap<ActionConfig>,
) -> (r: Vec<String>)
    ensures
        views(r@) == reference_errors(name@, hook, action_name@, actions.pairs()),
{
    let mut out: Vec<String> = Vec::new();
    let action = match actions.get(action_name) {
        Some(a) => a,
        None => {
            let mut m = concat3("service `", name, "` hook `");
            m.append(hook.as_str());
            m.append("` references unknown action `");
            m.append(action_name);
            m.append("`");
            out.push(m);
            proof {
                assert(views(out@) =~= reference_errors(name@, hook, action_name@, actions.pairs()));
            }
            return out;
        },
    };
    if action.is_disabled() {
        let mut m = concat3("service `", name, "` hook `");
        m.append(hook.as_str());
        m.append("` references disabled action `");
        m.append(action_name);
        m.append("`");
        out.push(m);
        proof {
            assert(views(out@) =~= reference_errors(name@, hook, action_name@, actions.pairs()));
        }
        return out;
    }
    match placeholder_names(&action.args) {
        Err(error) => {
            let mut m = concat3("action `", action_name, "` args ");
            m.append(error.as_str());
            out.push(m);
            proof {
                assert(views(out@) =~= reference_errors(name@, hook, action_name@, actions.pairs()));
            }
            out
        },
        Ok(names) => {
            let ghost ns = names.pairs();
            let n = names.len();
            let mut i: usize = 0;
            while i < n
                invariant
                    n == ns.len(),
                    ns == names.pairs(),
                    i <= n,
                    views(out@) == unsupported_errors(name@, hook, action_name@, ns, i as int),
                decreases n - i,
            {
                let placeholder = names.name_at(i);
                if !hook.supports_placeholder(placeholder.as_str()) {
                    let mut m = concat3("service `", name, "` hook `");
                    m.append(hook.as_str());
                    m.append("` action `");
                    m.append(action_name);
                    m.append("` cannot use placeholder `${");
                    m.append(placeholder.as_str());
                    m.append("}`");
                    let ghost prev = out@;
                    out.push(m);
                    proof {
                        assert(views(out@) =~= views(prev).push(m@));
                    }
                }
                proof {
                    assert(views(out@) =~= unsupported_errors(name@, hook, action_name@, ns, i + 1));
                }
                i = i + 1;
            }
            out
        },
    }
}

fn build_service_head_errors(name: &str, service: &ServiceConfig) -> (r: Vec<String>)
    ensures
        views(r@) == service_head_errors(name@, *service),
{
    let mut out: Vec<String> = Vec::new();
    if !is_valid_service_name(name) {
        out.push(
            concat3(
                "service name `",
                name,
                "` is invalid; use lowercase letters, digits, `_`, or `-`",
            ),
        );
    }
    if is_blank(service.executable.as_str()) {
        out.push(concat3("service `", name, "` must define a non-empty executable"));
    }
    proof {
        assert(views(out@) =~= service_head_errors(name@, *service));
    }
    out
}

fn build_service_log_errors(name: &str, service: &ServiceConfig) -> (r: Vec<String>)
    ensures
        views(r@) == service_log_errors(name@, *service),
{
    let mut out: Vec<String> = Vec::new();
    let label = concat3("service `", name, "`");
    match &service.log {
        Some(log) => {
            if log.file.unicode_len() == 0 {
                out.push(concat3("service `", name, "` log.file must not be empty"));
            }
            match validate_log_config(label.as_str(), log) {
                Ok(()) => {},
                Err(error) => {
                    out.push(error.message);
                },
            }
        },
        None => {},
    }
    proof {
        assert(views(out@) =~= service_log_errors(name@, *service));
    }
    out
}

fn build_service_watch_errors(
    name: &str,
    service: &ServiceConfig,
    root: &str,
    probes: &NameMap<PathStatus>,
) -> (r: Vec<String>)
    ensures
        views(r@) == service_watch_errors(name@, *service, root@, probes.pairs()),
{
    let mut out: Vec<String> = Vec::new();
    let label = concat3("service `", name, "`");
    match &service.watch {
        Some(watch) => {
            match build_watch_problem(label.as_str(), watch, root, probes) {
                Some(m) => out.push(m),
                None => {},
            }
        },
        None => {},
    }
    proof {
        assert(views(out@) =~= service_watch_errors(name@, *service, root@, probes.pairs()));
    }
    out
}

fn build_references_errors(name: &str, hooks: &crate::config::ServiceHooksConfig, actions: &NameMap<
    ActionConfig,
>) -> (r: Vec<String>)
    ensures
        views(r@) == references_errors(
            name@,
            hook_references(*hooks),
            actions.pairs(),
            hook_references(*hooks).len() as int,
        ),
{
    let mut out: Vec<String> = Vec::new();
    let refs = hooks.references();
    let ghost rs = hook_references(*hooks);
    let n = refs.len();
    let mut i: usize = 0;
    proof {
        assert(views(out@) =~= Seq::<Seq<char>>::empty());
        assert(refs@.map_values(|e: (HookName, String)| (e.0, e.1@)).len() == n);
    }
    while i < n
        invariant
            n == refs@.len(),
            refs@.map_values(|e: (HookName, String)| (e.0, e.1@)) == rs,
            rs.len() == n,
            i <= n,
            views(out@) == references_errors(name@, rs, actions.pairs(), i as int),
        decreases n - i,
    {
        let hook = refs[i].0;
        let action_name = refs[i].1.as_str();
        proof {
            assert(rs[i as int] == (hook, action_name@));
        }
        let more = build_reference_errors(name, hook, action_name, actions);
        push_all(&mut out, more);
        i = i + 1;
    }
    out
}

fn build_service_errors(
    config: &ProjectConfig,
    name: &str,
    service: &ServiceConfig,
    root: &str,
    probes: &NameMap<PathStatus>,
) -> (r: Vec<String>)
    ensures
        views(r@) == service_errors(*config, name@, *service, root@, probes.pairs()),
{
    let mut out = build_service_head_errors(name, service);
    push_all(&mut out, build_service_log_errors(name, service));
    push_all(&mut out, build_service_watch_errors(name, service, root, probes));
    push_all(&mut out, build_unknown_dep_errors(name, &service.depends_on, &config.services));
    push_all(&mut out, build_references_errors(name, &service.hooks, &config.actions));
    out
}

/// The problems of the configuration other than a dependency cycle.
fn collect_base_errors(
    config: &ProjectConfig,
    path: &str,
    root: &str,
    probes: &NameMap<PathStatus>,
) -> (r: Vec<String>)
    requires
        root@ == config_root_spec(path@),
    ensures
        views(r@) == base_errors(*config, path@, probes.pairs()),
{
    let mut errors: Vec<String> = Vec::new();
    if config.services.is_empty() {
        errors.push(concat3("configuration at ", path, " must define at least one service"));
    }
    match &config.log {
        Some(log) => {
            if log.file.unicode_len() == 0 {
                errors.push("top-level log.file must not be empty".to_owned());
            }
            match validate_log_config("top-level", log) {
                Ok(()) => {},
                Err(error) => errors.push(error.message),
            }
        },
        None => {},
    }
    let ghost head = views(errors@);
    let na = config.actions.len();
    let mut i: usize = 0;
    while i < na
        invariant
            na == config.actions.pairs().len(),
            i <= na,
            views(errors@) == head + actions_errors(config.actions.pairs(), i as int),
        decreases na - i,
    {
        let more = build_action_errors(config.actions.name_at(i).as_str(), config.actions.value_at(i));
        push_all(&mut errors, more);
        proof {
            assert(views(errors@) =~= head + actions_errors(config.actions.pairs(), i + 1));
        }
        i = i + 1;
    }
    let ghost after_actions = views(errors@);
    let ns = config.services.len();
    let mut j: usize = 0;
    while j < ns
        invariant
            ns == config.services.pairs().len(),
            root@ == config_root_spec(path@),
            j <= ns,
            views(errors@) == after_actions + services_errors(*config, root@, probes.pairs(), j as int),
        decreases ns - j,
    {
        let more = build_service_errors(
            config,
            config.services.name_at(j).as_str(),
            config.services.value_at(j),
            root,
            probes,
        );
        push_all(&mut errors, more);
        proof {
            assert(views(errors@) =~= after_actions + services_errors(
                *config,
                root@,
                probes.pairs(),
                j + 1,
            ));
        }
        j = j + 1;
    }
    let ghost after_services = views(errors@);
    match &config.log {
        Some(top) => {
            let top_path = resolve_path(root, top.file.as_str());
            let mut k: usize = 0;
            while k < ns
                invariant
                    ns == config.services.pairs().len(),
                    k <= ns,
                    views(errors@) == after_services + conflict_errors(
                        config.services.pairs(),
                        root@,
                        top_path@,
                        k as int,
                    ),
                decreases ns - k,
            {
                let service = config.services.value_at(k);
                let ghost prev = errors@;
                match &service.log {
                    Some(log) => {
                        let service_path = resolve_path(root, log.file.as_str());
                        if crate::paths::same_path(service_path.as_str(), top_path.as_str()) {
                            let mut m = concat3(
                                "top-level log.file conflicts with service `",
                                config.services.name_at(k).as_str(),
                                "` log.file: ",
                            );
                            m.append(service_path.as_str());
                            errors.push(m);
                            proof {
                                assert(views(errors@) =~= views(prev).push(m@));
                            }
                        }
                    },
                    None => {},
                }
                proof {
                    assert(views(errors@) =~= after_services + conflict_errors(
                        config.services.pairs(),
                        root@,
                        top_path@,
                        k + 1,
                    ));
                }
                k = k + 1;
            }
        },
        None => {},
    }
    proof {
        assert(views(errors@) =~= base_errors(*config, path@, probes.pairs()));
    }
    errors
}

} // verus!

verus! {

/// The services of a configuration: the whole scope of cycle checking.
pub open spec fn all_service_names(cfg: ProjectConfig) -> Seq<Seq<char>> {
    names_of(cfg.services.pairs())
}

/// A service on a cycle rules out acyclicity.
pub proof fn lemma_cycle_not_acyclic(
    ps: Seq<(Seq<char>, ServiceConfig)>,
    sc: Seq<Seq<char>>,
    x: Seq<char>,
)
    requires
        on_cycle(ps, sc, x),
    ensures
        !acyclic(ps, sc),
{
    let c = choose|c: Seq<Seq<char>>| #[trigger] is_cycle(ps, sc, c) && c[0] == x;
    assert(is_cycle(ps, sc, c));
}

/// The resolved watch paths of the first `k` services.
pub open spec fn watch_paths_upto(
    ps: Seq<(Seq<char>, ServiceConfig)>,
    root: Seq<char>,
    k: int,
) -> Seq<Seq<char>>
    decreases k,
{
    if k <= 0 || k > ps.len() {
        Seq::empty()
    } else {
        watch_paths_upto(ps, root, k - 1) + match ps[k - 1].1.watch {
            Some(w) => views(w.paths@).map_values(|p: Seq<char>| join_spec(root, p)),
            None => Seq::empty(),
        }
    }
}

impl ProjectConfig {
    /// Checks the configuration read from `path`, given what each watched
    /// path turned out to be on disk.  Every problem is reported, numbered
    /// when there are several; a dependency cycle is reported last.  A
    /// dependency on an unknown service is one of the reported problems, and
    /// cannot lie on a cycle.
    pub fn validate(&self, path: &str, probes: &NameMap<PathStatus>) -> (r: AppResult<()>)
        ensures
            r is Ok <==> (base_errors(*self, path@, probes.pairs()).len() == 0 && acyclic(
                self.services.pairs(),
                all_service_names(*self),
            )),
            match r {
                Ok(()) => true,
                Err(e) => {
                    &&& e.exit_code == ExitCode::ConfigInvalid
                    &&& acyclic(self.services.pairs(), all_service_names(*self)) ==> e.message@
                        == join_errors_spec(base_errors(*self, path@, probes.pairs()))
                    &&& !acyclic(self.services.pairs(), all_service_names(*self)) ==> exists|
                        n: Seq<char>,
                    |
                        on_cycle(self.services.pairs(), all_service_names(*self), n)
                            && e.message@ == join_errors_spec(
                            #[trigger] base_errors(*self, path@, probes.pairs()).push(
                                cycle_message(n),
                            ),
                        )
                    &&& !acyclic(self.services.pairs(), all_service_names(*self)) ==> (dfs_scope(
                        self.services.pairs(),
                        all_service_names(*self),
                        self.services.pairs().len() as int,
                    ) matches Err(n) && e.message@ == join_errors_spec(
                        base_errors(*self, path@, probes.pairs()).push(cycle_message(n)),
                    ))
                },
            },
    {
        let root: String = match parent(path) {
            Some(p) => p,
            None => ".".to_owned(),
        };
        proof {
            reveal_strlit(".");
        }
        let mut errors = collect_base_errors(self, path, root.as_str(), probes);
        let ghost base = views(errors@);
        let names = service_names(self);
        match walk_scope(&self.services, &names) {
            Ok(_) => {},
            Err(x) => {
                proof {
                    lemma_cycle_not_acyclic(self.services.pairs(), all_service_names(*self), x@);
                }
                let message = concat3("dependency cycle detected around service `", x.as_str(), "`");
                errors.push(message);
                proof {
                    reveal_strlit("dependency cycle detected around service `");
                    reveal_strlit("`");
                    assert(views(errors@) =~= base.push(cycle_message(x@)));
                }
            },
        }
        if errors.len() == 0 {
            return Ok(());
        }
        Err(AppError::config_invalid(join_config_errors(errors)))
    }

    /// The resolved paths of every watched path, for the caller to inspect
    /// on disk before validating.
    pub fn watch_probe_paths(&self, path: &str) -> (r: Vec<String>)
        ensures
            views(r@) == watch_paths_upto(
                self.services.pairs(),
                config_root_spec(path@),
                self.services.pairs().len() as int,
            ),
    {
        let root: String = match parent(path) {
            Some(p) => p,
            None => ".".to_owned(),
        };
        proof {
            reveal_strlit(".");
        }
        let ghost ps = self.services.pairs();
        let mut out: Vec<String> = Vec::new();
        let n = self.services.len();
        let mut i: usize = 0;
        while i < n
            invariant
                n == ps.len(),
                ps == self.services.pairs(),
                root@ == config_root_spec(path@),
                i <= n,
                views(out@) == watch_paths_upto(ps, root@, i as int),
            decreases n - i,
        {
            let ghost before = views(out@);
            match &self.services.value_at(i).watch {
                Some(w) => {
                    let m = w.paths.len();
                    let mut j: usize = 0;
                    while j < m
                        invariant
                            m == w.paths@.len(),
                            j <= m,
                            views(out@) == before + views(w.paths@).map_values(
                                |p: Seq<char>| join_spec(root@, p),
                            ).take(j as int),
                        decreases m - j,
                    {
                        let ghost prev = out@;
                        let p = join(root.as_str(), w.paths[j].as_str());
                        out.push(p);
                        proof {
                            assert(views(out@) =~= views(prev).push(p@));
                            assert(views(w.paths@).map_values(|p: Seq<char>| join_spec(root@, p)).take(
                                j + 1,
                            ) =~= views(w.paths@).map_values(|p: Seq<char>| join_spec(root@, p)).take(
                                j as int,
                            ).push(join_spec(root@, w.paths@[j as int]@)));
                        }
                        j = j + 1;
                    }
                    proof {
                        assert(views(w.paths@).map_values(|p: Seq<char>| join_spec(root@, p)).take(
                            m as int,
                        ) =~= views(w.paths@).map_values(|p: Seq<char>| join_spec(root@, p)));
                    }
                },
                None => {},
            }
            proof {
                assert(views(out@) =~= watch_paths_upto(ps, root@, i + 1));
            }
            i = i + 1;
        }
        out
    }
}

} // verus!
