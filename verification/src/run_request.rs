//! A single-target run request: which service or action to run, which hooks
//! a service run takes along, and the context a standalone action sees.

use vstd::prelude::*;

use crate::cli::{KeyValueArg, RunArgs};
use crate::config::{
    all_hooks, copy_string_map, cwd_spec, hook_from_text, known_placeholder, ActionRenderContext,
    HookName, PreparedActionExecution, ProjectConfig, ResolvedActionConfig,
};
use crate::error::{AppError, AppResult, ExitCode};
use crate::name_map::{insert_spec, lookup, NameMap};
use crate::placeholders::{prepare_outcome, text_pairs};
use crate::text::{concat2, concat3, join, join_spec, views};

verus! {

/// Which hooks a single-service run performs.
#[derive(Debug, Clone, PartialEq, Eq)]
pub enum HookSelection {
    /// No hook runs.
    NoHooks,
    /// Every hook runs.
    All,
    /// The chosen hooks, each once, in lifecycle order.
    Selected(Vec<HookName>),
}

/// What a single run runs.
#[derive(Debug)]
pub enum RunTarget {
    Service { service_name: String, hook_selection: HookSelection },
    Action { action_name: String, args: NameMap<String> },
}

/// A request to run one service or one action.
#[derive(Debug)]
pub struct SingleRunRequest {
    pub target: RunTarget,
}

/// Whether selection `sel` runs hook `hook`.
pub open spec fn selection_allows(sel: HookSelection, hook: HookName) -> bool {
    match sel {
        HookSelection::NoHooks => false,
        HookSelection::All => true,
        HookSelection::Selected(v) => v@.contains(hook),
    }
}

impl HookSelection {
    /// Whether hook `hook` runs.
    pub fn allows(&self, hook: HookName) -> (r: bool)
        ensures
            r == selection_allows(*self, hook),
    {
        match self {
            HookSelection::NoHooks => false,
            HookSelection::All => true,
            HookSelection::Selected(selected) => {
                let n = selected.len();
                let mut i: usize = 0;
                while i < n
                    invariant
                        n == selected@.len(),
                        *self == HookSelection::Selected(*selected),
                        i <= n,
                        forall|j: int| 0 <= j < i ==> selected@[j] != hook,
                    decreases n - i,
                {
                    if selected[i] == hook {
                        proof {
                            assert(selected@[i as int] == hook);
                        }
                        return true;
                    }
                    i = i + 1;
                }
                false
            },
        }
    }
}

/// Hook `h` is named among `hooks`.
pub open spec fn requested(hooks: Seq<Seq<char>>, h: HookName) -> bool {
    exists|k: int| 0 <= k < hooks.len() && hook_from_text(#[trigger] hooks[k]) == Some(h)
}

/// The requested hooks among the first `k` of the lifecycle, in order.
pub open spec fn chosen_upto(hooks: Seq<Seq<char>>, k: int) -> Seq<HookName>
    decreases k,
{
    if k <= 0 || k > 8 {
        Seq::empty()
    } else {
        chosen_upto(hooks, k - 1) + if requested(hooks, all_hooks()[k - 1]) {
            seq![all_hooks()[k - 1]]
        } else {
            Seq::empty()
        }
    }
}

/// The index of the first name that is not a hook, if any.
pub open spec fn first_unknown_hook(hooks: Seq<Seq<char>>) -> Option<int> {
    if exists|k: int| 0 <= k < hooks.len() && hook_from_text(#[trigger] hooks[k]) is None {
        Some(
            choose|k: int|
                0 <= k < hooks.len() && hook_from_text(#[trigger] hooks[k]) is None && forall|
                    j: int,
                | 0 <= j < k ==> hook_from_text(#[trigger] hooks[j]) is Some,
        )
    } else {
        None
    }
}

/// The message for a name that is not a hook.
pub open spec fn unknown_hook_message(name: Seq<char>) -> Seq<char> {
    "unknown hook `"@ + name
        + "`; expected one of: before_start, after_start_success, after_start_failure, before_stop, after_stop_success, after_stop_timeout, after_stop_failure, after_runtime_exit_unexpected"@
}

impl HookSelection {
    /// The hooks chosen by the flags of a service run.
    pub fn from_args(with_all_hooks: bool, without_hooks: bool, hooks: Vec<String>) -> (r:
        AppResult<Self>)
        ensures
            match hook_flags_error(with_all_hooks, without_hooks, views(hooks@)) {
                Some(m) => r matches Err(e) && e.exit_code == ExitCode::ConfigInvalid && e.message@
                    == m,
                None => r matches Ok(s) && selection_for(
                    s,
                    with_all_hooks,
                    without_hooks,
                    views(hooks@),
                ),
            },
    {
        if with_all_hooks {
            return Ok(HookSelection::All);
        }
        if without_hooks || hooks.len() == 0 {
            return Ok(HookSelection::NoHooks);
        }
        let ghost hs = views(hooks@);
        let n = hooks.len();
        let mut i: usize = 0;
        while i < n
            invariant
                n == hs.len(),
                hs == views(hooks@),
                !with_all_hooks,
                !without_hooks,
                n > 0,
                i <= n,
                forall|j: int| 0 <= j < i ==> hook_from_text(#[trigger] hs[j]) is Some,
            decreases n - i,
        {
            match HookName::parse(hooks[i].as_str()) {
                Some(_) => {},
                None => {
                    proof {
                        assert(hook_from_text(hs[i as int]) is None);
                        assert(0 <= i < hs.len() && hook_from_text(hs[i as int]) is None && forall|
                            j: int,
                        | 0 <= j < i ==> hook_from_text(#[trigger] hs[j]) is Some);
                        let c = choose|k: int|
                            0 <= k < hs.len() && hook_from_text(#[trigger] hs[k]) is None
                                && forall|j: int|
                                0 <= j < k ==> hook_from_text(#[trigger] hs[j]) is Some;
                        assert(c == i) by {
                            if c < i {
                                assert(hook_from_text(hs[c]) is Some);
                            } else if c > i {
                                assert(hook_from_text(hs[i as int]) is Some);
                            }
                        }
                        assert(first_unknown_hook(hs) == Some(i as int));
                        assert(hs[i as int] == hooks@[i as int]@);
                        reveal_strlit("unknown hook `");
                        reveal_strlit(
                            "`; expected one of: before_start, after_start_success, after_start_failure, before_stop, after_stop_success, after_stop_timeout, after_stop_failure, after_runtime_exit_unexpected",
                        );
                    }
                    return Err(
                        AppError::config_invalid(
                            concat3(
                                "unknown hook `",
                                hooks[i].as_str(),
                                "`; expected one of: before_start, after_start_success, after_start_failure, before_stop, after_stop_success, after_stop_timeout, after_stop_failure, after_runtime_exit_unexpected",
                            ),
                        ),
                    );
                },
            }
            i = i + 1;
        }
        let all = HookName::all();
        let mut selected: Vec<HookName> = Vec::new();
        let mut k: usize = 0;
        while k < 8
            invariant
                n == hs.len(),
                hs == views(hooks@),
                !with_all_hooks,
                !without_hooks,
                n > 0,
                forall|j: int| 0 <= j < n ==> hook_from_text(#[trigger] hs[j]) is Some,
                all@ == all_hooks(),
                k <= 8,
                selected@ == chosen_upto(hs, k as int),
            decreases 8 - k,
        {
            let h = all[k];
            let mut wanted = false;
            let mut j: usize = 0;
            while j < n
                invariant
                    n == hs.len(),
                    hs == views(hooks@),
                    j <= n,
                    wanted == exists|m: int| 0 <= m < j && hook_from_text(#[trigger] hs[m]) == Some(h),
                decreases n - j,
            {
                let parsed = HookName::parse(hooks[j].as_str());
                proof {
                    assert(hs[j as int] == hooks@[j as int]@);
                }
                if parsed == Some(h) {
                    wanted = true;
                }
                proof {
                    if wanted {
                        if parsed == Some(h) {
                            assert(hook_from_text(hs[j as int]) == Some(h));
                        }
                    }
                    if exists|m: int| 0 <= m < j + 1 && hook_from_text(#[trigger] hs[m]) == Some(h) {
                        let m = choose|m: int|
                            0 <= m < j + 1 && hook_from_text(#[trigger] hs[m]) == Some(h);
                        if m < j {
                            assert(wanted);
                        }
                    }
                }
                j = j + 1;
            }
            proof {
                assert(all_hooks()[k as int] == h);
            }
            if wanted {
                selected.push(h);
            }
            proof {
                assert(selected@ =~= chosen_upto(hs, k + 1));
            }
            k = k + 1;
        }
        Ok(HookSelection::Selected(selected))
    }
}

/// The overrides given by `args`, later ones winning.
pub open spec fn args_map(args: Seq<KeyValueArg>, k: int) -> Seq<(Seq<char>, String)>
    decreases k,
{
    if k <= 0 || k > args.len() {
        Seq::empty()
    } else {
        insert_spec(args_map(args, k - 1), args[k - 1].key@, args[k - 1].value)
    }
}

/// The index of the first argument whose key is not a placeholder name.
pub open spec fn first_unknown_arg(args: Seq<KeyValueArg>) -> Option<int> {
    if exists|k: int| 0 <= k < args.len() && !known_placeholder(#[trigger] args[k].key@) {
        Some(
            choose|k: int|
                0 <= k < args.len() && !known_placeholder(#[trigger] args[k].key@) && forall|
                    j: int,
                | 0 <= j < k ==> known_placeholder(#[trigger] args[j].key@),
        )
    } else {
        None
    }
}

/// Collects the `--arg` overrides of a standalone action run; every key
/// must name a placeholder.
pub fn collect_standalone_action_args(args: Vec<KeyValueArg>) -> (r: AppResult<NameMap<String>>)
    ensures
        match first_unknown_arg(args@) {
            Some(k) => r matches Err(e) && e.exit_code == ExitCode::ConfigInvalid && e.message@
                == "unknown standalone action arg `"@ + args@[k].key@ + "`"@,
            None => r matches Ok(m) && m.pairs() == args_map(args@, args@.len() as int),
        },
{
    let mut collected: NameMap<String> = NameMap::new();
    let n = args.len();
    let mut i: usize = 0;
    while i < n
        invariant
            n == args@.len(),
            i <= n,
            forall|j: int| 0 <= j < i ==> known_placeholder(#[trigger] args@[j].key@),
            collected.pairs() == args_map(args@, i as int),
        decreases n - i,
    {
        let item = &args[i];
        if !crate::config::is_known_placeholder_name(item.key.as_str()) {
            proof {
                let c = choose|k: int|
                    0 <= k < args@.len() && !known_placeholder(#[trigger] args@[k].key@) && forall|
                        j: int,
                    | 0 <= j < k ==> known_placeholder(#[trigger] args@[j].key@);
                assert(c == i) by {
                    if c < i {
                        assert(known_placeholder(args@[c].key@));
                    } else if c > i {
                        assert(known_placeholder(args@[i as int].key@));
                    }
                }
                reveal_strlit("unknown standalone action arg `");
                reveal_strlit("`");
            }
            return Err(
                AppError::config_invalid(
                    concat3("unknown standalone action arg `", item.key.as_str(), "`"),
                ),
            );
        }
        collected.insert(item.key.clone(), item.value.clone());
        i = i + 1;
    }
    Ok(collected)
}

/// The message when a run names neither or both of a service and an action.
pub open spec fn run_target_message() -> Seq<char> {
    "run command requires exactly one of `--service` or `--action`"@
}

impl SingleRunRequest {
    /// The request described by the arguments of `run`.
    pub fn from_args(args: RunArgs) -> (r: AppResult<Self>)
        ensures
            match (args.service, args.action) {
                (Some(s), None) => match hook_flags_error(
                    args.with_all_hooks,
                    args.without_hooks,
                    views(args.hook@),
                ) {
                    None => r matches Ok(req) && req.target matches RunTarget::Service {
                        service_name,
                        hook_selection,
                    } && service_name@ == s@ && selection_for(
                        hook_selection,
                        args.with_all_hooks,
                        args.without_hooks,
                        views(args.hook@),
                    ),
                    Some(m) => r matches Err(e) && e.exit_code == ExitCode::ConfigInvalid
                        && e.message@ == m,
                },
                (None, Some(a)) => match first_unknown_arg(args.args@) {
                    Some(k) => r matches Err(e) && e.exit_code == ExitCode::ConfigInvalid
                        && e.message@ == "unknown standalone action arg `"@ + args.args@[k].key@
                        + "`"@,
                    None => r matches Ok(req) && req.target matches RunTarget::Action {
                        action_name,
                        args: m,
                    } && action_name@ == a@ && m.pairs() == args_map(
                        args.args@,
                        args.args@.len() as int,
                    ),
                },
                _ => r matches Err(e) && e.exit_code == ExitCode::ConfigInvalid && e.message@
                    == run_target_message(),
            },
    {
        match (args.service, args.action) {
            (Some(service_name), None) => {
                let hook_selection = match HookSelection::from_args(
                    args.with_all_hooks,
                    args.without_hooks,
                    args.hook,
                ) {
                    Ok(s) => s,
                    Err(e) => {
                        return Err(e);
                    },
                };
                Ok(SingleRunRequest { target: RunTarget::Service { service_name, hook_selection } })
            },
            (None, Some(action_name)) => {
                let collected = match collect_standalone_action_args(args.args) {
                    Ok(m) => m,
                    Err(e) => {
                        return Err(e);
                    },
                };
                Ok(SingleRunRequest { target: RunTarget::Action { action_name, args: collected } })
            },
            _ => {
                proof {
                    reveal_strlit("run command requires exactly one of `--service` or `--action`");
                }
                Err(
                    AppError::config_invalid(
                        "run command requires exactly one of `--service` or `--action`".to_owned(),
                    ),
                )
            },
        }
    }
}

/// The error, if any, in the hook flags of a service run.
pub open spec fn hook_flags_error(
    with_all_hooks: bool,
    without_hooks: bool,
    hooks: Seq<Seq<char>>,
) -> Option<Seq<char>> {
    if with_all_hooks || without_hooks || hooks.len() == 0 {
        None
    } else {
        match first_unknown_hook(hooks) {
            Some(k) => Some(unknown_hook_message(hooks[k])),
            None => None,
        }
    }
}

/// `s` is the selection that the hook flags ask for.
pub open spec fn selection_for(
    s: HookSelection,
    with_all_hooks: bool,
    without_hooks: bool,
    hooks: Seq<Seq<char>>,
) -> bool {
    if with_all_hooks {
        s == HookSelection::All
    } else if without_hooks || hooks.len() == 0 {
        s == HookSelection::NoHooks
    } else {
        s matches HookSelection::Selected(v) && v@ == chosen_upto(hooks, 8)
    }
}


/// The override for `key`, or `default`.
pub open spec fn override_or(ov: Seq<(Seq<char>, String)>, key: Seq<char>, default: Seq<char>) -> Seq<
    char,
> {
    match lookup(ov, key) {
        Some(v) => v@,
        None => default,
    }
}

/// The working directory and executable of the service that the
/// `service_name` override names, when it resolves.
pub open spec fn inferred_service(
    config: ProjectConfig,
    project_root: Seq<char>,
    ov: Seq<(Seq<char>, String)>,
) -> Option<(Seq<char>, Seq<char>)> {
    match lookup(ov, "service_name"@) {
        Some(n) => match lookup(config.services.pairs(), n@) {
            Some(s) => if s.disabled == Some(true) {
                None
            } else {
                Some((cwd_spec(project_root, s.cwd), s.executable@))
            },
            None => None,
        },
        None => None,
    }
}

/// `ctx` is the context of a standalone run of `action_name` with the
/// overrides `ov`.
pub open spec fn standalone_context_matches(
    ctx: ActionRenderContext,
    config: ProjectConfig,
    config_path: Seq<char>,
    project_root: Seq<char>,
    action_name: Seq<char>,
    ov: Seq<(Seq<char>, String)>,
) -> bool {
    let root = override_or(ov, "project_root"@, project_root);
    let inferred = inferred_service(config, project_root, ov);
    &&& ctx.project_root@ == root
    &&& ctx.config_path@ == override_or(ov, "config_path"@, config_path)
    &&& ctx.service_name@ == override_or(ov, "service_name"@, "manual"@)
    &&& ctx.service_cwd@ == match lookup(ov, "service_cwd"@) {
        Some(v) => v@,
        None => match inferred {
            Some(i) => i.0,
            None => root,
        },
    }
    &&& ctx.service_executable@ == match lookup(ov, "service_executable"@) {
        Some(v) => v@,
        None => match inferred {
            Some(i) => i.1,
            None => Seq::<char>::empty(),
        },
    }
    &&& ctx.action_name@ == override_or(ov, "action_name"@, action_name)
    &&& ctx.hook_name@ == override_or(ov, "hook_name"@, "manual"@)
    &&& ctx.service_pid matches Some(p) && p@ == override_or(ov, "service_pid"@, Seq::empty())
    &&& ctx.stop_reason matches Some(p) && p@ == override_or(ov, "stop_reason"@, "manual"@)
    &&& ctx.exit_code matches Some(p) && p@ == override_or(ov, "exit_code"@, Seq::empty())
    &&& ctx.exit_status matches Some(p) && p@ == override_or(ov, "exit_status"@, "manual"@)
}

fn override_or_default(ov: &NameMap<String>, key: &str, default: &str) -> (r: String)
    ensures
        r@ == override_or(ov.pairs(), key@, default@),
{
    match ov.get(key) {
        Some(v) => v.clone(),
        None => default.to_owned(),
    }
}

/// The placeholder values that a standalone run of `action_name` sees:
/// each override wins; a `service_name` override that names a configured,
/// enabled service lends its working directory and executable; the rest
/// take manual defaults.
pub fn standalone_action_context(
    config: &ProjectConfig,
    config_path: &str,
    project_root: &str,
    action_name: &str,
    overrides: &NameMap<String>,
) -> (r: AppResult<ActionRenderContext>)
    ensures
        r matches Ok(ctx) && standalone_context_matches(
            ctx,
            *config,
            config_path@,
            project_root@,
            action_name@,
            overrides.pairs(),
        ),
{
    let root = override_or_default(overrides, "project_root", project_root);
    let path = override_or_default(overrides, "config_path", config_path);
    let inferred = match overrides.get("service_name") {
        Some(name) => match config.resolve_service(name.as_str(), project_root) {
            Ok(s) => Some(s),
            Err(_) => None,
        },
        None => None,
    };
    proof {
        reveal_strlit("manual");
    }
    let service_name = override_or_default(overrides, "service_name", "manual");
    let service_cwd = match overrides.get("service_cwd") {
        Some(v) => v.clone(),
        None => match &inferred {
            Some(s) => s.cwd.clone(),
            None => root.clone(),
        },
    };
    let service_executable = match overrides.get("service_executable") {
        Some(v) => v.clone(),
        None => match &inferred {
            Some(s) => s.executable.clone(),
            None => String::new(),
        },
    };
    let ctx = ActionRenderContext {
        project_root: root,
        config_path: path,
        service_name,
        action_name: override_or_default(overrides, "action_name", action_name),
        hook_name: override_or_default(overrides, "hook_name", "manual"),
        service_cwd,
        service_executable,
        service_pid: Some(override_or_default(overrides, "service_pid", "")),
        stop_reason: Some(override_or_default(overrides, "stop_reason", "manual")),
        exit_code: Some(override_or_default(overrides, "exit_code", "")),
        exit_status: Some(override_or_default(overrides, "exit_status", "manual")),
    };
    proof {
        reveal_strlit("");
        let ov = overrides.pairs();
        assert(ctx.project_root@ == override_or(ov, "project_root"@, project_root@));
        assert(ctx.config_path@ == override_or(ov, "config_path"@, config_path@));
        assert(ctx.service_name@ == override_or(ov, "service_name"@, "manual"@));
        assert(ctx.action_name@ == override_or(ov, "action_name"@, action_name@));
        assert(ctx.hook_name@ == override_or(ov, "hook_name"@, "manual"@));
        assert(ctx.service_pid matches Some(p) && p@ == override_or(ov, "service_pid"@, Seq::empty()));
        assert(ctx.stop_reason matches Some(p) && p@ == override_or(ov, "stop_reason"@, "manual"@));
        assert(ctx.exit_code matches Some(p) && p@ == override_or(ov, "exit_code"@, Seq::empty()));
        assert(ctx.exit_status matches Some(p) && p@ == override_or(ov, "exit_status"@, "manual"@));
    }
    Ok(ctx)
}

/// Renders the arguments of `action` in `context`: the action to run and
/// the placeholder values it used.
pub fn prepare_action_execution(action: &ResolvedActionConfig, context: &ActionRenderContext) -> (r:
    AppResult<(ResolvedActionConfig, PreparedActionExecution)>)
    ensures
        match prepare_outcome(views(action.args@), crate::placeholders::context_view(*context)) {
            Ok((params, rendered)) => r matches Ok((ra, p)) && text_pairs(p.resolved_params.pairs())
                == params && views(p.rendered_args@) == rendered && views(ra.args@) == rendered
                && ra.name@ == action.name@ && ra.executable@ == action.executable@ && ra.cwd@
                == action.cwd@ && ra.env.pairs() == action.env.pairs() && ra.timeout_secs
                == action.timeout_secs,
            Err(m) => r matches Err(e) && e.exit_code == ExitCode::ConfigInvalid && e.message@ == m,
        },
{
    let prepared = match context.prepare(&action.args) {
        Ok(p) => p,
        Err(e) => {
            return Err(e);
        },
    };
    let rendered = ResolvedActionConfig {
        name: action.name.clone(),
        executable: action.executable.clone(),
        args: crate::config::copy_strings(&prepared.rendered_args),
        cwd: action.cwd.clone(),
        env: copy_string_map(&action.env),
        timeout_secs: action.timeout_secs,
    };
    Ok((rendered, prepared))
}

/// `key=value` for each parameter, in name order.
pub open spec fn param_items(ps: Seq<(Seq<char>, String)>) -> Seq<Seq<char>> {
    ps.map_values(|e: (Seq<char>, String)| e.0 + "="@ + e.1@)
}

/// The lines that list the parameters of action `name`.
pub open spec fn preview_lines(name: Seq<char>, ps: Seq<(Seq<char>, String)>) -> Seq<Seq<char>> {
    seq!["action `"@ + name + "` resolved params:"@] + if ps.len() == 0 {
        seq!["- (none)"@]
    } else {
        param_items(ps).map_values(|item: Seq<char>| "- "@ + item)
    }
}

/// The parameters of action `action_name`, one per line.
pub fn format_action_params_preview(action_name: &str, resolved_params: &NameMap<String>) -> (r:
    String)
    ensures
        r@ == join_spec(preview_lines(action_name@, resolved_params.pairs()), "\n"@),
{
    let ghost ps = resolved_params.pairs();
    proof {
        reveal_strlit("action `");
        reveal_strlit("` resolved params:");
        reveal_strlit("- (none)");
        reveal_strlit("- ");
        reveal_strlit("=");
    }
    let mut lines: Vec<String> = Vec::new();
    lines.push(concat3("action `", action_name, "` resolved params:"));
    let n = resolved_params.len();
    if n == 0 {
        lines.push("- (none)".to_owned());
        proof {
            assert(views(lines@) =~= preview_lines(action_name@, ps));
        }
        return join(&lines, "\n");
    }
    let ghost head = views(lines@);
    let mut i: usize = 0;
    while i < n
        invariant
            n == ps.len(),
            ps == resolved_params.pairs(),
            i <= n,
            views(lines@) == head + param_items(ps).map_values(|item: Seq<char>| "- "@ + item).take(
                i as int,
            ),
        decreases n - i,
    {
        let ghost prev = views(lines@);
        let mut line = concat2("- ", resolved_params.name_at(i).as_str());
        line.append("=");
        line.append(resolved_params.value_at(i).as_str());
        lines.push(line);
        proof {
            assert(line@ =~= "- "@ + (ps[i as int].0 + "="@ + ps[i as int].1@));
            assert(views(lines@) =~= prev.push(line@));
            assert(param_items(ps).map_values(|item: Seq<char>| "- "@ + item).take(i + 1)
                =~= param_items(ps).map_values(|item: Seq<char>| "- "@ + item).take(i as int).push(
                line@,
            ));
        }
        i = i + 1;
    }
    proof {
        assert(param_items(ps).map_values(|item: Seq<char>| "- "@ + item).take(n as int)
            =~= param_items(ps).map_values(|item: Seq<char>| "- "@ + item));
        assert(views(lines@) =~= preview_lines(action_name@, ps));
    }
    join(&lines, "\n")
}

/// The parameters of action `name` on one line.
pub open spec fn params_summary(name: Seq<char>, ps: Seq<(Seq<char>, String)>) -> Seq<char> {
    if ps.len() == 0 {
        "action `"@ + name + "` resolved params: (none)"@
    } else {
        "action `"@ + name + "` resolved params: "@ + join_spec(param_items(ps), ", "@)
    }
}

/// The parameters of action `action_name`, comma-separated on one line.
pub fn format_action_params_summary(action_name: &str, resolved_params: &NameMap<String>) -> (r:
    String)
    ensures
        r@ == params_summary(action_name@, resolved_params.pairs()),
{
    let ghost ps = resolved_params.pairs();
    proof {
        reveal_strlit("action `");
        reveal_strlit("` resolved params: (none)");
        reveal_strlit("` resolved params: ");
        reveal_strlit("=");
    }
    let n = resolved_params.len();
    if n == 0 {
        return concat3("action `", action_name, "` resolved params: (none)");
    }
    let mut items: Vec<String> = Vec::new();
    let mut i: usize = 0;
    while i < n
        invariant
            n == ps.len(),
            ps == resolved_params.pairs(),
            i <= n,
            views(items@) == param_items(ps).take(i as int),
        decreases n - i,
    {
        let ghost prev = views(items@);
        let mut item = resolved_params.name_at(i).clone();
        item.append("=");
        item.append(resolved_params.value_at(i).as_str());
        items.push(item);
        proof {
            assert(views(items@) =~= prev.push(item@));
            assert(param_items(ps).take(i + 1) =~= param_items(ps).take(i as int).push(item@));
        }
        i = i + 1;
    }
    proof {
        assert(param_items(ps).take(n as int) =~= param_items(ps));
    }
    let mut out = concat3("action `", action_name, "` resolved params: ");
    let joined = join(&items, ", ");
    out.append(joined.as_str());
    out
}


/// Whether two selections choose the same hooks in the same order.
pub open spec fn same_selection(a: HookSelection, b: HookSelection) -> bool {
    match (a, b) {
        (HookSelection::NoHooks, HookSelection::NoHooks) => true,
        (HookSelection::All, HookSelection::All) => true,
        (HookSelection::Selected(x), HookSelection::Selected(y)) => x@ == y@,
        _ => false,
    }
}

impl HookSelection {
    /// A copy of the selection.
    pub fn duplicate(&self) -> (r: HookSelection)
        ensures
            same_selection(r, *self),
            forall|h: HookName| selection_allows(r, h) == selection_allows(*self, h),
    {
        match self {
            HookSelection::NoHooks => HookSelection::NoHooks,
            HookSelection::All => HookSelection::All,
            HookSelection::Selected(v) => {
                let mut out: Vec<HookName> = Vec::new();
                let n = v.len();
                let mut i: usize = 0;
                while i < n
                    invariant
                        n == v@.len(),
                        i <= n,
                        out@ == v@.take(i as int),
                    decreases n - i,
                {
                    out.push(v[i]);
                    proof {
                        assert(v@.take(i + 1) =~= v@.take(i as int).push(v@[i as int]));
                    }
                    i = i + 1;
                }
                proof {
                    assert(v@.take(n as int) =~= v@);
                    assert(out@ =~= v@);
                }
                HookSelection::Selected(out)
            },
        }
    }
}

} // verus!
