//! Running the actions of a hook, one after another: what to record before
//! and after each action, and when the hook fails.  The caller runs each
//! action and reports how it went.

use vstd::prelude::*;

use crate::config::{hook_actions, hook_text, ActionRenderContext, HookName, ResolvedActionConfig,
    ResolvedServiceConfig};
use crate::error::{AppError, AppResult, ExitCode};
use crate::name_map::{lookup, NameMap};
use crate::paths::{parent, parent_spec};
use crate::placeholders::{context_view, opt_text_view, prepare_outcome, text_pairs, ContextView};
use crate::run_request::{params_summary, prepare_action_execution};
use crate::text::{concat2, concat3, dec_digits, decimal, views};

verus! {

/// How an action run ended.
#[derive(Debug, Clone, PartialEq, Eq)]
pub enum ActionRunStatus {
    Succeeded,
    Failed { status: String },
    TimedOut { timeout_secs: u64 },
}

/// What a hook's actions may know about the service beyond its
/// configuration.
#[derive(Debug, Clone)]
pub struct HookRuntimeExtras {
    pub service_pid: Option<u32>,
    pub stop_reason: Option<String>,
    pub exit_code: Option<i32>,
    pub exit_status: Option<String>,
}

/// An event to record, without its time.
#[derive(Debug, Clone)]
pub struct EventRecord {
    pub event_type: String,
    pub service_name: Option<String>,
    pub hook_name: Option<String>,
    pub action_name: Option<String>,
    pub detail: String,
}

/// `e` is the event of type `t` about `service`, `hook` and `action` with
/// detail `d`.
pub open spec fn event_is(
    e: EventRecord,
    t: Seq<char>,
    service: Option<Seq<char>>,
    hook: Option<Seq<char>>,
    action: Option<Seq<char>>,
    d: Seq<char>,
) -> bool {
    &&& e.event_type@ == t
    &&& match e.service_name {
        Some(s) => service == Some(s@),
        None => service is None,
    }
    &&& match e.hook_name {
        Some(s) => hook == Some(s@),
        None => hook is None,
    }
    &&& match e.action_name {
        Some(s) => action == Some(s@),
        None => action is None,
    }
    &&& e.detail@ == d
}

/// Builds an event record.
pub fn event_record(
    event_type: &str,
    service_name: Option<&str>,
    hook_name: Option<&str>,
    action_name: Option<&str>,
    detail: String,
) -> (r: EventRecord)
    ensures
        event_is(
            r,
            event_type@,
            match service_name {
                Some(s) => Some(s@),
                None => None,
            },
            match hook_name {
                Some(s) => Some(s@),
                None => None,
            },
            match action_name {
                Some(s) => Some(s@),
                None => None,
            },
            detail@,
        ),
{
    EventRecord {
        event_type: event_type.to_owned(),
        service_name: match service_name {
            Some(s) => Some(s.to_owned()),
            None => None,
        },
        hook_name: match hook_name {
            Some(s) => Some(s.to_owned()),
            None => None,
        },
        action_name: match action_name {
            Some(s) => Some(s.to_owned()),
            None => None,
        },
        detail,
    }
}

/// Signed decimal text.
pub open spec fn int_text(i: int) -> Seq<char> {
    if i < 0 {
        "-"@ + dec_digits((-i) as nat)
    } else {
        dec_digits(i as nat)
    }
}

pub fn signed_decimal(i: i32) -> (r: String)
    ensures
        r@ == int_text(i as int),
{
    proof {
        reveal_strlit("-");
    }
    if i < 0 {
        let magnitude: u64 = (0i64 - (i as i64)) as u64;
        concat2("-", decimal(magnitude).as_str())
    } else {
        decimal(i as u64)
    }
}

/// The placeholder values that action `action_name` sees when hook `hook`
/// of `service` runs it.
pub open spec fn hook_view(
    config_path: Seq<char>,
    service: ResolvedServiceConfig,
    action_name: Seq<char>,
    hook: HookName,
    extras: HookRuntimeExtras,
) -> ContextView {
    (
        match parent_spec(config_path) {
            Some(p) => p,
            None => "."@,
        },
        config_path,
        service.name@,
        action_name,
        hook_text(hook),
        service.cwd@,
        service.executable@,
        match extras.service_pid {
            Some(p) => Some(dec_digits(p as nat)),
            None => None,
        },
        opt_text_view(extras.stop_reason),
        match extras.exit_code {
            Some(c) => Some(int_text(c as int)),
            None => None,
        },
        opt_text_view(extras.exit_status),
    )
}

/// The context in which hook `hook` of `service` runs action `action_name`.
pub fn hook_context(
    config_path: &str,
    service: &ResolvedServiceConfig,
    action_name: &str,
    hook: HookName,
    extras: &HookRuntimeExtras,
) -> (r: ActionRenderContext)
    ensures
        context_view(r) == hook_view(config_path@, *service, action_name@, hook, *extras),
{
    proof {
        reveal_strlit(".");
    }
    let project_root = match parent(config_path) {
        Some(p) => p,
        None => ".".to_owned(),
    };
    ActionRenderContext {
        project_root,
        config_path: config_path.to_owned(),
        service_name: service.name.clone(),
        action_name: action_name.to_owned(),
        hook_name: hook.as_str().to_owned(),
        service_cwd: service.cwd.clone(),
        service_executable: service.executable.clone(),
        service_pid: match extras.service_pid {
            Some(p) => Some(decimal(p as u64)),
            None => None,
        },
        stop_reason: match &extras.stop_reason {
            Some(s) => Some(s.clone()),
            None => None,
        },
        exit_code: match extras.exit_code {
            Some(c) => Some(signed_decimal(c)),
            None => None,
        },
        exit_status: match &extras.exit_status {
            Some(s) => Some(s.clone()),
            None => None,
        },
    }
}

/// What the caller does next while a hook runs.
#[derive(Debug)]
pub enum HookCommand {
    /// Run the rendered action, the `index`-th of the hook; its resolved
    /// placeholder values are shown first.
    RunAction { index: usize, action: ResolvedActionConfig, params: NameMap<String> },
    /// The hook finished.
    Finished,
    /// The hook failed.
    Failed(AppError),
}

/// The events to record, then the next command.
#[derive(Debug)]
pub struct HookStep {
    pub events: Vec<EventRecord>,
    pub command: HookCommand,
}

/// The message for an action that the hook names but that is not
/// configured.
pub open spec fn unknown_action_message(service: Seq<char>, action: Seq<char>, hook: HookName) -> Seq<
    char,
> {
    "service `"@ + service + "` references unknown action `"@ + action + "` in `"@ + hook_text(hook)
        + "`"@
}

/// `step` is what preparing the `i`-th action of the hook gives, after the
/// events `before`.
pub open spec fn prepared_as(
    step: HookStep,
    before: Seq<EventRecord>,
    config_path: Seq<char>,
    actions: Seq<(Seq<char>, ResolvedActionConfig)>,
    service: ResolvedServiceConfig,
    hook: HookName,
    extras: HookRuntimeExtras,
    i: int,
) -> bool {
    let name = hook_actions(service.hooks, hook)[i]@;
    let h = Some(hook_text(hook));
    let s = Some(service.name@);
    match lookup(actions, name) {
        None => step.events@ == before && (step.command matches HookCommand::Failed(e)
            && e.exit_code == ExitCode::ConfigInvalid && e.message@ == unknown_action_message(
            service.name@,
            name,
            hook,
        )),
        Some(a) => {
            &&& step.events@.len() >= before.len() + 1
            &&& step.events@.take(before.len() as int) == before
            &&& event_is(
                step.events@[before.len() as int],
                "action_started"@,
                s,
                h,
                Some(a.name@),
                "action `"@ + a.name@ + "` started for service `"@ + service.name@ + "` hook `"@
                    + hook_text(hook) + "`"@,
            )
            &&& match prepare_outcome(
                views(a.args@),
                hook_view(config_path, service, a.name@, hook, extras),
            ) {
                Err(m) => step.events@.len() == before.len() + 1 && (step.command matches HookCommand::Failed(e)
                    && e.exit_code == ExitCode::ConfigInvalid && e.message@ == m),
                Ok((params, rendered)) => {
                    &&& step.events@.len() == before.len() + 2
                    &&& step.command matches HookCommand::RunAction { index, action, params: p }
                    &&& index == i
                    &&& text_pairs(p.pairs()) == params
                    &&& views(action.args@) == rendered
                    &&& action.name@ == a.name@
                    &&& action.executable@ == a.executable@
                    &&& action.cwd@ == a.cwd@
                    &&& action.env.pairs() == a.env.pairs()
                    &&& action.timeout_secs == a.timeout_secs
                    &&& event_is(
                        step.events@[before.len() as int + 1],
                        "action_params_resolved"@,
                        s,
                        h,
                        Some(a.name@),
                        params_summary(a.name@, p.pairs()),
                    )
                },
            }
        },
    }
}

fn prepare_hook_action(
    initial: Vec<EventRecord>,
    config_path: &str,
    actions: &NameMap<ResolvedActionConfig>,
    service: &ResolvedServiceConfig,
    hook: HookName,
    extras: &HookRuntimeExtras,
    i: usize,
) -> (r: HookStep)
    requires
        i < hook_actions(service.hooks, hook).len(),
    ensures
        prepared_as(r, initial@, config_path@, actions.pairs(), *service, hook, *extras, i as int),
{
    let mut events = initial;
    proof {
        reveal_strlit("service `");
        reveal_strlit("` references unknown action `");
        reveal_strlit("` in `");
        reveal_strlit("`");
        reveal_strlit("action `");
        reveal_strlit("` started for service `");
        reveal_strlit("` hook `");
        reveal_strlit("action_started");
        reveal_strlit("action_params_resolved");
    }
    let ghost before = events@;
    let names = service.hooks.actions_for(hook);
    let name = names[i].as_str();
    let action = match actions.get(name) {
        Some(a) => a,
        None => {
            let mut m = concat3("service `", service.name.as_str(), "` references unknown action `");
            m.append(name);
            m.append("` in `");
            m.append(hook.as_str());
            m.append("`");
            return HookStep { events, command: HookCommand::Failed(AppError::config_invalid(m)) };
        },
    };
    let mut detail = concat3("action `", action.name.as_str(), "` started for service `");
    detail.append(service.name.as_str());
    detail.append("` hook `");
    detail.append(hook.as_str());
    detail.append("`");
    events.push(
        event_record(
            "action_started",
            Some(service.name.as_str()),
            Some(hook.as_str()),
            Some(action.name.as_str()),
            detail,
        ),
    );
    let ghost with_start = events@;
    let context = hook_context(config_path, service, action.name.as_str(), hook, extras);
    match prepare_action_execution(action, &context) {
        Err(e) => {
            proof {
                assert(events@ == with_start);
                assert(events@.take(before.len() as int) =~= before);
                assert(context_view(context) == hook_view(config_path@, *service, action.name@, hook, *extras));
            }
            HookStep { events, command: HookCommand::Failed(e) }
        },
        Ok((rendered, prepared)) => {
            let summary = crate::run_request::format_action_params_summary(
                action.name.as_str(),
                &prepared.resolved_params,
            );
            events.push(
                event_record(
                    "action_params_resolved",
                    Some(service.name.as_str()),
                    Some(hook.as_str()),
                    Some(action.name.as_str()),
                    summary,
                ),
            );
            proof {
                assert(events@.take(before.len() as int) =~= before);
                assert(events@.take(before.len() as int) =~= before);
                assert(with_start.take(before.len() as int) =~= before);
                assert(events@[before.len() as int] == with_start[before.len() as int]);
            }
            let step = HookStep {
                events,
                command: HookCommand::RunAction {
                    index: i,
                    action: rendered,
                    params: prepared.resolved_params,
                },
            };
            proof {
                let a = *action;
                let name = hook_actions(service.hooks, hook)[i as int]@;
                assert(name == names@[i as int]@);
                assert(lookup(actions.pairs(), name) == Some(a));
                assert(step.events@.len() >= before.len() + 1);
                assert(step.events@.take(before.len() as int) == before);
                assert(context_view(context) == hook_view(config_path@, *service, a.name@, hook, *extras));
                assert(event_is(
                    step.events@[before.len() as int],
                    "action_started"@,
                    Some(service.name@),
                    Some(hook_text(hook)),
                    Some(a.name@),
                    "action `"@ + a.name@ + "` started for service `"@ + service.name@ + "` hook `"@
                        + hook_text(hook) + "`"@,
                ));
                assert(step.events@.len() == before.len() + 2);
                assert(event_is(
                    step.events@[before.len() as int + 1],
                    "action_params_resolved"@,
                    Some(service.name@),
                    Some(hook_text(hook)),
                    Some(a.name@),
                    params_summary(a.name@, prepared.resolved_params.pairs()),
                ));
                let po = prepare_outcome(views(a.args@), hook_view(config_path@, *service, a.name@, hook, *extras));
                assert(po is Ok);
                let (params, rendered_v) = po->Ok_0;
                assert(step.command matches HookCommand::RunAction { index, action, params: p } && index == i && text_pairs(p.pairs()) == params && views(action.args@) == rendered_v);
                assert(prepared_as(step, before, config_path@, actions.pairs(), *service, hook, *extras, i as int));
            }
            step
        },
    }
}


/// The name under which the `i`-th action of the hook is reported.
pub open spec fn action_label(
    actions: Seq<(Seq<char>, ResolvedActionConfig)>,
    service: ResolvedServiceConfig,
    hook: HookName,
    i: int,
) -> Seq<char> {
    let name = hook_actions(service.hooks, hook)[i]@;
    match lookup(actions, name) {
        Some(a) => a.name@,
        None => name,
    }
}

/// Starts hook `hook` of `service`: nothing to do when it names no action;
/// otherwise it is recorded as started and its first action is prepared.
pub fn begin_hook(
    config_path: &str,
    actions: &NameMap<ResolvedActionConfig>,
    service: &ResolvedServiceConfig,
    hook: HookName,
    extras: &HookRuntimeExtras,
) -> (r: HookStep)
    ensures
        hook_actions(service.hooks, hook).len() == 0 ==> r.events@.len() == 0
            && r.command is Finished,
        hook_actions(service.hooks, hook).len() > 0 ==> {
            &&& r.events@.len() >= 1
            &&& event_is(
                r.events@[0],
                "hook_started"@,
                Some(service.name@),
                Some(hook_text(hook)),
                None,
                "hook `"@ + hook_text(hook) + "` started for service `"@ + service.name@ + "` with "@
                    + dec_digits(hook_actions(service.hooks, hook).len()) + " action(s)"@,
            )
            &&& prepared_as(
                r,
                seq![r.events@[0]],
                config_path@,
                actions.pairs(),
                *service,
                hook,
                *extras,
                0,
            )
        },
{
    proof {
        reveal_strlit("hook `");
        reveal_strlit("` started for service `");
        reveal_strlit("` with ");
        reveal_strlit(" action(s)");
        reveal_strlit("hook_started");
    }
    let names = service.hooks.actions_for(hook);
    if names.len() == 0 {
        return HookStep { events: Vec::new(), command: HookCommand::Finished };
    }
    let mut detail = concat3("hook `", hook.as_str(), "` started for service `");
    detail.append(service.name.as_str());
    detail.append("` with ");
    detail.append(decimal(names.len() as u64).as_str());
    detail.append(" action(s)");
    let mut events: Vec<EventRecord> = Vec::new();
    events.push(event_record("hook_started", Some(service.name.as_str()), Some(hook.as_str()), None, detail));
    let ghost first = events@;
    let r = prepare_hook_action(events, config_path, actions, service, hook, extras, 0);
    proof {
        assert(first == seq![first[0]]);
        assert(r.events@.take(1) == first);
        assert(r.events@[0] == first[0]);
    }
    r
}

/// The message of a failed action.
pub open spec fn action_failed_message(
    label: Seq<char>,
    service: Seq<char>,
    hook: HookName,
    status: Seq<char>,
) -> Seq<char> {
    "action `"@ + label + "` for service `"@ + service + "` hook `"@ + hook_text(hook)
        + "` exited with status "@ + status
}

/// The message of an action that ran out of time.
pub open spec fn action_timeout_message(
    label: Seq<char>,
    service: Seq<char>,
    hook: HookName,
    secs: u64,
) -> Seq<char> {
    "action `"@ + label + "` for service `"@ + service + "` hook `"@ + hook_text(hook)
        + "` timed out after "@ + dec_digits(secs as nat) + " seconds"@
}

fn label_of(
    actions: &NameMap<ResolvedActionConfig>,
    service: &ResolvedServiceConfig,
    hook: HookName,
    i: usize,
) -> (r: String)
    requires
        i < hook_actions(service.hooks, hook).len(),
    ensures
        r@ == action_label(actions.pairs(), *service, hook, i as int),
{
    let names = service.hooks.actions_for(hook);
    match actions.get(names[i].as_str()) {
        Some(a) => a.name.clone(),
        None => names[i].clone(),
    }
}

/// Continues hook `hook` of `service` once its `index`-th action has run
/// with `status`: a failure or a timeout fails the hook; a success is
/// recorded and the next action is prepared, or the hook finishes.
pub fn after_hook_action(
    config_path: &str,
    actions: &NameMap<ResolvedActionConfig>,
    service: &ResolvedServiceConfig,
    hook: HookName,
    extras: &HookRuntimeExtras,
    index: usize,
    status: &ActionRunStatus,
) -> (r: HookStep)
    requires
        index < hook_actions(service.hooks, hook).len(),
    ensures
        ({
            let label = action_label(actions.pairs(), *service, hook, index as int);
            let s = Some(service.name@);
            let h = Some(hook_text(hook));
            match *status {
                ActionRunStatus::Succeeded => {
                    &&& r.events@.len() >= 1
                    &&& event_is(
                        r.events@[0],
                        "action_finished"@,
                        s,
                        h,
                        Some(label),
                        "action `"@ + label + "` finished for service `"@ + service.name@
                            + "` hook `"@ + hook_text(hook) + "`"@,
                    )
                    &&& if index + 1 < hook_actions(service.hooks, hook).len() {
                        prepared_as(
                            r,
                            seq![r.events@[0]],
                            config_path@,
                            actions.pairs(),
                            *service,
                            hook,
                            *extras,
                            index + 1,
                        )
                    } else {
                        &&& r.events@.len() == 2
                        &&& event_is(
                            r.events@[1],
                            "hook_finished"@,
                            s,
                            h,
                            None,
                            "hook `"@ + hook_text(hook) + "` finished for service `"@
                                + service.name@ + "`"@,
                        )
                        &&& r.command is Finished
                    }
                },
                ActionRunStatus::Failed { status: st } => {
                    let m = action_failed_message(label, service.name@, hook, st@);
                    &&& r.events@.len() == 2
                    &&& event_is(r.events@[0], "action_failed"@, s, h, Some(label), m)
                    &&& event_is(r.events@[1], "hook_failed"@, s, h, None, m)
                    &&& r.command matches HookCommand::Failed(e)
                    &&& e.exit_code == ExitCode::StartupFailed
                    &&& e.message@ == m
                },
                ActionRunStatus::TimedOut { timeout_secs } => {
                    let m = action_timeout_message(label, service.name@, hook, timeout_secs);
                    &&& r.events@.len() == 2
                    &&& event_is(r.events@[0], "action_timed_out"@, s, h, Some(label), m)
                    &&& event_is(r.events@[1], "hook_failed"@, s, h, None, m)
                    &&& r.command matches HookCommand::Failed(e)
                    &&& e.exit_code == ExitCode::StartupFailed
                    &&& e.message@ == m
                },
            }
        }),
{
    proof {
        reveal_strlit("action `");
        reveal_strlit("` finished for service `");
        reveal_strlit("` hook `");
        reveal_strlit("`");
        reveal_strlit("hook `");
        reveal_strlit("` finished for service `");
        reveal_strlit("` for service `");
        reveal_strlit("` exited with status ");
        reveal_strlit("` timed out after ");
        reveal_strlit(" seconds");
        reveal_strlit("action_finished");
        reveal_strlit("hook_finished");
        reveal_strlit("action_failed");
        reveal_strlit("action_timed_out");
        reveal_strlit("hook_failed");
    }
    let label = label_of(actions, service, hook, index);
    let mut events: Vec<EventRecord> = Vec::new();
    match status {
        ActionRunStatus::Succeeded => {
            let mut detail = concat3("action `", label.as_str(), "` finished for service `");
            detail.append(service.name.as_str());
            detail.append("` hook `");
            detail.append(hook.as_str());
            detail.append("`");
            events.push(
                event_record(
                    "action_finished",
                    Some(service.name.as_str()),
                    Some(hook.as_str()),
                    Some(label.as_str()),
                    detail,
                ),
            );
            let ghost first = events@;
            let count = service.hooks.actions_for(hook).len();
            if index + 1 < count {
                let r = prepare_hook_action(events, config_path, actions, service, hook, extras, index + 1);
                proof {
                    assert(first == seq![first[0]]);
                    assert(r.events@.take(1) == first);
                    assert(r.events@[0] == first[0]);
                }
                r
            } else {
                let mut done = concat3("hook `", hook.as_str(), "` finished for service `");
                done.append(service.name.as_str());
                done.append("`");
                events.push(
                    event_record(
                        "hook_finished",
                        Some(service.name.as_str()),
                        Some(hook.as_str()),
                        None,
                        done,
                    ),
                );
                HookStep { events, command: HookCommand::Finished }
            }
        },
        ActionRunStatus::Failed { status: st } => {
            let mut m = concat3("action `", label.as_str(), "` for service `");
            m.append(service.name.as_str());
            m.append("` hook `");
            m.append(hook.as_str());
            m.append("` exited with status ");
            m.append(st.as_str());
            events.push(
                event_record(
                    "action_failed",
                    Some(service.name.as_str()),
                    Some(hook.as_str()),
                    Some(label.as_str()),
                    m.clone(),
                ),
            );
            events.push(
                event_record("hook_failed", Some(service.name.as_str()), Some(hook.as_str()), None, m.clone()),
            );
            HookStep { events, command: HookCommand::Failed(AppError::startup_failed(m)) }
        },
        ActionRunStatus::TimedOut { timeout_secs } => {
            let mut m = concat3("action `", label.as_str(), "` for service `");
            m.append(service.name.as_str());
            m.append("` hook `");
            m.append(hook.as_str());
            m.append("` timed out after ");
            m.append(decimal(*timeout_secs).as_str());
            m.append(" seconds");
            events.push(
                event_record(
                    "action_timed_out",
                    Some(service.name.as_str()),
                    Some(hook.as_str()),
                    Some(label.as_str()),
                    m.clone(),
                ),
            );
            events.push(
                event_record("hook_failed", Some(service.name.as_str()), Some(hook.as_str()), None, m.clone()),
            );
            HookStep { events, command: HookCommand::Failed(AppError::startup_failed(m)) }
        },
    }
}

} // verus!
