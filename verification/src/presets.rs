//! The configuration templates that `init` writes: a minimal one and a full
//! one, each for Unix shells and for the Windows command interpreter.

use vstd::prelude::*;

use crate::config::{
    default_rotate_log, hook_actions, ActionConfig, DefaultsConfig, HookName, LogConfig,
    LogOverflowStrategy, ProjectConfig, RestartPolicy, ServiceConfig, ServiceHooksConfig,
    ServiceWatchConfig,
};
use crate::name_map::{lookup, NameMap};
use crate::text::views;

verus! {

/// A rotating log of 10 MiB with five history files at `path`.
pub open spec fn rotating_log(l: LogConfig, path: Seq<char>) -> bool {
    &&& l.file@ == path
    &&& l.append
    &&& l.max_file_bytes == Some(10485760u64)
    &&& l.overflow_strategy == Some(LogOverflowStrategy::Rotate)
    &&& l.rotate_file_count == Some(5usize)
}

/// The hooks of `h` are exactly the given action lists.
pub open spec fn hooks_are(
    h: ServiceHooksConfig,
    before_start: Seq<Seq<char>>,
    after_start_success: Seq<Seq<char>>,
    before_stop: Seq<Seq<char>>,
    after_runtime_exit_unexpected: Seq<Seq<char>>,
) -> bool {
    &&& views(h.before_start@) == before_start
    &&& views(h.after_start_success@) == after_start_success
    &&& h.after_start_failure@.len() == 0
    &&& views(h.before_stop@) == before_stop
    &&& h.after_stop_success@.len() == 0
    &&& h.after_stop_timeout@.len() == 0
    &&& h.after_stop_failure@.len() == 0
    &&& views(h.after_runtime_exit_unexpected@) == after_runtime_exit_unexpected
}

/// A service of the minimal template.
pub open spec fn minimal_service(
    s: ServiceConfig,
    exe: Seq<char>,
    args: Seq<Seq<char>>,
    deps: Seq<Seq<char>>,
    log: Seq<char>,
) -> bool {
    &&& s.executable@ == exe
    &&& views(s.args@) == args
    &&& s.cwd matches Some(c) && c@ == "."@
    &&& s.env.pairs().len() == 0
    &&& views(s.depends_on@) == deps
    &&& s.restart is None
    &&& s.stop_signal is None
    &&& s.stop_timeout_secs is None
    &&& s.autostart is None
    &&& s.disabled is None
    &&& s.log matches Some(l) && rotating_log(l, log)
    &&& s.watch is None
    &&& hooks_are(s.hooks, seq![], seq![], seq![], seq![])
}

/// The minimal template: `app`, and `worker` after it, both running `exe`
/// with `args`.
pub open spec fn minimal_preset(cfg: ProjectConfig, exe: Seq<char>, args: Seq<Seq<char>>) -> bool {
    &&& cfg.defaults.stop_timeout_secs == Some(10u64)
    &&& cfg.defaults.restart is None
    &&& cfg.log matches Some(l) && rotating_log(l, "./logs/onekey-run.log"@)
    &&& cfg.actions.pairs().len() == 0
    &&& forall|x: Seq<char>| #[trigger]
        lookup(cfg.services.pairs(), x) is Some <==> (x == "app"@ || x == "worker"@)
    &&& lookup(cfg.services.pairs(), "app"@) matches Some(s) && minimal_service(
        s,
        exe,
        args,
        seq![],
        "./logs/app.log"@,
    )
    &&& lookup(cfg.services.pairs(), "worker"@) matches Some(s) && minimal_service(
        s,
        exe,
        args,
        seq!["app"@],
        "./logs/worker.log"@,
    )
}

/// An action of the full template.
pub open spec fn full_action(a: ActionConfig, exe: Seq<char>, args: Seq<Seq<char>>) -> bool {
    &&& a.executable@ == exe
    &&& views(a.args@) == args
    &&& a.cwd matches Some(c) && c@ == "."@
    &&& a.env.pairs().len() == 0
    &&& a.timeout_secs == Some(10u64)
    &&& a.disabled == Some(false)
}

/// A service of the full template; only `app` is watched and sets an
/// environment variable.
pub open spec fn full_service(
    s: ServiceConfig,
    exe: Seq<char>,
    args: Seq<Seq<char>>,
    app: bool,
) -> bool {
    &&& s.executable@ == exe
    &&& views(s.args@) == args
    &&& s.cwd matches Some(c) && c@ == "."@
    &&& (if app {
        s.env.pairs().len() == 1 && s.env.pairs()[0].0 == "RUST_LOG"@ && s.env.pairs()[0].1@
            == "info"@
    } else {
        s.env.pairs().len() == 0
    })
    &&& views(s.depends_on@) == (if app {
        seq![]
    } else {
        seq!["app"@]
    })
    &&& s.restart == (if app {
        Some(RestartPolicy::No)
    } else {
        Some(RestartPolicy::OnFailure)
    })
    &&& s.stop_signal matches Some(sig) && sig@ == "term"@
    &&& s.stop_timeout_secs == Some(10u64)
    &&& s.autostart == Some(true)
    &&& s.disabled == Some(false)
    &&& s.log matches Some(l) && rotating_log(
        l,
        if app {
            "./logs/app.log"@
        } else {
            "./logs/worker.log"@
        },
    )
    &&& (if app {
        s.watch matches Some(w) && views(w.paths@) == seq!["."@] && w.debounce_ms == Some(500u64)
    } else {
        s.watch is None
    })
    &&& if app {
        hooks_are(
            s.hooks,
            seq!["prepare-app"@],
            seq!["notify-up"@],
            seq!["notify-stop"@],
            seq!["notify-exit"@],
        )
    } else {
        hooks_are(s.hooks, seq!["prepare-app"@], seq![], seq![], seq!["notify-exit"@])
    }
}

/// The full template: four actions run by `action_exe` after `flag`, and
/// the services `app` and `worker` running `service_exe` with
/// `service_args`.
pub open spec fn full_preset(
    cfg: ProjectConfig,
    service_exe: Seq<char>,
    service_args: Seq<Seq<char>>,
    action_exe: Seq<char>,
    flag: Seq<char>,
) -> bool {
    &&& cfg.defaults.stop_timeout_secs == Some(10u64)
    &&& cfg.defaults.restart == Some(RestartPolicy::No)
    &&& cfg.log matches Some(l) && rotating_log(l, "./logs/onekey-run.log"@)
    &&& forall|x: Seq<char>| #[trigger]
        lookup(cfg.actions.pairs(), x) is Some <==> (x == "prepare-app"@ || x == "notify-up"@ || x
            == "notify-stop"@ || x == "notify-exit"@)
    &&& lookup(cfg.actions.pairs(), "prepare-app"@) matches Some(a) && full_action(
        a,
        action_exe,
        seq![flag, "echo preparing ${service_name} in ${service_cwd}"@],
    )
    &&& lookup(cfg.actions.pairs(), "notify-up"@) matches Some(a) && full_action(
        a,
        action_exe,
        seq![flag, "echo ${service_name} started with pid ${service_pid}"@],
    )
    &&& lookup(cfg.actions.pairs(), "notify-stop"@) matches Some(a) && full_action(
        a,
        action_exe,
        seq![flag, "echo stopping ${service_name} because ${stop_reason}"@],
    )
    &&& lookup(cfg.actions.pairs(), "notify-exit"@) matches Some(a) && full_action(
        a,
        action_exe,
        seq![flag, "echo ${service_name} exited unexpectedly with ${exit_status}"@],
    )
    &&& forall|x: Seq<char>| #[trigger]
        lookup(cfg.services.pairs(), x) is Some <==> (x == "app"@ || x == "worker"@)
    &&& lookup(cfg.services.pairs(), "app"@) matches Some(s) && full_service(
        s,
        service_exe,
        service_args,
        true,
    )
    &&& lookup(cfg.services.pairs(), "worker"@) matches Some(s) && full_service(
        s,
        service_exe,
        service_args,
        false,
    )
}

/// The arguments that keep a Windows service busy for thirty seconds.
pub open spec fn windows_wait_args() -> Seq<Seq<char>> {
    seq!["/C"@, "timeout /T 30 /NOBREAK >NUL"@]
}

fn strings1(a: &str) -> (r: Vec<String>)
    ensures
        views(r@) == seq![a@],
{
    let mut v: Vec<String> = Vec::new();
    v.push(a.to_owned());
    proof {
        assert(views(v@) =~= seq![a@]);
    }
    v
}

fn strings2(a: &str, b: &str) -> (r: Vec<String>)
    ensures
        views(r@) == seq![a@, b@],
{
    let mut v: Vec<String> = Vec::new();
    v.push(a.to_owned());
    v.push(b.to_owned());
    proof {
        assert(views(v@) =~= seq![a@, b@]);
    }
    v
}

fn no_strings() -> (r: Vec<String>)
    ensures
        views(r@) == Seq::<Seq<char>>::empty(),
{
    let v: Vec<String> = Vec::new();
    proof {
        assert(views(v@) =~= Seq::<Seq<char>>::empty());
    }
    v
}

fn empty_hooks() -> (r: ServiceHooksConfig)
    ensures
        hooks_are(r, seq![], seq![], seq![], seq![]),
{
    let r = ServiceHooksConfig::new();
    proof {
        assert(hook_actions(r, HookName::BeforeStart).len() == 0);
        assert(hook_actions(r, HookName::AfterStartSuccess).len() == 0);
        assert(hook_actions(r, HookName::AfterStartFailure).len() == 0);
        assert(hook_actions(r, HookName::BeforeStop).len() == 0);
        assert(hook_actions(r, HookName::AfterStopSuccess).len() == 0);
        assert(hook_actions(r, HookName::AfterStopTimeout).len() == 0);
        assert(hook_actions(r, HookName::AfterStopFailure).len() == 0);
        assert(hook_actions(r, HookName::AfterRuntimeExitUnexpected).len() == 0);
        assert(views(r.before_start@) =~= Seq::<Seq<char>>::empty());
        assert(views(r.after_start_success@) =~= Seq::<Seq<char>>::empty());
        assert(views(r.before_stop@) =~= Seq::<Seq<char>>::empty());
        assert(views(r.after_runtime_exit_unexpected@) =~= Seq::<Seq<char>>::empty());
    }
    r
}

fn minimal_service_config(exe: &str, args: Vec<String>, deps: Vec<String>, log: &str) -> (r:
    ServiceConfig)
    ensures
        minimal_service(r, exe@, views(args@), views(deps@), log@),
{
    proof {
        reveal_strlit(".");
    }
    let env: NameMap<String> = NameMap::new();
    ServiceConfig {
        executable: exe.to_owned(),
        args,
        cwd: Some(".".to_owned()),
        env,
        depends_on: deps,
        restart: None,
        stop_signal: None,
        stop_timeout_secs: None,
        autostart: None,
        disabled: None,
        log: Some(default_rotate_log(log)),
        watch: None,
        hooks: empty_hooks(),
    }
}

fn minimal_preset_with(exe: &str, first: &str, second: Option<&str>) -> (r: ProjectConfig)
    ensures
        minimal_preset(
            r,
            exe@,
            match second {
                Some(s) => seq![first@, s@],
                None => seq![first@],
            },
        ),
{
    proof {
        reveal_strlit("app");
        reveal_strlit("worker");
        reveal_strlit("./logs/app.log");
        reveal_strlit("./logs/worker.log");
        reveal_strlit("./logs/onekey-run.log");
    }
    let app_args = match second {
        Some(s) => strings2(first, s),
        None => strings1(first),
    };
    let worker_args = match second {
        Some(s) => strings2(first, s),
        None => strings1(first),
    };
    let mut services: NameMap<ServiceConfig> = NameMap::new();
    let app = minimal_service_config(exe, app_args, no_strings(), "./logs/app.log");
    let worker = minimal_service_config(exe, worker_args, strings1("app"), "./logs/worker.log");
    let ghost app_v = app;
    let ghost worker_v = worker;
    services.insert("app".to_owned(), app);
    let ghost mid = services.pairs();
    services.insert("worker".to_owned(), worker);
    let actions: NameMap<ActionConfig> = NameMap::new();
    let r = ProjectConfig {
        defaults: DefaultsConfig { stop_timeout_secs: Some(10), restart: None },
        log: Some(default_rotate_log("./logs/onekey-run.log")),
        actions,
        services,
    };
    proof {
        let ps = r.services.pairs();
        reveal_strlit("app");
        reveal_strlit("worker");
        assert("app"@.len() == 3 && "worker"@.len() == 6);
        assert("app"@ != "worker"@);
        assert(lookup(mid, "app"@) == Some(app_v));
        assert(lookup(ps, "app"@) == Some(app_v));
        assert(lookup(ps, "worker"@) == Some(worker_v));
        assert forall|x: Seq<char>| #[trigger]
            lookup(ps, x) is Some <==> (x == "app"@ || x == "worker"@) by {
            assert(lookup(mid, x) is Some <==> x == "app"@);
        }
    }
    r
}

impl ProjectConfig {
    /// The minimal template for Unix: two services that sleep.
    pub fn preset_minimal_unix() -> (r: Self)
        ensures
            minimal_preset(r, "sleep"@, seq!["30"@]),
    {
        minimal_preset_with("sleep", "30", None)
    }

    /// The minimal template for Windows: two services that wait.
    pub fn preset_minimal_windows() -> (r: Self)
        ensures
            minimal_preset(r, "cmd"@, windows_wait_args()),
    {
        minimal_preset_with("cmd", "/C", Some("timeout /T 30 /NOBREAK >NUL"))
    }

    /// The minimal template for the platform: Windows or Unix.
    pub fn preset_minimal(windows: bool) -> (r: Self)
        ensures
            windows ==> minimal_preset(r, "cmd"@, windows_wait_args()),
            !windows ==> minimal_preset(r, "sleep"@, seq!["30"@]),
    {
        if windows {
            return Self::preset_minimal_windows();
        }
        Self::preset_minimal_unix()
    }
}


fn full_action_config(exe: &str, flag: &str, command: &str) -> (r: ActionConfig)
    ensures
        full_action(r, exe@, seq![flag@, command@]),
{
    proof {
        reveal_strlit(".");
    }
    let env: NameMap<String> = NameMap::new();
    ActionConfig {
        executable: exe.to_owned(),
        args: strings2(flag, command),
        cwd: Some(".".to_owned()),
        env,
        timeout_secs: Some(10),
        disabled: Some(false),
    }
}

fn full_service_config(exe: &str, args: Vec<String>, app: bool) -> (r: ServiceConfig)
    ensures
        full_service(r, exe@, views(args@), app),
{
    proof {
        reveal_strlit(".");
        reveal_strlit("RUST_LOG");
        reveal_strlit("info");
        reveal_strlit("term");
        reveal_strlit("app");
        reveal_strlit("./logs/app.log");
        reveal_strlit("./logs/worker.log");
        reveal_strlit("prepare-app");
        reveal_strlit("notify-up");
        reveal_strlit("notify-stop");
        reveal_strlit("notify-exit");
    }
    let mut env: NameMap<String> = NameMap::new();
    if app {
        env.insert("RUST_LOG".to_owned(), "info".to_owned());
        proof {
            assert(env.pairs() =~= seq![("RUST_LOG"@, env.pairs()[0].1)]) by {
                crate::name_map::lemma_insert_after_all(
                    Seq::<(Seq<char>, String)>::empty(),
                    "RUST_LOG"@,
                    env.pairs()[0].1,
                );
            }
        }
    }
    let mut hooks = empty_hooks();
    hooks.before_start = strings1("prepare-app");
    hooks.after_runtime_exit_unexpected = strings1("notify-exit");
    if app {
        hooks.after_start_success = strings1("notify-up");
        hooks.before_stop = strings1("notify-stop");
    }
    let watch = if app {
        Some(ServiceWatchConfig { paths: strings1("."), debounce_ms: Some(500) })
    } else {
        None
    };
    ServiceConfig {
        executable: exe.to_owned(),
        args,
        cwd: Some(".".to_owned()),
        env,
        depends_on: if app {
            no_strings()
        } else {
            strings1("app")
        },
        restart: if app {
            Some(RestartPolicy::No)
        } else {
            Some(RestartPolicy::OnFailure)
        },
        stop_signal: Some("term".to_owned()),
        stop_timeout_secs: Some(10),
        autostart: Some(true),
        disabled: Some(false),
        log: Some(
            default_rotate_log(
                if app {
                    "./logs/app.log"
                } else {
                    "./logs/worker.log"
                },
            ),
        ),
        watch,
        hooks,
    }
}

fn full_preset_with(
    service_exe: &str,
    first: &str,
    second: Option<&str>,
    action_exe: &str,
    flag: &str,
) -> (r: ProjectConfig)
    ensures
        full_preset(
            r,
            service_exe@,
            match second {
                Some(s) => seq![first@, s@],
                None => seq![first@],
            },
            action_exe@,
            flag@,
        ),
{
    let mut actions: NameMap<ActionConfig> = NameMap::new();
    let prepare = full_action_config(action_exe, flag, "echo preparing ${service_name} in ${service_cwd}");
    let up = full_action_config(action_exe, flag, "echo ${service_name} started with pid ${service_pid}");
    let stop = full_action_config(action_exe, flag, "echo stopping ${service_name} because ${stop_reason}");
    let exit = full_action_config(
        action_exe,
        flag,
        "echo ${service_name} exited unexpectedly with ${exit_status}",
    );
    let ghost (pv, uv, sv, ev) = (prepare, up, stop, exit);
    actions.insert("prepare-app".to_owned(), prepare);
    let ghost a1 = actions.pairs();
    actions.insert("notify-up".to_owned(), up);
    let ghost a2 = actions.pairs();
    actions.insert("notify-stop".to_owned(), stop);
    let ghost a3 = actions.pairs();
    actions.insert("notify-exit".to_owned(), exit);
    let app_args = match second {
        Some(s) => strings2(first, s),
        None => strings1(first),
    };
    let worker_args = match second {
        Some(s) => strings2(first, s),
        None => strings1(first),
    };
    let mut services: NameMap<ServiceConfig> = NameMap::new();
    let app = full_service_config(service_exe, app_args, true);
    let worker = full_service_config(service_exe, worker_args, false);
    let ghost (app_v, worker_v) = (app, worker);
    services.insert("app".to_owned(), app);
    let ghost s1 = services.pairs();
    services.insert("worker".to_owned(), worker);
    let r = ProjectConfig {
        defaults: DefaultsConfig { stop_timeout_secs: Some(10), restart: Some(RestartPolicy::No) },
        log: Some(default_rotate_log("./logs/onekey-run.log")),
        actions,
        services,
    };
    proof {
        reveal_strlit("app");
        reveal_strlit("worker");
        reveal_strlit("prepare-app");
        reveal_strlit("notify-up");
        reveal_strlit("notify-stop");
        reveal_strlit("notify-exit");
        reveal_strlit("./logs/onekey-run.log");
        assert("app"@.len() == 3 && "worker"@.len() == 6);
        assert("app"@ != "worker"@);
        assert("prepare-app"@[0] == 'p' && "notify-up"@.len() == 9);
        assert("notify-stop"@[0] == 'n' && "notify-exit"@[0] == 'n');
        assert("notify-stop"@[7] == 's' && "notify-exit"@[7] == 'e');
        assert("prepare-app"@ != "notify-up"@);
        assert("prepare-app"@ != "notify-stop"@);
        assert("prepare-app"@ != "notify-exit"@);
        assert("notify-up"@ != "notify-stop"@);
        assert("notify-up"@ != "notify-exit"@);
        assert("notify-stop"@ != "notify-exit"@);
        let aps = r.actions.pairs();
        assert(lookup(a1, "prepare-app"@) == Some(pv));
        assert(lookup(a2, "prepare-app"@) == Some(pv));
        assert(lookup(a3, "prepare-app"@) == Some(pv));
        assert(lookup(aps, "prepare-app"@) == Some(pv));
        assert(lookup(a2, "notify-up"@) == Some(uv));
        assert(lookup(a3, "notify-up"@) == Some(uv));
        assert(lookup(aps, "notify-up"@) == Some(uv));
        assert(lookup(a3, "notify-stop"@) == Some(sv));
        assert(lookup(aps, "notify-stop"@) == Some(sv));
        assert(lookup(aps, "notify-exit"@) == Some(ev));
        assert forall|x: Seq<char>| #[trigger]
            lookup(aps, x) is Some <==> (x == "prepare-app"@ || x == "notify-up"@ || x
                == "notify-stop"@ || x == "notify-exit"@) by {
            assert(lookup(a1, x) is Some <==> x == "prepare-app"@);
            assert(lookup(a2, x) is Some <==> (x == "prepare-app"@ || x == "notify-up"@));
            assert(lookup(a3, x) is Some <==> (x == "prepare-app"@ || x == "notify-up"@ || x
                == "notify-stop"@));
        }
        let ps = r.services.pairs();
        assert(lookup(s1, "app"@) == Some(app_v));
        assert(lookup(ps, "app"@) == Some(app_v));
        assert(lookup(ps, "worker"@) == Some(worker_v));
        assert forall|x: Seq<char>| #[trigger]
            lookup(ps, x) is Some <==> (x == "app"@ || x == "worker"@) by {
            assert(lookup(s1, x) is Some <==> x == "app"@);
        }
    }
    r
}

impl ProjectConfig {
    /// The full template for Unix: services that sleep, actions run by `sh`.
    pub fn preset_full_unix() -> (r: Self)
        ensures
            full_preset(r, "sleep"@, seq!["30"@], "sh"@, "-c"@),
    {
        full_preset_with("sleep", "30", None, "sh", "-c")
    }

    /// The full template for Windows: services that wait, actions run by
    /// `cmd`.
    pub fn preset_full_windows() -> (r: Self)
        ensures
            full_preset(r, "cmd"@, windows_wait_args(), "cmd"@, "/C"@),
    {
        full_preset_with("cmd", "/C", Some("timeout /T 30 /NOBREAK >NUL"), "cmd", "/C")
    }

    /// The full template for the platform: Windows or Unix.
    pub fn preset_full(windows: bool) -> (r: Self)
        ensures
            windows ==> full_preset(r, "cmd"@, windows_wait_args(), "cmd"@, "/C"@),
            !windows ==> full_preset(r, "sleep"@, seq!["30"@], "sh"@, "-c"@),
    {
        if windows {
            return Self::preset_full_windows();
        }
        Self::preset_full_unix()
    }
}

} // verus!
