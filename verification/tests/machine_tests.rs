use onekey_run::config::{HookName, ResolvedActionConfig, ResolvedServiceConfig, ServiceHooksConfig};
use onekey_run::error::{AppError, ExitCode};
use onekey_run::hook_run::{after_hook_action, begin_hook, ActionRunStatus, HookCommand, HookRuntimeExtras};
use onekey_run::name_map::NameMap;
use onekey_run::restart::{
    RestartCommand, RestartMachine, RestartObservation, RestartStep, ServiceRestartOutcome, ServiceRestartTrigger,
};
use onekey_run::run_request::HookSelection;
use onekey_run::single_run::{SingleCommand, SingleObservation, SingleServiceRun, SingleStep};
use onekey_run::stop::{StopCommand, StopMachine, StopObservation, StopStep, StopStyle};

fn resolved_service(before_start: &[&str]) -> ResolvedServiceConfig {
    let mut hooks = ServiceHooksConfig::new();
    hooks.before_start = before_start.iter().map(|s| s.to_string()).collect();
    ResolvedServiceConfig {
        name: "api".to_owned(),
        executable: "api-bin".to_owned(),
        args: Vec::new(),
        cwd: "/work".to_owned(),
        env: NameMap::new(),
        depends_on: Vec::new(),
        hooks,
        stop_signal: None,
        stop_timeout_secs: 10,
        log: None,
        watch: None,
    }
}

fn actions() -> NameMap<ResolvedActionConfig> {
    let mut map = NameMap::new();
    map.insert(
        "prepare".to_owned(),
        ResolvedActionConfig {
            name: "prepare".to_owned(),
            executable: "echo".to_owned(),
            args: vec!["${service_name}".to_owned()],
            cwd: "/work".to_owned(),
            env: NameMap::new(),
            timeout_secs: Some(1),
        },
    );
    map
}

fn no_extras() -> HookRuntimeExtras {
    HookRuntimeExtras { service_pid: None, stop_reason: None, exit_code: None, exit_status: None }
}

fn event_types(events: &[onekey_run::hook_run::EventRecord]) -> Vec<String> {
    events.iter().map(|e| e.event_type.clone()).collect()
}

#[test]
fn before_start_actions_run_successfully() {
    let service = resolved_service(&["prepare"]);
    let actions = actions();
    let step = begin_hook("/work/onekey-tasks.yaml", &actions, &service, HookName::BeforeStart, &no_extras());
    let types = event_types(&step.events);
    assert_eq!(types[0], "hook_started");
    assert!(types.contains(&"action_params_resolved".to_owned()));
    assert_eq!(step.events[0].detail, "hook `before_start` started for service `api` with 1 action(s)");
    let index = match step.command {
        HookCommand::RunAction { index, action, params } => {
            assert_eq!(action.args, vec!["api".to_owned()]);
            assert_eq!(params.get("service_name").map(|s| s.as_str()), Some("api"));
            index
        }
        other => panic!("expected an action to run, got {other:?}"),
    };
    let step = after_hook_action(
        "/work/onekey-tasks.yaml",
        &actions,
        &service,
        HookName::BeforeStart,
        &no_extras(),
        index,
        &ActionRunStatus::Succeeded,
    );
    assert_eq!(event_types(&step.events), vec!["action_finished", "hook_finished"]);
    assert!(matches!(step.command, HookCommand::Finished));
}

#[test]
fn before_start_action_failure_aborts_startup() {
    let service = resolved_service(&["prepare"]);
    let actions = actions();
    let step = after_hook_action(
        "/work/onekey-tasks.yaml",
        &actions,
        &service,
        HookName::BeforeStart,
        &no_extras(),
        0,
        &ActionRunStatus::Failed { status: "exit status: 3".to_owned() },
    );
    assert_eq!(event_types(&step.events), vec!["action_failed", "hook_failed"]);
    match step.command {
        HookCommand::Failed(error) => {
            assert!(error.message.contains("action `prepare`"));
            assert!(error.message.contains("hook `before_start`"));
            assert_eq!(
                error.message,
                "action `prepare` for service `api` hook `before_start` exited with status exit status: 3"
            );
            assert_eq!(error.exit_code, ExitCode::StartupFailed);
        }
        other => panic!("expected the hook to fail, got {other:?}"),
    }
}

#[test]
fn before_start_action_timeout_emits_timeout_event() {
    let service = resolved_service(&["prepare"]);
    let actions = actions();
    let step = after_hook_action(
        "/work/onekey-tasks.yaml",
        &actions,
        &service,
        HookName::BeforeStart,
        &no_extras(),
        0,
        &ActionRunStatus::TimedOut { timeout_secs: 1 },
    );
    assert_eq!(event_types(&step.events), vec!["action_timed_out", "hook_failed"]);
    match step.command {
        HookCommand::Failed(error) => assert!(error.message.contains("timed out after 1 seconds")),
        other => panic!("expected the hook to fail, got {other:?}"),
    }
}

#[test]
fn a_hook_without_actions_finishes_at_once() {
    let service = resolved_service(&[]);
    let step = begin_hook("/work/onekey-tasks.yaml", &actions(), &service, HookName::BeforeStart, &no_extras());
    assert!(step.events.is_empty());
    assert!(matches!(step.command, HookCommand::Finished));
}

fn records(steps: &[RestartStep]) -> Vec<(String, String)> {
    steps
        .iter()
        .filter_map(|s| match s {
            RestartStep::Record(e) => Some((e.event_type.clone(), e.detail.clone())),
            RestartStep::Notice(_) => None,
        })
        .collect()
}

#[test]
fn tui_restart_restarts_running_service_and_emits_events() {
    let (mut machine, first) =
        RestartMachine::begin(ServiceRestartTrigger::Tui, "api".to_owned(), true, false, true, true);
    assert_eq!(
        records(&first.steps),
        vec![("service_restart_requested".to_owned(), "trigger=\"tui\" key=\"R\"".to_owned())]
    );
    assert!(matches!(first.command, RestartCommand::StopRunning));
    assert_eq!(machine.trigger.stop_reason(), "tui_restart");
    let next = machine.advance(RestartObservation::Stopped(Ok(())));
    assert!(matches!(next.command, RestartCommand::Forget));
    let next = machine.advance(RestartObservation::Forgotten(Ok(())));
    assert!(matches!(next.command, RestartCommand::Start));
    let last = machine.advance(RestartObservation::Started(Ok(())));
    assert_eq!(records(&last.steps)[0].0, "service_restart_succeeded");
    assert!(matches!(last.command, RestartCommand::Finish(Ok(ServiceRestartOutcome::Restarted))));
}

#[test]
fn tui_restart_starts_service_when_not_running() {
    let (mut machine, first) =
        RestartMachine::begin(ServiceRestartTrigger::Tui, "api".to_owned(), true, false, true, false);
    assert!(matches!(first.command, RestartCommand::Start));
    let last = machine.advance(RestartObservation::Started(Ok(())));
    assert_eq!(records(&last.steps)[0].0, "service_restart_succeeded");
}

#[test]
fn tui_restart_is_skipped_when_shutdown_requested() {
    let (_, first) = RestartMachine::begin(ServiceRestartTrigger::Tui, "api".to_owned(), true, true, true, true);
    let kinds: Vec<String> = records(&first.steps).into_iter().map(|(t, _)| t).collect();
    assert_eq!(kinds, vec!["service_restart_requested", "service_restart_skipped"]);
    match first.command {
        RestartCommand::Finish(Ok(ServiceRestartOutcome::Skipped { detail })) => {
            assert_eq!(detail, "shutdown in progress")
        }
        other => panic!("expected a skipped restart, got {other:?}"),
    }
}

#[test]
fn tui_restart_start_failure_emits_skip_event() {
    let (mut machine, _) =
        RestartMachine::begin(ServiceRestartTrigger::Tui, "api".to_owned(), true, false, true, false);
    let next = machine.advance(RestartObservation::Started(Err(AppError::startup_failed("boom".to_owned()))));
    assert!(matches!(next.command, RestartCommand::Forget));
    let last = machine.advance(RestartObservation::Forgotten(Ok(())));
    let recs = records(&last.steps);
    assert_eq!(recs[0].0, "service_restart_skipped");
    assert_eq!(recs[0].1, "trigger=\"tui\" key=\"R\" reason=\"start_failed\" detail=\"boom\"");
    match last.command {
        RestartCommand::Finish(Ok(ServiceRestartOutcome::Skipped { detail })) => assert_eq!(detail, "boom"),
        other => panic!("expected a skipped restart, got {other:?}"),
    }
}

#[test]
fn watch_restart_shows_notices_under_plain_output() {
    let trigger = ServiceRestartTrigger::Watch { changed_path: "/work/trigger.txt".to_owned() };
    let (_, first) = RestartMachine::begin(trigger, "api".to_owned(), true, false, false, false);
    let notices: Vec<&RestartStep> = first.steps.iter().filter(|s| matches!(s, RestartStep::Notice(_))).collect();
    assert_eq!(notices.len(), 2);
    assert_eq!(
        records(&first.steps)[0].1,
        "trigger=\"watch\" path=\"/work/trigger.txt\""
    );
}

fn stop_machine(style: StopStyle) -> StopMachine {
    StopMachine::new(style, "api".to_owned(), 42, "ctrl_c".to_owned(), true, true, false)
}

#[test]
fn supervised_stop_records_and_runs_hooks_in_order() {
    let mut m = stop_machine(StopStyle::Supervised);
    let r = m.advance(StopObservation::Exited(false));
    assert!(matches!(&r.steps[0], StopStep::Record(e) if e.event_type == "service_stopping"
        && e.detail == "stopping service `api` with reason `ctrl_c`"));
    assert!(matches!(&r.steps[1], StopStep::RunHook { hook: HookName::BeforeStop, extras }
        if extras.service_pid == Some(42) && extras.stop_reason.as_deref() == Some("ctrl_c")));
    assert!(matches!(r.command, StopCommand::CheckForce));
    let r = m.advance(StopObservation::ForceRequested(false));
    assert!(matches!(r.command, StopCommand::RequestStop));
    let r = m.advance(StopObservation::StopRequested(Ok(())));
    assert!(matches!(r.command, StopCommand::Poll { after_pause: false }));
    let r = m.advance(StopObservation::Polled { exited: false, force_requested: false, deadline_passed: false });
    assert!(matches!(r.command, StopCommand::Poll { after_pause: true }));
    let r = m.advance(StopObservation::Polled { exited: true, force_requested: false, deadline_passed: false });
    assert!(matches!(&r.steps[0], StopStep::Record(e) if e.detail == "service `api` stopped gracefully"));
    assert!(matches!(&r.steps[1], StopStep::RunHook { hook: HookName::AfterStopSuccess, extras }
        if extras.exit_status.as_deref() == Some("graceful") && extras.exit_code == Some(0)));
    assert!(matches!(r.command, StopCommand::Finish(Ok(()))));
}

#[test]
fn a_timeout_escalates_to_a_kill() {
    let mut m = stop_machine(StopStyle::Supervised);
    m.advance(StopObservation::Exited(false));
    m.advance(StopObservation::ForceRequested(false));
    m.advance(StopObservation::StopRequested(Ok(())));
    let r = m.advance(StopObservation::Polled { exited: false, force_requested: false, deadline_passed: true });
    assert!(matches!(&r.steps[0], StopStep::Record(e) if e.event_type == "service_stop_timeout"));
    assert!(matches!(r.command, StopCommand::ForceKill));
    let r = m.advance(StopObservation::Killed(Ok(())));
    assert!(matches!(&r.steps[0], StopStep::Record(e)
        if e.detail == "service `api` stopped after timeout escalation"));
}

#[test]
fn a_second_interrupt_forces_the_stop_once() {
    let mut m = stop_machine(StopStyle::Supervised);
    m.advance(StopObservation::Exited(false));
    let r = m.advance(StopObservation::ForceRequested(true));
    assert!(matches!(&r.steps[0], StopStep::Warn(t) if t == "second interrupt received, force-stopping services."));
    assert!(matches!(r.command, StopCommand::ForceKill));
    assert!(m.force_notice_shown);
}

#[test]
fn a_single_stop_prints_the_outcome() {
    let mut m = stop_machine(StopStyle::Single(HookSelection::NoHooks));
    let r = m.advance(StopObservation::Exited(false));
    assert!(r.steps.is_empty());
    m.advance(StopObservation::ForceRequested(false));
    m.advance(StopObservation::StopRequested(Ok(())));
    let r = m.advance(StopObservation::Polled { exited: true, force_requested: false, deadline_passed: false });
    assert_eq!(r.steps.len(), 1);
    assert!(matches!(&r.steps[0], StopStep::Say(t) if t == "service `api` stopped with outcome `graceful`"));
}

#[test]
fn a_missing_service_config_fails_the_supervised_stop() {
    let mut m = StopMachine::new(StopStyle::Supervised, "api".to_owned(), 42, "ctrl_c".to_owned(), false, true, false);
    let r = m.advance(StopObservation::Exited(false));
    match r.command {
        StopCommand::Finish(Err(e)) => assert_eq!(e.message, "service config for `api` not found during shutdown"),
        other => panic!("expected a failed stop, got {other:?}"),
    }
}

#[test]
fn a_single_run_starts_watches_and_reports_an_exit() {
    let (mut run, command) = SingleServiceRun::begin("api".to_owned(), HookSelection::All);
    assert!(matches!(command, SingleCommand::RunFatalHook { hook: HookName::BeforeStart, .. }));
    let r = run.advance(SingleObservation::HookRan(Ok(())));
    assert!(matches!(r.command, SingleCommand::Spawn));
    let r = run.advance(SingleObservation::Spawned(Ok(7)));
    assert!(matches!(&r.steps[0], SingleStep::Say(t) if t == "started service `api` with pid 7"));
    assert!(matches!(&r.steps[1], SingleStep::RunHook { hook: HookName::AfterStartSuccess, report_failure: true, .. }));
    assert!(matches!(r.command, SingleCommand::Watch { after_pause: false }));
    let r = run.advance(SingleObservation::Watched { shutdown_requested: false, exit: None });
    assert!(matches!(r.command, SingleCommand::Watch { after_pause: true }));
    let r = run.advance(SingleObservation::Watched {
        shutdown_requested: false,
        exit: Some((Some(1), "exit status: 1".to_owned())),
    });
    assert!(matches!(&r.steps[0], SingleStep::RunHook { hook: HookName::AfterRuntimeExitUnexpected, .. }));
    match r.command {
        SingleCommand::Finish(Err(e)) => {
            assert_eq!(e.message, "service `api` exited with status exit status: 1");
            assert_eq!(e.exit_code, ExitCode::RuntimeFailed);
        }
        other => panic!("expected the run to fail, got {other:?}"),
    }
}

#[test]
fn an_interrupt_stops_a_single_run() {
    let (mut run, command) = SingleServiceRun::begin("api".to_owned(), HookSelection::NoHooks);
    assert!(matches!(command, SingleCommand::Spawn));
    run.advance(SingleObservation::Spawned(Ok(7)));
    let r = run.advance(SingleObservation::Watched { shutdown_requested: true, exit: None });
    assert!(matches!(&r.steps[0], SingleStep::Warn(t)
        if t == "interrupt received, stopping service. press Ctrl-C again to force."));
    match r.command {
        SingleCommand::Stop(stop) => {
            assert_eq!(stop.pid, 7);
            assert_eq!(stop.stop_reason, "ctrl_c");
        }
        other => panic!("expected a stop, got {other:?}"),
    }
    let r = run.advance(SingleObservation::Stopped(Ok(())));
    assert!(matches!(r.command, SingleCommand::Finish(Ok(()))));
}
