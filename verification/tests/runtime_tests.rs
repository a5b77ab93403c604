use onekey_run::config::{HookName, ResolvedLogConfig, ResolvedServiceConfig, ServiceHooksConfig};
use onekey_run::error::{AppError, ExitCode};
use onekey_run::name_map::NameMap;
use onekey_run::output::{
    hooks_on_terminal, output_mode_for_service, shows_restart_notice, OutputMode,
    RuntimeOutputContext,
};
use onekey_run::management::{management_entry, sort_registry_entries};
use onekey_run::process::{
    alive_from_probe, force_stop_service, is_pid_alive, request_stop_service, signal_service, PidProbe, StopSignal,
};
use onekey_run::runtime_state::{
    existing_lock_outcome, json_lines, register_instance, unregister_instance, PlatformRuntimeState, RegistryEntry, RuntimeEvent, RuntimeState,
    ServiceRuntimeState,
};
use onekey_run::start::{
    runtime_exit, finish_run, instance_stopped_detail, instance_stopping_detail, managed_restart_failure_notice,
    StartCommand, StartMachine, StartObservation, StartPhase, StartStep,
};

fn service_state(name: &str, pid: u32) -> ServiceRuntimeState {
    ServiceRuntimeState {
        service_name: name.to_owned(),
        pid,
        cwd: "/p".to_owned(),
        executable: "sh".to_owned(),
        args: Vec::new(),
        log_file: None,
        stop_signal: None,
        stop_timeout_secs: 10,
        platform: PlatformRuntimeState { process_group_id: Some(pid as i32) },
    }
}

fn resolved(name: &str, log: bool) -> ResolvedServiceConfig {
    ResolvedServiceConfig {
        name: name.to_owned(),
        executable: "sh".to_owned(),
        args: Vec::new(),
        cwd: "/p".to_owned(),
        env: NameMap::new(),
        depends_on: Vec::new(),
        hooks: ServiceHooksConfig {
            before_start: Vec::new(),
            after_start_success: Vec::new(),
            after_start_failure: Vec::new(),
            before_stop: Vec::new(),
            after_stop_success: Vec::new(),
            after_stop_timeout: Vec::new(),
            after_stop_failure: Vec::new(),
            after_runtime_exit_unexpected: Vec::new(),
        },
        stop_signal: None,
        stop_timeout_secs: 10,
        log: if log {
            Some(ResolvedLogConfig {
                file: "/p/logs/x.log".to_owned(),
                append: true,
                max_file_bytes: None,
                overflow_strategy: None,
                rotate_file_count: None,
            })
        } else {
            None
        },
        watch: None,
    }
}

#[test]
fn runtime_state_records_each_service_once() {
    let mut state = RuntimeState::new("/p".to_owned(), "/p/c.yaml".to_owned(), None, 42, 7);
    assert_eq!(state.instance_id, "42-7");
    state.record_service(service_state("api", 1));
    state.record_service(service_state("db", 2));
    state.record_service(service_state("api", 3));
    let names: Vec<(&str, u32)> =
        state.services.iter().map(|s| (s.service_name.as_str(), s.pid)).collect();
    assert_eq!(names, vec![("db", 2), ("api", 3)]);
    state.forget_service("db");
    assert_eq!(state.services.len(), 1);
    assert_eq!(state.services[0].service_name, "api");
}

#[test]
fn json_lines_keep_numbered_non_blank_lines() {
    let raw = "{\"a\":1}\r\n\n   \n{\"b\":2}\n{\"c\":3}";
    let lines = json_lines(raw);
    assert_eq!(
        lines,
        vec![
            (1, "{\"a\":1}".to_owned()),
            (4, "{\"b\":2}".to_owned()),
            (5, "{\"c\":3}".to_owned())
        ]
    );
    assert_eq!(json_lines(""), Vec::new());
    assert_eq!(json_lines("x\n"), vec![(1, "x".to_owned())]);
    assert_eq!(json_lines("x\r"), vec![(1, "x\r".to_owned())]);
}

#[test]
fn a_live_lock_owner_refuses_the_lock() {
    let err = existing_lock_outcome(true, 12, "/p/.onekey-run/lock.json").unwrap_err();
    assert_eq!(err.exit_code(), ExitCode::StartupFailed);
    assert_eq!(
        err.message,
        "project is already running under pid 12; remove /p/.onekey-run/lock.json only if you are sure it is stale"
    );
    assert!(existing_lock_outcome(false, 12, "/p/.onekey-run/lock.json").is_ok());
}

#[test]
fn probes_decide_liveness() {
    assert!(alive_from_probe(PidProbe::Exists));
    assert!(alive_from_probe(PidProbe::PermissionDenied));
    assert!(!alive_from_probe(PidProbe::NoSuchProcess));
    assert!(!alive_from_probe(PidProbe::OtherError));
    assert!(is_pid_alive(1));
    assert!(!is_pid_alive(2_000_000_000));
}

#[test]
fn output_modes_follow_the_context() {
    let with_log = resolved("api", true);
    let without_log = resolved("db", false);
    assert!(matches!(
        output_mode_for_service(&without_log, RuntimeOutputContext::Plain),
        OutputMode::Null
    ));
    match output_mode_for_service(&with_log, RuntimeOutputContext::Daemon) {
        OutputMode::Capture(o) => {
            assert!(!o.send_events);
            assert_eq!(o.log.unwrap().file, "/p/logs/x.log");
        }
        OutputMode::Null => panic!("expected capture"),
    }
    match output_mode_for_service(&without_log, RuntimeOutputContext::Tui) {
        OutputMode::Capture(o) => {
            assert!(o.send_events);
            assert!(o.log.is_none());
        }
        OutputMode::Null => panic!("expected capture"),
    }
    assert!(hooks_on_terminal(RuntimeOutputContext::Plain));
    assert!(!hooks_on_terminal(RuntimeOutputContext::Tui));
    assert!(shows_restart_notice(RuntimeOutputContext::Plain, true));
    assert!(!shows_restart_notice(RuntimeOutputContext::Plain, false));
    assert!(!shows_restart_notice(RuntimeOutputContext::Daemon, true));
}

#[test]
fn a_successful_start_records_and_runs_hooks() {
    let (mut machine, starting, command) = StartMachine::begin("api".to_owned());
    assert_eq!(starting.event_type, "service_starting");
    assert_eq!(starting.detail, "starting service `api`");
    assert!(matches!(command, StartCommand::RunHook { hook: HookName::BeforeStart, .. }));

    let step = machine.advance(StartObservation::HookRan(Ok(())));
    assert!(matches!(step.command, StartCommand::Spawn));
    let step = machine.advance(StartObservation::Spawned(Ok(77)));
    assert!(matches!(step.command, StartCommand::RecordRunning));
    let step = machine.advance(StartObservation::Recorded(Ok(())));
    match &step.steps[0] {
        StartStep::Record(e) => {
            assert_eq!(e.event_type, "service_running");
            assert_eq!(e.detail, "service `api` entered running with pid 77");
        }
        _ => panic!("expected a record"),
    }
    match step.command {
        StartCommand::RunHook { hook, extras } => {
            assert_eq!(hook, HookName::AfterStartSuccess);
            assert_eq!(extras.service_pid, Some(77));
            assert_eq!(extras.exit_code, Some(0));
            assert_eq!(extras.exit_status.as_deref(), Some("running"));
        }
        _ => panic!("expected the success hook"),
    }
    let step = machine.advance(StartObservation::HookRan(Err(AppError::startup_failed(
        "hook broke".to_owned(),
    ))));
    assert!(matches!(&step.steps[0], StartStep::ReportHookError(e) if e.message == "hook broke"));
    assert!(matches!(step.command, StartCommand::Finish(Ok(()))));
    assert!(matches!(machine.phase, StartPhase::Done));
}

#[test]
fn a_failed_spawn_runs_the_failure_hook_and_fails() {
    let (mut machine, _, _) = StartMachine::begin("api".to_owned());
    machine.advance(StartObservation::HookRan(Ok(())));
    let step = machine.advance(StartObservation::Spawned(Err(AppError::startup_failed(
        "no such file".to_owned(),
    ))));
    match &step.steps[0] {
        StartStep::Record(e) => {
            assert_eq!(e.event_type, "service_spawn_failed");
            assert_eq!(e.detail, "no such file");
        }
        _ => panic!("expected a record"),
    }
    assert!(matches!(
        &step.command,
        StartCommand::RunHook { hook: HookName::AfterStartFailure, extras }
            if extras.exit_status.as_deref() == Some("no such file")
    ));
    let step = machine.advance(StartObservation::HookRan(Ok(())));
    assert!(step.steps.is_empty());
    assert!(matches!(&step.command, StartCommand::Finish(Err(e)) if e.message == "no such file"));
}

#[test]
fn an_aborted_start_records_the_hook_failure() {
    let (mut machine, _, _) = StartMachine::begin("api".to_owned());
    let step = machine.advance(StartObservation::HookRan(Err(AppError::startup_failed(
        "before failed".to_owned(),
    ))));
    match &step.steps[0] {
        StartStep::Record(e) => {
            assert_eq!(e.event_type, "service_start_aborted");
            assert_eq!(e.hook_name.as_deref(), Some("before_start"));
        }
        _ => panic!("expected a record"),
    }
    assert!(matches!(step.command, StartCommand::Finish(Err(_))));
}

#[test]
fn instance_details_and_outcomes() {
    assert_eq!(instance_stopping_detail("ctrl_c"), "reason=\"ctrl_c\"");
    assert_eq!(
        instance_stopped_detail(true, false, true),
        "runtime_ok=\"true\" shutdown_ok=\"false\" cleanup_ok=\"true\""
    );
    let r = finish_run(
        Ok(()),
        Err(AppError::runtime_failed("stop".to_owned())),
        Err(AppError::runtime_failed("clean".to_owned())),
    );
    assert_eq!(r.unwrap_err().message, "stop");
    assert!(finish_run(Ok(()), Ok(()), Ok(())).is_ok());
    assert_eq!(
        managed_restart_failure_notice("api", &AppError::runtime_failed("boom".to_owned())),
        "failed to start or restart api: boom"
    );
}

fn registry_entry(root: &str) -> RegistryEntry {
    RegistryEntry {
        project_root: root.to_owned(),
        config_path: format!("{root}/onekey-tasks.yaml"),
        instance_log_file: None,
        tool_pid: 42,
        started_at_unix_secs: 0,
        service_names: vec!["db".to_owned()],
    }
}

#[test]
fn registry_entries_sort_by_project_root_as_paths() {
    let sorted = sort_registry_entries(vec![
        registry_entry("/srv/b"),
        registry_entry("/srv/a/x"),
        registry_entry("/srv/a"),
        registry_entry("/srv/a-b"),
    ]);
    let roots: Vec<&str> = sorted.iter().map(|e| e.project_root.as_str()).collect();
    assert_eq!(roots, vec!["/srv/a", "/srv/a/x", "/srv/a-b", "/srv/b"]);
}

#[test]
fn management_entries_follow_the_recorded_state() {
    let mut state = RuntimeState::new("/srv/a".to_owned(), "/srv/a/onekey-tasks.yaml".to_owned(), None, 42, 0);
    state.record_service(service_state("api", 10));
    state.record_service(service_state("web", 11));
    let events = vec![RuntimeEvent {
        timestamp_unix_secs: 5,
        event_type: "hook_started".to_owned(),
        service_name: Some("api".to_owned()),
        hook_name: Some("before_start".to_owned()),
        action_name: None,
        detail: "d".to_owned(),
    }];
    let shown = management_entry(registry_entry("/srv/a"), true, true, true, Some(state), &vec![true, false], &events)
        .unwrap();
    assert_eq!(shown.service_names, vec!["api".to_owned(), "web".to_owned()]);
    assert_eq!(shown.alive_services, 1);
    assert_eq!(shown.status_summary, "partial (1/2 alive)");
    assert_eq!(shown.last_event.unwrap().event_type, "hook_started");
    assert_eq!(shown.service_summaries[0].last_hook_status, "running");

    let fallback = management_entry(registry_entry("/srv/a"), false, false, true, None, &Vec::new(), &Vec::new())
        .unwrap();
    assert_eq!(fallback.service_names, vec!["db".to_owned()]);
    assert_eq!(fallback.alive_services, 0);
    assert_eq!(fallback.status_summary, "stale");

    assert!(management_entry(registry_entry("/srv/a"), false, false, false, None, &Vec::new(), &Vec::new()).is_none());
}

#[test]
fn runtime_exit_unexpected_runs_hook_and_emits_event() {
    let exit = runtime_exit("api", 77, Some(3), "exit status: 3");
    assert_eq!(exit.record.event_type, "service_runtime_exit_unexpected");
    assert_eq!(exit.record.hook_name.as_deref(), Some("after_runtime_exit_unexpected"));
    assert_eq!(exit.record.detail, "service `api` exited unexpectedly with status exit status: 3");
    assert_eq!(exit.extras.service_pid, Some(77));
    assert_eq!(exit.extras.exit_code, Some(3));
    assert_eq!(exit.extras.exit_status.as_deref(), Some("exit status: 3"));
    assert_eq!(exit.error.message, "service `api` exited with status exit status: 3");
    assert_eq!(exit.error.exit_code, ExitCode::RuntimeFailed);
}

fn absent_service(stop_signal: Option<&str>, group: Option<i32>) -> ServiceRuntimeState {
    let mut state = service_state("ghost", 2_000_000_000);
    state.stop_signal = stop_signal.map(|s| s.to_owned());
    state.platform = PlatformRuntimeState { process_group_id: group };
    state
}

#[test]
fn signals_try_the_group_then_the_process() {
    let sends = signal_service(&absent_service(None, Some(2_000_000_000)), StopSignal::Terminate);
    assert_eq!(sends.len(), 2);
    assert_eq!(sends[0].target, -2_000_000_000);
    assert_eq!(sends[1].target, 2_000_000_000);
    assert!(sends.iter().all(|s| s.signal == StopSignal::Terminate && s.outcome.is_err()));

    let sends = signal_service(&absent_service(None, None), StopSignal::Kill);
    assert_eq!(sends.len(), 1);
    assert_eq!(sends[0].target, 2_000_000_000);
}

#[test]
fn stop_requests_send_the_configured_signal() {
    let delivery = request_stop_service(&absent_service(Some("INT"), None));
    assert_eq!(delivery.sends[0].signal, StopSignal::Interrupt);
    let error = delivery.result.unwrap_err();
    assert!(error.message.starts_with("failed to send stop signal to service `ghost` (pid 2000000000): "));
    assert_eq!(error.exit_code, ExitCode::RuntimeFailed);

    let delivery = request_stop_service(&absent_service(Some("term"), None));
    assert_eq!(delivery.sends[0].signal, StopSignal::Terminate);
    let delivery = request_stop_service(&absent_service(Some("sigkill"), None));
    assert_eq!(delivery.sends[0].signal, StopSignal::Kill);

    let delivery = force_stop_service(&absent_service(Some("INT"), Some(2_000_000_000)));
    assert_eq!(delivery.sends.len(), 2);
    assert!(delivery.sends.iter().all(|s| s.signal == StopSignal::Kill));
    assert!(delivery.result.unwrap_err().message.starts_with("failed to send SIGKILL to service `ghost` (pid 2000000000): "));
}

#[test]
fn registry_round_trip_register_and_unregister() {
    let before = vec![registry_entry("/srv/a"), registry_entry("/srv/b")];
    let mut state = RuntimeState::new("/srv/c".to_owned(), "/srv/c/onekey-tasks.yaml".to_owned(), None, 7, 1);
    state.record_service(service_state("api", 10));
    let registered = register_instance(before, &state);
    assert_eq!(registered.len(), 3);
    assert_eq!(registered[2].project_root, "/srv/c");
    assert_eq!(registered[2].service_names, vec!["api".to_owned()]);
    let after = unregister_instance(registered, "/srv/c").unwrap();
    let roots: Vec<&str> = after.iter().map(|e| e.project_root.as_str()).collect();
    assert_eq!(roots, vec!["/srv/a", "/srv/b"]);
    assert!(unregister_instance(after, "/srv/c").is_none());
}
