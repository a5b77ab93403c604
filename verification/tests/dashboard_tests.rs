use onekey_run::dashboard::{
    dashboard_keys_help, event_context, event_heading, event_tone, window_bounds, DashboardCommand,
    DashboardKey, DashboardPhase, DashboardState, DashboardTab, EventTone, KeyInput, PostRunAction,
    ServicePanel, ServiceStatus,
};
use onekey_run::process::{LogEvent, LogStream};
use onekey_run::restart::ServiceRestartOutcome;
use onekey_run::runtime_state::RuntimeEvent;

fn dashboard_state(phase: DashboardPhase) -> DashboardState {
    DashboardState {
        services: vec![ServicePanel {
            name: "api".to_owned(),
            pid: 123,
            watching: true,
            status: ServiceStatus::Running,
            last_watch_event: None,
            logs: Vec::new(),
        }],
        events: Vec::new(),
        main_tab: DashboardTab::Overview,
        phase,
        selected: 0,
        log_scroll: 0,
        event_scroll: 0,
        keys_help: dashboard_keys_help(phase).to_owned(),
        notice: String::new(),
    }
}

fn press(key: DashboardKey) -> KeyInput {
    KeyInput { key, ctrl: false, press: true }
}

fn panel(name: &str) -> ServicePanel {
    ServicePanel {
        name: name.to_owned(),
        pid: 0,
        watching: false,
        status: ServiceStatus::Stopped("not running".to_owned()),
        last_watch_event: None,
        logs: Vec::new(),
    }
}

#[test]
fn restart_key_maps_to_restart_command_in_running_phase() {
    let mut state = dashboard_state(DashboardPhase::Running);

    let command = state.handle_event(press(DashboardKey::Char('R')), false);

    assert_eq!(command, DashboardCommand::RestartSelectedService);
}

#[test]
fn restart_key_is_blocked_in_post_run_readonly() {
    let mut state = dashboard_state(DashboardPhase::PostRunReadonly);

    let command = state.handle_event(press(DashboardKey::Char('R')), false);

    assert_eq!(command, DashboardCommand::Nothing);
    assert!(state.notice.contains("read-only"));
}

#[test]
fn restart_key_maps_to_restart_command_in_post_run_manage() {
    let mut state = dashboard_state(DashboardPhase::PostRunManage);

    let command = state.handle_event(press(DashboardKey::Char('R')), false);

    assert_eq!(command, DashboardCommand::RestartSelectedService);
}

#[test]
fn phase_updates_keys_help() {
    let mut state = dashboard_state(DashboardPhase::Running);

    state.set_phase(DashboardPhase::PostRunReadonly);
    assert_eq!(
        state.keys_help,
        dashboard_keys_help(DashboardPhase::PostRunReadonly)
    );

    state.set_phase(DashboardPhase::PostRunManage);
    assert_eq!(
        state.keys_help,
        dashboard_keys_help(DashboardPhase::PostRunManage)
    );
}

#[test]
fn quit_keys_map_to_exit_command() {
    let mut state = dashboard_state(DashboardPhase::Running);

    let command = state.handle_event(press(DashboardKey::Char('q')), false);
    assert_eq!(command, DashboardCommand::Exit);

    let command = state.handle_event(press(DashboardKey::Esc), false);
    assert_eq!(command, DashboardCommand::Exit);
}

#[test]
fn quit_notice_depends_on_phase() {
    let mut running = dashboard_state(DashboardPhase::Running);
    running.handle_event(press(DashboardKey::Esc), false);
    assert_eq!(running.notice, "graceful stop requested.");

    let mut post = dashboard_state(DashboardPhase::PostRunManage);
    post.handle_event(press(DashboardKey::Char('q')), false);
    assert_eq!(post.notice, "exiting dashboard.");
}

#[test]
fn control_c_notices() {
    let mut state = dashboard_state(DashboardPhase::Running);
    let ctrl_c = KeyInput { key: DashboardKey::Char('c'), ctrl: true, press: true };
    assert_eq!(state.handle_event(ctrl_c, false), DashboardCommand::Exit);
    assert_eq!(
        state.notice,
        "interrupt received, stopping services. press Ctrl-C again to force."
    );
    assert_eq!(state.handle_event(ctrl_c, true), DashboardCommand::Exit);
    assert_eq!(state.notice, "force stop requested.");

    let mut post = dashboard_state(DashboardPhase::PostRunReadonly);
    assert_eq!(post.handle_event(ctrl_c, true), DashboardCommand::Exit);
    assert_eq!(post.notice, "dashboard exit requested.");

    let plain_c = press(DashboardKey::Char('c'));
    let mut other = dashboard_state(DashboardPhase::Running);
    assert_eq!(other.handle_event(plain_c, false), DashboardCommand::Nothing);
    assert_eq!(other.notice, "");
}

#[test]
fn released_keys_do_nothing() {
    let mut state = dashboard_state(DashboardPhase::Running);
    let release = KeyInput { key: DashboardKey::Char('q'), ctrl: false, press: false };
    assert_eq!(state.handle_event(release, false), DashboardCommand::Nothing);
    assert_eq!(state.notice, "");
}

#[test]
fn restart_without_services_asks_for_selection() {
    let mut state = dashboard_state(DashboardPhase::Running);
    state.services.clear();
    assert_eq!(state.handle_event(press(DashboardKey::Char('R')), false), DashboardCommand::Nothing);
    assert_eq!(state.notice, "no service selected.");
}

#[test]
fn tabs_cycle_both_ways() {
    let mut state = dashboard_state(DashboardPhase::Running);
    state.handle_event(press(DashboardKey::Tab), false);
    assert_eq!(state.main_tab, DashboardTab::Logs);
    state.handle_event(press(DashboardKey::Right), false);
    assert_eq!(state.main_tab, DashboardTab::Events);
    state.handle_event(press(DashboardKey::Tab), false);
    assert_eq!(state.main_tab, DashboardTab::Overview);
    state.handle_event(press(DashboardKey::BackTab), false);
    assert_eq!(state.main_tab, DashboardTab::Events);
    state.handle_event(press(DashboardKey::Left), false);
    assert_eq!(state.main_tab, DashboardTab::Logs);
}

#[test]
fn selection_wraps_and_digits_select() {
    let mut state = dashboard_state(DashboardPhase::Running);
    state.services.push(panel("db"));
    state.services.push(panel("web"));
    state.log_scroll = 4;
    state.handle_event(press(DashboardKey::Up), false);
    assert_eq!(state.selected, 2);
    assert_eq!(state.log_scroll, 0);
    state.handle_event(press(DashboardKey::Down), false);
    assert_eq!(state.selected, 0);
    state.handle_event(press(DashboardKey::Char('2')), false);
    assert_eq!(state.selected, 1);
    state.handle_event(press(DashboardKey::Char('9')), false);
    assert_eq!(state.selected, 1);
    state.handle_event(press(DashboardKey::Char('0')), false);
    assert_eq!(state.selected, 1);
}

#[test]
fn scrolling_follows_the_shown_panel() {
    let mut state = dashboard_state(DashboardPhase::Running);
    state.handle_event(press(DashboardKey::PageUp), false);
    assert_eq!((state.log_scroll, state.event_scroll), (0, 0));

    state.main_tab = DashboardTab::Logs;
    state.handle_event(press(DashboardKey::PageUp), false);
    state.handle_event(press(DashboardKey::Char('k')), false);
    assert_eq!(state.log_scroll, 11);
    state.handle_event(press(DashboardKey::Char('j')), false);
    assert_eq!(state.log_scroll, 10);
    state.handle_event(press(DashboardKey::PageDown), false);
    state.handle_event(press(DashboardKey::PageDown), false);
    assert_eq!(state.log_scroll, 0);

    state.main_tab = DashboardTab::Events;
    state.handle_event(press(DashboardKey::Home), false);
    assert_eq!(state.event_scroll, usize::MAX);
    state.handle_event(press(DashboardKey::PageUp), false);
    assert_eq!(state.event_scroll, usize::MAX);
    state.handle_event(press(DashboardKey::End), false);
    assert_eq!(state.event_scroll, 0);
    assert_eq!(state.log_scroll, 0);
}

#[test]
fn logs_keep_the_latest_lines_and_follow_scroll() {
    let mut state = dashboard_state(DashboardPhase::Running);
    state.log_scroll = 3;
    for i in 0..502 {
        state.push_log(LogEvent {
            service_name: "api".to_owned(),
            stream: if i % 2 == 0 { LogStream::Stdout } else { LogStream::Stderr },
            line: format!("line {i}"),
        });
    }
    let logs = &state.services[0].logs;
    assert_eq!(logs.len(), 500);
    assert_eq!(logs[0], "[out] line 2");
    assert_eq!(logs[499], "[err] line 501");
    assert_eq!(state.log_scroll, 505);

    state.push_log(LogEvent {
        service_name: "other".to_owned(),
        stream: LogStream::Stdout,
        line: "ignored".to_owned(),
    });
    assert_eq!(state.services[0].logs.len(), 500);
    assert_eq!(state.log_scroll, 505);
}

#[test]
fn exited_services_are_marked() {
    let mut state = dashboard_state(DashboardPhase::Running);
    state.mark_exited("api", "exit status 1".to_owned(), false);
    assert_eq!(state.services[0].status.label(), "FAILED");
    assert_eq!(state.services[0].status.detail(), "exit status 1");
    state.mark_exited("api", "done".to_owned(), true);
    assert_eq!(state.services[0].status.label(), "STOPPED");
    assert_eq!(state.running_count(), 0);
    assert_eq!(state.watching_count(), 1);
}

#[test]
fn events_keep_latest_and_watch_summaries() {
    let mut state = dashboard_state(DashboardPhase::Running);
    let mut events = Vec::new();
    for i in 0..505u64 {
        events.push(RuntimeEvent {
            timestamp_unix_secs: i,
            event_type: if i == 503 { "watch_triggered".to_owned() } else { "service_started".to_owned() },
            service_name: Some("api".to_owned()),
            hook_name: None,
            action_name: None,
            detail: format!("n={i}"),
        });
    }
    state.set_events(events);
    assert_eq!(state.events.len(), 500);
    assert_eq!(state.events[0].timestamp_unix_secs, 5);
    assert_eq!(
        state.services[0].last_watch_event.as_deref(),
        Some("watch_triggered | n=503")
    );
}

#[test]
fn restart_notices() {
    let mut state = dashboard_state(DashboardPhase::Running);
    assert_eq!(state.begin_restart(), Some("api".to_owned()));
    assert_eq!(state.notice, "restarting api...");
    state.after_restart("api", &ServiceRestartOutcome::Restarted);
    assert_eq!(state.notice, "service api restarted");
    state.after_restart(
        "api",
        &ServiceRestartOutcome::Skipped { detail: "shutdown in progress".to_owned() },
    );
    assert_eq!(state.notice, "shutdown in progress; restart skipped");
    state.after_restart("api", &ServiceRestartOutcome::Skipped { detail: "boom".to_owned() });
    assert_eq!(state.notice, "failed to restart api: boom");

    assert_eq!(
        state.post_run_command(DashboardCommand::RestartSelectedService),
        Some(PostRunAction::RestartSelectedService("api".to_owned()))
    );
    assert_eq!(state.post_run_command(DashboardCommand::Exit), Some(PostRunAction::Exit));
    state.services.clear();
    assert_eq!(state.post_run_command(DashboardCommand::RestartSelectedService), None);
    assert_eq!(state.notice, "no service selected.");
    assert_eq!(state.begin_restart(), None);
}

#[test]
fn windows_of_lines() {
    assert_eq!(window_bounds(10, 0, 0), (0, 0));
    assert_eq!(window_bounds(3, 5, 2), (0, 3));
    assert_eq!(window_bounds(10, 4, 0), (6, 10));
    assert_eq!(window_bounds(10, 4, 3), (3, 7));
    assert_eq!(window_bounds(10, 4, 100), (0, 4));
}

#[test]
fn sidebar_window_centres_selection() {
    let mut state = dashboard_state(DashboardPhase::Running);
    for name in ["b", "c", "d", "e", "f"] {
        state.services.push(panel(name));
    }
    state.selected = 3;
    assert_eq!(state.service_window_bounds(3), (2, 5));
    state.selected = 5;
    assert_eq!(state.service_window_bounds(3), (3, 6));
    assert_eq!(state.service_window_bounds(10), (0, 6));
}

#[test]
fn event_lines_and_tones() {
    let event = RuntimeEvent {
        timestamp_unix_secs: 1,
        event_type: "instance_stopped".to_owned(),
        service_name: Some("api".to_owned()),
        hook_name: None,
        action_name: None,
        detail: "done".to_owned(),
    };
    assert_eq!(event_heading(&event), "[1] instance_stopped");
    assert_eq!(event_context(&event), "  svc=api  hook=-  action=-  ");
    assert_eq!(event_tone("watch_debounced"), EventTone::Watch);
    assert_eq!(event_tone("service_restart_skipped"), EventTone::RestartSkipped);
    assert_eq!(event_tone("hook_failed"), EventTone::Failure);
    assert_eq!(event_tone("action_timeout"), EventTone::Timeout);
    assert_eq!(event_tone("service_started"), EventTone::Started);
    assert_eq!(event_tone("instance_stopped"), EventTone::Other);
}
