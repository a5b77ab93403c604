use onekey_run::cli::{KeyValueArg, RunArgs};
use onekey_run::config::HookName;
use onekey_run::events::format_detail_fields;
use onekey_run::management::{
    summarize_instance_status, summarize_last_event, summarize_service_events, ManagementEntry,
};
use onekey_run::name_map::NameMap;
use onekey_run::run_request::{
    format_action_params_preview, HookSelection, RunTarget, SingleRunRequest,
};
use onekey_run::runtime_state::{RegistryEntry, RuntimeEvent};

#[test]
fn single_run_request_defaults_service_mode_to_no_hooks() {
    let request = SingleRunRequest::from_args(RunArgs {
        service: Some("api".to_owned()),
        action: None,
        with_all_hooks: false,
        without_hooks: false,
        hook: Vec::new(),
        args: Vec::new(),
    })
    .unwrap();

    match request.target {
        RunTarget::Service { service_name, hook_selection } => {
            assert_eq!(service_name, "api");
            assert_eq!(hook_selection, HookSelection::NoHooks);
        }
        _ => panic!("expected service run target"),
    }
}

#[test]
fn single_run_request_accepts_selected_hooks() {
    let request = SingleRunRequest::from_args(RunArgs {
        service: Some("api".to_owned()),
        action: None,
        with_all_hooks: false,
        without_hooks: false,
        hook: vec!["before_start".to_owned(), "after_stop_success".to_owned()],
        args: Vec::new(),
    })
    .unwrap();

    match request.target {
        RunTarget::Service { hook_selection, .. } => {
            assert!(hook_selection.allows(HookName::BeforeStart));
            assert!(hook_selection.allows(HookName::AfterStopSuccess));
            assert!(!hook_selection.allows(HookName::AfterStartFailure));
        }
        _ => panic!("expected service run target"),
    }
}

#[test]
fn single_run_request_rejects_unknown_action_arg_name() {
    let error = SingleRunRequest::from_args(RunArgs {
        service: None,
        action: Some("notify".to_owned()),
        with_all_hooks: false,
        without_hooks: false,
        hook: Vec::new(),
        args: vec![KeyValueArg { key: "servie_name".to_owned(), value: "api".to_owned() }],
    })
    .unwrap_err();

    assert!(error.to_string().contains("unknown standalone action arg"));
}

#[test]
fn action_params_preview_lists_each_used_param() {
    let mut params = NameMap::new();
    params.insert("hook_name".to_owned(), "before_start".to_owned());
    params.insert("service_name".to_owned(), "api".to_owned());
    let preview = format_action_params_preview("notify", &params);

    assert!(preview.contains("action `notify` resolved params:"));
    assert!(preview.contains("- hook_name=before_start"));
    assert!(preview.contains("- service_name=api"));
}

#[test]
fn summarizes_running_instance() {
    assert_eq!(summarize_instance_status(true, 2, 2, true), "running");
}

#[test]
fn summarizes_partial_instance() {
    assert_eq!(summarize_instance_status(true, 1, 2, true), "partial (1/2 alive)");
}

#[test]
fn summarizes_stale_instance() {
    assert_eq!(summarize_instance_status(false, 0, 2, true), "stale");
}

#[test]
fn summarizes_last_event_and_service_events() {
    let events = vec![
        RuntimeEvent {
            timestamp_unix_secs: 1,
            event_type: "hook_started".to_owned(),
            service_name: Some("api".to_owned()),
            hook_name: Some("before_start".to_owned()),
            action_name: None,
            detail: "started".to_owned(),
        },
        RuntimeEvent {
            timestamp_unix_secs: 2,
            event_type: "action_failed".to_owned(),
            service_name: Some("api".to_owned()),
            hook_name: Some("before_start".to_owned()),
            action_name: Some("prepare".to_owned()),
            detail: "exit 1".to_owned(),
        },
    ];

    let last = summarize_last_event(&events).unwrap();
    assert_eq!(last.event_type, "action_failed");

    let summaries = summarize_service_events(&events, &vec!["api".to_owned()]);
    assert_eq!(summaries.len(), 1);
    assert_eq!(summaries[0].last_action_status, "failed");
    assert_eq!(summaries[0].last_hook_status, "running");
}

fn now_secs() -> u64 {
    std::time::SystemTime::now()
        .duration_since(std::time::UNIX_EPOCH)
        .unwrap()
        .as_secs()
}

#[test]
fn management_entry_carries_instance_log_path() {
    let entry = ManagementEntry::from_registry_entry(
        RegistryEntry {
            project_root: "/tmp/project".to_owned(),
            config_path: "/tmp/project/onekey-tasks.yaml".to_owned(),
            instance_log_file: Some("/tmp/project/logs/onekey-run.log".to_owned()),
            tool_pid: 42,
            started_at_unix_secs: now_secs(),
            service_names: vec!["api".to_owned()],
        },
        true,
        1,
        1,
        vec!["api".to_owned()],
        true,
        None,
        Vec::new(),
    );

    assert_eq!(
        entry.instance_log_file,
        Some("/tmp/project/logs/onekey-run.log".to_owned())
    );
}

#[test]
fn instance_detail_format_is_stable_key_value() {
    let detail = format_detail_fields(&[
        ("mode", "daemon".to_owned()),
        ("config", "/tmp/project/onekey-tasks.yaml".to_owned()),
        ("service_count", "2".to_owned()),
    ]);

    assert_eq!(
        detail,
        "mode=\"daemon\" config=\"/tmp/project/onekey-tasks.yaml\" service_count=\"2\""
    );
}
