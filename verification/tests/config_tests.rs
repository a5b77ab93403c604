use onekey_run::config::{
    ActionConfig, ActionRenderContext, DefaultsConfig, HookName, LogConfig, LogOverflowStrategy,
    ProjectConfig, ServiceConfig, ServiceHooksConfig, ServiceWatchConfig,
};
use onekey_run::name_map::NameMap;
use onekey_run::validation::PathStatus;

fn service(executable: &str) -> ServiceConfig {
    ServiceConfig {
        executable: executable.to_owned(),
        args: Vec::new(),
        cwd: None,
        env: NameMap::new(),
        depends_on: Vec::new(),
        restart: None,
        stop_signal: None,
        stop_timeout_secs: None,
        autostart: None,
        disabled: None,
        log: None,
        watch: None,
        hooks: ServiceHooksConfig::new(),
    }
}

fn action(executable: &str, args: &[&str]) -> ActionConfig {
    ActionConfig {
        executable: executable.to_owned(),
        args: args.iter().map(|a| a.to_string()).collect(),
        cwd: None,
        env: NameMap::new(),
        timeout_secs: None,
        disabled: None,
    }
}

fn log(file: &str) -> LogConfig {
    LogConfig {
        file: file.to_owned(),
        append: true,
        max_file_bytes: None,
        overflow_strategy: None,
        rotate_file_count: None,
    }
}

fn config(services: Vec<(&str, ServiceConfig)>, actions: Vec<(&str, ActionConfig)>) -> ProjectConfig {
    let mut service_map = NameMap::new();
    for (name, s) in services {
        service_map.insert(name.to_owned(), s);
    }
    let mut action_map = NameMap::new();
    for (name, a) in actions {
        action_map.insert(name.to_owned(), a);
    }
    ProjectConfig {
        defaults: DefaultsConfig { stop_timeout_secs: None, restart: None },
        log: None,
        actions: action_map,
        services: service_map,
    }
}

fn validate(config: &ProjectConfig, path: &str) -> Result<(), String> {
    let probes: NameMap<PathStatus> = NameMap::new();
    config.validate(path, &probes).map_err(|e| e.to_string())
}

#[test]
fn rejects_dependency_cycles() {
    let mut api = service("sleep");
    api.depends_on = vec!["worker".to_owned()];
    let mut worker = service("sleep");
    worker.depends_on = vec!["api".to_owned()];
    let config = config(vec![("api", api), ("worker", worker)], vec![]);
    let error = validate(&config, "onekey-tasks.yaml").unwrap_err();
    assert!(error.contains("dependency cycle"));
}

#[test]
fn rejects_rotate_without_rotate_file_count() {
    let mut app = service("sleep");
    let mut l = log("./logs/app.log");
    l.max_file_bytes = Some(1024);
    l.overflow_strategy = Some(LogOverflowStrategy::Rotate);
    app.log = Some(l);
    let config = config(vec![("app", app)], vec![]);
    let error = validate(&config, "onekey-tasks.yaml").unwrap_err();
    assert!(error.contains("rotate_file_count is required"));
}

#[test]
fn rejects_rotate_file_count_for_archive() {
    let mut app = service("sleep");
    let mut l = log("./logs/app.log");
    l.max_file_bytes = Some(1024);
    l.overflow_strategy = Some(LogOverflowStrategy::Archive);
    l.rotate_file_count = Some(3);
    app.log = Some(l);
    let config = config(vec![("app", app)], vec![]);
    let error = validate(&config, "onekey-tasks.yaml").unwrap_err();
    assert!(error.contains("only valid when log.overflow_strategy is `rotate`"));
}

#[test]
fn rejects_top_level_log_conflict_with_service_log() {
    let mut app = service("sleep");
    app.log = Some(log("./logs/shared.log"));
    let mut config = config(vec![("app", app)], vec![]);
    config.log = Some(log("./logs/shared.log"));
    let error = validate(&config, "onekey-tasks.yaml").unwrap_err();
    assert!(error.contains("top-level log.file conflicts"));
}

#[test]
fn resolves_top_level_log_relative_to_config_root() {
    let mut config = config(vec![("app", service("sleep"))], vec![]);
    config.log = Some(log("./logs/instance.log"));
    let resolved = config
        .resolve_project_log("/tmp/project")
        .expect("top-level log should resolve");
    assert_eq!(resolved.file, "/tmp/project/./logs/instance.log");
}

#[test]
fn rejects_unknown_placeholder_in_action() {
    let mut api = service("sleep");
    api.hooks.before_start = vec!["prepare".to_owned()];
    let config = config(
        vec![("api", api)],
        vec![("prepare", action("echo", &["${service_naem}"]))],
    );
    let error = validate(&config, "onekey-tasks.yaml").unwrap_err();
    assert!(error.contains("unknown placeholder"));
}

#[test]
fn rejects_empty_watch_paths() {
    let mut api = service("sleep");
    api.watch = Some(ServiceWatchConfig { paths: Vec::new(), debounce_ms: None });
    let config = config(vec![("api", api)], vec![]);
    let error = validate(&config, "onekey-tasks.yaml").unwrap_err();
    assert!(error.contains("watch.paths must be a non-empty array"));
}

#[test]
fn rejects_watch_paths_that_do_not_exist() {
    let mut api = service("sleep");
    api.watch = Some(ServiceWatchConfig { paths: vec!["./missing.txt".to_owned()], debounce_ms: None });
    let config = config(vec![("api", api)], vec![]);
    let error = validate(&config, "/tmp/watch-missing/onekey-tasks.yaml").unwrap_err();
    assert!(error.contains("resolved watch path does not exist"));
}

#[test]
fn rejects_zero_watch_debounce() {
    let mut api = service("sleep");
    api.watch = Some(ServiceWatchConfig { paths: vec!["./src".to_owned()], debounce_ms: Some(0) });
    let config = config(vec![("api", api)], vec![]);
    let mut probes = NameMap::new();
    probes.insert("/tmp/watch-debounce-zero/./src".to_owned(), PathStatus::Dir);
    let error = config
        .validate("/tmp/watch-debounce-zero/onekey-tasks.yaml", &probes)
        .unwrap_err()
        .to_string();
    assert!(error.contains("watch.debounce_ms must be greater than 0"));
}

#[test]
fn resolves_watch_paths_relative_to_config_root() {
    let dir = "/tmp/watch-resolve";
    let mut api = service("sleep");
    api.watch = Some(ServiceWatchConfig {
        paths: vec!["./src".to_owned(), "./Cargo.toml".to_owned()],
        debounce_ms: Some(750),
    });
    let config = config(vec![("api", api)], vec![]);
    let probe_paths = config.watch_probe_paths("/tmp/watch-resolve/onekey-tasks.yaml");
    let mut probes = NameMap::new();
    probes.insert(probe_paths[0].clone(), PathStatus::Dir);
    probes.insert(probe_paths[1].clone(), PathStatus::File);
    config.validate("/tmp/watch-resolve/onekey-tasks.yaml", &probes).unwrap();
    let resolved = config.resolve_service("api", dir).unwrap();
    let watch = resolved.watch.expect("watch should resolve");
    assert_eq!(watch.debounce_ms, 750);
    assert_eq!(watch.paths.len(), 2);
    assert!(watch.paths.contains(&"/tmp/watch-resolve/./src".to_owned()));
    assert!(watch.paths.contains(&"/tmp/watch-resolve/./Cargo.toml".to_owned()));
}

#[test]
fn accepts_service_names_with_underscore() {
    let config = config(vec![("api_server", service("sleep"))], vec![]);
    validate(&config, "onekey-tasks.yaml").unwrap();
}

#[test]
fn rejects_hook_placeholder_not_available() {
    let mut api = service("sleep");
    api.hooks.before_start = vec!["prepare".to_owned()];
    let config = config(vec![("api", api)], vec![("prepare", action("echo", &["${service_pid}"]))]);
    let error = validate(&config, "onekey-tasks.yaml").unwrap_err();
    assert!(error.contains("cannot use placeholder `${service_pid}`"));
}

#[test]
fn renders_action_placeholders() {
    let context = ActionRenderContext {
        project_root: "/tmp/project".into(),
        config_path: "/tmp/project/onekey-tasks.yaml".into(),
        service_name: "api".to_owned(),
        action_name: "prepare".to_owned(),
        hook_name: HookName::BeforeStart.as_str().to_owned(),
        service_cwd: "/tmp/project/backend".into(),
        service_executable: "cargo".to_owned(),
        service_pid: None,
        stop_reason: None,
        exit_code: None,
        exit_status: None,
    };

    let rendered = context
        .render_args(&vec![
            "${service_name}".to_owned(),
            "${action_name}".to_owned(),
            "${service_cwd}".to_owned(),
        ])
        .unwrap();

    assert_eq!(rendered[0], "api");
    assert_eq!(rendered[1], "prepare");
    assert!(rendered[2].contains("/tmp/project/backend"));
}

#[test]
fn prepares_action_params_for_only_used_placeholders() {
    let context = ActionRenderContext {
        project_root: "/tmp/project".into(),
        config_path: "/tmp/project/onekey-tasks.yaml".into(),
        service_name: "api".to_owned(),
        action_name: "notify".to_owned(),
        hook_name: HookName::BeforeStart.as_str().to_owned(),
        service_cwd: "/tmp/project/backend".into(),
        service_executable: "cargo".to_owned(),
        service_pid: Some(String::new()),
        stop_reason: Some("manual".to_owned()),
        exit_code: Some(String::new()),
        exit_status: Some("manual".to_owned()),
    };

    let prepared = context
        .prepare(&vec![
            "--service".to_owned(),
            "${service_name}".to_owned(),
            "--hook".to_owned(),
            "${hook_name}".to_owned(),
        ])
        .unwrap();

    assert_eq!(prepared.rendered_args[1], "api");
    assert_eq!(prepared.rendered_args[3], "before_start");
    assert_eq!(prepared.resolved_params.len(), 2);
    assert_eq!(prepared.resolved_params.get("service_name").unwrap(), "api");
    assert_eq!(prepared.resolved_params.get("hook_name").unwrap(), "before_start");
}

#[test]
fn preset_minimal_windows_uses_cmd_timeout() {
    let config = ProjectConfig::preset_minimal_windows();

    assert_eq!(config.services.get("app").unwrap().executable, "cmd");
    assert_eq!(config.services.get("worker").unwrap().executable, "cmd");
    assert!(config.services.get("app").unwrap().args.join(" ").contains("timeout /T 30"));
}

#[test]
fn preset_full_windows_uses_cmd_for_services_and_actions() {
    let config = ProjectConfig::preset_full_windows();

    assert_eq!(config.services.get("app").unwrap().executable, "cmd");
    assert_eq!(config.services.get("worker").unwrap().executable, "cmd");
    assert_eq!(config.actions.get("prepare-app").unwrap().executable, "cmd");
    assert_eq!(config.actions.get("notify-up").unwrap().executable, "cmd");
}

fn manual_context() -> ActionRenderContext {
    ActionRenderContext {
        project_root: "/p".into(),
        config_path: "/p/onekey-tasks.yaml".into(),
        service_name: "api".to_owned(),
        action_name: "notify".to_owned(),
        hook_name: "before_stop".to_owned(),
        service_cwd: "/p".into(),
        service_executable: "api-bin".to_owned(),
        service_pid: Some("12".to_owned()),
        stop_reason: None,
        exit_code: None,
        exit_status: None,
    }
}

#[test]
fn plain_text_renders_unchanged() {
    let context = manual_context();
    let rendered = context
        .render_args(&vec!["--flag".to_owned(), "a $ sign and {braces}".to_owned(), String::new()])
        .unwrap();
    assert_eq!(rendered, vec!["--flag".to_owned(), "a $ sign and {braces}".to_owned(), String::new()]);
}

#[test]
fn placeholders_with_values_render_and_missing_values_fail() {
    let context = manual_context();
    let rendered = context.render_args(&vec!["pid=${service_pid}/${hook_name}".to_owned()]).unwrap();
    assert_eq!(rendered, vec!["pid=12/before_stop".to_owned()]);
    let error = context.render_args(&vec!["${stop_reason}".to_owned()]).unwrap_err();
    assert_eq!(error.message, "placeholder `${stop_reason}` is not available");
}

#[test]
fn a_cycle_is_named_by_the_first_service_walked_twice() {
    let mut api = service("sleep");
    api.depends_on = vec!["worker".to_owned()];
    let mut worker = service("sleep");
    worker.depends_on = vec!["api".to_owned()];
    let config = config(vec![("worker", worker), ("api", api)], vec![]);
    let error = validate(&config, "onekey-tasks.yaml").unwrap_err();
    assert_eq!(error, "dependency cycle detected around service `api`");
}

#[test]
fn paths_are_compared_by_components() {
    let mut app = service("sleep");
    app.log = Some(log("logs/shared.log"));
    let mut with_logs = config(vec![("app", app)], vec![]);
    with_logs.log = Some(log("./logs/shared.log"));
    let error = validate(&with_logs, "/w/onekey-tasks.yaml").unwrap_err();
    assert!(error.contains("top-level log.file conflicts with service `app` log.file: /w/logs/shared.log"));

    let mut api = service("sleep");
    api.watch = Some(ServiceWatchConfig { paths: vec!["./src".to_owned(), "src/".to_owned()], debounce_ms: None });
    let config = config(vec![("api", api)], vec![]);
    let mut probes = NameMap::new();
    probes.insert("/w/./src".to_owned(), PathStatus::Dir);
    probes.insert("/w/src/".to_owned(), PathStatus::Dir);
    let error = config.validate("/w/onekey-tasks.yaml", &probes).unwrap_err().to_string();
    assert_eq!(error, "service `api` watch.paths contains duplicate resolved path: /w/src/");

    let watch = config.resolve_service("api", "/w").unwrap().watch.unwrap();
    assert_eq!(watch.paths, vec!["/w/./src".to_owned()]);
}
