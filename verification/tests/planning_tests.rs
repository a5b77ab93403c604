use onekey_run::cli::ListArgs;
use onekey_run::config::{
    ActionConfig, DefaultsConfig, LogConfig, ProjectConfig, ServiceConfig, ServiceHooksConfig, ServiceWatchConfig,
};
use onekey_run::error::ExitCode;
use onekey_run::executables::{executable_candidates, run_check};
use onekey_run::listing::{render_list_output, ListRequest};
use onekey_run::name_map::NameMap;
use onekey_run::planning::{build_run_plan, plan_run};
use onekey_run::run_request::standalone_action_context;

fn service(executable: &str) -> ServiceConfig {
    ServiceConfig {
        executable: executable.to_owned(),
        args: Vec::new(),
        cwd: None,
        env: NameMap::new(),
        depends_on: Vec::new(),
        restart: None,
        stop_signal: None,
        stop_timeout_secs: None,
        autostart: None,
        disabled: None,
        log: None,
        watch: None,
        hooks: ServiceHooksConfig::new(),
    }
}

fn action(executable: &str) -> ActionConfig {
    ActionConfig {
        executable: executable.to_owned(),
        args: Vec::new(),
        cwd: None,
        env: NameMap::new(),
        timeout_secs: None,
        disabled: None,
    }
}

fn config(services: Vec<(&str, ServiceConfig)>, actions: Vec<(&str, ActionConfig)>) -> ProjectConfig {
    let mut service_map = NameMap::new();
    for (name, s) in services {
        service_map.insert(name.to_owned(), s);
    }
    let mut action_map = NameMap::new();
    for (name, a) in actions {
        action_map.insert(name.to_owned(), a);
    }
    ProjectConfig {
        defaults: DefaultsConfig { stop_timeout_secs: None, restart: None },
        log: None,
        actions: action_map,
        services: service_map,
    }
}

fn list_test_config() -> ProjectConfig {
    let mut cleanup = action("echo");
    cleanup.disabled = Some(true);
    let mut notify = action("echo");
    notify.args = vec!["service-started".to_owned()];
    notify.cwd = Some(".".to_owned());
    notify.timeout_secs = Some(30);
    let orphan = action("echo");

    let mut api = service("echo");
    api.args = vec!["api".to_owned()];
    api.cwd = Some(".".to_owned());
    api.env.insert("RUST_LOG".to_owned(), "info".to_owned());
    api.stop_timeout_secs = Some(15);
    api.autostart = Some(true);
    api.log = Some(LogConfig {
        file: "./logs/api.log".to_owned(),
        append: true,
        max_file_bytes: None,
        overflow_strategy: None,
        rotate_file_count: None,
    });
    api.hooks.before_start = vec!["notify".to_owned()];
    let mut worker = service("echo");
    worker.depends_on = vec!["api".to_owned()];
    worker.disabled = Some(true);

    config(
        vec![("api", api), ("worker", worker)],
        vec![("cleanup", cleanup), ("notify", notify), ("orphan", orphan)],
    )
}

fn list_args(detail: bool, dag: bool) -> ListArgs {
    ListArgs { all: false, services: false, actions: false, detail, dag }
}

#[test]
fn list_names_include_services_actions_and_disabled_marker() {
    let config = list_test_config();
    let output = render_list_output(&config, &ListRequest::from_args(list_args(false, false)));

    assert!(output.contains("services:"));
    assert!(output.contains("- api"));
    assert!(output.contains("- worker [disabled]"));
    assert!(output.contains("actions:"));
    assert!(output.contains("- cleanup [disabled]"));
    assert!(output.contains("- orphan"));
}

#[test]
fn list_detail_outputs_selected_fields() {
    let config = list_test_config();
    let output = render_list_output(&config, &ListRequest::from_args(list_args(true, false)));

    assert!(output.contains("services:"));
    assert!(output.contains("stop_timeout_secs: 15"));
    assert!(output.contains("hooks:"));
    assert!(output.contains("before_start: [\"notify\"]"));
    assert!(output.contains("actions:"));
    assert!(output.contains("timeout_secs: 30"));
    assert!(output.contains("disabled: true"));
}

#[test]
fn list_detail_includes_watch_config_when_present() {
    let mut api = service("echo");
    api.watch = Some(ServiceWatchConfig { paths: vec!["./src".to_owned()], debounce_ms: Some(250) });
    let config = config(vec![("api", api)], Vec::new());
    let output = render_list_output(&config, &ListRequest::from_args(list_args(true, false)));

    assert!(output.contains("watch: paths=[\"./src\"] debounce_ms=250"));
}

#[test]
fn list_dag_outputs_dependencies_hook_edges_and_standalone_actions() {
    let config = list_test_config();
    let output = render_list_output(&config, &ListRequest::from_args(list_args(false, true)));

    assert!(output.contains("service dependencies:"));
    assert!(output.contains("service: worker [disabled] --depends_on--> service: api"));
    assert!(output.contains("hook references:"));
    assert!(output.contains("service: api --hooks.before_start--> action: notify"));
    assert!(output.contains("standalone actions:"));
    assert!(output.contains("- cleanup [disabled]"));
    assert!(output.contains("- orphan"));
}

#[test]
fn standalone_action_context_infers_service_fields_from_service_name() {
    let mut api = service("cargo");
    api.cwd = Some("./backend".to_owned());
    let config = config(vec![("api", api)], vec![("notify", action("echo"))]);
    let mut overrides = NameMap::new();
    overrides.insert("service_name".to_owned(), "api".to_owned());
    let context =
        standalone_action_context(&config, "/work/onekey-tasks.yaml", "/work", "notify", &overrides).unwrap();

    assert_eq!(context.service_name, "api");
    assert!(context.service_cwd.ends_with("backend"));
    assert_eq!(context.service_executable, "cargo");
    assert_eq!(context.hook_name, "manual");
    assert_eq!(context.action_name, "notify");
    assert_eq!(context.project_root, "/work");
    assert_eq!(context.stop_reason.as_deref(), Some("manual"));
}

#[test]
fn standalone_action_context_takes_manual_defaults() {
    let config = config(Vec::new(), vec![("notify", action("echo"))]);
    let context =
        standalone_action_context(&config, "/work/onekey-tasks.yaml", "/work", "notify", &NameMap::new()).unwrap();

    assert_eq!(context.service_name, "manual");
    assert_eq!(context.service_cwd, "/work");
    assert_eq!(context.service_executable, "");
    assert_eq!(context.exit_status.as_deref(), Some("manual"));
    assert_eq!(context.exit_code.as_deref(), Some(""));
    assert_eq!(context.service_pid.as_deref(), Some(""));
}

fn chain_config() -> ProjectConfig {
    let mut api = service("api-bin");
    api.depends_on = vec!["db".to_owned()];
    let mut web = service("web-bin");
    web.depends_on = vec!["api".to_owned()];
    let mut extra = service("extra-bin");
    extra.autostart = Some(false);
    config(vec![("web", web), ("api", api), ("db", service("db-bin")), ("extra", extra)], Vec::new())
}

fn names(plan: &onekey_run::planning::RunPlan) -> Vec<String> {
    plan.services.iter().map(|s| s.name.clone()).collect()
}

#[test]
fn plan_starts_dependencies_first() {
    let config = chain_config();
    let plan = plan_run(&config, "/work/onekey-tasks.yaml", &vec!["web".to_owned()]).unwrap();
    assert_eq!(names(&plan), vec!["db", "api", "web"]);
    assert_eq!(plan.project_root, "/work");
    assert_eq!(plan.config_path, "/work/onekey-tasks.yaml");
    assert_eq!(plan.services[0].cwd, "/work");
}

#[test]
fn plan_without_targets_takes_autostart_services() {
    let config = chain_config();
    let plan = plan_run(&config, "/work/onekey-tasks.yaml", &Vec::new()).unwrap();
    let planned = names(&plan);
    assert_eq!(planned.len(), 3);
    assert!(!planned.contains(&"extra".to_owned()));
    let pos = |n: &str| planned.iter().position(|x| x == n).unwrap();
    assert!(pos("db") < pos("api"));
    assert!(pos("api") < pos("web"));
}

#[test]
fn plan_rejects_unknown_and_disabled_targets() {
    let mut config = chain_config();
    let error = plan_run(&config, "/work/onekey-tasks.yaml", &vec!["nope".to_owned()]).unwrap_err();
    assert_eq!(error.message, "service `nope` is not defined in configuration");
    assert_eq!(error.exit_code, ExitCode::ConfigInvalid);

    let mut db = service("db-bin");
    db.disabled = Some(true);
    config.services.insert("db".to_owned(), db);
    let error = plan_run(&config, "/work/onekey-tasks.yaml", &vec!["web".to_owned()]).unwrap_err();
    assert_eq!(error.message, "service `db` is disabled and cannot be selected");
}

#[test]
fn plan_needs_an_autostart_service() {
    let mut only = service("x");
    only.autostart = Some(false);
    let config = config(vec![("only", only)], Vec::new());
    let error = plan_run(&config, "/work/onekey-tasks.yaml", &Vec::new()).unwrap_err();
    assert_eq!(error.message, "configuration does not contain any autostart-enabled services");
}

#[test]
fn plan_reports_a_dependency_cycle() {
    let mut a = service("a");
    a.depends_on = vec!["b".to_owned()];
    let mut b = service("b");
    b.depends_on = vec!["a".to_owned()];
    let config = config(vec![("a", a), ("b", b)], Vec::new());
    let error = plan_run(&config, "/work/onekey-tasks.yaml", &vec!["a".to_owned()]).unwrap_err();
    assert_eq!(error.exit_code, ExitCode::ConfigInvalid);
    assert_eq!(error.message, "dependency cycle detected while planning around `a`");
}

#[test]
fn plan_needs_a_config_directory() {
    let config = chain_config();
    let error = build_run_plan(&config, "/", &Vec::new()).unwrap_err();
    assert_eq!(error.message, "configuration file must have a parent directory");
    let plan = build_run_plan(&config, "onekey-tasks.yaml", &Vec::new()).unwrap();
    assert_eq!(plan.project_root, "");
}

#[test]
fn check_reports_missing_executables_and_success() {
    let mut notify = action("notify-bin");
    notify.disabled = Some(false);
    let config = config(vec![("db", service("db-bin"))], vec![("notify", notify)]);
    let plan = plan_run(&config, "/work/onekey-tasks.yaml", &Vec::new()).unwrap();

    let error = run_check(&plan, &config, &vec![false], &vec![true]).unwrap_err();
    assert_eq!(
        error.message,
        "service `db` executable `db-bin` was not found on PATH or as a local file"
    );
    let error = run_check(&plan, &config, &vec![true], &vec![false]).unwrap_err();
    assert_eq!(
        error.message,
        "action `notify` executable `notify-bin` was not found on PATH or as a local file"
    );
    let report = run_check(&plan, &config, &vec![true], &vec![true]).unwrap();
    assert_eq!(
        report,
        "configuration ok: 1 service(s), 1 action(s) validated from /work/onekey-tasks.yaml"
    );
}

#[test]
fn executable_candidates_follow_path_and_extensions() {
    let dirs = vec!["/usr/bin".to_owned(), "/bin".to_owned()];
    assert_eq!(
        executable_candidates("ls", "/work", &dirs, &Vec::new()),
        vec!["/usr/bin/ls".to_owned(), "/bin/ls".to_owned()]
    );
    assert_eq!(executable_candidates("./run.sh", "/work", &dirs, &Vec::new()), vec!["/work/./run.sh".to_owned()]);
    assert_eq!(executable_candidates("/opt/tool", "/work", &dirs, &Vec::new()), vec!["/opt/tool".to_owned()]);
    assert_eq!(
        executable_candidates("tool", "/work", &vec!["/bin".to_owned()], &vec![String::new(), ".exe".to_owned()]),
        vec!["/bin/tool".to_owned(), "/bin/tool.exe".to_owned()]
    );
}

#[test]
fn plan_ignores_a_cycle_outside_the_selection() {
    let mut a = service("a");
    a.depends_on = vec!["b".to_owned()];
    let mut b = service("b");
    b.depends_on = vec!["a".to_owned()];
    let config = config(vec![("a", a), ("b", b), ("c", service("c"))], Vec::new());
    let plan = build_run_plan(&config, "/work/onekey-tasks.yaml", &vec!["c".to_owned()]).unwrap();
    assert_eq!(names(&plan), vec!["c"]);
    let plan = plan_run(&config, "/work/onekey-tasks.yaml", &vec!["c".to_owned()]).unwrap();
    assert_eq!(names(&plan), vec!["c"]);
    let error = plan_run(&config, "/work/onekey-tasks.yaml", &vec!["b".to_owned()]).unwrap_err();
    assert_eq!(error.message, "dependency cycle detected while planning around `b`");
}

#[test]
fn plan_walks_dependencies_depth_first_in_declared_order() {
    let mut a = service("a");
    a.depends_on = vec!["c".to_owned(), "b".to_owned()];
    let mut d = service("d");
    d.depends_on = vec!["b".to_owned()];
    let config = config(vec![("d", d), ("a", a), ("b", service("b")), ("c", service("c"))], Vec::new());
    let plan = plan_run(&config, "/work/onekey-tasks.yaml", &Vec::new()).unwrap();
    assert_eq!(names(&plan), vec!["c", "b", "a", "d"]);
}
