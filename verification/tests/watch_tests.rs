use onekey_run::config::{
    ResolvedLogConfig, ResolvedServiceConfig, ResolvedServiceWatchConfig, ServiceHooksConfig,
};
use onekey_run::name_map::NameMap;
use onekey_run::paths::{path_components, path_starts_with, same_path};
use onekey_run::planning::RunPlan;
use onekey_run::watch::{
    fingerprint_for, first_changed_path, is_ignored_path, EntryKind, PathFingerprint, Snapshot,
    SnapshotEntry, WatchEvent,
};
use onekey_run::watch_runtime::{
    watch_debounced_detail, watch_ignore_paths, watch_requests, watch_triggered_detail, WatchRuntime,
};

fn hooks() -> ServiceHooksConfig {
    ServiceHooksConfig {
        before_start: Vec::new(),
        after_start_success: Vec::new(),
        after_start_failure: Vec::new(),
        before_stop: Vec::new(),
        after_stop_success: Vec::new(),
        after_stop_timeout: Vec::new(),
        after_stop_failure: Vec::new(),
        after_runtime_exit_unexpected: Vec::new(),
    }
}

fn service(name: &str, watch: Option<u64>, log: Option<&str>) -> ResolvedServiceConfig {
    ResolvedServiceConfig {
        name: name.to_owned(),
        executable: "sh".to_owned(),
        args: Vec::new(),
        cwd: "/p".to_owned(),
        env: NameMap::new(),
        depends_on: Vec::new(),
        hooks: hooks(),
        stop_signal: None,
        stop_timeout_secs: 10,
        log: log.map(|file| ResolvedLogConfig {
            file: file.to_owned(),
            append: true,
            max_file_bytes: None,
            overflow_strategy: None,
            rotate_file_count: None,
        }),
        watch: watch.map(|debounce_ms| ResolvedServiceWatchConfig {
            paths: vec!["/p/src".to_owned()],
            debounce_ms,
        }),
    }
}

fn plan(services: Vec<ResolvedServiceConfig>) -> RunPlan {
    RunPlan {
        project_root: "/p".to_owned(),
        config_path: "/p/onekey-tasks.yaml".to_owned(),
        actions: NameMap::new(),
        instance_log: Some(ResolvedLogConfig {
            file: "/p/logs/instance.log".to_owned(),
            append: true,
            max_file_bytes: None,
            overflow_strategy: None,
            rotate_file_count: None,
        }),
        services,
    }
}

fn fp(len: u64, modified: u128) -> PathFingerprint {
    PathFingerprint { kind: EntryKind::File, len, modified_nanos: modified }
}

fn snapshot(entries: &[(&str, PathFingerprint)]) -> Snapshot {
    Snapshot::from_ordered(
        entries
            .iter()
            .map(|(path, fingerprint)| SnapshotEntry { path: (*path).to_owned(), fingerprint: *fingerprint })
            .collect(),
    )
    .unwrap()
}

#[test]
fn components_follow_path_rules() {
    assert_eq!(path_components("/a//b/./c/"), vec!["/", "a", "b", "c"]);
    assert_eq!(path_components("./a/."), vec![".", "a"]);
    assert_eq!(path_components("a/../b"), vec!["a", "..", "b"]);
    assert_eq!(path_components(""), Vec::<String>::new());
    assert!(same_path("/p/logs/", "/p/./logs"));
    assert!(!same_path("/p/logs", "p/logs"));
    assert!(path_starts_with("/p/logs/app.log", "/p/logs"));
    assert!(!path_starts_with("/p/logsx/app.log", "/p/logs"));
}

#[test]
fn ignored_paths_cover_their_children() {
    let ignore = vec!["/p/logs".to_owned(), "/p/.onekey-run".to_owned()];
    assert!(is_ignored_path("/p/logs", &ignore));
    assert!(is_ignored_path("/p/logs/app.log", &ignore));
    assert!(is_ignored_path("/p/.onekey-run/state.json", &ignore));
    assert!(!is_ignored_path("/p/logs2/app.log", &ignore));
    assert!(!is_ignored_path("/p/src/main.rs", &ignore));
}

#[test]
fn fingerprints_classify_entries() {
    assert_eq!(fingerprint_for(true, false, 4, Some(9)).kind, EntryKind::Dir);
    assert_eq!(fingerprint_for(false, true, 4, Some(9)).kind, EntryKind::Symlink);
    let file = fingerprint_for(false, false, 4, None);
    assert_eq!(file, PathFingerprint { kind: EntryKind::File, len: 4, modified_nanos: 0 });
}

#[test]
fn snapshots_must_be_in_path_order() {
    let entries = vec![
        SnapshotEntry { path: "/p/b".to_owned(), fingerprint: fp(1, 1) },
        SnapshotEntry { path: "/p/a".to_owned(), fingerprint: fp(1, 1) },
    ];
    assert!(Snapshot::from_ordered(entries).is_none());
    let ordered = vec![
        SnapshotEntry { path: "/p/a/x".to_owned(), fingerprint: fp(1, 1) },
        SnapshotEntry { path: "/p/a-b".to_owned(), fingerprint: fp(1, 1) },
    ];
    assert!(Snapshot::from_ordered(ordered).is_some());
}

#[test]
fn first_changed_path_reports_changes_then_new_paths() {
    let before = snapshot(&[("/p/a", fp(1, 1)), ("/p/b", fp(2, 2)), ("/p/c", fp(3, 3))]);
    let same = snapshot(&[("/p/a", fp(1, 1)), ("/p/b", fp(2, 2)), ("/p/c", fp(3, 3))]);
    assert_eq!(first_changed_path(&before, &same), None);

    let modified = snapshot(&[("/p/a", fp(1, 1)), ("/p/b", fp(2, 5)), ("/p/c", fp(3, 4))]);
    assert_eq!(first_changed_path(&before, &modified), Some("/p/b".to_owned()));

    let removed = snapshot(&[("/p/a", fp(1, 1)), ("/p/c", fp(3, 3))]);
    assert_eq!(first_changed_path(&before, &removed), Some("/p/b".to_owned()));

    let added = snapshot(&[
        ("/p/a", fp(1, 1)),
        ("/p/b", fp(2, 2)),
        ("/p/bb", fp(9, 9)),
        ("/p/c", fp(3, 3)),
        ("/p/d", fp(4, 4)),
    ]);
    assert_eq!(first_changed_path(&before, &added), Some("/p/bb".to_owned()));
}

#[test]
fn ignore_paths_hold_runtime_dir_and_log_parents() {
    let plan = plan(vec![
        service("api", Some(100), Some("/p/logs/api/out.log")),
        service("db", None, Some("/p/logs/db.log")),
    ]);
    let ignored = watch_ignore_paths(&plan);
    for expected in [
        "/p/.onekey-run",
        "/p/logs/instance.log",
        "/p/logs",
        "/p/logs/api/out.log",
        "/p/logs/api",
        "/p/logs/db.log",
    ] {
        assert!(ignored.iter().any(|p| p == expected), "missing {expected}");
    }
    assert_eq!(ignored.len(), 6);
    assert!(!ignored.iter().any(|p| p == "/p"));
}

#[test]
fn watch_requests_cover_watched_services() {
    let plan = plan(vec![service("api", Some(100), None), service("db", None, None)]);
    let requests = watch_requests(&plan);
    assert_eq!(requests.len(), 1);
    assert_eq!(requests[0].service_name, "api");
    assert_eq!(requests[0].paths, vec!["/p/src".to_owned()]);
    assert_eq!(requests[0].poll_interval_ms, 200);
    assert!(requests[0].ignore_paths.iter().any(|p| p == "/p/.onekey-run"));
}

#[test]
fn watch_events_wait_out_the_debounce() {
    let plan = plan(vec![service("api", Some(100), None), service("db", None, None)]);
    let mut runtime = WatchRuntime::new();

    let detail = runtime.record_event(
        &plan,
        &WatchEvent { service_name: "api".to_owned(), changed_path: "/p/src/a.rs".to_owned() },
        1_000,
    );
    assert_eq!(detail, Some("path=\"/p/src/a.rs\" debounce_ms=\"100\"".to_owned()));
    assert_eq!(
        runtime.record_event(
            &plan,
            &WatchEvent { service_name: "db".to_owned(), changed_path: "/p/x".to_owned() },
            1_000,
        ),
        None
    );
    assert_eq!(
        runtime.record_event(
            &plan,
            &WatchEvent { service_name: "web".to_owned(), changed_path: "/p/x".to_owned() },
            1_000,
        ),
        None
    );

    assert_eq!(runtime.take_due(1_099), None);
    assert_eq!(
        runtime.take_due(1_100),
        Some(("api".to_owned(), "/p/src/a.rs".to_owned()))
    );
    assert_eq!(runtime.take_due(5_000), None);
}

#[test]
fn clear_pending_restart_removes_only_selected_service() {
    let plan = plan(vec![service("api", Some(100), None), service("web", Some(100), None)]);
    let mut runtime = WatchRuntime::new();
    for name in ["api", "web"] {
        runtime.record_event(
            &plan,
            &WatchEvent { service_name: name.to_owned(), changed_path: format!("/p/{name}") },
            0,
        );
    }
    runtime.clear_pending("api");
    assert!(!runtime.pending.contains_key("api"));
    assert!(runtime.pending.contains_key("web"));
}

#[test]
fn shutdown_drains_pending_restarts_in_name_order() {
    let plan = plan(vec![service("web", Some(50), None), service("api", Some(50), None)]);
    let mut runtime = WatchRuntime::new();
    for name in ["web", "api"] {
        runtime.record_event(
            &plan,
            &WatchEvent { service_name: name.to_owned(), changed_path: format!("/p/{name}") },
            0,
        );
    }
    let drained = runtime.drain_for_shutdown();
    assert_eq!(
        drained,
        vec![
            ("api".to_owned(), "/p/api".to_owned()),
            ("web".to_owned(), "/p/web".to_owned())
        ]
    );
    assert!(runtime.pending.is_empty());
}

#[test]
fn watch_details() {
    assert_eq!(watch_triggered_detail("/p/a", 250), "path=\"/p/a\" debounce_ms=\"250\"");
    assert_eq!(watch_debounced_detail("/p/a"), "path=\"/p/a\" state=\"ready\"");
}

use onekey_run::file_log::{archive_path, archive_path_at, rotate_path, rotation_plan, FileLogState};

#[test]
fn rotated_and_archived_names() {
    assert_eq!(rotate_path("/p/app.log", 3), "/p/app.log.3");
    assert_eq!(archive_path_at("/p/worker.log", 1700000000123, 7), "/p/worker.log.1700000000123.007");
    assert_eq!(archive_path_at("/p/worker.log", 5, 42), "/p/worker.log.5.042");
    assert_eq!(archive_path_at("/p/worker.log", 5, 1234), "/p/worker.log.5.1234");
    let archived = archive_path("/p/worker.log", 1).unwrap();
    assert!(archived.starts_with("/p/worker.log."));
    assert!(archived.ends_with(".001"));
}

#[test]
fn rotation_moves_each_rank_up() {
    let plan = rotation_plan("/p/app.log", 3);
    assert_eq!(plan.remove, "/p/app.log.3");
    assert_eq!(
        plan.renames,
        vec![
            ("/p/app.log.2".to_owned(), "/p/app.log.3".to_owned()),
            ("/p/app.log.1".to_owned(), "/p/app.log.2".to_owned()),
            ("/p/app.log".to_owned(), "/p/app.log.1".to_owned()),
        ]
    );
    let single = rotation_plan("/p/a.log", 1);
    assert_eq!(single.renames, vec![("/p/a.log".to_owned(), "/p/a.log.1".to_owned())]);
}

#[test]
fn overflow_needs_a_limit_and_a_non_empty_file() {
    let mut state = FileLogState::opened(Some(25), None, 0);
    assert!(!state.must_overflow(100));
    state.wrote(17);
    assert!(!state.must_overflow(8));
    assert!(state.must_overflow(9));
    state.reopened(0);
    assert_eq!(state.current_size, 0);
    assert_eq!(state.next_archive_sequence(), 1);
    assert_eq!(state.next_archive_sequence(), 2);
    let unlimited = FileLogState::opened(None, None, u64::MAX);
    assert!(!unlimited.must_overflow(u64::MAX));
}
