//! The configuration model: services, actions, hooks, logs and watch
//! settings, and how each resolves against the project root.

use vstd::prelude::*;

use crate::error::{AppError, AppResult};
use crate::name_map::{lookup, NameMap};
use crate::paths::{holds_same_path, join, join_spec};
use crate::text::{concat3, views};

verus! {

/// A whole project configuration.
#[derive(Debug)]
pub struct ProjectConfig {
    pub defaults: DefaultsConfig,
    pub log: Option<LogConfig>,
    pub actions: NameMap<ActionConfig>,
    pub services: NameMap<ServiceConfig>,
}

#[derive(Debug, Clone)]
pub struct DefaultsConfig {
    pub stop_timeout_secs: Option<u64>,
    pub restart: Option<RestartPolicy>,
}

#[derive(Debug, Clone, Copy, PartialEq, Eq, Structural)]
pub enum RestartPolicy {
    No,
    OnFailure,
    Always,
}

#[derive(Debug)]
pub struct ServiceConfig {
    pub executable: String,
    pub args: Vec<String>,
    pub cwd: Option<String>,
    pub env: NameMap<String>,
    pub depends_on: Vec<String>,
    pub restart: Option<RestartPolicy>,
    pub stop_signal: Option<String>,
    pub stop_timeout_secs: Option<u64>,
    pub autostart: Option<bool>,
    pub disabled: Option<bool>,
    pub log: Option<LogConfig>,
    pub watch: Option<ServiceWatchConfig>,
    pub hooks: ServiceHooksConfig,
}

#[derive(Debug, Clone)]
pub struct ServiceWatchConfig {
    pub paths: Vec<String>,
    pub debounce_ms: Option<u64>,
}

#[derive(Debug)]
pub struct ActionConfig {
    pub executable: String,
    pub args: Vec<String>,
    pub cwd: Option<String>,
    pub env: NameMap<String>,
    pub timeout_secs: Option<u64>,
    pub disabled: Option<bool>,
}

#[derive(Debug, Clone)]
pub struct ServiceHooksConfig {
    pub before_start: Vec<String>,
    pub after_start_success: Vec<String>,
    pub after_start_failure: Vec<String>,
    pub before_stop: Vec<String>,
    pub after_stop_success: Vec<String>,
    pub after_stop_timeout: Vec<String>,
    pub after_stop_failure: Vec<String>,
    pub after_runtime_exit_unexpected: Vec<String>,
}

/// The lifecycle points at which a service runs actions.
#[derive(Debug, Clone, Copy, PartialEq, Eq, Structural, PartialOrd, Ord)]
pub enum HookName {
    BeforeStart,
    AfterStartSuccess,
    AfterStartFailure,
    BeforeStop,
    AfterStopSuccess,
    AfterStopTimeout,
    AfterStopFailure,
    AfterRuntimeExitUnexpected,
}

#[derive(Debug)]
pub struct ResolvedServiceConfig {
    pub name: String,
    pub executable: String,
    pub args: Vec<String>,
    pub cwd: String,
    pub env: NameMap<String>,
    pub depends_on: Vec<String>,
    pub hooks: ServiceHooksConfig,
    pub stop_signal: Option<String>,
    pub stop_timeout_secs: u64,
    pub log: Option<ResolvedLogConfig>,
    pub watch: Option<ResolvedServiceWatchConfig>,
}

#[derive(Debug, Clone)]
pub struct ResolvedServiceWatchConfig {
    pub paths: Vec<String>,
    pub debounce_ms: u64,
}

#[derive(Debug)]
pub struct ResolvedActionConfig {
    pub name: String,
    pub executable: String,
    pub args: Vec<String>,
    pub cwd: String,
    pub env: NameMap<String>,
    pub timeout_secs: Option<u64>,
}

/// The values that action arguments may refer to as `${name}`.
#[derive(Debug, Clone)]
pub struct ActionRenderContext {
    pub project_root: String,
    pub config_path: String,
    pub service_name: String,
    pub action_name: String,
    pub hook_name: String,
    pub service_cwd: String,
    pub service_executable: String,
    pub service_pid: Option<String>,
    pub stop_reason: Option<String>,
    pub exit_code: Option<String>,
    pub exit_status: Option<String>,
}

/// Rendered arguments and the placeholder values they used.
#[derive(Debug)]
pub struct PreparedActionExecution {
    pub rendered_args: Vec<String>,
    pub resolved_params: NameMap<String>,
}

#[derive(Debug, Clone)]
pub struct LogConfig {
    pub file: String,
    pub append: bool,
    pub max_file_bytes: Option<u64>,
    pub overflow_strategy: Option<LogOverflowStrategy>,
    pub rotate_file_count: Option<usize>,
}

#[derive(Debug, Clone)]
pub struct ResolvedLogConfig {
    pub file: String,
    pub append: bool,
    pub max_file_bytes: Option<u64>,
    pub overflow_strategy: Option<LogOverflowStrategy>,
    pub rotate_file_count: Option<usize>,
}

#[derive(Debug, Clone, Copy, PartialEq, Eq, Structural)]
pub enum LogOverflowStrategy {
    Rotate,
    Archive,
}

/// A copy of a list of strings.
pub fn copy_strings(v: &Vec<String>) -> (r: Vec<String>)
    ensures
        r@ == v@,
{
    let r = v.clone();
    assert(r@ =~= v@);
    r
}

/// A copy of an optional string.
pub fn copy_opt(v: &Option<String>) -> (r: Option<String>)
    ensures
        r == *v,
{
    match v {
        Some(s) => Some(s.clone()),
        None => None,
    }
}

/// The two hook tables list the same actions for every hook.
pub open spec fn same_hooks(a: ServiceHooksConfig, b: ServiceHooksConfig) -> bool {
    forall|h: HookName| hook_actions(a, h) == hook_actions(b, h)
}

pub fn copy_hooks(h: &ServiceHooksConfig) -> (r: ServiceHooksConfig)
    ensures
        same_hooks(r, *h),
{
    let r = ServiceHooksConfig {
        before_start: copy_strings(&h.before_start),
        after_start_success: copy_strings(&h.after_start_success),
        after_start_failure: copy_strings(&h.after_start_failure),
        before_stop: copy_strings(&h.before_stop),
        after_stop_success: copy_strings(&h.after_stop_success),
        after_stop_timeout: copy_strings(&h.after_stop_timeout),
        after_stop_failure: copy_strings(&h.after_stop_failure),
        after_runtime_exit_unexpected: copy_strings(&h.after_runtime_exit_unexpected),
    };
    r
}

/// A copy of a string-valued map.
pub fn copy_string_map(m: &NameMap<String>) -> (r: NameMap<String>)
    ensures
        r.pairs() == m.pairs(),
{
    let mut out = NameMap::new();
    let n = m.len();
    let mut i: usize = 0;
    while i < n
        invariant
            n == m.pairs().len(),
            i <= n,
            crate::name_map::sorted_names(m.pairs()),
            out.pairs() == m.pairs().take(i as int),
        decreases n - i,
    {
        let ghost before = out.pairs();
        out.insert(m.name_at(i).clone(), m.value_at(i).clone());
        proof {
            let ps = m.pairs();
            let k = ps[i as int].0;
            assert forall|j: int| 0 <= j < before.len() implies before[j].0 != k by {
                crate::name_map::lemma_sorted_distinct(ps);
            }
            crate::name_map::lemma_absent(before, k);
            assert(crate::name_map::is_insertion_point(before, k, i as int));
            crate::name_map::lemma_insertion_point_unique(before, k, i as int);
            assert(before.insert(i as int, (k, ps[i as int].1)) =~= ps.take(i + 1));
        }
        i = i + 1;
    }
    assert(m.pairs().take(n as int) =~= m.pairs());
    out
}

// ---------------------------------------------------------------- hooks

/// The configuration name of each hook.
pub open spec fn hook_text(h: HookName) -> Seq<char> {
    match h {
        HookName::BeforeStart => "before_start"@,
        HookName::AfterStartSuccess => "after_start_success"@,
        HookName::AfterStartFailure => "after_start_failure"@,
        HookName::BeforeStop => "before_stop"@,
        HookName::AfterStopSuccess => "after_stop_success"@,
        HookName::AfterStopTimeout => "after_stop_timeout"@,
        HookName::AfterStopFailure => "after_stop_failure"@,
        HookName::AfterRuntimeExitUnexpected => "after_runtime_exit_unexpected"@,
    }
}

/// The hook a configuration name denotes.
pub open spec fn hook_from_text(name: Seq<char>) -> Option<HookName> {
    if name == "before_start"@ {
        Some(HookName::BeforeStart)
    } else if name == "after_start_success"@ {
        Some(HookName::AfterStartSuccess)
    } else if name == "after_start_failure"@ {
        Some(HookName::AfterStartFailure)
    } else if name == "before_stop"@ {
        Some(HookName::BeforeStop)
    } else if name == "after_stop_success"@ {
        Some(HookName::AfterStopSuccess)
    } else if name == "after_stop_timeout"@ {
        Some(HookName::AfterStopTimeout)
    } else if name == "after_stop_failure"@ {
        Some(HookName::AfterStopFailure)
    } else if name == "after_runtime_exit_unexpected"@ {
        Some(HookName::AfterRuntimeExitUnexpected)
    } else {
        None
    }
}

/// All hooks, in lifecycle order.
pub open spec fn all_hooks() -> Seq<HookName> {
    seq![
        HookName::BeforeStart,
        HookName::AfterStartSuccess,
        HookName::AfterStartFailure,
        HookName::BeforeStop,
        HookName::AfterStopSuccess,
        HookName::AfterStopTimeout,
        HookName::AfterStopFailure,
        HookName::AfterRuntimeExitUnexpected,
    ]
}

/// The placeholder names that actions may use.
pub open spec fn known_placeholder(name: Seq<char>) -> bool {
    ||| name == "project_root"@
    ||| name == "config_path"@
    ||| name == "service_name"@
    ||| name == "action_name"@
    ||| name == "hook_name"@
    ||| name == "service_cwd"@
    ||| name == "service_executable"@
    ||| name == "service_pid"@
    ||| name == "stop_reason"@
    ||| name == "exit_code"@
    ||| name == "exit_status"@
}

/// Whether an action run by `hook` may use placeholder `name`.
pub open spec fn hook_supports(hook: HookName, name: Seq<char>) -> bool {
    if name == "project_root"@ || name == "config_path"@ || name == "service_name"@ || name
        == "action_name"@ || name == "hook_name"@ || name == "service_cwd"@ || name
        == "service_executable"@ {
        true
    } else if name == "service_pid"@ {
        hook != HookName::BeforeStart
    } else if name == "stop_reason"@ {
        hook == HookName::BeforeStop || hook == HookName::AfterStopSuccess || hook
            == HookName::AfterStopTimeout || hook == HookName::AfterStopFailure
    } else if name == "exit_code"@ || name == "exit_status"@ {
        hook == HookName::AfterStartFailure || hook == HookName::AfterStopSuccess || hook
            == HookName::AfterStopFailure || hook == HookName::AfterRuntimeExitUnexpected
    } else {
        false
    }
}

/// The eleven placeholder names are distinct texts.
pub proof fn lemma_placeholder_names_differ()
    ensures
        "project_root"@ != "config_path"@,
        "project_root"@ != "service_name"@,
        "project_root"@ != "action_name"@,
        "project_root"@ != "hook_name"@,
        "project_root"@ != "service_cwd"@,
        "project_root"@ != "service_executable"@,
        "project_root"@ != "service_pid"@,
        "project_root"@ != "stop_reason"@,
        "project_root"@ != "exit_code"@,
        "project_root"@ != "exit_status"@,
        "config_path"@ != "service_name"@,
        "config_path"@ != "action_name"@,
        "config_path"@ != "hook_name"@,
        "config_path"@ != "service_cwd"@,
        "config_path"@ != "service_executable"@,
        "config_path"@ != "service_pid"@,
        "config_path"@ != "stop_reason"@,
        "config_path"@ != "exit_code"@,
        "config_path"@ != "exit_status"@,
        "service_name"@ != "action_name"@,
        "service_name"@ != "hook_name"@,
        "service_name"@ != "service_cwd"@,
        "service_name"@ != "service_executable"@,
        "service_name"@ != "service_pid"@,
        "service_name"@ != "stop_reason"@,
        "service_name"@ != "exit_code"@,
        "service_name"@ != "exit_status"@,
        "action_name"@ != "hook_name"@,
        "action_name"@ != "service_cwd"@,
        "action_name"@ != "service_executable"@,
        "action_name"@ != "service_pid"@,
        "action_name"@ != "stop_reason"@,
        "action_name"@ != "exit_code"@,
        "action_name"@ != "exit_status"@,
        "hook_name"@ != "service_cwd"@,
        "hook_name"@ != "service_executable"@,
        "hook_name"@ != "service_pid"@,
        "hook_name"@ != "stop_reason"@,
        "hook_name"@ != "exit_code"@,
        "hook_name"@ != "exit_status"@,
        "service_cwd"@ != "service_executable"@,
        "service_cwd"@ != "service_pid"@,
        "service_cwd"@ != "stop_reason"@,
        "service_cwd"@ != "exit_code"@,
        "service_cwd"@ != "exit_status"@,
        "service_executable"@ != "service_pid"@,
        "service_executable"@ != "stop_reason"@,
        "service_executable"@ != "exit_code"@,
        "service_executable"@ != "exit_status"@,
        "service_pid"@ != "stop_reason"@,
        "service_pid"@ != "exit_code"@,
        "service_pid"@ != "exit_status"@,
        "stop_reason"@ != "exit_code"@,
        "stop_reason"@ != "exit_status"@,
        "exit_code"@ != "exit_status"@,
{
    reveal_strlit("project_root");
    reveal_strlit("config_path");
    reveal_strlit("service_name");
    reveal_strlit("action_name");
    reveal_strlit("hook_name");
    reveal_strlit("service_cwd");
    reveal_strlit("service_executable");
    reveal_strlit("service_pid");
    reveal_strlit("stop_reason");
    reveal_strlit("exit_code");
    reveal_strlit("exit_status");
    assert("project_root"@[0] != "config_path"@[0]);
    assert("project_root"@[0] != "service_name"@[0]);
    assert("project_root"@[0] != "action_name"@[0]);
    assert("project_root"@[0] != "hook_name"@[0]);
    assert("project_root"@[0] != "service_cwd"@[0]);
    assert("project_root"@[0] != "service_executable"@[0]);
    assert("project_root"@[0] != "service_pid"@[0]);
    assert("project_root"@[0] != "stop_reason"@[0]);
    assert("project_root"@[0] != "exit_code"@[0]);
    assert("project_root"@[0] != "exit_status"@[0]);
    assert("config_path"@[0] != "service_name"@[0]);
    assert("config_path"@[0] != "action_name"@[0]);
    assert("config_path"@[0] != "hook_name"@[0]);
    assert("config_path"@[0] != "service_cwd"@[0]);
    assert("config_path"@[0] != "service_executable"@[0]);
    assert("config_path"@[0] != "service_pid"@[0]);
    assert("config_path"@[0] != "stop_reason"@[0]);
    assert("config_path"@[0] != "exit_code"@[0]);
    assert("config_path"@[0] != "exit_status"@[0]);
    assert("service_name"@[0] != "action_name"@[0]);
    assert("service_name"@[0] != "hook_name"@[0]);
    assert("service_name"@[8] != "service_cwd"@[8]);
    assert("service_name"@[8] != "service_executable"@[8]);
    assert("service_name"@[8] != "service_pid"@[8]);
    assert("service_name"@[1] != "stop_reason"@[1]);
    assert("service_name"@[0] != "exit_code"@[0]);
    assert("service_name"@[0] != "exit_status"@[0]);
    assert("action_name"@[0] != "hook_name"@[0]);
    assert("action_name"@[0] != "service_cwd"@[0]);
    assert("action_name"@[0] != "service_executable"@[0]);
    assert("action_name"@[0] != "service_pid"@[0]);
    assert("action_name"@[0] != "stop_reason"@[0]);
    assert("action_name"@[0] != "exit_code"@[0]);
    assert("action_name"@[0] != "exit_status"@[0]);
    assert("hook_name"@[0] != "service_cwd"@[0]);
    assert("hook_name"@[0] != "service_executable"@[0]);
    assert("hook_name"@[0] != "service_pid"@[0]);
    assert("hook_name"@[0] != "stop_reason"@[0]);
    assert("hook_name"@[0] != "exit_code"@[0]);
    assert("hook_name"@[0] != "exit_status"@[0]);
    assert("service_cwd"@[8] != "service_executable"@[8]);
    assert("service_cwd"@[8] != "service_pid"@[8]);
    assert("service_cwd"@[1] != "stop_reason"@[1]);
    assert("service_cwd"@[0] != "exit_code"@[0]);
    assert("service_cwd"@[0] != "exit_status"@[0]);
    assert("service_executable"@[8] != "service_pid"@[8]);
    assert("service_executable"@[1] != "stop_reason"@[1]);
    assert("service_executable"@[0] != "exit_code"@[0]);
    assert("service_executable"@[0] != "exit_status"@[0]);
    assert("service_pid"@[1] != "stop_reason"@[1]);
    assert("service_pid"@[0] != "exit_code"@[0]);
    assert("service_pid"@[0] != "exit_status"@[0]);
    assert("stop_reason"@[0] != "exit_code"@[0]);
    assert("stop_reason"@[0] != "exit_status"@[0]);
    assert("exit_code"@[5] != "exit_status"@[5]);
}

/// Which placeholders the actions of each hook may use.  The seven that
/// describe the project, the service and the action are always there; a
/// hook that runs once the service has a process knows its pid; the stop
/// hooks know why it is stopped; the hooks that follow a failed start, a
/// finished stop or an unexpected exit know how it exited.  Nothing else
/// may be used.
pub proof fn lemma_hook_placeholder_table(p: Seq<char>)
    ensures
        hook_supports(HookName::BeforeStart, p) <==> (known_placeholder(p) && p != "service_pid"@
            && p != "stop_reason"@ && p != "exit_code"@ && p != "exit_status"@),
        hook_supports(HookName::AfterStartSuccess, p) <==> (known_placeholder(p) && p
            != "stop_reason"@ && p != "exit_code"@ && p != "exit_status"@),
        hook_supports(HookName::AfterStartFailure, p) <==> (known_placeholder(p) && p
            != "stop_reason"@),
        hook_supports(HookName::BeforeStop, p) <==> (known_placeholder(p) && p != "exit_code"@ && p
            != "exit_status"@),
        hook_supports(HookName::AfterStopSuccess, p) <==> known_placeholder(p),
        hook_supports(HookName::AfterStopTimeout, p) <==> (known_placeholder(p) && p
            != "exit_code"@ && p != "exit_status"@),
        hook_supports(HookName::AfterStopFailure, p) <==> known_placeholder(p),
        hook_supports(HookName::AfterRuntimeExitUnexpected, p) <==> (known_placeholder(p) && p
            != "stop_reason"@),
{
    lemma_placeholder_names_differ();
}

/// A placeholder that some hook may use is a known one, and the seven
/// descriptive ones may be used by every hook.
pub proof fn lemma_hook_placeholders_known(h: HookName, p: Seq<char>)
    ensures
        hook_supports(h, p) ==> known_placeholder(p),
        known_placeholder(p) && p != "service_pid"@ && p != "stop_reason"@ && p != "exit_code"@ && p
            != "exit_status"@ ==> hook_supports(h, p),
{
    lemma_placeholder_names_differ();
}

impl HookName {
    pub fn all() -> (r: [HookName; 8])
        ensures
            r@ == all_hooks(),
    {
        let r = [
            HookName::BeforeStart,
            HookName::AfterStartSuccess,
            HookName::AfterStartFailure,
            HookName::BeforeStop,
            HookName::AfterStopSuccess,
            HookName::AfterStopTimeout,
            HookName::AfterStopFailure,
            HookName::AfterRuntimeExitUnexpected,
        ];
        assert(r@ =~= all_hooks());
        r
    }

    pub fn as_str(self) -> (r: &'static str)
        ensures
            r@ == hook_text(self),
    {
        match self {
            HookName::BeforeStart => "before_start",
            HookName::AfterStartSuccess => "after_start_success",
            HookName::AfterStartFailure => "after_start_failure",
            HookName::BeforeStop => "before_stop",
            HookName::AfterStopSuccess => "after_stop_success",
            HookName::AfterStopTimeout => "after_stop_timeout",
            HookName::AfterStopFailure => "after_stop_failure",
            HookName::AfterRuntimeExitUnexpected => "after_runtime_exit_unexpected",
        }
    }

    pub fn parse(name: &str) -> (r: Option<HookName>)
        ensures
            r == hook_from_text(name@),
    {
        if crate::text::same_text(name, "before_start") {
            Some(HookName::BeforeStart)
        } else if crate::text::same_text(name, "after_start_success") {
            Some(HookName::AfterStartSuccess)
        } else if crate::text::same_text(name, "after_start_failure") {
            Some(HookName::AfterStartFailure)
        } else if crate::text::same_text(name, "before_stop") {
            Some(HookName::BeforeStop)
        } else if crate::text::same_text(name, "after_stop_success") {
            Some(HookName::AfterStopSuccess)
        } else if crate::text::same_text(name, "after_stop_timeout") {
            Some(HookName::AfterStopTimeout)
        } else if crate::text::same_text(name, "after_stop_failure") {
            Some(HookName::AfterStopFailure)
        } else if crate::text::same_text(name, "after_runtime_exit_unexpected") {
            Some(HookName::AfterRuntimeExitUnexpected)
        } else {
            None
        }
    }

    pub fn supports_placeholder(self, placeholder: &str) -> (r: bool)
        ensures
            r == hook_supports(self, placeholder@),
    {
        let p = placeholder;
        if crate::text::same_text(p, "project_root") || crate::text::same_text(p, "config_path")
            || crate::text::same_text(p, "service_name") || crate::text::same_text(p, "action_name")
            || crate::text::same_text(p, "hook_name") || crate::text::same_text(p, "service_cwd")
            || crate::text::same_text(p, "service_executable") {
            true
        } else if crate::text::same_text(p, "service_pid") {
            self != HookName::BeforeStart
        } else if crate::text::same_text(p, "stop_reason") {
            self == HookName::BeforeStop || self == HookName::AfterStopSuccess || self
                == HookName::AfterStopTimeout || self == HookName::AfterStopFailure
        } else if crate::text::same_text(p, "exit_code") || crate::text::same_text(p, "exit_status") {
            self == HookName::AfterStartFailure || self == HookName::AfterStopSuccess || self
                == HookName::AfterStopFailure || self == HookName::AfterRuntimeExitUnexpected
        } else {
            false
        }
    }
}

/// Every hook's name parses back to that hook.
pub proof fn lemma_hook_text_round_trip(h: HookName)
    ensures
        hook_from_text(hook_text(h)) == Some(h),
{
    reveal_strlit("before_start");
    reveal_strlit("after_start_success");
    reveal_strlit("after_start_failure");
    reveal_strlit("before_stop");
    reveal_strlit("after_stop_success");
    reveal_strlit("after_stop_timeout");
    reveal_strlit("after_stop_failure");
    reveal_strlit("after_runtime_exit_unexpected");
    assert("before_start"@.len() != "after_start_success"@.len());
    assert("before_start"@.len() != "after_start_failure"@.len());
    assert("before_start"@.len() != "before_stop"@.len());
    assert("before_start"@.len() != "after_stop_success"@.len());
    assert("before_start"@.len() != "after_stop_timeout"@.len());
    assert("before_start"@.len() != "after_stop_failure"@.len());
    assert("before_start"@.len() != "after_runtime_exit_unexpected"@.len());
    assert("after_start_success"@[12] != "after_start_failure"@[12]);
    assert("after_start_success"@.len() != "before_stop"@.len());
    assert("after_start_success"@.len() != "after_stop_success"@.len());
    assert("after_start_success"@.len() != "after_stop_timeout"@.len());
    assert("after_start_success"@.len() != "after_stop_failure"@.len());
    assert("after_start_success"@.len() != "after_runtime_exit_unexpected"@.len());
    assert("after_start_failure"@.len() != "before_stop"@.len());
    assert("after_start_failure"@.len() != "after_stop_success"@.len());
    assert("after_start_failure"@.len() != "after_stop_timeout"@.len());
    assert("after_start_failure"@.len() != "after_stop_failure"@.len());
    assert("after_start_failure"@.len() != "after_runtime_exit_unexpected"@.len());
    assert("before_stop"@.len() != "after_stop_success"@.len());
    assert("before_stop"@.len() != "after_stop_timeout"@.len());
    assert("before_stop"@.len() != "after_stop_failure"@.len());
    assert("before_stop"@.len() != "after_runtime_exit_unexpected"@.len());
    assert("after_stop_success"@[11] != "after_stop_timeout"@[11]);
    assert("after_stop_success"@[11] != "after_stop_failure"@[11]);
    assert("after_stop_success"@.len() != "after_runtime_exit_unexpected"@.len());
    assert("after_stop_timeout"@[11] != "after_stop_failure"@[11]);
    assert("after_stop_timeout"@.len() != "after_runtime_exit_unexpected"@.len());
    assert("after_stop_failure"@.len() != "after_runtime_exit_unexpected"@.len());
}

/// The actions that `hooks` lists for `hook`.
pub open spec fn hook_actions(hooks: ServiceHooksConfig, hook: HookName) -> Seq<String> {
    match hook {
        HookName::BeforeStart => hooks.before_start@,
        HookName::AfterStartSuccess => hooks.after_start_success@,
        HookName::AfterStartFailure => hooks.after_start_failure@,
        HookName::BeforeStop => hooks.before_stop@,
        HookName::AfterStopSuccess => hooks.after_stop_success@,
        HookName::AfterStopTimeout => hooks.after_stop_timeout@,
        HookName::AfterStopFailure => hooks.after_stop_failure@,
        HookName::AfterRuntimeExitUnexpected => hooks.after_runtime_exit_unexpected@,
    }
}

/// The (hook, action) references of the hooks before `all_hooks()[k]`, in
/// hook order and then list order.
pub open spec fn references_upto(hooks: ServiceHooksConfig, k: nat) -> Seq<(HookName, Seq<char>)>
    decreases k,
{
    if k == 0 {
        Seq::empty()
    } else {
        let h = all_hooks()[k - 1];
        references_upto(hooks, (k - 1) as nat) + views(hook_actions(hooks, h)).map_values(
            |a: Seq<char>| (h, a),
        )
    }
}

pub open spec fn hook_references(hooks: ServiceHooksConfig) -> Seq<(HookName, Seq<char>)> {
    references_upto(hooks, 8)
}

impl ServiceHooksConfig {
    pub fn new() -> (r: Self)
        ensures
            forall|h: HookName| hook_actions(r, h).len() == 0,
    {
        ServiceHooksConfig {
            before_start: Vec::new(),
            after_start_success: Vec::new(),
            after_start_failure: Vec::new(),
            before_stop: Vec::new(),
            after_stop_success: Vec::new(),
            after_stop_timeout: Vec::new(),
            after_stop_failure: Vec::new(),
            after_runtime_exit_unexpected: Vec::new(),
        }
    }

    pub fn is_empty(&self) -> (r: bool)
        ensures
            r == forall|h: HookName| hook_actions(*self, h).len() == 0,
    {
        let r = self.before_start.len() == 0 && self.after_start_success.len() == 0
            && self.after_start_failure.len() == 0 && self.before_stop.len() == 0
            && self.after_stop_success.len() == 0 && self.after_stop_timeout.len() == 0
            && self.after_stop_failure.len() == 0 && self.after_runtime_exit_unexpected.len() == 0;
        proof {
            if !r {
                if self.before_start.len() != 0 {
                    assert(hook_actions(*self, HookName::BeforeStart).len() != 0);
                } else if self.after_start_success.len() != 0 {
                    assert(hook_actions(*self, HookName::AfterStartSuccess).len() != 0);
                } else if self.after_start_failure.len() != 0 {
                    assert(hook_actions(*self, HookName::AfterStartFailure).len() != 0);
                } else if self.before_stop.len() != 0 {
                    assert(hook_actions(*self, HookName::BeforeStop).len() != 0);
                } else if self.after_stop_success.len() != 0 {
                    assert(hook_actions(*self, HookName::AfterStopSuccess).len() != 0);
                } else if self.after_stop_timeout.len() != 0 {
                    assert(hook_actions(*self, HookName::AfterStopTimeout).len() != 0);
                } else if self.after_stop_failure.len() != 0 {
                    assert(hook_actions(*self, HookName::AfterStopFailure).len() != 0);
                } else {
                    assert(hook_actions(*self, HookName::AfterRuntimeExitUnexpected).len() != 0);
                }
            }
        }
        r
    }

    pub fn actions_for(&self, hook: HookName) -> (r: &Vec<String>)
        ensures
            r@ == hook_actions(*self, hook),
    {
        match hook {
            HookName::BeforeStart => &self.before_start,
            HookName::AfterStartSuccess => &self.after_start_success,
            HookName::AfterStartFailure => &self.after_start_failure,
            HookName::BeforeStop => &self.before_stop,
            HookName::AfterStopSuccess => &self.after_stop_success,
            HookName::AfterStopTimeout => &self.after_stop_timeout,
            HookName::AfterStopFailure => &self.after_stop_failure,
            HookName::AfterRuntimeExitUnexpected => &self.after_runtime_exit_unexpected,
        }
    }

    /// Every (hook, action name) reference, hook by hook in lifecycle order.
    pub fn references(&self) -> (r: Vec<(HookName, String)>)
        ensures
            r@.map_values(|e: (HookName, String)| (e.0, e.1@)) == hook_references(*self),
    {
        let hooks = HookName::all();
        let mut out: Vec<(HookName, String)> = Vec::new();
        let mut k: usize = 0;
        while k < 8
            invariant
                hooks@ == all_hooks(),
                k <= 8,
                out@.map_values(|e: (HookName, String)| (e.0, e.1@)) == references_upto(
                    *self,
                    k as nat,
                ),
            decreases 8 - k,
        {
            let hook = hooks[k];
            let names = self.actions_for(hook);
            let ghost base = out@.map_values(|e: (HookName, String)| (e.0, e.1@));
            let mut j: usize = 0;
            while j < names.len()
                invariant
                    names@ == hook_actions(*self, hook),
                    j <= names@.len(),
                    out@.map_values(|e: (HookName, String)| (e.0, e.1@)) == base + views(
                        names@,
                    ).take(j as int).map_values(|a: Seq<char>| (hook, a)),
                decreases names@.len() - j,
            {
                let ghost prev = out@;
                out.push((hook, names[j].clone()));
                proof {
                    let f = |a: Seq<char>| (hook, a);
                    let g = |e: (HookName, String)| (e.0, e.1@);
                    assert(views(names@).take(j + 1) =~= views(names@).take(j as int).push(
                        names@[j as int]@,
                    ));
                    assert(views(names@).take(j + 1).map_values(f) =~= views(names@).take(
                        j as int,
                    ).map_values(f).push((hook, names@[j as int]@)));
                    assert(out@.map_values(g) =~= prev.map_values(g).push((hook, names@[j as int]@)));
                    assert(out@.map_values(g) =~= base + views(names@).take(j + 1).map_values(f));
                }
                j = j + 1;
            }
            proof {
                assert(views(names@).take(names@.len() as int) =~= views(names@));
            }
            k = k + 1;
        }
        out
    }
}

impl DefaultsConfig {
    pub fn is_empty(&self) -> (r: bool)
        ensures
            r == (self.stop_timeout_secs is None && self.restart is None),
    {
        self.stop_timeout_secs.is_none() && self.restart.is_none()
    }
}

impl ServiceConfig {
    pub fn is_disabled(&self) -> (r: bool)
        ensures
            r == (self.disabled == Some(true)),
    {
        match self.disabled {
            Some(d) => d,
            None => false,
        }
    }
}

impl ActionConfig {
    pub fn is_disabled(&self) -> (r: bool)
        ensures
            r == (self.disabled == Some(true)),
    {
        match self.disabled {
            Some(d) => d,
            None => false,
        }
    }
}

// ---------------------------------------------------------------- names

pub open spec fn is_ascii_lower(c: char) -> bool {
    'a' <= c && c <= 'z'
}

pub open spec fn is_ascii_digit(c: char) -> bool {
    '0' <= c && c <= '9'
}

pub open spec fn is_ascii_alnum(c: char) -> bool {
    is_ascii_lower(c) || is_ascii_digit(c) || ('A' <= c && c <= 'Z')
}

/// Service names: non-empty, lowercase letters, digits, `-` and `_`.
pub open spec fn valid_service_name(name: Seq<char>) -> bool {
    &&& name.len() > 0
    &&& forall|i: int|
        0 <= i < name.len() ==> {
            let c = #[trigger] name[i];
            is_ascii_lower(c) || is_ascii_digit(c) || c == '-' || c == '_'
        }
}

/// Action names: an ASCII letter or digit first, then letters, digits, `-`
/// and `_`.
pub open spec fn valid_action_name(name: Seq<char>) -> bool {
    &&& name.len() > 0
    &&& is_ascii_alnum(name[0])
    &&& forall|i: int|
        1 <= i < name.len() ==> {
            let c = #[trigger] name[i];
            is_ascii_alnum(c) || c == '-' || c == '_'
        }
}

pub fn is_valid_service_name(name: &str) -> (r: bool)
    ensures
        r == valid_service_name(name@),
{
    let n = name.unicode_len();
    if n == 0 {
        return false;
    }
    let mut i: usize = 0;
    while i < n
        invariant
            n == name@.len(),
            i <= n,
            forall|j: int|
                0 <= j < i ==> {
                    let c = #[trigger] name@[j];
                    is_ascii_lower(c) || is_ascii_digit(c) || c == '-' || c == '_'
                },
        decreases n - i,
    {
        let c = name.get_char(i);
        if !(('a' <= c && c <= 'z') || ('0' <= c && c <= '9') || c == '-' || c == '_') {
            return false;
        }
        i = i + 1;
    }
    true
}

pub fn is_valid_action_name(name: &str) -> (r: bool)
    ensures
        r == valid_action_name(name@),
{
    let n = name.unicode_len();
    if n == 0 {
        return false;
    }
    let first = name.get_char(0);
    if !(('a' <= first && first <= 'z') || ('0' <= first && first <= '9') || ('A' <= first
        && first <= 'Z')) {
        return false;
    }
    let mut i: usize = 1;
    while i < n
        invariant
            n == name@.len(),
            1 <= i <= n,
            forall|j: int|
                1 <= j < i ==> {
                    let c = #[trigger] name@[j];
                    is_ascii_alnum(c) || c == '-' || c == '_'
                },
        decreases n - i,
    {
        let c = name.get_char(i);
        if !(('a' <= c && c <= 'z') || ('0' <= c && c <= '9') || ('A' <= c && c <= 'Z') || c
            == '-' || c == '_') {
            return false;
        }
        i = i + 1;
    }
    true
}

pub fn is_known_placeholder(name: &str) -> (r: bool)
    ensures
        r == known_placeholder(name@),
{
    crate::text::same_text(name, "project_root") || crate::text::same_text(name, "config_path")
        || crate::text::same_text(name, "service_name") || crate::text::same_text(
        name,
        "action_name",
    ) || crate::text::same_text(name, "hook_name") || crate::text::same_text(name, "service_cwd")
        || crate::text::same_text(name, "service_executable") || crate::text::same_text(
        name,
        "service_pid",
    ) || crate::text::same_text(name, "stop_reason") || crate::text::same_text(name, "exit_code")
        || crate::text::same_text(name, "exit_status")
}

pub fn is_known_placeholder_name(name: &str) -> (r: bool)
    ensures
        r == known_placeholder(name@),
{
    is_known_placeholder(name)
}

// ---------------------------------------------------------------- paths and logs

/// A configured path taken relative to `project_root` unless absolute.
pub fn resolve_path(project_root: &str, path: &str) -> (r: String)
    ensures
        r@ == join_spec(project_root@, path@),
{
    join(project_root, path)
}

pub fn default_log_append() -> (r: bool)
    ensures
        r,
{
    true
}

/// A rotating log of 10 MiB with five history files.
pub fn default_rotate_log(path: &str) -> (r: LogConfig)
    ensures
        r.file@ == path@,
        r.append,
        r.max_file_bytes == Some(10485760u64),
        r.overflow_strategy == Some(LogOverflowStrategy::Rotate),
        r.rotate_file_count == Some(5usize),
{
    LogConfig {
        file: path.to_owned(),
        append: true,
        max_file_bytes: Some(10 * 1024 * 1024),
        overflow_strategy: Some(LogOverflowStrategy::Rotate),
        rotate_file_count: Some(5),
    }
}

/// What is wrong with a log configuration, if anything.
pub open spec fn log_config_problem(owner: Seq<char>, log: LogConfig) -> Option<Seq<char>> {
    let max = log.max_file_bytes;
    let strategy = log.overflow_strategy;
    let count = log.rotate_file_count;
    if max == Some(0u64) {
        Some(owner + " log.max_file_bytes must be greater than 0"@)
    } else if max is None && strategy is None && count is None {
        None
    } else if max is Some && strategy == Some(LogOverflowStrategy::Rotate) && count is Some
        && count->0 > 0 {
        None
    } else if max is Some && strategy == Some(LogOverflowStrategy::Archive) && count is None {
        None
    } else if max is Some && strategy is None && count is None {
        Some(owner + " log.overflow_strategy is required when log.max_file_bytes is set"@)
    } else if max is Some && strategy == Some(LogOverflowStrategy::Rotate) && count is None {
        Some(
            owner
                + " log.rotate_file_count is required when log.overflow_strategy is `rotate`"@,
        )
    } else if max is Some && strategy == Some(LogOverflowStrategy::Rotate) {
        Some(owner + " log.rotate_file_count must be greater than 0"@)
    } else if max is Some && strategy == Some(LogOverflowStrategy::Archive) {
        Some(
            owner
                + " log.rotate_file_count is only valid when log.overflow_strategy is `rotate`"@,
        )
    } else if max is None && strategy is Some {
        Some(owner + " log.max_file_bytes is required when log.overflow_strategy is set"@)
    } else if max is None {
        Some(
            owner
                + " log.rotate_file_count requires log.max_file_bytes and log.overflow_strategy"@,
        )
    } else {
        Some(owner + " log.rotate_file_count requires log.overflow_strategy = `rotate`"@)
    }
}

fn owned_message(owner: &str, tail: &str) -> (r: String)
    ensures
        r@ == owner@ + tail@,
{
    let mut s = owner.to_owned();
    s.append(tail);
    s
}

/// Checks that the size limit, the overflow strategy and the history count
/// of a log configuration fit together.
pub fn validate_log_config(owner_label: &str, log: &LogConfig) -> (r: AppResult<()>)
    ensures
        match log_config_problem(owner_label@, *log) {
            None => r is Ok,
            Some(m) => r matches Err(e) && e.exit_code == crate::error::ExitCode::ConfigInvalid
                && e.message@ == m,
        },
{
    let max = log.max_file_bytes;
    let strategy = log.overflow_strategy;
    let count = log.rotate_file_count;
    if max == Some(0u64) {
        return Err(
            AppError::config_invalid(
                owned_message(owner_label, " log.max_file_bytes must be greater than 0"),
            ),
        );
    }
    if max.is_none() && strategy.is_none() && count.is_none() {
        return Ok(());
    }
    let is_rotate = strategy == Some(LogOverflowStrategy::Rotate);
    let is_archive = strategy == Some(LogOverflowStrategy::Archive);
    if max.is_some() && is_rotate && count.is_some() && count.unwrap() > 0 {
        return Ok(());
    }
    if max.is_some() && is_archive && count.is_none() {
        return Ok(());
    }
    let message = if max.is_some() && strategy.is_none() && count.is_none() {
        owned_message(owner_label, " log.overflow_strategy is required when log.max_file_bytes is set")
    } else if max.is_some() && is_rotate && count.is_none() {
        owned_message(
            owner_label,
            " log.rotate_file_count is required when log.overflow_strategy is `rotate`",
        )
    } else if max.is_some() && is_rotate {
        owned_message(owner_label, " log.rotate_file_count must be greater than 0")
    } else if max.is_some() && is_archive {
        owned_message(
            owner_label,
            " log.rotate_file_count is only valid when log.overflow_strategy is `rotate`",
        )
    } else if max.is_none() && strategy.is_some() {
        owned_message(owner_label, " log.max_file_bytes is required when log.overflow_strategy is set")
    } else if max.is_none() {
        owned_message(
            owner_label,
            " log.rotate_file_count requires log.max_file_bytes and log.overflow_strategy",
        )
    } else {
        owned_message(owner_label, " log.rotate_file_count requires log.overflow_strategy = `rotate`")
    };
    Err(AppError::config_invalid(message))
}

/// The log configuration with its file resolved against `project_root`.
pub fn resolve_log_config(project_root: &str, log: &LogConfig) -> (r: ResolvedLogConfig)
    ensures
        r.file@ == join_spec(project_root@, log.file@),
        r.append == log.append,
        r.max_file_bytes == log.max_file_bytes,
        r.overflow_strategy == log.overflow_strategy,
        r.rotate_file_count == log.rotate_file_count,
{
    ResolvedLogConfig {
        file: resolve_path(project_root, log.file.as_str()),
        append: log.append,
        max_file_bytes: log.max_file_bytes,
        overflow_strategy: log.overflow_strategy,
        rotate_file_count: log.rotate_file_count,
    }
}

/// The paths of `s` without the later ones that are the same path as an
/// earlier one (compared by components, as a `BTreeSet<PathBuf>` does),
/// first occurrences in order.
pub open spec fn dedup_spec(s: Seq<Seq<char>>) -> Seq<Seq<char>>
    decreases s.len(),
{
    if s.len() == 0 {
        s
    } else if holds_same_path(dedup_spec(s.drop_last()), s.last()) {
        dedup_spec(s.drop_last())
    } else {
        dedup_spec(s.drop_last()).push(s.last())
    }
}

pub proof fn lemma_contains_drop_last(s: Seq<Seq<char>>, x: Seq<char>)
    requires
        s.len() > 0,
    ensures
        s.contains(x) <==> (s.drop_last().contains(x) || x == s.last()),
{
    if s.contains(x) && x != s.last() {
        let i = choose|i: int| 0 <= i < s.len() && s[i] == x;
        assert(s.drop_last()[i] == x);
    }
    if s.drop_last().contains(x) {
        let j = choose|j: int| 0 <= j < s.drop_last().len() && s.drop_last()[j] == x;
        assert(s[j] == x);
    }
    if x == s.last() {
        assert(s[s.len() - 1] == x);
    }
}

/// The watch configuration with its paths resolved and repeats dropped, and
/// the default debounce of 500 ms.
pub fn resolve_watch_config(project_root: &str, watch: &ServiceWatchConfig) -> (r:
    ResolvedServiceWatchConfig)
    ensures
        views(r.paths@) == dedup_spec(
            views(watch.paths@).map_values(|p: Seq<char>| join_spec(project_root@, p)),
        ),
        r.debounce_ms == match watch.debounce_ms {
            Some(d) => d,
            None => 500u64,
        },
{
    let ghost resolved = views(watch.paths@).map_values(|p: Seq<char>| join_spec(project_root@, p));
    let mut paths: Vec<String> = Vec::new();
    let n = watch.paths.len();
    let mut i: usize = 0;
    while i < n
        invariant
            n == watch.paths@.len(),
            resolved == views(watch.paths@).map_values(|p: Seq<char>| join_spec(project_root@, p)),
            i <= n,
            views(paths@) == dedup_spec(resolved.take(i as int)),
        decreases n - i,
    {
        let candidate = resolve_path(project_root, watch.paths[i].as_str());
        let seen = crate::paths::contains_same_path(&paths, candidate.as_str());
        proof {
            assert(resolved.take(i + 1).drop_last() =~= resolved.take(i as int));
            assert(resolved.take(i + 1).last() == candidate@);
        }
        if !seen {
            paths.push(candidate);
            proof {
                assert(views(paths@) =~= dedup_spec(resolved.take(i as int)).push(
                    resolved[i as int],
                ));
            }
        }
        i = i + 1;
    }
    assert(resolved.take(n as int) =~= resolved);
    ResolvedServiceWatchConfig {
        paths,
        debounce_ms: match watch.debounce_ms {
            Some(d) => d,
            None => 500,
        },
    }
}

/// Whether `items` holds `name`.
pub fn contains_text(items: &Vec<String>, name: &str) -> (r: bool)
    ensures
        r == views(items@).contains(name@),
{
    let n = items.len();
    let mut i: usize = 0;
    while i < n
        invariant
            n == items@.len(),
            i <= n,
            forall|j: int| 0 <= j < i ==> items@[j]@ != name@,
        decreases n - i,
    {
        if crate::text::same_text(items[i].as_str(), name) {
            assert(views(items@)[i as int] == name@);
            return true;
        }
        i = i + 1;
    }
    proof {
        if views(items@).contains(name@) {
            let j = choose|j: int| 0 <= j < views(items@).len() && views(items@)[j] == name@;
            assert(items@[j]@ == name@);
        }
    }
    false
}

/// A path option taken relative to `project_root`, or the root itself.
pub open spec fn cwd_spec(project_root: Seq<char>, cwd: Option<String>) -> Seq<char> {
    match cwd {
        Some(p) => join_spec(project_root, p@),
        None => project_root,
    }
}

pub fn resolve_cwd(project_root: &str, cwd: &Option<String>) -> (r: String)
    ensures
        r@ == cwd_spec(project_root@, *cwd),
{
    match cwd {
        Some(p) => resolve_path(project_root, p.as_str()),
        None => project_root.to_owned(),
    }
}

/// Service `name` resolved against `project_root`, as `resolve_service`
/// returns it.
pub open spec fn resolved_service_matches(
    r: ResolvedServiceConfig,
    config: ProjectConfig,
    name: Seq<char>,
    project_root: Seq<char>,
    s: ServiceConfig,
) -> bool {
    &&& r.name@ == name
    &&& r.executable@ == s.executable@
    &&& r.args@ == s.args@
    &&& r.cwd@ == cwd_spec(project_root, s.cwd)
    &&& r.env.pairs() == s.env.pairs()
    &&& r.depends_on@ == s.depends_on@
    &&& same_hooks(r.hooks, s.hooks)
    &&& r.stop_signal == s.stop_signal
    &&& r.stop_timeout_secs == match s.stop_timeout_secs {
        Some(t) => t,
        None => match config.defaults.stop_timeout_secs {
            Some(t) => t,
            None => 10u64,
        },
    }
    &&& match s.log {
        Some(l) => r.log matches Some(rl) && rl.file@ == join_spec(project_root, l.file@)
            && rl.append == l.append && rl.max_file_bytes == l.max_file_bytes
            && rl.overflow_strategy == l.overflow_strategy && rl.rotate_file_count
            == l.rotate_file_count,
        None => r.log is None,
    }
    &&& match s.watch {
        Some(w) => r.watch matches Some(rw) && views(rw.paths@) == dedup_spec(
            views(w.paths@).map_values(|p: Seq<char>| join_spec(project_root, p)),
        ) && rw.debounce_ms == match w.debounce_ms {
            Some(d) => d,
            None => 500u64,
        },
        None => r.watch is None,
    }
}

impl ProjectConfig {
    /// The service named `name` with its paths resolved against
    /// `project_root`; unknown and disabled services are errors.
    pub fn resolve_service(&self, name: &str, project_root: &str) -> (r: AppResult<
        ResolvedServiceConfig,
    >)
        ensures
            match lookup(self.services.pairs(), name@) {
                None => r matches Err(e) && e.exit_code == crate::error::ExitCode::ConfigInvalid
                    && e.message@ == "service `"@ + name@ + "` not found in configuration"@,
                Some(s) => if s.disabled == Some(true) {
                    r matches Err(e) && e.exit_code == crate::error::ExitCode::ConfigInvalid
                        && e.message@ == "service `"@ + name@
                        + "` is disabled and cannot be started"@
                } else {
                    r matches Ok(rs) && resolved_service_matches(
                        rs,
                        *self,
                        name@,
                        project_root@,
                        s,
                    )
                },
            },
    {
        let service = match self.services.get(name) {
            Some(s) => s,
            None => {
                return Err(
                    AppError::config_invalid(
                        concat3("service `", name, "` not found in configuration"),
                    ),
                );
            },
        };
        let cwd = resolve_cwd(project_root, &service.cwd);
        if service.is_disabled() {
            return Err(
                AppError::config_invalid(
                    concat3("service `", name, "` is disabled and cannot be started"),
                ),
            );
        }
        let stop_timeout_secs = match service.stop_timeout_secs {
            Some(t) => t,
            None => match self.defaults.stop_timeout_secs {
                Some(t) => t,
                None => 10,
            },
        };
        let log = match &service.log {
            Some(l) => Some(resolve_log_config(project_root, l)),
            None => None,
        };
        let watch = match &service.watch {
            Some(w) => Some(resolve_watch_config(project_root, w)),
            None => None,
        };
        Ok(
            ResolvedServiceConfig {
                name: name.to_owned(),
                executable: service.executable.clone(),
                args: copy_strings(&service.args),
                cwd,
                env: copy_string_map(&service.env),
                depends_on: copy_strings(&service.depends_on),
                hooks: copy_hooks(&service.hooks),
                stop_signal: copy_opt(&service.stop_signal),
                stop_timeout_secs,
                log,
                watch,
            },
        )
    }

    /// The top-level log resolved against `project_root`.
    pub fn resolve_project_log(&self, project_root: &str) -> (r: Option<ResolvedLogConfig>)
        ensures
            match self.log {
                Some(l) => r matches Some(rl) && rl.file@ == join_spec(project_root@, l.file@)
                    && rl.append == l.append && rl.max_file_bytes == l.max_file_bytes
                    && rl.overflow_strategy == l.overflow_strategy && rl.rotate_file_count
                    == l.rotate_file_count,
                None => r is None,
            },
    {
        match &self.log {
            Some(l) => Some(resolve_log_config(project_root, l)),
            None => None,
        }
    }

    /// Whether service `name` starts when `up` names no services: it exists,
    /// is enabled, and does not opt out of autostart.
    pub fn should_autostart(&self, name: &str) -> (r: bool)
        ensures
            r == match lookup(self.services.pairs(), name@) {
                Some(s) => s.disabled != Some(true) && s.autostart != Some(false),
                None => false,
            },
    {
        match self.services.get(name) {
            Some(s) => !s.is_disabled() && match s.autostart {
                Some(a) => a,
                None => true,
            },
            None => false,
        }
    }
}

} // verus!
