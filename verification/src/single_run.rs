//! Running one configured action or one service on its own, for debugging:
//! the preparation, the hooks its selection allows, and what its end means.

use vstd::prelude::*;

use crate::config::{hook_text, HookName, ProjectConfig, ResolvedActionConfig, ResolvedServiceConfig};
use crate::error::{AppError, AppResult, ExitCode};
use crate::hook_run::{int_text, ActionRunStatus, HookRuntimeExtras};
use crate::name_map::{lookup, NameMap};
use crate::placeholders::opt_text_view;
use crate::run_request::{same_selection, selection_allows, HookSelection};
use crate::stop::{StopMachine, StopStyle};
use crate::text::{concat2, concat3, dec_digits, decimal};

verus! {

/// The message when a standalone action is not configured or is disabled.
pub open spec fn action_missing_message(name: Seq<char>) -> Seq<char> {
    "action `"@ + name + "` not found in configuration"@
}

/// Finds the enabled action `action_name` among the resolved actions.
pub fn find_action<'a>(actions: &'a NameMap<ResolvedActionConfig>, action_name: &str) -> (r: AppResult<
    &'a ResolvedActionConfig,
>)
    ensures
        match lookup(actions.pairs(), action_name@) {
            Some(a) => r == Ok::<&ResolvedActionConfig, AppError>(&a),
            None => r matches Err(e) && e.exit_code == ExitCode::ConfigInvalid && e.message@
                == action_missing_message(action_name@),
        },
{
    match actions.get(action_name) {
        Some(a) => Ok(a),
        None => {
            proof {
                reveal_strlit("action `");
                reveal_strlit("` not found in configuration");
            }
            Err(
                AppError::config_invalid(
                    concat3("action `", action_name, "` not found in configuration"),
                ),
            )
        },
    }
}

/// What a standalone action run ends with: the line to print on success,
/// the error otherwise.
pub open spec fn single_action_result(name: Seq<char>, status: ActionRunStatus) -> Result<
    Seq<char>,
    Seq<char>,
> {
    match status {
        ActionRunStatus::Succeeded => Ok("action `"@ + name + "` finished successfully"@),
        ActionRunStatus::Failed { status } => Err(
            "action `"@ + name + "` exited with status "@ + status@,
        ),
        ActionRunStatus::TimedOut { timeout_secs } => Err(
            "action `"@ + name + "` timed out after "@ + dec_digits(timeout_secs as nat)
                + " seconds"@,
        ),
    }
}

/// How a standalone run of `action_name` ended.
pub fn single_action_outcome(action_name: &str, status: &ActionRunStatus) -> (r: AppResult<String>)
    ensures
        match single_action_result(action_name@, *status) {
            Ok(line) => r matches Ok(l) && l@ == line,
            Err(m) => r matches Err(e) && e.exit_code == ExitCode::StartupFailed && e.message@ == m,
        },
{
    proof {
        reveal_strlit("action `");
        reveal_strlit("` finished successfully");
        reveal_strlit("` exited with status ");
        reveal_strlit("` timed out after ");
        reveal_strlit(" seconds");
    }
    match status {
        ActionRunStatus::Succeeded => Ok(concat3("action `", action_name, "` finished successfully")),
        ActionRunStatus::Failed { status } => {
            let mut m = concat3("action `", action_name, "` exited with status ");
            m.append(status.as_str());
            Err(AppError::startup_failed(m))
        },
        ActionRunStatus::TimedOut { timeout_secs } => {
            let mut m = concat3("action `", action_name, "` timed out after ");
            m.append(decimal(*timeout_secs).as_str());
            m.append(" seconds");
            Err(AppError::startup_failed(m))
        },
    }
}


/// Something to do while a single service runs.
#[derive(Debug)]
pub enum SingleStep {
    /// Run this hook; when `report_failure`, a failure is printed as a
    /// warning, otherwise it is ignored.
    RunHook { hook: HookName, extras: HookRuntimeExtras, report_failure: bool },
    /// Print this line.
    Say(String),
    /// Print this line as a warning.
    Warn(String),
}

/// What the caller does next.
#[derive(Debug)]
pub enum SingleCommand {
    /// Run this hook; its failure ends the run.
    RunFatalHook { hook: HookName, extras: HookRuntimeExtras },
    /// Start the service.
    Spawn,
    /// See whether a shutdown was requested and whether the service exited,
    /// after a short pause if asked.
    Watch { after_pause: bool },
    /// Stop the service by driving this stop to its end.
    Stop(StopMachine),
    Finish(AppResult<()>),
}

/// What the caller saw.
#[derive(Debug)]
pub enum SingleObservation {
    HookRan(AppResult<()>),
    /// The process id, or why the service could not start.
    Spawned(Result<u32, AppError>),
    /// Whether a shutdown was requested, and, if the service exited, its
    /// exit code and its exit status as text.
    Watched { shutdown_requested: bool, exit: Option<(Option<i32>, String)> },
    Stopped(AppResult<()>),
}

/// Where a single-service run stands.
#[derive(Debug, Clone, Copy, PartialEq, Eq, Structural)]
pub enum SinglePhase {
    BeforeStart,
    Spawning,
    /// Running as this process.
    Running(u32),
    Stopping,
    Done,
}

/// A run of one service on its own.
#[derive(Debug)]
pub struct SingleServiceRun {
    pub service_name: String,
    pub selection: HookSelection,
    pub phase: SinglePhase,
}

/// The steps to take, then the next command.
#[derive(Debug)]
pub struct SingleStepResult {
    pub steps: Vec<SingleStep>,
    pub command: SingleCommand,
}

/// No runtime extras.
pub open spec fn no_extras(x: HookRuntimeExtras) -> bool {
    x.service_pid is None && x.stop_reason is None && x.exit_code is None && x.exit_status is None
}

/// `s` runs hook `hook` with these extras.
pub open spec fn single_hook(
    s: SingleStep,
    hook: HookName,
    pid: Option<u32>,
    code: Option<i32>,
    status: Option<Seq<char>>,
    report: bool,
) -> bool {
    s matches SingleStep::RunHook { hook: h, extras, report_failure } && h == hook
        && extras.service_pid == pid && extras.stop_reason is None && extras.exit_code == code
        && opt_text_view(extras.exit_status) == status && report_failure == report
}

/// The observation answers the command that the phase waits on.
pub open spec fn single_fits(phase: SinglePhase, obs: SingleObservation) -> bool {
    match phase {
        SinglePhase::BeforeStart => obs is HookRan,
        SinglePhase::Spawning => obs is Spawned,
        SinglePhase::Running(_) => obs is Watched,
        SinglePhase::Stopping => obs is Stopped,
        SinglePhase::Done => false,
    }
}

/// The message when the service exited on its own.
pub open spec fn exited_message(name: Seq<char>, status: Seq<char>) -> Seq<char> {
    "service `"@ + name + "` exited with status "@ + status
}

/// The run moves from `m` to `m2` on `obs`, with the steps and the next
/// command of `r`.
pub open spec fn single_transition(
    m: SingleServiceRun,
    obs: SingleObservation,
    m2: SingleServiceRun,
    r: SingleStepResult,
) -> bool {
    let name = m.service_name@;
    let allows = |h: HookName| selection_allows(m.selection, h);
    match m.phase {
        SinglePhase::BeforeStart => match obs {
            SingleObservation::HookRan(Ok(())) => m2.phase == SinglePhase::Spawning && r.steps@.len()
                == 0 && r.command is Spawn,
            SingleObservation::HookRan(Err(e)) => m2.phase == SinglePhase::Done && r.steps@.len()
                == 0 && r.command == SingleCommand::Finish(Err(e)),
            _ => false,
        },
        SinglePhase::Spawning => match obs {
            SingleObservation::Spawned(Err(e)) => {
                &&& m2.phase == SinglePhase::Done
                &&& r.command == SingleCommand::Finish(Err(e))
                &&& if allows(HookName::AfterStartFailure) {
                    r.steps@.len() == 1 && single_hook(
                        r.steps@[0],
                        HookName::AfterStartFailure,
                        None,
                        None,
                        Some(e.message@),
                        false,
                    )
                } else {
                    r.steps@.len() == 0
                }
            },
            SingleObservation::Spawned(Ok(pid)) => {
                &&& m2.phase == SinglePhase::Running(pid)
                &&& r.command == SingleCommand::Watch { after_pause: false }
                &&& r.steps@.len() >= 1
                &&& r.steps@[0] matches SingleStep::Say(t)
                &&& t@ == "started service `"@ + name + "` with pid "@ + dec_digits(pid as nat)
                &&& if allows(HookName::AfterStartSuccess) {
                    r.steps@.len() == 2 && single_hook(
                        r.steps@[1],
                        HookName::AfterStartSuccess,
                        Some(pid),
                        Some(0i32),
                        Some("running"@),
                        true,
                    )
                } else {
                    r.steps@.len() == 1
                }
            },
            _ => false,
        },
        SinglePhase::Running(pid) => match obs {
            SingleObservation::Watched { shutdown_requested, exit } => if shutdown_requested {
                &&& m2.phase == SinglePhase::Stopping
                &&& r.steps@.len() == 1
                &&& r.steps@[0] matches SingleStep::Warn(t)
                &&& t@ == "interrupt received, stopping service. press Ctrl-C again to force."@
                &&& r.command matches SingleCommand::Stop(sm)
                &&& sm.style matches StopStyle::Single(sel) && same_selection(sel, m.selection)
                &&& sm.service_name@ == name
                &&& sm.pid == pid
                &&& sm.stop_reason@ == "ctrl_c"@
                &&& sm.config_found
                &&& sm.terminal
                &&& !sm.force_notice_shown
                &&& sm.phase is Checking
            } else {
                match exit {
                    Some((code, text)) => {
                        &&& m2.phase == SinglePhase::Done
                        &&& r.command matches SingleCommand::Finish(Err(e))
                        &&& e.exit_code == ExitCode::RuntimeFailed
                        &&& e.message@ == exited_message(name, text@)
                        &&& if allows(HookName::AfterRuntimeExitUnexpected) {
                            r.steps@.len() == 1 && single_hook(
                                r.steps@[0],
                                HookName::AfterRuntimeExitUnexpected,
                                Some(pid),
                                code,
                                Some(text@),
                                false,
                            )
                        } else {
                            r.steps@.len() == 0
                        }
                    },
                    None => m2.phase == SinglePhase::Running(pid) && r.steps@.len() == 0
                        && r.command == SingleCommand::Watch { after_pause: true },
                }
            },
            _ => false,
        },
        SinglePhase::Stopping => match obs {
            SingleObservation::Stopped(res) => m2.phase == SinglePhase::Done && r.steps@.len() == 0
                && r.command == SingleCommand::Finish(res),
            _ => false,
        },
        SinglePhase::Done => false,
    }
}

fn single_hook_step(
    hook: HookName,
    pid: Option<u32>,
    code: Option<i32>,
    status: Option<String>,
    report: bool,
) -> (r: SingleStep)
    ensures
        single_hook(r, hook, pid, code, opt_text_view(status), report),
{
    SingleStep::RunHook {
        hook,
        extras: HookRuntimeExtras {
            service_pid: pid,
            stop_reason: None,
            exit_code: code,
            exit_status: status,
        },
        report_failure: report,
    }
}

impl SingleServiceRun {
    /// Starts a run of `service_name` with the hooks that `selection` allows:
    /// the `before_start` hook first when allowed, else the service itself.
    pub fn begin(service_name: String, selection: HookSelection) -> (r: (SingleServiceRun, SingleCommand))
        ensures
            r.0.service_name == service_name,
            r.0.selection == selection,
            selection_allows(selection, HookName::BeforeStart) ==> r.0.phase
                == SinglePhase::BeforeStart && (r.1 matches SingleCommand::RunFatalHook {
                hook,
                extras,
            } && hook == HookName::BeforeStart && no_extras(extras)),
            !selection_allows(selection, HookName::BeforeStart) ==> r.0.phase == SinglePhase::Spawning
                && r.1 is Spawn,
    {
        if selection.allows(HookName::BeforeStart) {
            let run = SingleServiceRun { service_name, selection, phase: SinglePhase::BeforeStart };
            let command = SingleCommand::RunFatalHook {
                hook: HookName::BeforeStart,
                extras: HookRuntimeExtras {
                    service_pid: None,
                    stop_reason: None,
                    exit_code: None,
                    exit_status: None,
                },
            };
            (run, command)
        } else {
            (SingleServiceRun { service_name, selection, phase: SinglePhase::Spawning }, SingleCommand::Spawn)
        }
    }

    /// Takes in what the caller saw and gives the steps and the next
    /// command.
    pub fn advance(&mut self, obs: SingleObservation) -> (r: SingleStepResult)
        requires
            single_fits(old(self).phase, obs),
        ensures
            final(self).service_name == old(self).service_name,
            final(self).selection == old(self).selection,
            single_transition(*old(self), obs, *final(self), r),
    {
        proof {
            reveal_strlit("started service `");
            reveal_strlit("` with pid ");
            reveal_strlit("running");
            reveal_strlit("interrupt received, stopping service. press Ctrl-C again to force.");
            reveal_strlit("ctrl_c");
            reveal_strlit("service `");
            reveal_strlit("` exited with status ");
        }
        let mut steps: Vec<SingleStep> = Vec::new();
        match self.phase {
            SinglePhase::BeforeStart => match obs {
                SingleObservation::HookRan(Err(e)) => {
                    self.phase = SinglePhase::Done;
                    SingleStepResult { steps, command: SingleCommand::Finish(Err(e)) }
                },
                _ => {
                    self.phase = SinglePhase::Spawning;
                    SingleStepResult { steps, command: SingleCommand::Spawn }
                },
            },
            SinglePhase::Spawning => match obs {
                SingleObservation::Spawned(Err(e)) => {
                    if self.selection.allows(HookName::AfterStartFailure) {
                        steps.push(
                            single_hook_step(
                                HookName::AfterStartFailure,
                                None,
                                None,
                                Some(e.message.clone()),
                                false,
                            ),
                        );
                    }
                    self.phase = SinglePhase::Done;
                    SingleStepResult { steps, command: SingleCommand::Finish(Err(e)) }
                },
                SingleObservation::Spawned(Ok(pid)) => {
                    let mut line = concat3("started service `", self.service_name.as_str(), "` with pid ");
                    line.append(decimal(pid as u64).as_str());
                    steps.push(SingleStep::Say(line));
                    if self.selection.allows(HookName::AfterStartSuccess) {
                        steps.push(
                            single_hook_step(
                                HookName::AfterStartSuccess,
                                Some(pid),
                                Some(0),
                                Some("running".to_owned()),
                                true,
                            ),
                        );
                    }
                    self.phase = SinglePhase::Running(pid);
                    SingleStepResult { steps, command: SingleCommand::Watch { after_pause: false } }
                },
                _ => SingleStepResult { steps, command: SingleCommand::Spawn },
            },
            SinglePhase::Running(pid) => match obs {
                SingleObservation::Watched { shutdown_requested, exit } => {
                    if shutdown_requested {
                        steps.push(
                            SingleStep::Warn(
                                "interrupt received, stopping service. press Ctrl-C again to force.".to_owned(),
                            ),
                        );
                        let machine = StopMachine::new(
                            StopStyle::Single(self.selection.duplicate()),
                            self.service_name.clone(),
                            pid,
                            "ctrl_c".to_owned(),
                            true,
                            true,
                            false,
                        );
                        self.phase = SinglePhase::Stopping;
                        SingleStepResult { steps, command: SingleCommand::Stop(machine) }
                    } else {
                        match exit {
                            Some((code, text)) => {
                                if self.selection.allows(HookName::AfterRuntimeExitUnexpected) {
                                    steps.push(
                                        single_hook_step(
                                            HookName::AfterRuntimeExitUnexpected,
                                            Some(pid),
                                            code,
                                            Some(text.clone()),
                                            false,
                                        ),
                                    );
                                }
                                let mut m = concat3(
                                    "service `",
                                    self.service_name.as_str(),
                                    "` exited with status ",
                                );
                                m.append(text.as_str());
                                self.phase = SinglePhase::Done;
                                SingleStepResult {
                                    steps,
                                    command: SingleCommand::Finish(Err(AppError::runtime_failed(m))),
                                }
                            },
                            None => SingleStepResult {
                                steps,
                                command: SingleCommand::Watch { after_pause: true },
                            },
                        }
                    }
                },
                _ => SingleStepResult { steps, command: SingleCommand::Watch { after_pause: true } },
            },
            SinglePhase::Stopping => {
                self.phase = SinglePhase::Done;
                match obs {
                    SingleObservation::Stopped(res) => SingleStepResult {
                        steps,
                        command: SingleCommand::Finish(res),
                    },
                    _ => SingleStepResult { steps, command: SingleCommand::Finish(Ok(())) },
                }
            },
            SinglePhase::Done => SingleStepResult { steps, command: SingleCommand::Finish(Ok(())) },
        }
    }
}

} // verus!
