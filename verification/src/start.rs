//! Starting the services of a run: the events and hooks around each start,
//! the record of a started service, and the events that open and close an
//! instance.  Spawning processes, writing files and running hooks is left
//! to the caller.

use vstd::prelude::*;

use crate::config::{hook_text, HookName};
use crate::dashboard::DashboardPhase;
use crate::error::{AppError, AppResult};
use crate::events::{detail_fields, field_texts, format_detail_fields};
use crate::hook_run::{event_is, event_record, EventRecord, HookRuntimeExtras};
use crate::placeholders::opt_text_view;
use crate::text::{concat3, dec_digits, decimal};

verus! {

/// Something to do while a service starts.
#[derive(Debug)]
pub enum StartStep {
    /// Record this event.
    Record(EventRecord),
    /// A hook failed without stopping the start: report the error where
    /// hook errors are shown.
    ReportHookError(AppError),
}

/// What the caller does next.
#[derive(Debug)]
pub enum StartCommand {
    /// Run this hook of the service.
    RunHook { hook: HookName, extras: HookRuntimeExtras },
    /// Spawn the service's process.
    Spawn,
    /// Record the spawned process in the runtime state and write the state.
    RecordRunning,
    Finish(AppResult<()>),
}

/// What the caller saw.
#[derive(Debug)]
pub enum StartObservation {
    HookRan(AppResult<()>),
    /// The process id, or why the process could not be spawned.
    Spawned(Result<u32, AppError>),
    /// Whether the state was written.
    Recorded(AppResult<()>),
}

/// Where a start stands.
#[derive(Debug)]
pub enum StartPhase {
    BeforeStart,
    Spawning,
    /// Recording the process with this id.
    Recording(u32),
    /// Running the success hook.
    AfterSuccess,
    /// Running the failure hook after this spawn error.
    AfterFailure(AppError),
    Done,
}

/// The start of one service.
#[derive(Debug)]
pub struct StartMachine {
    pub service_name: String,
    pub phase: StartPhase,
}

/// The steps to take, then the next command.
#[derive(Debug)]
pub struct StartStepResult {
    pub steps: Vec<StartStep>,
    pub command: StartCommand,
}

/// The observation answers the command that the phase waits on.
pub open spec fn start_fits(phase: StartPhase, obs: StartObservation) -> bool {
    match phase {
        StartPhase::BeforeStart => obs is HookRan,
        StartPhase::Spawning => obs is Spawned,
        StartPhase::Recording(_) => obs is Recorded,
        StartPhase::AfterSuccess => obs is HookRan,
        StartPhase::AfterFailure(_) => obs is HookRan,
        StartPhase::Done => false,
    }
}

/// `c` runs `hook` with these extras and no stop reason.
pub open spec fn runs_hook(
    c: StartCommand,
    hook: HookName,
    pid: Option<u32>,
    code: Option<i32>,
    status: Option<Seq<char>>,
) -> bool {
    c matches StartCommand::RunHook { hook: h, extras } && h == hook && extras.service_pid == pid
        && extras.stop_reason is None && extras.exit_code == code && opt_text_view(
        extras.exit_status,
    ) == status
}

/// `s` records an event about service `name`.
pub open spec fn records(s: StartStep, t: Seq<char>, name: Seq<char>, hook: Option<Seq<char>>, d: Seq<
    char,
>) -> bool {
    s matches StartStep::Record(e) && event_is(e, t, Some(name), hook, None, d)
}

/// The nonfatal report of a hook's result: none when it succeeded.
pub open spec fn reports(steps: Seq<StartStep>, res: AppResult<()>) -> bool {
    match res {
        Ok(()) => steps.len() == 0,
        Err(e) => steps.len() == 1 && (steps[0] matches StartStep::ReportHookError(x) && x == e),
    }
}

/// The start moves from `m` to `m2` on `obs`, with the steps and the next
/// command of `r`.
pub open spec fn start_transition(
    m: StartMachine,
    obs: StartObservation,
    m2: StartMachine,
    r: StartStepResult,
) -> bool {
    let name = m.service_name@;
    match m.phase {
        StartPhase::BeforeStart => match obs {
            StartObservation::HookRan(Ok(())) => m2.phase is Spawning && r.steps@.len() == 0
                && r.command is Spawn,
            StartObservation::HookRan(Err(e)) => {
                &&& m2.phase is Done
                &&& r.steps@.len() == 1
                &&& records(
                    r.steps@[0],
                    "service_start_aborted"@,
                    name,
                    Some(hook_text(HookName::BeforeStart)),
                    e.message@,
                )
                &&& r.command == StartCommand::Finish(Err(e))
            },
            _ => false,
        },
        StartPhase::Spawning => match obs {
            StartObservation::Spawned(Err(e)) => {
                &&& m2.phase == StartPhase::AfterFailure(e)
                &&& r.steps@.len() == 1
                &&& records(r.steps@[0], "service_spawn_failed"@, name, None, e.message@)
                &&& runs_hook(r.command, HookName::AfterStartFailure, None, None, Some(e.message@))
            },
            StartObservation::Spawned(Ok(pid)) => m2.phase == StartPhase::Recording(pid)
                && r.steps@.len() == 0 && r.command is RecordRunning,
            _ => false,
        },
        StartPhase::Recording(pid) => match obs {
            StartObservation::Recorded(Err(e)) => m2.phase is Done && r.steps@.len() == 0
                && r.command == StartCommand::Finish(Err(e)),
            StartObservation::Recorded(Ok(())) => {
                &&& m2.phase is AfterSuccess
                &&& r.steps@.len() == 1
                &&& records(
                    r.steps@[0],
                    "service_running"@,
                    name,
                    None,
                    "service `"@ + name + "` entered running with pid "@ + dec_digits(pid as nat),
                )
                &&& runs_hook(
                    r.command,
                    HookName::AfterStartSuccess,
                    Some(pid),
                    Some(0i32),
                    Some("running"@),
                )
            },
            _ => false,
        },
        StartPhase::AfterSuccess => match obs {
            StartObservation::HookRan(res) => m2.phase is Done && reports(r.steps@, res)
                && r.command == StartCommand::Finish(Ok(())),
            _ => false,
        },
        StartPhase::AfterFailure(e) => match obs {
            StartObservation::HookRan(res) => m2.phase is Done && reports(r.steps@, res)
                && r.command == StartCommand::Finish(Err(e)),
            _ => false,
        },
        StartPhase::Done => false,
    }
}

fn report_step(steps: &mut Vec<StartStep>, res: AppResult<()>)
    requires
        old(steps)@.len() == 0,
    ensures
        reports(final(steps)@, res),
{
    match res {
        Ok(()) => {},
        Err(e) => steps.push(StartStep::ReportHookError(e)),
    }
}

impl StartMachine {
    /// Starts service `service_name`: the `service_starting` event, then its
    /// `before_start` hook.
    pub fn begin(service_name: String) -> (r: (StartMachine, EventRecord, StartCommand))
        ensures
            r.0.service_name == service_name,
            r.0.phase is BeforeStart,
            event_is(
                r.1,
                "service_starting"@,
                Some(service_name@),
                None,
                None,
                "starting service `"@ + service_name@ + "`"@,
            ),
            runs_hook(r.2, HookName::BeforeStart, None, None, None),
    {
        let detail = concat3("starting service `", service_name.as_str(), "`");
        let record = event_record("service_starting", Some(service_name.as_str()), None, None, detail);
        let command = StartCommand::RunHook {
            hook: HookName::BeforeStart,
            extras: HookRuntimeExtras {
                service_pid: None,
                stop_reason: None,
                exit_code: None,
                exit_status: None,
            },
        };
        (StartMachine { service_name, phase: StartPhase::BeforeStart }, record, command)
    }

    /// Takes in what the caller saw; gives the steps to take and the next
    /// command.
    pub fn advance(&mut self, obs: StartObservation) -> (r: StartStepResult)
        requires
            start_fits(old(self).phase, obs),
        ensures
            final(self).service_name == old(self).service_name,
            start_transition(*old(self), obs, *final(self), r),
    {
        let mut steps: Vec<StartStep> = Vec::new();
        let mut phase = StartPhase::Done;
        std::mem::swap(&mut phase, &mut self.phase);
        match phase {
            StartPhase::BeforeStart => match obs {
                StartObservation::HookRan(Err(e)) => {
                    let record = event_record(
                        "service_start_aborted",
                        Some(self.service_name.as_str()),
                        Some(HookName::BeforeStart.as_str()),
                        None,
                        e.message.clone(),
                    );
                    steps.push(StartStep::Record(record));
                    StartStepResult { steps, command: StartCommand::Finish(Err(e)) }
                },
                _ => {
                    self.phase = StartPhase::Spawning;
                    StartStepResult { steps, command: StartCommand::Spawn }
                },
            },
            StartPhase::Spawning => match obs {
                StartObservation::Spawned(Err(e)) => {
                    let record = event_record(
                        "service_spawn_failed",
                        Some(self.service_name.as_str()),
                        None,
                        None,
                        e.message.clone(),
                    );
                    steps.push(StartStep::Record(record));
                    let command = StartCommand::RunHook {
                        hook: HookName::AfterStartFailure,
                        extras: HookRuntimeExtras {
                            service_pid: None,
                            stop_reason: None,
                            exit_code: None,
                            exit_status: Some(e.message.clone()),
                        },
                    };
                    self.phase = StartPhase::AfterFailure(e);
                    StartStepResult { steps, command }
                },
                StartObservation::Spawned(Ok(pid)) => {
                    self.phase = StartPhase::Recording(pid);
                    StartStepResult { steps, command: StartCommand::RecordRunning }
                },
                _ => StartStepResult { steps, command: StartCommand::Finish(Ok(())) },
            },
            StartPhase::Recording(pid) => match obs {
                StartObservation::Recorded(Err(e)) => {
                    StartStepResult { steps, command: StartCommand::Finish(Err(e)) }
                },
                _ => {
                    let mut detail = concat3(
                        "service `",
                        self.service_name.as_str(),
                        "` entered running with pid ",
                    );
                    detail.append(decimal(pid as u64).as_str());
                    let record = event_record(
                        "service_running",
                        Some(self.service_name.as_str()),
                        None,
                        None,
                        detail,
                    );
                    steps.push(StartStep::Record(record));
                    let command = StartCommand::RunHook {
                        hook: HookName::AfterStartSuccess,
                        extras: HookRuntimeExtras {
                            service_pid: Some(pid),
                            stop_reason: None,
                            exit_code: Some(0),
                            exit_status: Some("running".to_owned()),
                        },
                    };
                    self.phase = StartPhase::AfterSuccess;
                    StartStepResult { steps, command }
                },
            },
            StartPhase::AfterSuccess => match obs {
                StartObservation::HookRan(res) => {
                    report_step(&mut steps, res);
                    StartStepResult { steps, command: StartCommand::Finish(Ok(())) }
                },
                _ => StartStepResult { steps, command: StartCommand::Finish(Ok(())) },
            },
            StartPhase::AfterFailure(e) => match obs {
                StartObservation::HookRan(res) => {
                    report_step(&mut steps, res);
                    StartStepResult { steps, command: StartCommand::Finish(Err(e)) }
                },
                _ => StartStepResult { steps, command: StartCommand::Finish(Err(e)) },
            },
            StartPhase::Done => StartStepResult { steps, command: StartCommand::Finish(Ok(())) },
        }
    }
}

/// The detail of an `instance_started` event: the mode, then the fields of
/// that mode.
pub fn instance_started_detail(fields: &[(&str, String)]) -> (r: String)
    ensures
        r@ == detail_fields(field_texts(fields@)),
{
    format_detail_fields(fields)
}

/// The detail of an `instance_stopping` event.
pub fn instance_stopping_detail(reason: &str) -> (r: String)
    ensures
        r@ == detail_fields(seq![("reason"@, reason@)]),
{
    let fields = [("reason", reason.to_owned())];
    let r = format_detail_fields(&fields);
    proof {
        assert(field_texts(fields@) =~= seq![("reason"@, reason@)]);
    }
    r
}

/// `true` or `false`, as `bool::to_string` writes them.
pub open spec fn bool_text(b: bool) -> Seq<char> {
    if b {
        "true"@
    } else {
        "false"@
    }
}

fn bool_string(b: bool) -> (r: String)
    ensures
        r@ == bool_text(b),
{
    if b {
        "true".to_owned()
    } else {
        "false".to_owned()
    }
}

/// The detail of an `instance_stopped` event: whether the run, the shutdown
/// and the cleanup went well.
pub fn instance_stopped_detail(runtime_ok: bool, shutdown_ok: bool, cleanup_ok: bool) -> (r: String)
    ensures
        r@ == detail_fields(
            seq![
                ("runtime_ok"@, bool_text(runtime_ok)),
                ("shutdown_ok"@, bool_text(shutdown_ok)),
                ("cleanup_ok"@, bool_text(cleanup_ok)),
            ],
        ),
{
    let fields = [
        ("runtime_ok", bool_string(runtime_ok)),
        ("shutdown_ok", bool_string(shutdown_ok)),
        ("cleanup_ok", bool_string(cleanup_ok)),
    ];
    let r = format_detail_fields(&fields);
    proof {
        assert(field_texts(fields@) =~= seq![
            ("runtime_ok"@, bool_text(runtime_ok)),
            ("shutdown_ok"@, bool_text(shutdown_ok)),
            ("cleanup_ok"@, bool_text(cleanup_ok)),
        ]);
    }
    r
}

/// How a run ends: the run's error first, then the shutdown's, then the
/// cleanup's; success when none failed.
pub open spec fn run_outcome(runtime: AppResult<()>, shutdown: AppResult<()>, cleanup: AppResult<()>) -> AppResult<()> {
    match runtime {
        Err(e) => Err(e),
        Ok(()) => match shutdown {
            Err(e) => Err(e),
            Ok(()) => cleanup,
        },
    }
}

pub fn finish_run(runtime: AppResult<()>, shutdown: AppResult<()>, cleanup: AppResult<()>) -> (r: AppResult<()>)
    ensures
        r == run_outcome(runtime, shutdown, cleanup),
{
    match runtime {
        Err(e) => Err(e),
        Ok(()) => match shutdown {
            Err(e) => Err(e),
            Ok(()) => cleanup,
        },
    }
}

/// The notice when a managed start or restart from the dashboard failed.
pub fn managed_restart_failure_notice(service_name: &str, error: &AppError) -> (r: String)
    ensures
        r@ == "failed to start or restart "@ + service_name@ + ": "@ + error.message@,
{
    let mut m = concat3("failed to start or restart ", service_name, ": ");
    m.append(error.message.as_str());
    m
}

/// How `up` runs: with the dashboard, kept open after the services end
/// and then allowing restarts when asked; detached; or plain.
#[derive(Debug, Clone, Copy)]
pub struct RunOptions {
    pub tui: bool,
    pub keep_tui: bool,
    pub manage_tui: bool,
    pub daemonized: bool,
}

/// The way a run goes.
#[derive(Debug, Clone, Copy, PartialEq, Eq, Structural)]
pub enum RunMode {
    Tui { keep: bool, manage: bool },
    Daemon,
    Plain,
}

/// The dashboard wins over detaching, which wins over a plain run.
pub fn run_mode(options: &RunOptions) -> (r: RunMode)
    ensures
        options.tui ==> r == (RunMode::Tui { keep: options.keep_tui, manage: options.manage_tui }),
        !options.tui && options.daemonized ==> r == RunMode::Daemon,
        !options.tui && !options.daemonized ==> r == RunMode::Plain,
{
    if options.tui {
        RunMode::Tui { keep: options.keep_tui, manage: options.manage_tui }
    } else if options.daemonized {
        RunMode::Daemon
    } else {
        RunMode::Plain
    }
}

/// The phase of a dashboard kept open after its run.
pub fn post_run_phase(manage: bool) -> (r: DashboardPhase)
    ensures
        manage ==> r == DashboardPhase::PostRunManage,
        !manage ==> r == DashboardPhase::PostRunReadonly,
{
    if manage {
        DashboardPhase::PostRunManage
    } else {
        DashboardPhase::PostRunReadonly
    }
}


/// What an unexpected exit of a supervised service leads to: the event to
/// record, the values its `after_runtime_exit_unexpected` hook sees, and the
/// error that ends the run.
#[derive(Debug)]
pub struct RuntimeExit {
    pub record: EventRecord,
    pub extras: HookRuntimeExtras,
    pub error: AppError,
}

/// The detail of an unexpected exit.
pub open spec fn unexpected_exit_detail(name: Seq<char>, status: Seq<char>) -> Seq<char> {
    "service `"@ + name + "` exited unexpectedly with status "@ + status
}

/// The unexpected exit of service `service_name` (process `pid`) with
/// `exit_code` and the status text `status`.
pub fn runtime_exit(service_name: &str, pid: u32, exit_code: Option<i32>, status: &str) -> (r: RuntimeExit)
    ensures
        event_is(
            r.record,
            "service_runtime_exit_unexpected"@,
            Some(service_name@),
            Some(hook_text(HookName::AfterRuntimeExitUnexpected)),
            None,
            unexpected_exit_detail(service_name@, status@),
        ),
        r.extras.service_pid == Some(pid),
        r.extras.stop_reason is None,
        r.extras.exit_code == exit_code,
        opt_text_view(r.extras.exit_status) == Some(status@),
        r.error.exit_code == crate::error::ExitCode::RuntimeFailed,
        r.error.message@ == crate::single_run::exited_message(service_name@, status@),
{
    proof {
        reveal_strlit("service `");
        reveal_strlit("` exited unexpectedly with status ");
        reveal_strlit("` exited with status ");
    }
    let detail = concat3("service `", service_name, "` exited unexpectedly with status ");
    let mut detail = detail;
    detail.append(status);
    let mut message = concat3("service `", service_name, "` exited with status ");
    message.append(status);
    RuntimeExit {
        record: event_record(
            "service_runtime_exit_unexpected",
            Some(service_name),
            Some(HookName::AfterRuntimeExitUnexpected.as_str()),
            None,
            detail,
        ),
        extras: HookRuntimeExtras {
            service_pid: Some(pid),
            stop_reason: None,
            exit_code,
            exit_status: Some(status.to_owned()),
        },
        error: AppError::runtime_failed(message),
    }
}

} // verus!
