//! Stopping one running service: the order of checks, signals, hooks and
//! records, from the first look at the process to the outcome.  The caller
//! does what each command asks and reports what it saw.

use vstd::prelude::*;

use crate::config::{HookName, hook_text};
use crate::error::{AppError, AppResult, ExitCode};
use crate::hook_run::{event_is, event_record, EventRecord, HookRuntimeExtras};
use crate::placeholders::opt_text_view;
use crate::run_request::HookSelection;
use crate::text::{concat2, concat3};

verus! {

/// Who stops the service: the supervisor of a run, which records events
/// and runs every hook, or a single-service run, which runs the hooks its
/// selection allows and reports the outcome on the terminal.
#[derive(Debug)]
pub enum StopStyle {
    Supervised,
    Single(HookSelection),
}

/// Where the stop stands.
#[derive(Debug)]
pub enum StopPhase {
    /// Waiting to learn whether the service already exited.
    Checking,
    /// Waiting to learn whether a forced stop was requested.
    Checked,
    /// Waiting for the stop request to be sent.
    Requesting,
    /// Waiting for the service to exit.
    Waiting,
    /// Waiting for a forced kill.
    ForceKilling,
    /// Waiting for the kill that follows a timeout.
    TimeoutKilling,
    /// Waiting for the child handle to be killed after the stop request
    /// failed with this error.
    FallbackKilling(AppError),
    /// Finished.
    Done,
}

/// Something to do on the way.
#[derive(Debug)]
pub enum StopStep {
    /// Record this event.
    Record(EventRecord),
    /// Run this hook; its failure is reported and does not stop the stop.
    RunHook { hook: HookName, extras: HookRuntimeExtras },
    /// Print this line.
    Say(String),
    /// Print this line as a warning.
    Warn(String),
}

/// What the caller does next and reports on.
#[derive(Debug)]
pub enum StopCommand {
    /// Check whether the service exited.
    CheckExited,
    /// Check whether a forced stop was requested.
    CheckForce,
    /// Send the configured stop signal.
    RequestStop,
    /// Look at the service again, after a short pause if asked.
    Poll { after_pause: bool },
    /// Kill the service and wait for it.
    ForceKill,
    /// Kill the service through its child handle.
    FallbackKill,
    /// The stop is over.
    Finish(AppResult<()>),
}

/// What the caller saw.
#[derive(Debug)]
pub enum StopObservation {
    Exited(bool),
    ForceRequested(bool),
    StopRequested(AppResult<()>),
    Polled { exited: bool, force_requested: bool, deadline_passed: bool },
    Killed(AppResult<()>),
    /// `None` when the child handle was killed, else why it could not be.
    FallbackKilled(Option<String>),
}

/// The stop of one service.
#[derive(Debug)]
pub struct StopMachine {
    pub style: StopStyle,
    pub service_name: String,
    pub pid: u32,
    pub stop_reason: String,
    /// The supervisor has the service's configuration.
    pub config_found: bool,
    /// Hook output goes to the terminal.
    pub terminal: bool,
    /// The notice of a forced stop was already shown.
    pub force_notice_shown: bool,
    pub phase: StopPhase,
}

/// The steps to take, then the next command.
#[derive(Debug)]
pub struct StopStepResult {
    pub steps: Vec<StopStep>,
    pub command: StopCommand,
}

/// Whether the stop runs hook `hook`.
pub open spec fn runs_hook(style: StopStyle, hook: HookName) -> bool {
    match style {
        StopStyle::Supervised => true,
        StopStyle::Single(sel) => crate::run_request::selection_allows(sel, hook),
    }
}

/// The observation answers the command that the phase waits on.
pub open spec fn fits(phase: StopPhase, obs: StopObservation) -> bool {
    match phase {
        StopPhase::Checking => obs is Exited,
        StopPhase::Checked => obs is ForceRequested,
        StopPhase::Requesting => obs is StopRequested,
        StopPhase::Waiting => obs is Polled,
        StopPhase::ForceKilling => obs is Killed,
        StopPhase::TimeoutKilling => obs is Killed,
        StopPhase::FallbackKilling(_) => obs is FallbackKilled,
        StopPhase::Done => false,
    }
}

/// `s` records event `t` about the service.
pub open spec fn is_record(
    s: StopStep,
    t: Seq<char>,
    m: StopMachine,
    hook: Option<Seq<char>>,
    d: Seq<char>,
) -> bool {
    s matches StopStep::Record(e) && event_is(e, t, Some(m.service_name@), hook, None, d)
}

/// `s` runs hook `hook` with the service's pid and stop reason.
pub open spec fn is_hook(
    s: StopStep,
    hook: HookName,
    m: StopMachine,
    code: Option<i32>,
    status: Option<Seq<char>>,
) -> bool {
    s matches StopStep::RunHook { hook: h, extras } && h == hook && extras.service_pid == Some(m.pid)
        && opt_text_view(extras.stop_reason) == Some(m.stop_reason@) && extras.exit_code == code
        && opt_text_view(extras.exit_status) == status
}

/// The hook step, when the stop runs that hook.
pub open spec fn hook_steps(
    steps: Seq<StopStep>,
    hook: HookName,
    m: StopMachine,
    code: Option<i32>,
    status: Option<Seq<char>>,
) -> bool {
    if runs_hook(m.style, hook) {
        steps.len() == 1 && is_hook(steps[0], hook, m, code, status)
    } else {
        steps.len() == 0
    }
}

/// The message of a service that stopped with outcome `status`.
pub open spec fn outcome_message(name: Seq<char>, status: Seq<char>) -> Seq<char> {
    "service `"@ + name + "` stopped with outcome `"@ + status + "`"@
}

/// The steps once the service stopped with `status`.
pub open spec fn stopped_steps(
    steps: Seq<StopStep>,
    m: StopMachine,
    status: Seq<char>,
    code: Option<i32>,
    detail: Seq<char>,
) -> bool {
    match m.style {
        StopStyle::Supervised => steps.len() == 2 && is_record(
            steps[0],
            "service_stopped"@,
            m,
            None,
            detail,
        ) && is_hook(steps[1], HookName::AfterStopSuccess, m, code, Some(status)),
        StopStyle::Single(_) => {
            &&& steps.len() >= 1
            &&& hook_steps(steps.drop_last(), HookName::AfterStopSuccess, m, code, Some(status))
            &&& steps.last() matches StopStep::Say(t) && t@ == outcome_message(
                m.service_name@,
                status,
            )
        },
    }
}

/// The notice of a forced stop, shown once when hooks talk to the terminal.
pub open spec fn force_notice_steps(steps: Seq<StopStep>, m: StopMachine) -> bool {
    if m.style is Supervised && !m.force_notice_shown && m.terminal {
        steps.len() == 1 && (steps[0] matches StopStep::Warn(t) && t@
            == "second interrupt received, force-stopping services."@)
    } else {
        steps.len() == 0
    }
}

/// The message of a failed fallback kill.
pub open spec fn fallback_message(name: Seq<char>, error: Seq<char>, kill_error: Seq<char>) -> Seq<
    char,
> {
    "failed to stop service `"@ + name + "` via signal ("@ + error + ") and child handle ("@
        + kill_error + ")"@
}

/// Everything but the phase and the notice flag is as before.
pub open spec fn same_stop(a: StopMachine, b: StopMachine) -> bool {
    &&& a.style == b.style
    &&& a.service_name == b.service_name
    &&& a.pid == b.pid
    &&& a.stop_reason == b.stop_reason
    &&& a.config_found == b.config_found
    &&& a.terminal == b.terminal
}

fn hook_step(m: &StopMachine, hook: HookName, code: Option<i32>, status: Option<&str>) -> (r:
    StopStep)
    ensures
        is_hook(
            r,
            hook,
            *m,
            code,
            match status {
                Some(s) => Some(s@),
                None => None,
            },
        ),
{
    StopStep::RunHook {
        hook,
        extras: HookRuntimeExtras {
            service_pid: Some(m.pid),
            stop_reason: Some(m.stop_reason.clone()),
            exit_code: code,
            exit_status: match status {
                Some(s) => Some(s.to_owned()),
                None => None,
            },
        },
    }
}

fn record_step(m: &StopMachine, event_type: &str, hook: Option<&str>, detail: String) -> (r:
    StopStep)
    ensures
        is_record(
            r,
            event_type@,
            *m,
            match hook {
                Some(h) => Some(h@),
                None => None,
            },
            detail@,
        ),
{
    StopStep::Record(event_record(event_type, Some(m.service_name.as_str()), hook, None, detail))
}

fn runs(m: &StopMachine, hook: HookName) -> (r: bool)
    ensures
        r == runs_hook(m.style, hook),
{
    match &m.style {
        StopStyle::Supervised => true,
        StopStyle::Single(sel) => sel.allows(hook),
    }
}

fn push_step(steps: &mut Vec<StopStep>, s: StopStep)
    ensures
        final(steps)@ == old(steps)@.push(s),
{
    steps.push(s);
}

fn stopped(m: &StopMachine, status: &str, code: Option<i32>, detail: String) -> (r: Vec<StopStep>)
    ensures
        stopped_steps(r@, *m, status@, code, detail@),
{
    proof {
        reveal_strlit("service_stopped");
        reveal_strlit("service `");
        reveal_strlit("` stopped with outcome `");
        reveal_strlit("`");
    }
    let mut steps: Vec<StopStep> = Vec::new();
    match &m.style {
        StopStyle::Supervised => {
            push_step(&mut steps, record_step(m, "service_stopped", None, detail));
            push_step(&mut steps, hook_step(m, HookName::AfterStopSuccess, code, Some(status)));
        },
        StopStyle::Single(_) => {
            if runs(m, HookName::AfterStopSuccess) {
                push_step(&mut steps, hook_step(m, HookName::AfterStopSuccess, code, Some(status)));
            }
            let mut t = concat3("service `", m.service_name.as_str(), "` stopped with outcome `");
            t.append(status);
            t.append("`");
            let ghost before = steps@;
            push_step(&mut steps, StopStep::Say(t));
            proof {
                assert(steps@.drop_last() =~= before);
            }
        },
    }
    steps
}

fn service_detail(name: &str, tail: &str) -> (r: String)
    ensures
        r@ == "service `"@ + name@ + tail@,
{
    proof {
        reveal_strlit("service `");
    }
    concat3("service `", name, tail)
}


/// What a forced stop does first: show the notice if due, then kill.
pub open spec fn force_path(m: StopMachine, m2: StopMachine, r: StopStepResult) -> bool {
    &&& m2.phase is ForceKilling
    &&& force_notice_steps(r.steps@, m)
    &&& r.command is ForceKill
    &&& m2.force_notice_shown == (m.force_notice_shown || m.style is Supervised)
}

/// The stop moves from `m` to `m2` on `obs`, with the steps and the next
/// command of `r`.
pub open spec fn stop_transition(
    m: StopMachine,
    obs: StopObservation,
    m2: StopMachine,
    r: StopStepResult,
) -> bool {
    let name = m.service_name@;
    let keep_notice = m2.force_notice_shown == m.force_notice_shown;
    match m.phase {
        StopPhase::Checking => match obs {
            StopObservation::Exited(true) => keep_notice && m2.phase is Done && r.steps@.len() == 0
                && r.command == StopCommand::Finish(Ok(())),
            StopObservation::Exited(false) => keep_notice && match m.style {
                StopStyle::Supervised => if !m.config_found {
                    &&& m2.phase is Done
                    &&& r.steps@.len() == 0
                    &&& r.command matches StopCommand::Finish(Err(e))
                    &&& e.exit_code == ExitCode::RuntimeFailed
                    &&& e.message@ == "service config for `"@ + name
                        + "` not found during shutdown"@
                } else {
                    &&& m2.phase is Checked
                    &&& r.steps@.len() == 2
                    &&& is_record(
                        r.steps@[0],
                        "service_stopping"@,
                        m,
                        None,
                        "stopping service `"@ + name + "` with reason `"@ + m.stop_reason@ + "`"@,
                    )
                    &&& is_hook(r.steps@[1], HookName::BeforeStop, m, None, None)
                    &&& r.command is CheckForce
                },
                StopStyle::Single(_) => m2.phase is Checked && hook_steps(
                    r.steps@,
                    HookName::BeforeStop,
                    m,
                    None,
                    None,
                ) && r.command is CheckForce,
            },
            _ => false,
        },
        StopPhase::Checked => match obs {
            StopObservation::ForceRequested(true) => force_path(m, m2, r),
            StopObservation::ForceRequested(false) => keep_notice && m2.phase is Requesting
                && r.steps@.len() == 0 && r.command is RequestStop,
            _ => false,
        },
        StopPhase::Requesting => match obs {
            StopObservation::StopRequested(Ok(())) => keep_notice && m2.phase is Waiting
                && r.steps@.len() == 0 && r.command == StopCommand::Poll { after_pause: false },
            StopObservation::StopRequested(Err(e)) => keep_notice && match m.style {
                StopStyle::Supervised => m2.phase == StopPhase::FallbackKilling(e)
                    && r.steps@.len() == 0 && r.command is FallbackKill,
                StopStyle::Single(_) => m2.phase is Done && hook_steps(
                    r.steps@,
                    HookName::AfterStopFailure,
                    m,
                    None,
                    Some("request_stop_failed"@),
                ) && r.command == StopCommand::Finish(Err(e)),
            },
            _ => false,
        },
        StopPhase::FallbackKilling(e) => match obs {
            StopObservation::FallbackKilled(k) => {
                &&& keep_notice
                &&& m2.phase is Done
                &&& r.steps@.len() == 1
                &&& is_hook(
                    r.steps@[0],
                    HookName::AfterStopFailure,
                    m,
                    None,
                    Some("request_stop_failed"@),
                )
                &&& match k {
                    None => r.command == StopCommand::Finish(Ok(())),
                    Some(t) => r.command matches StopCommand::Finish(Err(e2)) && e2.exit_code
                        == ExitCode::RuntimeFailed && e2.message@ == fallback_message(
                        name,
                        e.message@,
                        t@,
                    ),
                }
            },
            _ => false,
        },
        StopPhase::Waiting => match obs {
            StopObservation::Polled { exited, force_requested, deadline_passed } => if exited {
                keep_notice && m2.phase is Done && stopped_steps(
                    r.steps@,
                    m,
                    "graceful"@,
                    Some(0i32),
                    "service `"@ + name + "` stopped gracefully"@,
                ) && r.command == StopCommand::Finish(Ok(()))
            } else if force_requested {
                force_path(m, m2, r)
            } else if deadline_passed {
                &&& keep_notice
                &&& m2.phase is TimeoutKilling
                &&& r.command is ForceKill
                &&& match m.style {
                    StopStyle::Supervised => r.steps@.len() == 2 && is_record(
                        r.steps@[0],
                        "service_stop_timeout"@,
                        m,
                        Some("after_stop_timeout"@),
                        "service `"@ + name + "` reached stop timeout"@,
                    ) && is_hook(
                        r.steps@[1],
                        HookName::AfterStopTimeout,
                        m,
                        None,
                        Some("timeout"@),
                    ),
                    StopStyle::Single(_) => hook_steps(
                        r.steps@,
                        HookName::AfterStopTimeout,
                        m,
                        None,
                        Some("timeout"@),
                    ),
                }
            } else {
                keep_notice && m2.phase is Waiting && r.steps@.len() == 0 && r.command
                    == StopCommand::Poll { after_pause: true }
            },
            _ => false,
        },
        StopPhase::ForceKilling => match obs {
            StopObservation::Killed(Ok(())) => keep_notice && m2.phase is Done && stopped_steps(
                r.steps@,
                m,
                "forced"@,
                None,
                "service `"@ + name + "` stopped via force request"@,
            ) && r.command == StopCommand::Finish(Ok(())),
            StopObservation::Killed(Err(e)) => keep_notice && m2.phase is Done && r.steps@.len()
                == 0 && r.command == StopCommand::Finish(Err(e)),
            _ => false,
        },
        StopPhase::TimeoutKilling => match obs {
            StopObservation::Killed(Ok(())) => keep_notice && m2.phase is Done && stopped_steps(
                r.steps@,
                m,
                "timed_out_then_forced"@,
                None,
                "service `"@ + name + "` stopped after timeout escalation"@,
            ) && r.command == StopCommand::Finish(Ok(())),
            StopObservation::Killed(Err(e)) => {
                &&& keep_notice
                &&& m2.phase is Done
                &&& r.command == StopCommand::Finish(Err(e))
                &&& match m.style {
                    StopStyle::Supervised => r.steps@.len() == 2 && is_record(
                        r.steps@[0],
                        "service_stop_failed"@,
                        m,
                        Some("after_stop_failure"@),
                        e.message@,
                    ) && is_hook(
                        r.steps@[1],
                        HookName::AfterStopFailure,
                        m,
                        None,
                        Some("force_stop_failed"@),
                    ),
                    StopStyle::Single(_) => hook_steps(
                        r.steps@,
                        HookName::AfterStopFailure,
                        m,
                        None,
                        Some("force_stop_failed"@),
                    ),
                }
            },
            _ => false,
        },
        StopPhase::Done => false,
    }
}

/// While a stop waits for the service, whatever the style: an exit ends
/// the stop gracefully; otherwise a second interrupt, and failing that a
/// passed deadline, kill the service; otherwise it is looked at again after
/// a pause.  A stop never waits past its deadline.
pub proof fn lemma_waiting_stop(m: StopMachine, obs: StopObservation, m2: StopMachine, r: StopStepResult)
    requires
        m.phase is Waiting,
        stop_transition(m, obs, m2, r),
    ensures
        obs matches StopObservation::Polled { exited, force_requested, deadline_passed } && {
            &&& exited ==> m2.phase is Done && r.command == StopCommand::Finish(Ok(()))
            &&& !exited && force_requested ==> m2.phase is ForceKilling && r.command is ForceKill
            &&& !exited && !force_requested && deadline_passed ==> m2.phase is TimeoutKilling
                && r.command is ForceKill
            &&& !exited && !force_requested && !deadline_passed ==> m2.phase is Waiting
                && r.command == StopCommand::Poll { after_pause: true }
        },
{
}

/// The way through a stop, whatever the style: a service that already
/// exited is done with; otherwise a second interrupt kills it at once, and
/// without one the stop signal is sent and then the service is waited for;
/// a kill that succeeds ends the stop, and one that fails ends it with that
/// error.
pub proof fn lemma_stop_path(m: StopMachine, obs: StopObservation, m2: StopMachine, r: StopStepResult)
    requires
        stop_transition(m, obs, m2, r),
    ensures
        (m.phase is Checking && obs == StopObservation::Exited(true)) ==> (m2.phase is Done
            && r.command == StopCommand::Finish(Ok(()))),
        (m.phase is Checked && obs == StopObservation::ForceRequested(true)) ==> (m2.phase
            is ForceKilling && r.command is ForceKill),
        (m.phase is Checked && obs == StopObservation::ForceRequested(false)) ==> (m2.phase
            is Requesting && r.command is RequestStop),
        (m.phase is Requesting && obs == StopObservation::StopRequested(Ok(()))) ==> (m2.phase
            is Waiting && r.command == (StopCommand::Poll { after_pause: false })),
        ((m.phase is ForceKilling || m.phase is TimeoutKilling) && obs == StopObservation::Killed(
            Ok(()),
        )) ==> (m2.phase is Done && r.command == StopCommand::Finish(Ok(()))),
        (m.phase is ForceKilling || m.phase is TimeoutKilling) ==> (obs matches StopObservation::Killed(
            Err(e),
        ) ==> (m2.phase is Done && r.command == StopCommand::Finish(Err(e)))),
{
}

/// A kill after the deadline that succeeds ends the stop with the outcome
/// `timed_out_then_forced`: reported to the `after_stop_success` hook under
/// supervision, and said on the terminal for a single service.
pub proof fn lemma_timeout_kill_outcome(m: StopMachine, m2: StopMachine, r: StopStepResult)
    requires
        m.phase is TimeoutKilling,
        stop_transition(m, StopObservation::Killed(Ok(())), m2, r),
    ensures
        m2.phase is Done,
        r.command == StopCommand::Finish(Ok(())),
        m.style is Supervised ==> (r.steps@[1] matches StopStep::RunHook { hook, extras } && hook
            == HookName::AfterStopSuccess && opt_text_view(extras.exit_status) == Some(
            "timed_out_then_forced"@,
        )),
        m.style is Single ==> (r.steps@.last() matches StopStep::Say(t) && t@ == "service `"@
            + m.service_name@ + "` stopped with outcome `timed_out_then_forced`"@),
{
    reveal_strlit("` stopped with outcome `");
    reveal_strlit("`");
    reveal_strlit("timed_out_then_forced");
    reveal_strlit("` stopped with outcome `timed_out_then_forced`");
    assert(outcome_message(m.service_name@, "timed_out_then_forced"@) =~= "service `"@
        + m.service_name@ + "` stopped with outcome `timed_out_then_forced`"@);
}

/// The message when a child handle could not be killed either.
pub fn fallback_kill_message(service_name: &str, error: &str, kill_error: &str) -> (r: String)
    ensures
        r@ == fallback_message(service_name@, error@, kill_error@),
{
    proof {
        reveal_strlit("failed to stop service `");
        reveal_strlit("` via signal (");
        reveal_strlit(") and child handle (");
        reveal_strlit(")");
    }
    let mut m = concat3("failed to stop service `", service_name, "` via signal (");
    m.append(error);
    m.append(") and child handle (");
    m.append(kill_error);
    m.append(")");
    m
}

impl StopMachine {
    /// The stop of service `service_name` (process `pid`) for `stop_reason`;
    /// it starts by checking whether the service already exited.
    pub fn new(
        style: StopStyle,
        service_name: String,
        pid: u32,
        stop_reason: String,
        config_found: bool,
        terminal: bool,
        force_notice_shown: bool,
    ) -> (r: Self)
        ensures
            r.style == style,
            r.service_name == service_name,
            r.pid == pid,
            r.stop_reason == stop_reason,
            r.config_found == config_found,
            r.terminal == terminal,
            r.force_notice_shown == force_notice_shown,
            r.phase is Checking,
    {
        StopMachine {
            style,
            service_name,
            pid,
            stop_reason,
            config_found,
            terminal,
            force_notice_shown,
            phase: StopPhase::Checking,
        }
    }

    fn force(&mut self) -> (r: StopStepResult)
        requires
            old(self).phase is Checked || old(self).phase is Waiting,
        ensures
            same_stop(*final(self), *old(self)),
            force_path(*old(self), *final(self), r),
    {
        proof {
            reveal_strlit("second interrupt received, force-stopping services.");
        }
        let mut steps: Vec<StopStep> = Vec::new();
        let supervised = match &self.style {
            StopStyle::Supervised => true,
            StopStyle::Single(_) => false,
        };
        if supervised {
            if !self.force_notice_shown && self.terminal {
                push_step(
                    &mut steps,
                    StopStep::Warn("second interrupt received, force-stopping services.".to_owned()),
                );
            }
            self.force_notice_shown = true;
        }
        self.phase = StopPhase::ForceKilling;
        StopStepResult { steps, command: StopCommand::ForceKill }
    }

    /// Takes in what the caller saw for the last command, and gives the
    /// steps to take and the next command.
    pub fn advance(&mut self, obs: StopObservation) -> (r: StopStepResult)
        requires
            fits(old(self).phase, obs),
        ensures
            same_stop(*final(self), *old(self)),
            stop_transition(*old(self), obs, *final(self), r),
    {
        proof {
            reveal_strlit("service config for `");
            reveal_strlit("` not found during shutdown");
            reveal_strlit("stopping service `");
            reveal_strlit("` with reason `");
            reveal_strlit("`");
            reveal_strlit("service_stopping");
            reveal_strlit("request_stop_failed");
            reveal_strlit("graceful");
            reveal_strlit("` stopped gracefully");
            reveal_strlit("service_stop_timeout");
            reveal_strlit("after_stop_timeout");
            reveal_strlit("` reached stop timeout");
            reveal_strlit("timeout");
            reveal_strlit("forced");
            reveal_strlit("` stopped via force request");
            reveal_strlit("timed_out_then_forced");
            reveal_strlit("` stopped after timeout escalation");
            reveal_strlit("service_stop_failed");
            reveal_strlit("after_stop_failure");
            reveal_strlit("force_stop_failed");
        }
        let mut steps: Vec<StopStep> = Vec::new();
        let mut phase = StopPhase::Done;
        std::mem::swap(&mut phase, &mut self.phase);
        match phase {
            StopPhase::Checking => match obs {
                StopObservation::Exited(true) => {
                    StopStepResult { steps, command: StopCommand::Finish(Ok(())) }
                },
                _ => {
                    let supervised = match &self.style {
                        StopStyle::Supervised => true,
                        StopStyle::Single(_) => false,
                    };
                    if supervised {
                        if !self.config_found {
                            let e = AppError::runtime_failed(
                                concat3(
                                    "service config for `",
                                    self.service_name.as_str(),
                                    "` not found during shutdown",
                                ),
                            );
                            return StopStepResult { steps, command: StopCommand::Finish(Err(e)) };
                        }
                        let mut detail = concat3(
                            "stopping service `",
                            self.service_name.as_str(),
                            "` with reason `",
                        );
                        detail.append(self.stop_reason.as_str());
                        detail.append("`");
                        push_step(&mut steps, record_step(self, "service_stopping", None, detail));
                        push_step(&mut steps, hook_step(self, HookName::BeforeStop, None, None));
                    } else if runs(self, HookName::BeforeStop) {
                        push_step(&mut steps, hook_step(self, HookName::BeforeStop, None, None));
                    }
                    self.phase = StopPhase::Checked;
                    StopStepResult { steps, command: StopCommand::CheckForce }
                },
            },
            StopPhase::Checked => match obs {
                StopObservation::ForceRequested(true) => {
                    self.phase = StopPhase::Checked;
                    self.force()
                },
                _ => {
                    self.phase = StopPhase::Requesting;
                    StopStepResult { steps, command: StopCommand::RequestStop }
                },
            },
            StopPhase::Requesting => match obs {
                StopObservation::StopRequested(Ok(())) => {
                    self.phase = StopPhase::Waiting;
                    StopStepResult { steps, command: StopCommand::Poll { after_pause: false } }
                },
                StopObservation::StopRequested(Err(e)) => {
                    let supervised = match &self.style {
                        StopStyle::Supervised => true,
                        StopStyle::Single(_) => false,
                    };
                    if supervised {
                        self.phase = StopPhase::FallbackKilling(e);
                        StopStepResult { steps, command: StopCommand::FallbackKill }
                    } else {
                        if runs(self, HookName::AfterStopFailure) {
                            push_step(
                                &mut steps,
                                hook_step(self, HookName::AfterStopFailure, None, Some("request_stop_failed")),
                            );
                        }
                        StopStepResult { steps, command: StopCommand::Finish(Err(e)) }
                    }
                },
                _ => {
                    StopStepResult { steps, command: StopCommand::Finish(Ok(())) }
                },
            },
            StopPhase::FallbackKilling(e) => match obs {
                StopObservation::FallbackKilled(k) => {
                    push_step(
                        &mut steps,
                        hook_step(self, HookName::AfterStopFailure, None, Some("request_stop_failed")),
                    );
                    let result = match k {
                        None => Ok(()),
                        Some(t) => Err(
                            AppError::runtime_failed(
                                fallback_kill_message(
                                    self.service_name.as_str(),
                                    e.message.as_str(),
                                    t.as_str(),
                                ),
                            ),
                        ),
                    };
                    StopStepResult { steps, command: StopCommand::Finish(result) }
                },
                _ => {
                    StopStepResult { steps, command: StopCommand::Finish(Ok(())) }
                },
            },
            StopPhase::Waiting => match obs {
                StopObservation::Polled { exited, force_requested, deadline_passed } => {
                    if exited {
                        let detail = service_detail(self.service_name.as_str(), "` stopped gracefully");
                        let steps = stopped(self, "graceful", Some(0), detail);
                        StopStepResult { steps, command: StopCommand::Finish(Ok(())) }
                    } else if force_requested {
                        self.phase = StopPhase::Waiting;
                        self.force()
                    } else if deadline_passed {
                        let supervised = match &self.style {
                            StopStyle::Supervised => true,
                            StopStyle::Single(_) => false,
                        };
                        if supervised {
                            let detail = service_detail(
                                self.service_name.as_str(),
                                "` reached stop timeout",
                            );
                            push_step(
                                &mut steps,
                                record_step(self, "service_stop_timeout", Some("after_stop_timeout"), detail),
                            );
                            push_step(
                                &mut steps,
                                hook_step(self, HookName::AfterStopTimeout, None, Some("timeout")),
                            );
                        } else if runs(self, HookName::AfterStopTimeout) {
                            push_step(
                                &mut steps,
                                hook_step(self, HookName::AfterStopTimeout, None, Some("timeout")),
                            );
                        }
                        self.phase = StopPhase::TimeoutKilling;
                        StopStepResult { steps, command: StopCommand::ForceKill }
                    } else {
                        self.phase = StopPhase::Waiting;
                        StopStepResult { steps, command: StopCommand::Poll { after_pause: true } }
                    }
                },
                _ => {
                    StopStepResult { steps, command: StopCommand::Finish(Ok(())) }
                },
            },
            StopPhase::ForceKilling => match obs {
                StopObservation::Killed(Ok(())) => {
                    let detail = service_detail(self.service_name.as_str(), "` stopped via force request");
                    let steps = stopped(self, "forced", None, detail);
                    StopStepResult { steps, command: StopCommand::Finish(Ok(())) }
                },
                StopObservation::Killed(Err(e)) => {
                    StopStepResult { steps, command: StopCommand::Finish(Err(e)) }
                },
                _ => {
                    StopStepResult { steps, command: StopCommand::Finish(Ok(())) }
                },
            },
            StopPhase::TimeoutKilling => match obs {
                StopObservation::Killed(Ok(())) => {
                    let detail = service_detail(
                        self.service_name.as_str(),
                        "` stopped after timeout escalation",
                    );
                    let steps = stopped(self, "timed_out_then_forced", None, detail);
                    StopStepResult { steps, command: StopCommand::Finish(Ok(())) }
                },
                StopObservation::Killed(Err(e)) => {
                    let supervised = match &self.style {
                        StopStyle::Supervised => true,
                        StopStyle::Single(_) => false,
                    };
                    if supervised {
                        push_step(
                            &mut steps,
                            record_step(
                                self,
                                "service_stop_failed",
                                Some("after_stop_failure"),
                                e.message.clone(),
                            ),
                        );
                        push_step(
                            &mut steps,
                            hook_step(self, HookName::AfterStopFailure, None, Some("force_stop_failed")),
                        );
                    } else if runs(self, HookName::AfterStopFailure) {
                        push_step(
                            &mut steps,
                            hook_step(self, HookName::AfterStopFailure, None, Some("force_stop_failed")),
                        );
                    }
                    StopStepResult { steps, command: StopCommand::Finish(Err(e)) }
                },
                _ => {
                    StopStepResult { steps, command: StopCommand::Finish(Ok(())) }
                },
            },
            StopPhase::Done => {
                StopStepResult { steps, command: StopCommand::Finish(Ok(())) }
            },
        }
    }
}

} // verus!
