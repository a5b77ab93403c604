//! Processes of services: their output lines, how a stop ended, which
//! signal a service asks to be stopped with, and the stop of a process
//! known only by its recorded state.

use vstd::prelude::*;

use crate::config::HookName;
use crate::error::{AppError, AppResult, ExitCode};
use crate::hook_run::{event_is, event_record, HookRuntimeExtras};
use crate::paths::{same_path, same_path_spec};
use crate::placeholders::opt_text_view;
use crate::runtime_state::{PlatformRuntimeState, RuntimeState, ServiceRuntimeState};
use crate::stop::StopStep;
use crate::text::{concat2, concat3, dec_digits, decimal, same_text};

verus! {

/// Which output stream a line came from.
#[derive(Debug, Clone, Copy, PartialEq, Eq, Structural)]
pub enum LogStream {
    Stdout,
    Stderr,
}

/// A line of output of a service.
#[derive(Debug, Clone)]
pub struct LogEvent {
    pub service_name: String,
    pub stream: LogStream,
    pub line: String,
}

/// How a stop ended.
#[derive(Debug, Clone, Copy, PartialEq, Eq, Structural)]
pub enum StopOutcome {
    Graceful,
    TimedOutForced,
    Forced,
}

/// The signal that asks a service to stop.
#[derive(Debug, Clone, Copy, PartialEq, Eq, Structural)]
pub enum StopSignal {
    Interrupt,
    Terminate,
    Kill,
}

/// The stop signal a service configured: `int`/`sigint` or `kill`/`sigkill`
/// in either case, else terminate.
pub open spec fn stop_signal_of(configured: Option<Seq<char>>) -> StopSignal {
    match configured {
        Some(s) => if s == "sigint"@ || s == "SIGINT"@ || s == "int"@ || s == "INT"@ {
            StopSignal::Interrupt
        } else if s == "sigkill"@ || s == "SIGKILL"@ || s == "kill"@ || s == "KILL"@ {
            StopSignal::Kill
        } else {
            StopSignal::Terminate
        },
        None => StopSignal::Terminate,
    }
}

pub fn stop_signal_for(configured: &Option<String>) -> (r: StopSignal)
    ensures
        r == stop_signal_of(opt_text_view(*configured)),
{
    match configured {
        Some(s) => {
            let t = s.as_str();
            if same_text(t, "sigint") || same_text(t, "SIGINT") || same_text(t, "int") || same_text(
                t,
                "INT",
            ) {
                StopSignal::Interrupt
            } else if same_text(t, "sigkill") || same_text(t, "SIGKILL") || same_text(t, "kill")
                || same_text(t, "KILL") {
                StopSignal::Kill
            } else {
                StopSignal::Terminate
            }
        },
        None => StopSignal::Terminate,
    }
}

/// The platform state of a service started as the leader of its own
/// process group.
pub fn platform_runtime_state(pid: u32) -> (r: PlatformRuntimeState)
    ensures
        r.process_group_id == Some(pid as i32),
{
    PlatformRuntimeState { process_group_id: Some(pid as i32) }
}

/// The targets a signal of a service goes to, in order: its process group
/// (as a negative id) when one is recorded, then the process itself.
pub open spec fn targets_of(state: ServiceRuntimeState) -> Seq<i32> {
    match state.platform.process_group_id {
        Some(g) => seq![(-g) as i32, state.pid as i32],
        None => seq![state.pid as i32],
    }
}

/// The targets a signal goes to, in order: the process group (as a
/// negative id) when one is recorded, then the process itself; the second
/// is tried only when the first fails.
pub fn signal_targets(state: &ServiceRuntimeState) -> (r: Vec<i32>)
    requires
        state.platform.process_group_id != Some(i32::MIN),
    ensures
        r@ == targets_of(*state),
{
    let mut targets: Vec<i32> = Vec::new();
    match state.platform.process_group_id {
        Some(g) => {
            targets.push(-g);
        },
        None => {},
    }
    targets.push(state.pid as i32);
    proof {
        assert(targets@ =~= match state.platform.process_group_id {
            Some(g) => seq![(-g) as i32, state.pid as i32],
            None => seq![state.pid as i32],
        });
    }
    targets
}


/// What the system answered when asked whether a process exists.
#[derive(Debug, Clone, Copy, PartialEq, Eq, Structural)]
pub enum PidProbe {
    Exists,
    PermissionDenied,
    NoSuchProcess,
    OtherError,
}

/// `nix::sys::signal::kill` with no signal on `pid` (passed as `pid as
/// i32`): asks the system whether the process exists, sending nothing.
/// Nothing is stated of the answer: it is the state of the system.
#[verifier::external_body]
fn probe_pid(pid: u32) -> (r: PidProbe) {
    match nix::sys::signal::kill(nix::unistd::Pid::from_raw(pid as i32), None) {
        Ok(()) => PidProbe::Exists,
        Err(nix::errno::Errno::EPERM) => PidProbe::PermissionDenied,
        Err(nix::errno::Errno::ESRCH) => PidProbe::NoSuchProcess,
        Err(_) => PidProbe::OtherError,
    }
}

/// A process is alive when it exists, also when we may not signal it.
pub open spec fn alive_by(p: PidProbe) -> bool {
    p is Exists || p is PermissionDenied
}

pub fn alive_from_probe(p: PidProbe) -> (r: bool)
    ensures
        r == alive_by(p),
{
    match p {
        PidProbe::Exists => true,
        PidProbe::PermissionDenied => true,
        PidProbe::NoSuchProcess => false,
        PidProbe::OtherError => false,
    }
}

/// Whether process `pid` is alive, by asking the system.  The answer is
/// the system's (`alive_from_probe` of what it reports); nothing is stated
/// of it.
pub fn is_pid_alive(pid: u32) -> (r: bool) {
    alive_from_probe(probe_pid(pid))
}

/// One signal sent: its target, the signal, and what the system answered
/// (an error as its text).
#[derive(Debug)]
pub struct SignalSend {
    pub target: i32,
    pub signal: StopSignal,
    pub outcome: Result<(), String>,
}

/// `nix::sys::signal::kill` with `SIGINT` on `target` (a process, or a
/// process group when negative).  The record names the target and the
/// signal handed to the call; the system's answer is not stated, and an
/// error comes back as its text.
#[verifier::external_body]
fn send_sigint(target: i32) -> (r: SignalSend)
    ensures
        r.target == target,
        r.signal == StopSignal::Interrupt,
{
    let outcome = nix::sys::signal::kill(nix::unistd::Pid::from_raw(target), nix::sys::signal::Signal::SIGINT)
        .map_err(|e| e.to_string());
    SignalSend { target, signal: StopSignal::Interrupt, outcome }
}

/// `nix::sys::signal::kill` with `SIGTERM` on `target`, as `send_sigint`.
#[verifier::external_body]
fn send_sigterm(target: i32) -> (r: SignalSend)
    ensures
        r.target == target,
        r.signal == StopSignal::Terminate,
{
    let outcome = nix::sys::signal::kill(nix::unistd::Pid::from_raw(target), nix::sys::signal::Signal::SIGTERM)
        .map_err(|e| e.to_string());
    SignalSend { target, signal: StopSignal::Terminate, outcome }
}

/// `nix::sys::signal::kill` with `SIGKILL` on `target`, as `send_sigint`.
#[verifier::external_body]
fn send_sigkill(target: i32) -> (r: SignalSend)
    ensures
        r.target == target,
        r.signal == StopSignal::Kill,
{
    let outcome = nix::sys::signal::kill(nix::unistd::Pid::from_raw(target), nix::sys::signal::Signal::SIGKILL)
        .map_err(|e| e.to_string());
    SignalSend { target, signal: StopSignal::Kill, outcome }
}

/// Sends `signal` to `target`; the system's answer is in the record.
fn send_signal(target: i32, signal: StopSignal) -> (r: SignalSend)
    ensures
        r.target == target,
        r.signal == signal,
{
    match signal {
        StopSignal::Interrupt => send_sigint(target),
        StopSignal::Terminate => send_sigterm(target),
        StopSignal::Kill => send_sigkill(target),
    }
}

/// `sends` tries `targets` in order, each with `signal`, and stops after the
/// first that succeeds: every send but the last failed, and when a target
/// was left untried, the last send succeeded.
pub open spec fn tried_in_order(sends: Seq<SignalSend>, targets: Seq<i32>, signal: StopSignal) -> bool {
    &&& 1 <= sends.len() <= targets.len()
    &&& forall|k: int|
        0 <= k < sends.len() ==> (#[trigger] sends[k]).target == targets[k] && sends[k].signal == signal
    &&& forall|k: int| 0 <= k < sends.len() - 1 ==> (#[trigger] sends[k]).outcome is Err
    &&& sends.len() < targets.len() ==> sends.last().outcome is Ok
}

/// Sends `signal` to a service: to its process group when one is recorded,
/// and to the process itself when that fails or there is none.  The sends
/// made come back in order; the signal reached the service when the last
/// of them succeeded, and otherwise the last one's error is the answer.
pub fn signal_service(state: &ServiceRuntimeState, signal: StopSignal) -> (r: Vec<SignalSend>)
    requires
        state.platform.process_group_id != Some(i32::MIN),
    ensures
        tried_in_order(r@, targets_of(*state), signal),
{
    let targets = signal_targets(state);
    let n = targets.len();
    let mut sends: Vec<SignalSend> = Vec::new();
    let mut i: usize = 0;
    while i < n
        invariant
            targets@ == targets_of(*state),
            n == targets@.len(),
            1 <= n <= 2,
            i <= n,
            sends@.len() == i,
            forall|k: int|
                0 <= k < i ==> (#[trigger] sends@[k]).target == targets@[k] && sends@[k].signal == signal,
            forall|k: int| 0 <= k < i ==> (#[trigger] sends@[k]).outcome is Err,
        decreases n - i,
    {
        let send = send_signal(targets[i], signal);
        let delivered = send.outcome.is_ok();
        sends.push(send);
        if delivered || i + 1 == n {
            return sends;
        }
        i = i + 1;
    }
    sends
}

/// The error of a failed stop request.
pub open spec fn stop_request_error(name: Seq<char>, pid: u32, error: Seq<char>) -> Seq<char> {
    "failed to send stop signal to service `"@ + name + "` (pid "@ + dec_digits(pid as nat) + "): "@
        + error
}

/// The error of a failed forced stop.
pub open spec fn force_stop_error(name: Seq<char>, pid: u32, error: Seq<char>) -> Seq<char> {
    "failed to send SIGKILL to service `"@ + name + "` (pid "@ + dec_digits(pid as nat) + "): "@
        + error
}

fn signal_error(head: &str, state: &ServiceRuntimeState, error: &str) -> (r: String)
    ensures
        r@ == head@ + state.service_name@ + "` (pid "@ + dec_digits(state.pid as nat) + "): "@ + error@,
{
    let mut m = concat3(head, state.service_name.as_str(), "` (pid ");
    let pid = decimal(state.pid as u64);
    m.append(pid.as_str());
    m.append("): ");
    m.append(error);
    m
}

/// The sends of a stop request and its result.
#[derive(Debug)]
pub struct StopDelivery {
    pub sends: Vec<SignalSend>,
    pub result: AppResult<()>,
}

/// `d` is the delivery of `signal` to the service of `state`: its sends try
/// the service's targets in order; it succeeds when the last send did, and
/// otherwise fails with `message` of the last send's error.
pub open spec fn delivered_as(
    d: StopDelivery,
    state: ServiceRuntimeState,
    signal: StopSignal,
    message: spec_fn(Seq<char>) -> Seq<char>,
) -> bool {
    &&& tried_in_order(d.sends@, targets_of(state), signal)
    &&& match d.sends@.last().outcome {
        Ok(()) => d.result is Ok,
        Err(t) => d.result matches Err(e) && e.exit_code == ExitCode::RuntimeFailed && e.message@
            == message(t@),
    }
}

fn deliver(state: &ServiceRuntimeState, signal: StopSignal, head: &str) -> (r: StopDelivery)
    requires
        state.platform.process_group_id != Some(i32::MIN),
    ensures
        delivered_as(
            r,
            *state,
            signal,
            |t: Seq<char>|
                head@ + state.service_name@ + "` (pid "@ + dec_digits(state.pid as nat) + "): "@ + t,
        ),
{
    let sends = signal_service(state, signal);
    let last = sends.len() - 1;
    let result = match &sends[last].outcome {
        Ok(()) => Ok(()),
        Err(error) => Err(AppError::runtime_failed(signal_error(head, state, error.as_str()))),
    };
    StopDelivery { sends, result }
}

/// Asks a service to stop with its configured signal (`stop_signal_of` its
/// `stop_signal`), sent as `signal_service` sends it; a failure carries the
/// last send's error.
pub fn request_stop_service(state: &ServiceRuntimeState) -> (r: StopDelivery)
    requires
        state.platform.process_group_id != Some(i32::MIN),
    ensures
        delivered_as(
            r,
            *state,
            stop_signal_of(opt_text_view(state.stop_signal)),
            |t: Seq<char>| stop_request_error(state.service_name@, state.pid, t),
        ),
{
    proof {
        reveal_strlit("failed to send stop signal to service `");
    }
    let signal = stop_signal_for(&state.stop_signal);
    let r = deliver(state, signal, "failed to send stop signal to service `");
    proof {
        match r.sends@.last().outcome {
            Ok(()) => {},
            Err(t) => {
                assert(r.result->Err_0.message@ =~= stop_request_error(state.service_name@, state.pid, t@));
            },
        }
    }
    r
}

/// Kills a service: `SIGKILL`, sent as `signal_service` sends it; a failure
/// carries the last send's error.
pub fn force_stop_service(state: &ServiceRuntimeState) -> (r: StopDelivery)
    requires
        state.platform.process_group_id != Some(i32::MIN),
    ensures
        delivered_as(
            r,
            *state,
            StopSignal::Kill,
            |t: Seq<char>| force_stop_error(state.service_name@, state.pid, t),
        ),
{
    proof {
        reveal_strlit("failed to send SIGKILL to service `");
    }
    let r = deliver(state, StopSignal::Kill, "failed to send SIGKILL to service `");
    proof {
        match r.sends@.last().outcome {
            Ok(()) => {},
            Err(t) => {
                assert(r.result->Err_0.message@ =~= force_stop_error(state.service_name@, state.pid, t@));
            },
        }
    }
    r
}

} // verus!

verus! {

/// The message when the recorded state belongs to another project.
pub open spec fn identity_message(state_root: Seq<char>, current: Seq<char>) -> Seq<char> {
    "runtime state belongs to "@ + state_root + ", not current directory "@ + current
}

/// Checks that the recorded state belongs to the project at `project_root`.
pub fn validate_process_identity(project_root: &str, state: &RuntimeState) -> (r: AppResult<()>)
    ensures
        same_path_spec(state.project_root@, project_root@) ==> r is Ok,
        !same_path_spec(state.project_root@, project_root@) ==> (r matches Err(e) && e.exit_code
            == ExitCode::RuntimeFailed && e.message@ == identity_message(
            state.project_root@,
            project_root@,
        )),
{
    if same_path(state.project_root.as_str(), project_root) {
        return Ok(());
    }
    proof {
        reveal_strlit("runtime state belongs to ");
        reveal_strlit(", not current directory ");
    }
    let mut m = concat3("runtime state belongs to ", state.project_root.as_str(), ", not current directory ");
    m.append(project_root);
    Err(AppError::runtime_failed(m))
}

/// Where the stop of a recorded process stands.
#[derive(Debug, Clone, Copy, PartialEq, Eq, Structural)]
pub enum OutcomePhase {
    /// Waiting to learn whether the process is alive.
    CheckingAlive,
    /// Waiting for the forced stop asked for up front.
    Forcing,
    /// Waiting for the stop signal to be sent.
    Requesting,
    /// Waiting for the process to exit.
    Waiting,
    /// Waiting for the forced stop after the timeout.
    TimeoutForcing,
    /// Waiting to learn whether the forced stop worked.
    FinalCheck,
    Done,
}

/// What the caller does next.
#[derive(Debug)]
pub enum OutcomeCommand {
    CheckAlive,
    ForceStop,
    RequestStop,
    /// Check whether the timeout passed and whether the process is alive,
    /// after a short pause if asked.
    Wait { after_pause: bool },
    Finish(AppResult<StopOutcome>),
}

/// What the caller saw.
#[derive(Debug)]
pub enum OutcomeObservation {
    Alive(bool),
    Signalled(AppResult<()>),
    Waited { timed_out: bool, alive: bool },
}

/// The stop of a process known by its recorded state.
#[derive(Debug)]
pub struct OutcomeMachine {
    pub service_name: String,
    pub stop_timeout_secs: u64,
    pub force: bool,
    pub phase: OutcomePhase,
}

/// The observation answers the command that the phase waits on.
pub open spec fn outcome_fits(phase: OutcomePhase, obs: OutcomeObservation) -> bool {
    match phase {
        OutcomePhase::CheckingAlive => obs is Alive,
        OutcomePhase::FinalCheck => obs is Alive,
        OutcomePhase::Forcing => obs is Signalled,
        OutcomePhase::Requesting => obs is Signalled,
        OutcomePhase::TimeoutForcing => obs is Signalled,
        OutcomePhase::Waiting => obs is Waited,
        OutcomePhase::Done => false,
    }
}

/// The message when a process outlived its timeout and the forced stop.
pub open spec fn not_stopped_message(name: Seq<char>, secs: u64) -> Seq<char> {
    "service `"@ + name + "` did not stop within "@ + dec_digits(secs as nat) + " seconds"@
}

/// The stop moves from phase `p` to `p2` on `obs`, giving command `c`.
pub open spec fn outcome_transition(
    m: OutcomeMachine,
    obs: OutcomeObservation,
    p2: OutcomePhase,
    c: OutcomeCommand,
) -> bool {
    match m.phase {
        OutcomePhase::CheckingAlive => match obs {
            OutcomeObservation::Alive(false) => p2 == OutcomePhase::Done && c
                == OutcomeCommand::Finish(Ok(StopOutcome::Graceful)),
            OutcomeObservation::Alive(true) => if m.force {
                p2 == OutcomePhase::Forcing && c is ForceStop
            } else {
                p2 == OutcomePhase::Requesting && c is RequestStop
            },
            _ => false,
        },
        OutcomePhase::Forcing => match obs {
            OutcomeObservation::Signalled(Ok(())) => p2 == OutcomePhase::Done && c
                == OutcomeCommand::Finish(Ok(StopOutcome::Forced)),
            OutcomeObservation::Signalled(Err(e)) => p2 == OutcomePhase::Done && c
                == OutcomeCommand::Finish(Err(e)),
            _ => false,
        },
        OutcomePhase::Requesting => match obs {
            OutcomeObservation::Signalled(Ok(())) => p2 == OutcomePhase::Waiting && c
                == OutcomeCommand::Wait { after_pause: false },
            OutcomeObservation::Signalled(Err(e)) => p2 == OutcomePhase::Done && c
                == OutcomeCommand::Finish(Err(e)),
            _ => false,
        },
        OutcomePhase::Waiting => match obs {
            OutcomeObservation::Waited { timed_out, alive } => if timed_out {
                p2 == OutcomePhase::TimeoutForcing && c is ForceStop
            } else if !alive {
                p2 == OutcomePhase::Done && c == OutcomeCommand::Finish(Ok(StopOutcome::Graceful))
            } else {
                p2 == OutcomePhase::Waiting && c == OutcomeCommand::Wait { after_pause: true }
            },
            _ => false,
        },
        OutcomePhase::TimeoutForcing => match obs {
            OutcomeObservation::Signalled(Ok(())) => p2 == OutcomePhase::FinalCheck && c
                is CheckAlive,
            OutcomeObservation::Signalled(Err(e)) => p2 == OutcomePhase::Done && c
                == OutcomeCommand::Finish(Err(e)),
            _ => false,
        },
        OutcomePhase::FinalCheck => match obs {
            OutcomeObservation::Alive(true) => p2 == OutcomePhase::Done && (c matches OutcomeCommand::Finish(Err(e))
                && e.exit_code == ExitCode::ShutdownTimedOut && e.message@ == not_stopped_message(
                m.service_name@,
                m.stop_timeout_secs,
            )),
            OutcomeObservation::Alive(false) => p2 == OutcomePhase::Done && c
                == OutcomeCommand::Finish(Ok(StopOutcome::TimedOutForced)),
            _ => false,
        },
        OutcomePhase::Done => false,
    }
}

impl OutcomeMachine {
    /// The stop of the process recorded in `state`, forced at once when
    /// `force`; it starts by checking whether the process is alive.
    pub fn new(state: &ServiceRuntimeState, force: bool) -> (r: Self)
        ensures
            r.service_name@ == state.service_name@,
            r.stop_timeout_secs == state.stop_timeout_secs,
            r.force == force,
            r.phase == OutcomePhase::CheckingAlive,
    {
        OutcomeMachine {
            service_name: state.service_name.clone(),
            stop_timeout_secs: state.stop_timeout_secs,
            force,
            phase: OutcomePhase::CheckingAlive,
        }
    }

    /// Takes in what the caller saw and gives the next command.
    pub fn advance(&mut self, obs: OutcomeObservation) -> (r: OutcomeCommand)
        requires
            outcome_fits(old(self).phase, obs),
        ensures
            final(self).service_name == old(self).service_name,
            final(self).stop_timeout_secs == old(self).stop_timeout_secs,
            final(self).force == old(self).force,
            outcome_transition(*old(self), obs, final(self).phase, r),
    {
        proof {
            reveal_strlit("service `");
            reveal_strlit("` did not stop within ");
            reveal_strlit(" seconds");
        }
        match self.phase {
            OutcomePhase::CheckingAlive => match obs {
                OutcomeObservation::Alive(false) => {
                    self.phase = OutcomePhase::Done;
                    OutcomeCommand::Finish(Ok(StopOutcome::Graceful))
                },
                _ => {
                    if self.force {
                        self.phase = OutcomePhase::Forcing;
                        OutcomeCommand::ForceStop
                    } else {
                        self.phase = OutcomePhase::Requesting;
                        OutcomeCommand::RequestStop
                    }
                },
            },
            OutcomePhase::Forcing => {
                self.phase = OutcomePhase::Done;
                match obs {
                    OutcomeObservation::Signalled(Err(e)) => OutcomeCommand::Finish(Err(e)),
                    _ => OutcomeCommand::Finish(Ok(StopOutcome::Forced)),
                }
            },
            OutcomePhase::Requesting => match obs {
                OutcomeObservation::Signalled(Err(e)) => {
                    self.phase = OutcomePhase::Done;
                    OutcomeCommand::Finish(Err(e))
                },
                _ => {
                    self.phase = OutcomePhase::Waiting;
                    OutcomeCommand::Wait { after_pause: false }
                },
            },
            OutcomePhase::Waiting => match obs {
                OutcomeObservation::Waited { timed_out, alive } => {
                    if timed_out {
                        self.phase = OutcomePhase::TimeoutForcing;
                        OutcomeCommand::ForceStop
                    } else if !alive {
                        self.phase = OutcomePhase::Done;
                        OutcomeCommand::Finish(Ok(StopOutcome::Graceful))
                    } else {
                        OutcomeCommand::Wait { after_pause: true }
                    }
                },
                _ => OutcomeCommand::Wait { after_pause: true },
            },
            OutcomePhase::TimeoutForcing => match obs {
                OutcomeObservation::Signalled(Err(e)) => {
                    self.phase = OutcomePhase::Done;
                    OutcomeCommand::Finish(Err(e))
                },
                _ => {
                    self.phase = OutcomePhase::FinalCheck;
                    OutcomeCommand::CheckAlive
                },
            },
            OutcomePhase::FinalCheck => {
                self.phase = OutcomePhase::Done;
                match obs {
                    OutcomeObservation::Alive(true) => {
                        let mut m = concat3(
                            "service `",
                            self.service_name.as_str(),
                            "` did not stop within ",
                        );
                        m.append(decimal(self.stop_timeout_secs).as_str());
                        m.append(" seconds");
                        OutcomeCommand::Finish(Err(AppError::shutdown_timed_out(m)))
                    },
                    _ => OutcomeCommand::Finish(Ok(StopOutcome::TimedOutForced)),
                }
            },
            OutcomePhase::Done => OutcomeCommand::Finish(Ok(StopOutcome::Graceful)),
        }
    }
}

/// The name of a stop outcome.
pub open spec fn outcome_text(o: StopOutcome) -> Seq<char> {
    match o {
        StopOutcome::Graceful => "graceful"@,
        StopOutcome::TimedOutForced => "timed_out_then_forced"@,
        StopOutcome::Forced => "forced"@,
    }
}

pub fn outcome_name(o: StopOutcome) -> (r: &'static str)
    ensures
        r@ == outcome_text(o),
{
    proof {
        reveal_strlit("graceful");
        reveal_strlit("timed_out_then_forced");
        reveal_strlit("forced");
    }
    match o {
        StopOutcome::Graceful => "graceful",
        StopOutcome::TimedOutForced => "timed_out_then_forced",
        StopOutcome::Forced => "forced",
    }
}

/// `s` records event `t` about service `name`.
pub open spec fn records(s: StopStep, t: Seq<char>, name: Seq<char>, hook: Option<Seq<char>>, d: Seq<
    char,
>) -> bool {
    s matches StopStep::Record(e) && event_is(e, t, Some(name), hook, None, d)
}

/// `s` runs hook `hook` for process `pid` stopped for `reason`.
pub open spec fn runs_with(
    s: StopStep,
    hook: HookName,
    pid: u32,
    reason: Seq<char>,
    code: Option<i32>,
    status: Option<Seq<char>>,
) -> bool {
    s matches StopStep::RunHook { hook: h, extras } && h == hook && extras.service_pid == Some(pid)
        && opt_text_view(extras.stop_reason) == Some(reason) && extras.exit_code == code
        && opt_text_view(extras.exit_status) == status
}

fn record(name: &str, event_type: &str, hook: Option<&str>, detail: String) -> (r: StopStep)
    ensures
        records(
            r,
            event_type@,
            name@,
            match hook {
                Some(h) => Some(h@),
                None => None,
            },
            detail@,
        ),
{
    StopStep::Record(event_record(event_type, Some(name), hook, None, detail))
}

fn run_hook(hook: HookName, pid: u32, reason: &str, code: Option<i32>, status: Option<String>) -> (r:
    StopStep)
    ensures
        runs_with(r, hook, pid, reason@, code, opt_text_view(status)),
{
    StopStep::RunHook {
        hook,
        extras: HookRuntimeExtras {
            service_pid: Some(pid),
            stop_reason: Some(reason.to_owned()),
            exit_code: code,
            exit_status: status,
        },
    }
}

/// What precedes the stop of a recorded, still alive service: the event
/// when the hook bundle could be loaded, and the `before_stop` hook when
/// the bundle also knows the service.
pub fn recorded_stop_prelude(
    service: &ServiceRuntimeState,
    has_bundle: bool,
    has_config: bool,
    stop_reason: &str,
) -> (r: Vec<StopStep>)
    ensures
        r@.len() == (if has_bundle {
            1int
        } else {
            0
        }) + (if has_bundle && has_config {
            1int
        } else {
            0
        }),
        has_bundle ==> records(
            r@[0],
            "service_stopping"@,
            service.service_name@,
            None,
            "stopping recorded service `"@ + service.service_name@ + "` with reason `"@
                + stop_reason@ + "`"@,
        ),
        has_bundle && has_config ==> runs_with(
            r@[1],
            HookName::BeforeStop,
            service.pid,
            stop_reason@,
            None,
            None,
        ),
{
    proof {
        reveal_strlit("service_stopping");
        reveal_strlit("stopping recorded service `");
        reveal_strlit("` with reason `");
        reveal_strlit("`");
    }
    let mut steps: Vec<StopStep> = Vec::new();
    if has_bundle {
        let mut detail = concat3(
            "stopping recorded service `",
            service.service_name.as_str(),
            "` with reason `",
        );
        detail.append(stop_reason);
        detail.append("`");
        steps.push(record(service.service_name.as_str(), "service_stopping", None, detail));
        if has_config {
            steps.push(run_hook(HookName::BeforeStop, service.pid, stop_reason, None, None));
        }
    }
    steps
}

/// What follows the stop of a recorded service, and the result: a failure
/// is recorded and runs `after_stop_failure`; a success that needed a
/// timeout is recorded as such and runs `after_stop_timeout`; every success
/// runs `after_stop_success` and is recorded as stopped, as far as the hook
/// bundle and the service's configuration are at hand.
pub fn recorded_stop_finish(
    service: &ServiceRuntimeState,
    has_bundle: bool,
    has_config: bool,
    stop_reason: &str,
    result: AppResult<StopOutcome>,
) -> (r: (Vec<StopStep>, AppResult<()>))
    ensures
        ({
            let name = service.service_name@;
            let (steps, res) = r;
            match result {
                Err(e) => {
                    &&& res == Err::<(), AppError>(e)
                    &&& steps@.len() == (if has_bundle {
                        1int
                    } else {
                        0
                    }) + (if has_bundle && has_config {
                        1int
                    } else {
                        0
                    })
                    &&& has_bundle ==> records(
                        steps@[0],
                        "service_stop_failed"@,
                        name,
                        Some("after_stop_failure"@),
                        e.message@,
                    )
                    &&& has_bundle && has_config ==> runs_with(
                        steps@[1],
                        HookName::AfterStopFailure,
                        service.pid,
                        stop_reason@,
                        None,
                        Some(e.message@),
                    )
                },
                Ok(o) => {
                    &&& res is Ok
                    &&& !(has_bundle && has_config) ==> steps@.len() == 0
                    &&& has_bundle && has_config ==> {
                        let k: int = if o == StopOutcome::TimedOutForced {
                            2
                        } else {
                            0
                        };
                        &&& steps@.len() == k + 2
                        &&& o == StopOutcome::TimedOutForced ==> records(
                            steps@[0],
                            "service_stop_timeout"@,
                            name,
                            Some("after_stop_timeout"@),
                            "service `"@ + name + "` reached stop timeout"@,
                        ) && runs_with(
                            steps@[1],
                            HookName::AfterStopTimeout,
                            service.pid,
                            stop_reason@,
                            None,
                            Some("timeout"@),
                        )
                        &&& runs_with(
                            steps@[k],
                            HookName::AfterStopSuccess,
                            service.pid,
                            stop_reason@,
                            Some(0i32),
                            Some(outcome_text(o)),
                        )
                        &&& records(
                            steps@[k + 1],
                            "service_stopped"@,
                            name,
                            None,
                            "recorded service `"@ + name + "` stopped with outcome `"@
                                + outcome_text(o) + "`"@,
                        )
                    }
                },
            }
        }),
{
    proof {
        reveal_strlit("service_stop_failed");
        reveal_strlit("after_stop_failure");
        reveal_strlit("service_stop_timeout");
        reveal_strlit("after_stop_timeout");
        reveal_strlit("service `");
        reveal_strlit("` reached stop timeout");
        reveal_strlit("timeout");
        reveal_strlit("service_stopped");
        reveal_strlit("recorded service `");
        reveal_strlit("` stopped with outcome `");
        reveal_strlit("`");
    }
    let name = service.service_name.as_str();
    let mut steps: Vec<StopStep> = Vec::new();
    match result {
        Err(e) => {
            if has_bundle {
                steps.push(record(name, "service_stop_failed", Some("after_stop_failure"), e.message.clone()));
                if has_config {
                    steps.push(
                        run_hook(
                            HookName::AfterStopFailure,
                            service.pid,
                            stop_reason,
                            None,
                            Some(e.message.clone()),
                        ),
                    );
                }
            }
            (steps, Err(e))
        },
        Ok(o) => {
            if has_bundle && has_config {
                if o == StopOutcome::TimedOutForced {
                    steps.push(
                        record(
                            name,
                            "service_stop_timeout",
                            Some("after_stop_timeout"),
                            concat3("service `", name, "` reached stop timeout"),
                        ),
                    );
                    steps.push(
                        run_hook(
                            HookName::AfterStopTimeout,
                            service.pid,
                            stop_reason,
                            None,
                            Some("timeout".to_owned()),
                        ),
                    );
                }
                steps.push(
                    run_hook(
                        HookName::AfterStopSuccess,
                        service.pid,
                        stop_reason,
                        Some(0),
                        Some(outcome_name(o).to_owned()),
                    ),
                );
                let mut detail = concat3("recorded service `", name, "` stopped with outcome `");
                detail.append(outcome_name(o));
                detail.append("`");
                steps.push(record(name, "service_stopped", None, detail));
            }
            (steps, Ok(()))
        },
    }
}

} // verus!
