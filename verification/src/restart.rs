//! Restarting a service on request, from a watched file or from the
//! dashboard, and the notices and stop reasons around runs.

use vstd::prelude::*;

use crate::error::{AppError, AppResult, ExitCode};
use crate::events::{detail_fields, field_texts, format_detail_fields};
use crate::hook_run::{event_is, event_record, EventRecord};
use crate::text::{concat2, concat3, same_text};

verus! {

/// What asked for a restart.
#[derive(Debug, Clone, PartialEq, Eq)]
pub enum ServiceRestartTrigger {
    /// A watched path changed.
    Watch { changed_path: String },
    /// The restart key of the dashboard.
    Tui,
}

/// How a restart ended.
#[derive(Debug, Clone, PartialEq, Eq)]
pub enum ServiceRestartOutcome {
    Restarted,
    Skipped { detail: String },
}

/// The name of a trigger.
pub open spec fn trigger_name(t: ServiceRestartTrigger) -> Seq<char> {
    match t {
        ServiceRestartTrigger::Watch { .. } => "watch"@,
        ServiceRestartTrigger::Tui => "tui"@,
    }
}

/// The stop reason of a restart.
pub open spec fn trigger_stop_reason(t: ServiceRestartTrigger) -> Seq<char> {
    match t {
        ServiceRestartTrigger::Watch { .. } => "watch_restart"@,
        ServiceRestartTrigger::Tui => "tui_restart"@,
    }
}

impl ServiceRestartTrigger {
    pub fn name(&self) -> (r: &'static str)
        ensures
            r@ == trigger_name(*self),
    {
        proof {
            reveal_strlit("watch");
            reveal_strlit("tui");
        }
        match self {
            ServiceRestartTrigger::Watch { .. } => "watch",
            ServiceRestartTrigger::Tui => "tui",
        }
    }

    pub fn stop_reason(&self) -> (r: &'static str)
        ensures
            r@ == trigger_stop_reason(*self),
    {
        proof {
            reveal_strlit("watch_restart");
            reveal_strlit("tui_restart");
        }
        match self {
            ServiceRestartTrigger::Watch { .. } => "watch_restart",
            ServiceRestartTrigger::Tui => "tui_restart",
        }
    }
}

/// The fields that say what triggered a restart.
pub open spec fn trigger_fields(t: ServiceRestartTrigger) -> Seq<(Seq<char>, Seq<char>)> {
    match t {
        ServiceRestartTrigger::Watch { changed_path } => seq![
            ("trigger"@, "watch"@),
            ("path"@, changed_path@),
        ],
        ServiceRestartTrigger::Tui => seq![("trigger"@, "tui"@), ("key"@, "R"@)],
    }
}

/// The detail of a restart event: the trigger's fields, then `extra`.
pub fn restart_event_detail(trigger: &ServiceRestartTrigger, extra: &[(&str, String)]) -> (r:
    String)
    ensures
        r@ == detail_fields(trigger_fields(*trigger) + field_texts(extra@)),
{
    proof {
        reveal_strlit("trigger");
        reveal_strlit("path");
        reveal_strlit("key");
        reveal_strlit("R");
        reveal_strlit("watch");
        reveal_strlit("tui");
    }
    let mut fields: Vec<(&str, String)> = Vec::new();
    fields.push(("trigger", trigger.name().to_owned()));
    match trigger {
        ServiceRestartTrigger::Watch { changed_path } => {
            fields.push(("path", changed_path.clone()));
        },
        ServiceRestartTrigger::Tui => {
            fields.push(("key", "R".to_owned()));
        },
    }
    let ghost head = field_texts(fields@);
    proof {
        assert(head =~= trigger_fields(*trigger));
    }
    let n = extra.len();
    let mut i: usize = 0;
    while i < n
        invariant
            n == extra@.len(),
            head == trigger_fields(*trigger),
            i <= n,
            field_texts(fields@) == head + field_texts(extra@).take(i as int),
        decreases n - i,
    {
        let (k, v) = &extra[i];
        let ghost prev = fields@;
        fields.push((*k, v.clone()));
        proof {
            assert(field_texts(fields@) =~= field_texts(prev).push((k@, v@)));
            assert(field_texts(extra@).take(i + 1) =~= field_texts(extra@).take(i as int).push(
                (k@, v@),
            ));
        }
        i = i + 1;
    }
    proof {
        assert(field_texts(extra@).take(n as int) =~= field_texts(extra@));
    }
    format_detail_fields(fields.as_slice())
}

/// The notice of phase `phase` of a restart of `name`.
pub open spec fn restart_notice(
    t: ServiceRestartTrigger,
    name: Seq<char>,
    phase: Seq<char>,
    detail: Option<Seq<char>>,
) -> Seq<char> {
    match t {
        ServiceRestartTrigger::Watch { changed_path } => if phase == "requested"@ {
            "watch: restarting "@ + name + " because "@ + changed_path@ + " changed"@
        } else if phase == "succeeded"@ {
            "watch: restarted "@ + name
        } else if phase == "skipped"@ {
            match detail {
                Some(d) => "watch: skipped restart for "@ + name + " ("@ + d + ")"@,
                None => "watch: skipped restart for "@ + name,
            }
        } else {
            "watch: restart "@ + phase + " for "@ + name
        },
        ServiceRestartTrigger::Tui => if phase == "requested"@ {
            "restarting "@ + name + "..."@
        } else if phase == "succeeded"@ {
            "service "@ + name + " restarted"@
        } else if phase == "skipped"@ {
            match detail {
                Some(d) => "failed to restart "@ + name + ": "@ + d,
                None => "failed to restart "@ + name,
            }
        } else {
            "restart "@ + phase + " for "@ + name
        },
    }
}

pub fn format_restart_notice(
    trigger: &ServiceRestartTrigger,
    service_name: &str,
    phase: &str,
    detail: Option<&str>,
) -> (r: String)
    ensures
        r@ == restart_notice(
            *trigger,
            service_name@,
            phase@,
            match detail {
                Some(d) => Some(d@),
                None => None,
            },
        ),
{
    proof {
        reveal_strlit("requested");
        reveal_strlit("succeeded");
        reveal_strlit("skipped");
        reveal_strlit("watch: restarting ");
        reveal_strlit(" because ");
        reveal_strlit(" changed");
        reveal_strlit("watch: restarted ");
        reveal_strlit("watch: skipped restart for ");
        reveal_strlit(" (");
        reveal_strlit(")");
        reveal_strlit("watch: restart ");
        reveal_strlit(" for ");
        reveal_strlit("restarting ");
        reveal_strlit("...");
        reveal_strlit("service ");
        reveal_strlit(" restarted");
        reveal_strlit("failed to restart ");
        reveal_strlit(": ");
        reveal_strlit("restart ");
    }
    match trigger {
        ServiceRestartTrigger::Watch { changed_path } => {
            if same_text(phase, "requested") {
                let mut m = concat3("watch: restarting ", service_name, " because ");
                m.append(changed_path.as_str());
                m.append(" changed");
                m
            } else if same_text(phase, "succeeded") {
                concat2("watch: restarted ", service_name)
            } else if same_text(phase, "skipped") {
                match detail {
                    Some(d) => {
                        let mut m = concat3("watch: skipped restart for ", service_name, " (");
                        m.append(d);
                        m.append(")");
                        m
                    },
                    None => concat2("watch: skipped restart for ", service_name),
                }
            } else {
                let mut m = concat3("watch: restart ", phase, " for ");
                m.append(service_name);
                m
            }
        },
        ServiceRestartTrigger::Tui => {
            if same_text(phase, "requested") {
                concat3("restarting ", service_name, "...")
            } else if same_text(phase, "succeeded") {
                concat3("service ", service_name, " restarted")
            } else if same_text(phase, "skipped") {
                match detail {
                    Some(d) => {
                        let mut m = concat3("failed to restart ", service_name, ": ");
                        m.append(d);
                        m
                    },
                    None => concat2("failed to restart ", service_name),
                }
            } else {
                let mut m = concat3("restart ", phase, " for ");
                m.append(service_name);
                m
            }
        },
    }
}

/// The notice of the kept dashboard once services exited.
pub open spec fn keep_notice(manage: bool) -> Seq<char> {
    if manage {
        "post-run manage mode; press R to start or restart the selected service, q or Esc to exit"@
    } else {
        "post-run view; press q or Esc to exit"@
    }
}

pub fn keep_mode_notice(manage_tui: bool) -> (r: &'static str)
    ensures
        r@ == keep_notice(manage_tui),
{
    proof {
        reveal_strlit(
            "post-run manage mode; press R to start or restart the selected service, q or Esc to exit",
        );
        reveal_strlit("post-run view; press q or Esc to exit");
    }
    if manage_tui {
        "post-run manage mode; press R to start or restart the selected service, q or Esc to exit"
    } else {
        "post-run view; press q or Esc to exit"
    }
}

/// The notice after a managed run of `name` ended.
pub open spec fn cycle_notice(
    name: Seq<char>,
    runtime: Option<Seq<char>>,
    shutdown: Option<Seq<char>>,
) -> Seq<char> {
    match runtime {
        Some(e) => "post-run manage mode; last run for "@ + name + " ended with error: "@ + e
            + ". press R to try again, q or Esc to exit"@,
        None => match shutdown {
            Some(e) => "post-run manage mode; shutdown for "@ + name + " reported an error: "@ + e
                + ". press R to try again, q or Esc to exit"@,
            None => keep_notice(true),
        },
    }
}

/// The message of an error result, if any.
pub open spec fn error_text(r: AppResult<()>) -> Option<Seq<char>> {
    match r {
        Ok(()) => None,
        Err(e) => Some(e.message@),
    }
}

pub fn managed_cycle_notice(
    service_name: &str,
    runtime_result: &AppResult<()>,
    shutdown_result: &AppResult<()>,
) -> (r: String)
    ensures
        r@ == cycle_notice(service_name@, error_text(*runtime_result), error_text(*shutdown_result)),
{
    proof {
        reveal_strlit("post-run manage mode; last run for ");
        reveal_strlit(" ended with error: ");
        reveal_strlit(". press R to try again, q or Esc to exit");
        reveal_strlit("post-run manage mode; shutdown for ");
        reveal_strlit(" reported an error: ");
    }
    match runtime_result {
        Err(e) => {
            let mut m = concat3("post-run manage mode; last run for ", service_name, " ended with error: ");
            m.append(e.message.as_str());
            m.append(". press R to try again, q or Esc to exit");
            m
        },
        Ok(()) => match shutdown_result {
            Err(e) => {
                let mut m = concat3(
                    "post-run manage mode; shutdown for ",
                    service_name,
                    " reported an error: ",
                );
                m.append(e.message.as_str());
                m.append(". press R to try again, q or Esc to exit");
                m
            },
            Ok(()) => keep_mode_notice(true).to_owned(),
        },
    }
}

/// The reason services are stopped after a run: a failure of the run, a
/// requested shutdown, or the end of the run.
pub open spec fn stop_reason_of(
    runtime_failed: bool,
    shutdown_requested: bool,
    signal_reason: Seq<char>,
) -> Seq<char> {
    if runtime_failed {
        "runtime_failure"@
    } else if shutdown_requested {
        signal_reason
    } else {
        "shutdown"@
    }
}

pub fn determine_stop_reason(
    runtime_result: &AppResult<()>,
    shutdown_requested: bool,
    signal_reason: &'static str,
) -> (r: &'static str)
    ensures
        r@ == stop_reason_of(runtime_result is Err, shutdown_requested, signal_reason@),
{
    proof {
        reveal_strlit("runtime_failure");
        reveal_strlit("shutdown");
    }
    if runtime_result.is_err() {
        "runtime_failure"
    } else if shutdown_requested {
        signal_reason
    } else {
        "shutdown"
    }
}


/// Something to do during a restart.
#[derive(Debug)]
pub enum RestartStep {
    /// Record this event.
    Record(EventRecord),
    /// Show this notice on the terminal.
    Notice(String),
}

/// What the caller does next.
#[derive(Debug)]
pub enum RestartCommand {
    /// Stop the running process of the service, with the trigger's stop
    /// reason.
    StopRunning,
    /// Drop the service from the running processes and from the recorded
    /// state, and write the state.
    Forget,
    /// Start the service.
    Start,
    Finish(AppResult<ServiceRestartOutcome>),
}

/// What the caller saw.
#[derive(Debug)]
pub enum RestartObservation {
    Stopped(AppResult<()>),
    Forgotten(AppResult<()>),
    Started(AppResult<()>),
}

/// Where a restart stands.
#[derive(Debug)]
pub enum RestartPhase {
    Stopping,
    ForgettingStopped,
    Starting,
    /// Forgetting the service after it failed to start with this error.
    ForgettingFailed(AppError),
    Done,
}

/// The restart of one service.
#[derive(Debug)]
pub struct RestartMachine {
    pub trigger: ServiceRestartTrigger,
    pub service_name: String,
    /// Notices are shown: a watch restart under plain output.
    pub show_notices: bool,
    pub phase: RestartPhase,
}

/// The steps to take, then the next command.
#[derive(Debug)]
pub struct RestartStepResult {
    pub steps: Vec<RestartStep>,
    pub command: RestartCommand,
}

/// `s` records restart event `t` with the trigger's fields and `extra`.
pub open spec fn restart_record(
    s: RestartStep,
    t: Seq<char>,
    m: RestartMachine,
    extra: Seq<(Seq<char>, Seq<char>)>,
) -> bool {
    s matches RestartStep::Record(e) && event_is(
        e,
        t,
        Some(m.service_name@),
        None,
        None,
        detail_fields(trigger_fields(m.trigger) + extra),
    )
}

/// The record of phase `phase`, then its notice when notices are shown.
pub open spec fn phase_steps(
    steps: Seq<RestartStep>,
    t: Seq<char>,
    m: RestartMachine,
    extra: Seq<(Seq<char>, Seq<char>)>,
    phase: Seq<char>,
    detail: Option<Seq<char>>,
) -> bool {
    &&& steps.len() == (if m.show_notices {
        2int
    } else {
        1
    })
    &&& restart_record(steps[0], t, m, extra)
    &&& m.show_notices ==> (steps[1] matches RestartStep::Notice(n) && n@ == restart_notice(
        m.trigger,
        m.service_name@,
        phase,
        detail,
    ))
}

/// The observation answers the command that the phase waits on.
pub open spec fn restart_fits(phase: RestartPhase, obs: RestartObservation) -> bool {
    match phase {
        RestartPhase::Stopping => obs is Stopped,
        RestartPhase::ForgettingStopped => obs is Forgotten,
        RestartPhase::Starting => obs is Started,
        RestartPhase::ForgettingFailed(_) => obs is Forgotten,
        RestartPhase::Done => false,
    }
}

/// The restart moves from `m` to `m2` on `obs`, with the steps and the
/// next command of `r`.
pub open spec fn restart_transition(
    m: RestartMachine,
    obs: RestartObservation,
    m2: RestartMachine,
    r: RestartStepResult,
) -> bool {
    match m.phase {
        RestartPhase::Stopping => match obs {
            RestartObservation::Stopped(Ok(())) => m2.phase is ForgettingStopped && r.steps@.len()
                == 0 && r.command is Forget,
            RestartObservation::Stopped(Err(e)) => m2.phase is Done && phase_steps(
                r.steps@,
                "service_restart_skipped"@,
                m,
                seq![("reason"@, "stop_failed"@), ("detail"@, e.message@)],
                "skipped"@,
                Some(e.message@),
            ) && (r.command matches RestartCommand::Finish(Ok(ServiceRestartOutcome::Skipped { detail }))
                && detail@ == e.message@),
            _ => false,
        },
        RestartPhase::ForgettingStopped => match obs {
            RestartObservation::Forgotten(Ok(())) => m2.phase is Starting && r.steps@.len() == 0
                && r.command is Start,
            RestartObservation::Forgotten(Err(e)) => m2.phase is Done && r.steps@.len() == 0
                && r.command == RestartCommand::Finish(Err(e)),
            _ => false,
        },
        RestartPhase::Starting => match obs {
            RestartObservation::Started(Ok(())) => m2.phase is Done && phase_steps(
                r.steps@,
                "service_restart_succeeded"@,
                m,
                seq![],
                "succeeded"@,
                None,
            ) && r.command == RestartCommand::Finish(Ok(ServiceRestartOutcome::Restarted)),
            RestartObservation::Started(Err(e)) => m2.phase == RestartPhase::ForgettingFailed(e)
                && r.steps@.len() == 0 && r.command is Forget,
            _ => false,
        },
        RestartPhase::ForgettingFailed(e) => match obs {
            RestartObservation::Forgotten(Ok(())) => m2.phase is Done && phase_steps(
                r.steps@,
                "service_restart_skipped"@,
                m,
                seq![("reason"@, "start_failed"@), ("detail"@, e.message@)],
                "skipped"@,
                Some(e.message@),
            ) && (r.command matches RestartCommand::Finish(Ok(ServiceRestartOutcome::Skipped { detail }))
                && detail@ == e.message@),
            RestartObservation::Forgotten(Err(e2)) => m2.phase is Done && r.steps@.len() == 0
                && r.command == RestartCommand::Finish(Err(e2)),
            _ => false,
        },
        RestartPhase::Done => false,
    }
}

fn restart_record_step(
    trigger: &ServiceRestartTrigger,
    service_name: &str,
    event_type: &str,
    extra: &[(&str, String)],
) -> (r: RestartStep)
    ensures
        r matches RestartStep::Record(e) && event_is(
            e,
            event_type@,
            Some(service_name@),
            None,
            None,
            detail_fields(trigger_fields(*trigger) + field_texts(extra@)),
        ),
{
    RestartStep::Record(
        event_record(event_type, Some(service_name), None, None, restart_event_detail(trigger, extra)),
    )
}

impl RestartMachine {
    fn phase_result(
        &self,
        event_type: &str,
        extra: &[(&str, String)],
        phase: &str,
        detail: Option<&str>,
    ) -> (r: Vec<RestartStep>)
        ensures
            phase_steps(
                r@,
                event_type@,
                *self,
                field_texts(extra@),
                phase@,
                match detail {
                    Some(d) => Some(d@),
                    None => None,
                },
            ),
    {
        let mut steps: Vec<RestartStep> = Vec::new();
        steps.push(restart_record_step(&self.trigger, self.service_name.as_str(), event_type, extra));
        if self.show_notices {
            steps.push(
                RestartStep::Notice(
                    format_restart_notice(&self.trigger, self.service_name.as_str(), phase, detail),
                ),
            );
        }
        steps
    }

    /// Starts the restart of `service_name`: it is recorded as requested,
    /// then skipped during a shutdown or for an unknown service; otherwise
    /// a running process is stopped first, and the service started.
    pub fn begin(
        trigger: ServiceRestartTrigger,
        service_name: String,
        plain_output: bool,
        shutdown_requested: bool,
        service_found: bool,
        running: bool,
    ) -> (r: (RestartMachine, RestartStepResult))
        ensures
            ({
                let (m, res) = r;
                &&& m.trigger == trigger
                &&& m.service_name == service_name
                &&& m.show_notices == (trigger is Watch && plain_output)
                &&& res.steps@.len() >= 1
                &&& phase_steps(
                    res.steps@.take(if m.show_notices {
                        2int
                    } else {
                        1
                    }),
                    "service_restart_requested"@,
                    m,
                    seq![],
                    "requested"@,
                    None,
                )
                &&& {
                    let rest = res.steps@.skip(
                        if m.show_notices {
                            2int
                        } else {
                            1
                        },
                    );
                    if shutdown_requested {
                        &&& m.phase is Done
                        &&& phase_steps(
                            rest,
                            "service_restart_skipped"@,
                            m,
                            seq![("reason"@, "shutdown"@)],
                            "skipped"@,
                            Some("shutdown in progress"@),
                        )
                        &&& res.command matches RestartCommand::Finish(
                            Ok(ServiceRestartOutcome::Skipped { detail }),
                        )
                        &&& detail@ == "shutdown in progress"@
                    } else if !service_found {
                        &&& m.phase is Done
                        &&& phase_steps(
                            rest,
                            "service_restart_skipped"@,
                            m,
                            seq![("reason"@, "service_not_found"@)],
                            "skipped"@,
                            Some("service not found"@),
                        )
                        &&& res.command matches RestartCommand::Finish(
                            Ok(ServiceRestartOutcome::Skipped { detail }),
                        )
                        &&& detail@ == "service not found"@
                    } else if running {
                        m.phase is Stopping && rest.len() == 0 && res.command is StopRunning
                    } else {
                        m.phase is Starting && rest.len() == 0 && res.command is Start
                    }
                }
            }),
    {
        proof {
            reveal_strlit("reason");
            reveal_strlit("shutdown");
            reveal_strlit("service_not_found");
            reveal_strlit("shutdown in progress");
            reveal_strlit("service not found");
        }
        let show_notices = match &trigger {
            ServiceRestartTrigger::Watch { .. } => plain_output,
            ServiceRestartTrigger::Tui => false,
        };
        let mut m = RestartMachine { trigger, service_name, show_notices, phase: RestartPhase::Done };
        let empty: Vec<(&str, String)> = Vec::new();
        let mut steps = m.phase_result("service_restart_requested", empty.as_slice(), "requested", None);
        let ghost head = steps@;
        proof {
            assert(field_texts(empty@) =~= Seq::<(Seq<char>, Seq<char>)>::empty());
        }
        let command = if shutdown_requested {
            let mut extra: Vec<(&str, String)> = Vec::new();
            extra.push(("reason", "shutdown".to_owned()));
            let mut more = m.phase_result(
                "service_restart_skipped",
                extra.as_slice(),
                "skipped",
                Some("shutdown in progress"),
            );
            proof {
                assert(field_texts(extra@) =~= seq![("reason"@, "shutdown"@)]);
            }
            steps.append(&mut more);
            RestartCommand::Finish(
                Ok(ServiceRestartOutcome::Skipped { detail: "shutdown in progress".to_owned() }),
            )
        } else if !service_found {
            let mut extra: Vec<(&str, String)> = Vec::new();
            extra.push(("reason", "service_not_found".to_owned()));
            let mut more = m.phase_result(
                "service_restart_skipped",
                extra.as_slice(),
                "skipped",
                Some("service not found"),
            );
            proof {
                assert(field_texts(extra@) =~= seq![("reason"@, "service_not_found"@)]);
            }
            steps.append(&mut more);
            RestartCommand::Finish(
                Ok(ServiceRestartOutcome::Skipped { detail: "service not found".to_owned() }),
            )
        } else if running {
            m.phase = RestartPhase::Stopping;
            RestartCommand::StopRunning
        } else {
            m.phase = RestartPhase::Starting;
            RestartCommand::Start
        };
        proof {
            let k: int = if m.show_notices {
                2
            } else {
                1
            };
            assert(steps@.take(k) =~= head);
        }
        (m, RestartStepResult { steps, command })
    }
}


impl RestartMachine {
    /// Takes in what the caller saw and gives the steps and the next
    /// command.
    pub fn advance(&mut self, obs: RestartObservation) -> (r: RestartStepResult)
        requires
            restart_fits(old(self).phase, obs),
        ensures
            final(self).trigger == old(self).trigger,
            final(self).service_name == old(self).service_name,
            final(self).show_notices == old(self).show_notices,
            restart_transition(*old(self), obs, *final(self), r),
    {
        proof {
            reveal_strlit("reason");
            reveal_strlit("detail");
            reveal_strlit("stop_failed");
            reveal_strlit("start_failed");
        }
        let mut phase = RestartPhase::Done;
        std::mem::swap(&mut phase, &mut self.phase);
        match phase {
            RestartPhase::Stopping => match obs {
                RestartObservation::Stopped(Ok(())) => {
                    self.phase = RestartPhase::ForgettingStopped;
                    RestartStepResult { steps: Vec::new(), command: RestartCommand::Forget }
                },
                RestartObservation::Stopped(Err(e)) => {
                    let mut extra: Vec<(&str, String)> = Vec::new();
                    extra.push(("reason", "stop_failed".to_owned()));
                    extra.push(("detail", e.message.clone()));
                    let steps = self.phase_result(
                        "service_restart_skipped",
                        extra.as_slice(),
                        "skipped",
                        Some(e.message.as_str()),
                    );
                    proof {
                        assert(field_texts(extra@) =~= seq![
                            ("reason"@, "stop_failed"@),
                            ("detail"@, e.message@),
                        ]);
                    }
                    RestartStepResult {
                        steps,
                        command: RestartCommand::Finish(
                            Ok(ServiceRestartOutcome::Skipped { detail: e.message }),
                        ),
                    }
                },
                _ => RestartStepResult { steps: Vec::new(), command: RestartCommand::Start },
            },
            RestartPhase::ForgettingStopped => match obs {
                RestartObservation::Forgotten(Ok(())) => {
                    self.phase = RestartPhase::Starting;
                    RestartStepResult { steps: Vec::new(), command: RestartCommand::Start }
                },
                RestartObservation::Forgotten(Err(e)) => {
                    RestartStepResult { steps: Vec::new(), command: RestartCommand::Finish(Err(e)) }
                },
                _ => RestartStepResult { steps: Vec::new(), command: RestartCommand::Start },
            },
            RestartPhase::Starting => match obs {
                RestartObservation::Started(Ok(())) => {
                    let empty: Vec<(&str, String)> = Vec::new();
                    let steps = self.phase_result(
                        "service_restart_succeeded",
                        empty.as_slice(),
                        "succeeded",
                        None,
                    );
                    proof {
                        assert(field_texts(empty@) =~= Seq::<(Seq<char>, Seq<char>)>::empty());
                    }
                    RestartStepResult {
                        steps,
                        command: RestartCommand::Finish(Ok(ServiceRestartOutcome::Restarted)),
                    }
                },
                RestartObservation::Started(Err(e)) => {
                    self.phase = RestartPhase::ForgettingFailed(e);
                    RestartStepResult { steps: Vec::new(), command: RestartCommand::Forget }
                },
                _ => RestartStepResult { steps: Vec::new(), command: RestartCommand::Start },
            },
            RestartPhase::ForgettingFailed(e) => match obs {
                RestartObservation::Forgotten(Ok(())) => {
                    let mut extra: Vec<(&str, String)> = Vec::new();
                    extra.push(("reason", "start_failed".to_owned()));
                    extra.push(("detail", e.message.clone()));
                    let steps = self.phase_result(
                        "service_restart_skipped",
                        extra.as_slice(),
                        "skipped",
                        Some(e.message.as_str()),
                    );
                    proof {
                        assert(field_texts(extra@) =~= seq![
                            ("reason"@, "start_failed"@),
                            ("detail"@, e.message@),
                        ]);
                    }
                    RestartStepResult {
                        steps,
                        command: RestartCommand::Finish(
                            Ok(ServiceRestartOutcome::Skipped { detail: e.message }),
                        ),
                    }
                },
                RestartObservation::Forgotten(Err(e2)) => {
                    RestartStepResult { steps: Vec::new(), command: RestartCommand::Finish(Err(e2)) }
                },
                _ => RestartStepResult { steps: Vec::new(), command: RestartCommand::Start },
            },
            RestartPhase::Done => RestartStepResult {
                steps: Vec::new(),
                command: RestartCommand::Start,
            },
        }
    }
}

} // verus!
