//! Where the output of services and hooks goes in each way of running:
//! plain on the terminal, detached as a daemon, or in the dashboard.

use vstd::prelude::*;

use crate::config::{ResolvedLogConfig, ResolvedServiceConfig};

verus! {

/// How a run shows its output.
#[derive(Debug, Clone, Copy, PartialEq, Eq, Structural)]
pub enum RuntimeOutputContext {
    Plain,
    Daemon,
    Tui,
}

/// What becomes of a service's output.
#[derive(Debug, Clone)]
pub enum OutputMode {
    /// Thrown away.
    Null,
    /// Read line by line.
    Capture(CaptureOptions),
}

/// Where captured lines go: to the dashboard when `send_events`, to the log
/// file when there is one, to the terminal when `echo_to_terminal`.
#[derive(Debug, Clone)]
pub struct CaptureOptions {
    pub send_events: bool,
    pub log: Option<ResolvedLogConfig>,
    pub echo_to_terminal: bool,
}

/// The output of a service: on the terminal and as a daemon it is captured
/// only into its log file, when it has one; in the dashboard it is always
/// captured and sent there, and into its log file too.
pub open spec fn output_mode_fits(service: ResolvedServiceConfig, context: RuntimeOutputContext, m: OutputMode) -> bool {
    match context {
        RuntimeOutputContext::Tui => m matches OutputMode::Capture(o) && o.send_events
            && !o.echo_to_terminal && o.log == service.log,
        _ => match service.log {
            Some(_) => m matches OutputMode::Capture(o) && !o.send_events && !o.echo_to_terminal
                && o.log == service.log,
            None => m is Null,
        },
    }
}

fn copy_log(log: &Option<ResolvedLogConfig>) -> (r: Option<ResolvedLogConfig>)
    ensures
        r == *log,
{
    match log {
        Some(l) => Some(
            ResolvedLogConfig {
                file: l.file.clone(),
                append: l.append,
                max_file_bytes: l.max_file_bytes,
                overflow_strategy: l.overflow_strategy,
                rotate_file_count: l.rotate_file_count,
            },
        ),
        None => None,
    }
}

/// The output mode of `service` in `context`.
pub fn output_mode_for_service(service: &ResolvedServiceConfig, context: RuntimeOutputContext) -> (r:
    OutputMode)
    ensures
        output_mode_fits(*service, context, r),
{
    match context {
        RuntimeOutputContext::Tui => OutputMode::Capture(
            CaptureOptions { send_events: true, log: copy_log(&service.log), echo_to_terminal: false },
        ),
        _ => match &service.log {
            Some(_) => OutputMode::Capture(
                CaptureOptions {
                    send_events: false,
                    log: copy_log(&service.log),
                    echo_to_terminal: false,
                },
            ),
            None => OutputMode::Null,
        },
    }
}

/// Whether hook output and hook errors are shown on the terminal: only in
/// a plain run.
pub fn hooks_on_terminal(context: RuntimeOutputContext) -> (r: bool)
    ensures
        r == (context == RuntimeOutputContext::Plain),
{
    match context {
        RuntimeOutputContext::Plain => true,
        _ => false,
    }
}

/// Whether a restart notice is printed: for a watch restart in a plain run.
pub fn shows_restart_notice(context: RuntimeOutputContext, from_watch: bool) -> (r: bool)
    ensures
        r == (from_watch && context == RuntimeOutputContext::Plain),
{
    from_watch && hooks_on_terminal(context)
}

} // verus!
