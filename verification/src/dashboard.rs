//! The state of the terminal dashboard: the service panels, the recent
//! events, which panel and service are shown, and how keys change them.
//! Drawing the state on a terminal is left to the caller.

use vstd::prelude::*;

use crate::process::{LogEvent, LogStream};
use crate::restart::ServiceRestartOutcome;
use crate::runtime_state::{RuntimeEvent, ServiceRuntimeState};
use crate::config::ResolvedServiceConfig;
use crate::text::{views, concat2, concat3, contains_spec, contains_text, dec_digits, decimal, same_text, starts_with,
    starts_with_spec};

verus! {

/// The most log lines a service panel keeps.
pub const MAX_LOG_LINES: usize = 500;

/// The most events the dashboard keeps.
pub const MAX_EVENTS: usize = 500;

/// Whether the services still run or the dashboard shows their end.
#[derive(Clone, Copy, Debug, PartialEq, Eq, Structural)]
pub enum DashboardPhase {
    Running,
    PostRunReadonly,
    PostRunManage,
}

/// What the caller does once the post-run view closes.
#[derive(Debug, PartialEq, Eq)]
pub enum PostRunAction {
    Exit,
    RestartSelectedService(String),
}

/// The state of one service as the dashboard shows it.
#[derive(Debug)]
pub enum ServiceStatus {
    Running,
    Stopped(String),
    Failed(String),
}

/// One service of the sidebar.
#[derive(Debug)]
pub struct ServicePanel {
    pub name: String,
    pub pid: u32,
    pub watching: bool,
    pub status: ServiceStatus,
    pub last_watch_event: Option<String>,
    pub logs: Vec<String>,
}

/// The panel shown beside the sidebar.
#[derive(Clone, Copy, Debug, PartialEq, Eq, Structural)]
pub enum DashboardTab {
    Overview,
    Logs,
    Events,
}

/// What a key asks of the caller.
#[derive(Debug, PartialEq, Eq, Structural)]
pub enum DashboardCommand {
    Nothing,
    Exit,
    RestartSelectedService,
}

/// The keys the dashboard tells apart.
#[derive(Clone, Copy, Debug, PartialEq, Eq, Structural)]
pub enum DashboardKey {
    Char(char),
    Esc,
    BackTab,
    Tab,
    Left,
    Right,
    Up,
    Down,
    PageUp,
    PageDown,
    Home,
    End,
    Other,
}

/// A terminal event: a key, whether Control was held, and whether it is a
/// key press (other events and key releases have `press` false).
#[derive(Clone, Copy, Debug)]
pub struct KeyInput {
    pub key: DashboardKey,
    pub ctrl: bool,
    pub press: bool,
}

/// How an event line is coloured.
#[derive(Clone, Copy, Debug, PartialEq, Eq, Structural)]
pub enum EventTone {
    Watch,
    RestartRequested,
    RestartSucceeded,
    RestartSkipped,
    Failure,
    Timeout,
    Started,
    Other,
}

/// The whole dashboard state.
#[derive(Debug)]
pub struct DashboardState {
    pub services: Vec<ServicePanel>,
    pub events: Vec<RuntimeEvent>,
    pub main_tab: DashboardTab,
    pub phase: DashboardPhase,
    pub selected: usize,
    pub log_scroll: usize,
    pub event_scroll: usize,
    pub keys_help: String,
    pub notice: String,
}

/// The key help line of each phase.
pub open spec fn keys_help_text(phase: DashboardPhase) -> Seq<char> {
    match phase {
        DashboardPhase::Running => "Up/Down select service | Left/Right/Tab switch panel | j/k or PgUp/PgDn scroll | Home/End jump | R restart service | q/Esc stop"@,
        DashboardPhase::PostRunReadonly => "Up/Down select service | Left/Right/Tab switch panel | j/k or PgUp/PgDn scroll | Home/End jump | q/Esc exit"@,
        DashboardPhase::PostRunManage => "Up/Down select service | Left/Right/Tab switch panel | j/k or PgUp/PgDn scroll | Home/End jump | R start or restart service | q/Esc exit"@,
    }
}

/// The key help line of `phase`.
pub fn dashboard_keys_help(phase: DashboardPhase) -> (r: &'static str)
    ensures
        r@ == keys_help_text(phase),
{
    match phase {
        DashboardPhase::Running => "Up/Down select service | Left/Right/Tab switch panel | j/k or PgUp/PgDn scroll | Home/End jump | R restart service | q/Esc stop",
        DashboardPhase::PostRunReadonly => "Up/Down select service | Left/Right/Tab switch panel | j/k or PgUp/PgDn scroll | Home/End jump | q/Esc exit",
        DashboardPhase::PostRunManage => "Up/Down select service | Left/Right/Tab switch panel | j/k or PgUp/PgDn scroll | Home/End jump | R start or restart service | q/Esc exit",
    }
}

/// The label of each phase.
pub open spec fn phase_label(phase: DashboardPhase) -> Seq<char> {
    match phase {
        DashboardPhase::Running => "running"@,
        DashboardPhase::PostRunReadonly => "post-run"@,
        DashboardPhase::PostRunManage => "manage"@,
    }
}

impl DashboardPhase {
    pub fn label(self) -> (r: &'static str)
        ensures
            r@ == phase_label(self),
    {
        match self {
            DashboardPhase::Running => "running",
            DashboardPhase::PostRunReadonly => "post-run",
            DashboardPhase::PostRunManage => "manage",
        }
    }
}

/// The label of each status.
pub open spec fn status_label(s: ServiceStatus) -> Seq<char> {
    match s {
        ServiceStatus::Running => "RUNNING"@,
        ServiceStatus::Stopped(_) => "STOPPED"@,
        ServiceStatus::Failed(_) => "FAILED"@,
    }
}

/// The detail of each status.
pub open spec fn status_detail(s: ServiceStatus) -> Seq<char> {
    match s {
        ServiceStatus::Running => "process is alive"@,
        ServiceStatus::Stopped(d) => d@,
        ServiceStatus::Failed(d) => d@,
    }
}

impl ServiceStatus {
    pub fn label(&self) -> (r: &str)
        ensures
            r@ == status_label(*self),
    {
        match self {
            ServiceStatus::Running => "RUNNING",
            ServiceStatus::Stopped(_) => "STOPPED",
            ServiceStatus::Failed(_) => "FAILED",
        }
    }

    pub fn detail(&self) -> (r: &str)
        ensures
            r@ == status_detail(*self),
    {
        match self {
            ServiceStatus::Running => "process is alive",
            ServiceStatus::Stopped(d) => d.as_str(),
            ServiceStatus::Failed(d) => d.as_str(),
        }
    }
}

/// The tab after `t`, wrapping around.
pub open spec fn next_tab(t: DashboardTab) -> DashboardTab {
    match t {
        DashboardTab::Overview => DashboardTab::Logs,
        DashboardTab::Logs => DashboardTab::Events,
        DashboardTab::Events => DashboardTab::Overview,
    }
}

/// The tab before `t`, wrapping around.
pub open spec fn previous_tab(t: DashboardTab) -> DashboardTab {
    match t {
        DashboardTab::Overview => DashboardTab::Events,
        DashboardTab::Logs => DashboardTab::Overview,
        DashboardTab::Events => DashboardTab::Logs,
    }
}

/// `a.saturating_add(b)`.
pub open spec fn sat_add(a: usize, b: usize) -> usize {
    if a + b > usize::MAX {
        usize::MAX
    } else {
        (a + b) as usize
    }
}

/// `a.saturating_sub(b)`.
pub open spec fn sat_sub(a: usize, b: usize) -> usize {
    if a < b {
        0
    } else {
        (a - b) as usize
    }
}

/// The notice of a quit key.
pub open spec fn quit_notice(phase: DashboardPhase) -> Seq<char> {
    match phase {
        DashboardPhase::Running => "graceful stop requested."@,
        _ => "exiting dashboard."@,
    }
}

/// The notice of Control-C; `force` tells whether a second interrupt
/// already asked for a forced stop.
pub open spec fn interrupt_notice(phase: DashboardPhase, force: bool) -> Seq<char> {
    match phase {
        DashboardPhase::Running => if force {
            "force stop requested."@
        } else {
            "interrupt received, stopping services. press Ctrl-C again to force."@
        },
        _ => "dashboard exit requested."@,
    }
}

/// The position, tab and scrolling of the dashboard.
pub open spec fn same_view(s: DashboardState, t: DashboardState) -> bool {
    &&& t.main_tab == s.main_tab
    &&& t.selected == s.selected
    &&& t.log_scroll == s.log_scroll
    &&& t.event_scroll == s.event_scroll
}

/// What a key leaves alone.
pub open spec fn same_content(s: DashboardState, t: DashboardState) -> bool {
    &&& t.services == s.services
    &&& t.events == s.events
    &&& t.phase == s.phase
    &&& t.keys_help == s.keys_help
}

/// Scrolling the current panel: `log` and `ev` are the new offsets of the
/// log and event panels when that panel is shown.
pub open spec fn scrolled(s: DashboardState, t: DashboardState, log: usize, ev: usize) -> bool {
    &&& t.main_tab == s.main_tab
    &&& t.selected == s.selected
    &&& match s.main_tab {
        DashboardTab::Logs => t.log_scroll == log && t.event_scroll == s.event_scroll,
        DashboardTab::Events => t.event_scroll == ev && t.log_scroll == s.log_scroll,
        DashboardTab::Overview => t.log_scroll == s.log_scroll && t.event_scroll == s.event_scroll,
    }
}

/// Selecting the previous service, wrapping around.
pub open spec fn selected_previous(s: DashboardState, t: DashboardState) -> bool {
    &&& t.main_tab == s.main_tab
    &&& t.event_scroll == s.event_scroll
    &&& if s.services.len() == 0 {
        t.selected == s.selected && t.log_scroll == s.log_scroll
    } else {
        &&& t.selected == (if s.selected == 0 {
            s.services.len() - 1
        } else {
            s.selected - 1
        })
        &&& t.log_scroll == 0
    }
}

/// Selecting the next service, wrapping around.
pub open spec fn selected_next(s: DashboardState, t: DashboardState) -> bool {
    &&& t.main_tab == s.main_tab
    &&& t.event_scroll == s.event_scroll
    &&& if s.services.len() == 0 {
        t.selected == s.selected && t.log_scroll == s.log_scroll
    } else {
        t.selected == (s.selected + 1) % (s.services.len() as int) && t.log_scroll == 0
    }
}

/// The number a digit key stands for.
pub open spec fn digit_value(c: char) -> int {
    c as int - '0' as int
}

/// What a key does to the dashboard and asks of the caller.
pub open spec fn key_outcome(
    s: DashboardState,
    input: KeyInput,
    force: bool,
    t: DashboardState,
    cmd: DashboardCommand,
) -> bool {
    let k = input.key;
    &&& same_content(s, t)
    &&& if !input.press {
        cmd == DashboardCommand::Nothing && t.notice == s.notice && same_view(s, t)
    } else if k == DashboardKey::Char('q') || k == DashboardKey::Esc {
        cmd == DashboardCommand::Exit && t.notice@ == quit_notice(s.phase) && same_view(s, t)
    } else if k == DashboardKey::Char('c') && input.ctrl {
        cmd == DashboardCommand::Exit && t.notice@ == interrupt_notice(s.phase, force) && same_view(
            s,
            t,
        )
    } else if k == DashboardKey::Char('R') {
        &&& same_view(s, t)
        &&& if s.selected >= s.services.len() {
            cmd == DashboardCommand::Nothing && t.notice@ == "no service selected."@
        } else if s.phase == DashboardPhase::PostRunReadonly {
            cmd == DashboardCommand::Nothing && t.notice@
                == "post-run view is read-only; restart is only available with --manage."@
        } else {
            cmd == DashboardCommand::RestartSelectedService && t.notice == s.notice
        }
    } else {
        &&& cmd == DashboardCommand::Nothing
        &&& t.notice == s.notice
        &&& if k == DashboardKey::BackTab || k == DashboardKey::Left {
            t.main_tab == previous_tab(s.main_tab) && t.selected == s.selected && t.log_scroll
                == s.log_scroll && t.event_scroll == s.event_scroll
        } else if k == DashboardKey::Tab || k == DashboardKey::Right {
            t.main_tab == next_tab(s.main_tab) && t.selected == s.selected && t.log_scroll
                == s.log_scroll && t.event_scroll == s.event_scroll
        } else if k == DashboardKey::Up {
            selected_previous(s, t)
        } else if k == DashboardKey::Down {
            selected_next(s, t)
        } else if k == DashboardKey::PageUp {
            scrolled(s, t, sat_add(s.log_scroll, 10), sat_add(s.event_scroll, 10))
        } else if k == DashboardKey::PageDown {
            scrolled(s, t, sat_sub(s.log_scroll, 10), sat_sub(s.event_scroll, 10))
        } else if k == DashboardKey::Home {
            scrolled(s, t, usize::MAX, usize::MAX)
        } else if k == DashboardKey::End {
            scrolled(s, t, 0, 0)
        } else if k == DashboardKey::Char('k') {
            scrolled(s, t, sat_add(s.log_scroll, 1), sat_add(s.event_scroll, 1))
        } else if k == DashboardKey::Char('j') {
            scrolled(s, t, sat_sub(s.log_scroll, 1), sat_sub(s.event_scroll, 1))
        } else if k matches DashboardKey::Char(ch) && '0' <= ch && ch <= '9' {
            let d = digit_value(k->0);
            if 0 < d && d <= s.services.len() {
                t.main_tab == s.main_tab && t.selected == d - 1 && t.log_scroll == 0
                    && t.event_scroll == s.event_scroll
            } else {
                same_view(s, t)
            }
        } else {
            same_view(s, t)
        }
    }
}

/// Whether `i` is the first panel named `name`.
pub open spec fn is_first_panel(ps: Seq<ServicePanel>, name: Seq<char>, i: int) -> bool {
    &&& 0 <= i < ps.len()
    &&& ps[i].name@ == name
    &&& forall|j: int| 0 <= j < i ==> ps[j].name@ != name
}

/// The pid of the last running service named `name`, as a map from names
/// built from `rs` in order keeps it.
pub open spec fn running_pid(rs: Seq<ServiceRuntimeState>, name: Seq<char>) -> Option<u32>
    decreases rs.len(),
{
    if rs.len() == 0 {
        None
    } else if rs.last().service_name@ == name {
        Some(rs.last().pid)
    } else {
        running_pid(rs.drop_last(), name)
    }
}

/// The name of the selected service, or nothing.
pub open spec fn selected_name(s: DashboardState) -> Seq<char> {
    if s.selected < s.services.len() {
        s.services[s.selected as int].name@
    } else {
        Seq::empty()
    }
}

/// A panel as it is shown before any output arrives.
pub open spec fn fresh_panel(p: ServicePanel, service: ResolvedServiceConfig, rp: Option<u32>) -> bool {
    &&& p.name@ == service.name@
    &&& p.pid == (match rp {
        Some(pid) => pid,
        None => 0,
    })
    &&& p.watching == service.watch.is_some()
    &&& match rp {
        Some(_) => p.status is Running,
        None => p.status matches ServiceStatus::Stopped(d) && d@ == "not running"@,
    }
    &&& p.last_watch_event is None
    &&& p.logs@.len() == 0
}

/// `n` is panel `o` brought in line with the running pid `rp` of its
/// service.
pub open spec fn synced(o: ServicePanel, n: ServicePanel, rp: Option<u32>) -> bool {
    match rp {
        Some(pid) => {
            &&& n.pid == pid
            &&& n.status is Running
            &&& n.name == o.name
            &&& n.watching == o.watching
            &&& n.last_watch_event == o.last_watch_event
            &&& n.logs == o.logs
        },
        None => if o.status is Running {
            &&& n.pid == 0
            &&& n.status matches ServiceStatus::Stopped(d) && d@ == "not running"@
            &&& n.name == o.name
            &&& n.watching == o.watching
            &&& n.last_watch_event == o.last_watch_event
            &&& n.logs == o.logs
        } else {
            n == o
        },
    }
}

/// Whether some configured service is named `name`.
pub open spec fn configures(services: Seq<ResolvedServiceConfig>, name: Seq<char>) -> bool {
    exists|k: int| 0 <= k < services.len() && (#[trigger] services[k]).name@ == name
}

/// The last `n` items of `s`.
pub open spec fn keep_last<T>(s: Seq<T>, n: int) -> Seq<T> {
    if s.len() <= n {
        s
    } else {
        s.subrange(s.len() - n, s.len() as int)
    }
}

/// The tag of each output stream.
pub open spec fn stream_tag(stream: LogStream) -> Seq<char> {
    match stream {
        LogStream::Stdout => "out"@,
        LogStream::Stderr => "err"@,
    }
}

/// The text a log panel shows for an output line.
pub open spec fn log_text(stream: LogStream, line: Seq<char>) -> Seq<char> {
    "["@ + stream_tag(stream) + "] "@ + line
}

/// Whether an event is a watch event of service `name`.
pub open spec fn is_watch_event_of(e: RuntimeEvent, name: Seq<char>) -> bool {
    &&& e.service_name matches Some(n) && n@ == name
    &&& starts_with_spec(e.event_type@, "watch_"@)
}

/// The index of the latest watch event of service `name`.
pub open spec fn latest_watch(evs: Seq<RuntimeEvent>, name: Seq<char>) -> Option<int>
    decreases evs.len(),
{
    if evs.len() == 0 {
        None
    } else if is_watch_event_of(evs.last(), name) {
        Some(evs.len() - 1)
    } else {
        latest_watch(evs.drop_last(), name)
    }
}

/// The summary a panel shows of its latest watch event.
pub open spec fn watch_summary_of(evs: Seq<RuntimeEvent>, name: Seq<char>, summary: Option<String>) -> bool {
    match latest_watch(evs, name) {
        Some(i) => summary matches Some(t) && t@ == evs[i].event_type@ + " | "@ + evs[i].detail@,
        None => summary is None,
    }
}

/// The number of running panels.
pub open spec fn running_panels(ps: Seq<ServicePanel>) -> nat
    decreases ps.len(),
{
    if ps.len() == 0 {
        0
    } else {
        running_panels(ps.drop_last()) + if ps.last().status is Running {
            1nat
        } else {
            0nat
        }
    }
}

/// The number of watched panels.
pub open spec fn watching_panels(ps: Seq<ServicePanel>) -> nat
    decreases ps.len(),
{
    if ps.len() == 0 {
        0
    } else {
        watching_panels(ps.drop_last()) + if ps.last().watching {
            1nat
        } else {
            0nat
        }
    }
}

/// The window of a list of `len` lines that shows at most `limit` lines,
/// `scroll` lines up from the bottom.
pub open spec fn window_spec(len: usize, limit: usize, scroll: usize) -> (usize, usize) {
    if limit == 0 {
        (0, 0)
    } else if len <= limit {
        (0, len)
    } else {
        let offset = if scroll < len - limit {
            scroll as int
        } else {
            len - limit
        };
        ((len - offset - limit) as usize, (len - offset) as usize)
    }
}

/// The lines to show of a list of `len` lines: the range `start..end`.
pub fn window_bounds(len: usize, limit: usize, scroll: usize) -> (r: (usize, usize))
    ensures
        r == window_spec(len, limit, scroll),
        r.0 <= r.1 <= len,
{
    if limit == 0 {
        return (0, 0);
    }
    if len <= limit {
        return (0, len);
    }
    let max_offset = len - limit;
    let offset = if scroll < max_offset {
        scroll
    } else {
        max_offset
    };
    let end = len - offset;
    (end - limit, end)
}

/// The services shown in a sidebar of `visible` rows, keeping the
/// selected one near the middle.
pub open spec fn service_window_spec(len: usize, selected: usize, visible: usize) -> (usize, usize) {
    if len == 0 {
        (0, 0)
    } else if len <= visible {
        (0, len)
    } else {
        let max_start = len - visible;
        let centered = sat_sub(selected, visible / 2);
        let start = if centered < max_start {
            centered as int
        } else {
            max_start
        };
        (start as usize, (start + visible) as usize)
    }
}

/// How an event line is coloured, by its type.
pub open spec fn tone_of(t: Seq<char>) -> EventTone {
    if starts_with_spec(t, "watch_"@) {
        EventTone::Watch
    } else if t == "service_restart_requested"@ {
        EventTone::RestartRequested
    } else if t == "service_restart_succeeded"@ {
        EventTone::RestartSucceeded
    } else if t == "service_restart_skipped"@ {
        EventTone::RestartSkipped
    } else if contains_spec(t, "failed"@) {
        EventTone::Failure
    } else if contains_spec(t, "timeout"@) {
        EventTone::Timeout
    } else if contains_spec(t, "started"@) {
        EventTone::Started
    } else {
        EventTone::Other
    }
}

/// The colour class of an event line.
pub fn event_tone(event_type: &str) -> (r: EventTone)
    ensures
        r == tone_of(event_type@),
{
    if starts_with(event_type, "watch_") {
        EventTone::Watch
    } else if same_text(event_type, "service_restart_requested") {
        EventTone::RestartRequested
    } else if same_text(event_type, "service_restart_succeeded") {
        EventTone::RestartSucceeded
    } else if same_text(event_type, "service_restart_skipped") {
        EventTone::RestartSkipped
    } else if contains_text(event_type, "failed") {
        EventTone::Failure
    } else if contains_text(event_type, "timeout") {
        EventTone::Timeout
    } else if contains_text(event_type, "started") {
        EventTone::Started
    } else {
        EventTone::Other
    }
}

/// The text of an optional name, `-` when absent.
pub open spec fn name_or_dash(v: Option<String>) -> Seq<char> {
    match v {
        Some(s) => s@,
        None => "-"@,
    }
}

fn text_or_dash(v: &Option<String>) -> (r: &str)
    ensures
        r@ == name_or_dash(*v),
{
    match v {
        Some(s) => s.as_str(),
        None => "-",
    }
}

/// The heading of an event line: `[<timestamp>] <type>`.
pub fn event_heading(event: &RuntimeEvent) -> (r: String)
    ensures
        r@ == "["@ + dec_digits(event.timestamp_unix_secs as nat) + "] "@ + event.event_type@,
{
    let ts = decimal(event.timestamp_unix_secs);
    let mut out = concat3("[", ts.as_str(), "] ");
    out.append(event.event_type.as_str());
    out
}

/// The names an event line shows after its heading.
pub fn event_context(event: &RuntimeEvent) -> (r: String)
    ensures
        r@ == "  svc="@ + name_or_dash(event.service_name) + "  "@ + "hook="@ + name_or_dash(
            event.hook_name,
        ) + "  action="@ + name_or_dash(event.action_name) + "  "@,
{
    let mut out = concat3("  svc=", text_or_dash(&event.service_name), "  ");
    out.append("hook=");
    out.append(text_or_dash(&event.hook_name));
    out.append("  action=");
    out.append(text_or_dash(&event.action_name));
    out.append("  ");
    out
}

/// The notice after a restart from the dashboard.
pub open spec fn dashboard_restart_notice(name: Seq<char>, outcome: ServiceRestartOutcome) -> Seq<char> {
    match outcome {
        ServiceRestartOutcome::Restarted => "service "@ + name + " restarted"@,
        ServiceRestartOutcome::Skipped { detail } => if detail@ == "shutdown in progress"@ {
            "shutdown in progress; restart skipped"@
        } else {
            "failed to restart "@ + name + ": "@ + detail@
        },
    }
}

impl DashboardState {
    /// Switches to `phase` and its key help.
    pub fn set_phase(&mut self, phase: DashboardPhase)
        ensures
            final(self).phase == phase,
            final(self).keys_help@ == keys_help_text(phase),
            final(self).services == old(self).services,
            final(self).events == old(self).events,
            final(self).notice == old(self).notice,
            same_view(*old(self), *final(self)),
    {
        self.phase = phase;
        self.keys_help = dashboard_keys_help(phase).to_owned();
    }

    /// Replaces the notice line.
    pub fn set_notice(&mut self, notice: &str)
        ensures
            final(self).notice@ == notice@,
            same_content(*old(self), *final(self)),
            same_view(*old(self), *final(self)),
    {
        self.notice = notice.to_owned();
    }

    pub fn select_previous_service(&mut self)
        ensures
            selected_previous(*old(self), *final(self)),
            same_content(*old(self), *final(self)),
            final(self).notice == old(self).notice,
    {
        let n = self.services.len();
        if n == 0 {
            return;
        }
        if self.selected == 0 {
            self.selected = n - 1;
        } else {
            self.selected = self.selected - 1;
        }
        self.log_scroll = 0;
    }

    pub fn select_next_service(&mut self)
        requires
            old(self).selected < usize::MAX,
        ensures
            selected_next(*old(self), *final(self)),
            same_content(*old(self), *final(self)),
            final(self).notice == old(self).notice,
    {
        let n = self.services.len();
        if n == 0 {
            return;
        }
        self.selected = (self.selected + 1) % n;
        self.log_scroll = 0;
    }

    pub fn select_previous_tab(&mut self)
        ensures
            final(self).main_tab == previous_tab(old(self).main_tab),
            final(self).selected == old(self).selected,
            final(self).log_scroll == old(self).log_scroll,
            final(self).event_scroll == old(self).event_scroll,
            same_content(*old(self), *final(self)),
            final(self).notice == old(self).notice,
    {
        self.main_tab = match self.main_tab {
            DashboardTab::Overview => DashboardTab::Events,
            DashboardTab::Logs => DashboardTab::Overview,
            DashboardTab::Events => DashboardTab::Logs,
        };
    }

    pub fn select_next_tab(&mut self)
        ensures
            final(self).main_tab == next_tab(old(self).main_tab),
            final(self).selected == old(self).selected,
            final(self).log_scroll == old(self).log_scroll,
            final(self).event_scroll == old(self).event_scroll,
            same_content(*old(self), *final(self)),
            final(self).notice == old(self).notice,
    {
        self.main_tab = match self.main_tab {
            DashboardTab::Overview => DashboardTab::Logs,
            DashboardTab::Logs => DashboardTab::Events,
            DashboardTab::Events => DashboardTab::Overview,
        };
    }

    pub fn scroll_current_panel_up(&mut self, lines: usize)
        ensures
            scrolled(
                *old(self),
                *final(self),
                sat_add(old(self).log_scroll, lines),
                sat_add(old(self).event_scroll, lines),
            ),
            same_content(*old(self), *final(self)),
            final(self).notice == old(self).notice,
    {
        match self.main_tab {
            DashboardTab::Logs => {
                self.log_scroll = self.log_scroll.saturating_add(lines);
            },
            DashboardTab::Events => {
                self.event_scroll = self.event_scroll.saturating_add(lines);
            },
            DashboardTab::Overview => {},
        }
    }

    pub fn scroll_current_panel_down(&mut self, lines: usize)
        ensures
            scrolled(
                *old(self),
                *final(self),
                sat_sub(old(self).log_scroll, lines),
                sat_sub(old(self).event_scroll, lines),
            ),
            same_content(*old(self), *final(self)),
            final(self).notice == old(self).notice,
    {
        match self.main_tab {
            DashboardTab::Logs => {
                self.log_scroll = self.log_scroll.saturating_sub(lines);
            },
            DashboardTab::Events => {
                self.event_scroll = self.event_scroll.saturating_sub(lines);
            },
            DashboardTab::Overview => {},
        }
    }

    pub fn scroll_current_panel_to_oldest(&mut self)
        ensures
            scrolled(*old(self), *final(self), usize::MAX, usize::MAX),
            same_content(*old(self), *final(self)),
            final(self).notice == old(self).notice,
    {
        match self.main_tab {
            DashboardTab::Logs => {
                self.log_scroll = usize::MAX;
            },
            DashboardTab::Events => {
                self.event_scroll = usize::MAX;
            },
            DashboardTab::Overview => {},
        }
    }

    pub fn scroll_current_panel_to_latest(&mut self)
        ensures
            scrolled(*old(self), *final(self), 0, 0),
            same_content(*old(self), *final(self)),
            final(self).notice == old(self).notice,
    {
        match self.main_tab {
            DashboardTab::Logs => {
                self.log_scroll = 0;
            },
            DashboardTab::Events => {
                self.event_scroll = 0;
            },
            DashboardTab::Overview => {},
        }
    }

    /// Applies a terminal event; `force_requested` tells whether a second
    /// interrupt already asked for a forced stop.
    pub fn handle_event(&mut self, input: KeyInput, force_requested: bool) -> (r: DashboardCommand)
        requires
            old(self).selected < usize::MAX,
        ensures
            key_outcome(*old(self), input, force_requested, *final(self), r),
    {
        if !input.press {
            return DashboardCommand::Nothing;
        }
        match input.key {
            DashboardKey::Char('q') | DashboardKey::Esc => {
                self.notice = match self.phase {
                    DashboardPhase::Running => "graceful stop requested.".to_owned(),
                    _ => "exiting dashboard.".to_owned(),
                };
                DashboardCommand::Exit
            },
            DashboardKey::Char('c') if input.ctrl => {
                self.notice = match self.phase {
                    DashboardPhase::Running => if force_requested {
                        "force stop requested.".to_owned()
                    } else {
                        "interrupt received, stopping services. press Ctrl-C again to force.".to_owned()
                    },
                    _ => "dashboard exit requested.".to_owned(),
                };
                DashboardCommand::Exit
            },
            DashboardKey::Char('R') => {
                if self.selected >= self.services.len() {
                    self.notice = "no service selected.".to_owned();
                    DashboardCommand::Nothing
                } else if self.phase == DashboardPhase::PostRunReadonly {
                    self.notice =
                        "post-run view is read-only; restart is only available with --manage.".to_owned();
                    DashboardCommand::Nothing
                } else {
                    DashboardCommand::RestartSelectedService
                }
            },
            DashboardKey::BackTab | DashboardKey::Left => {
                self.select_previous_tab();
                DashboardCommand::Nothing
            },
            DashboardKey::Tab | DashboardKey::Right => {
                self.select_next_tab();
                DashboardCommand::Nothing
            },
            DashboardKey::Up => {
                self.select_previous_service();
                DashboardCommand::Nothing
            },
            DashboardKey::Down => {
                self.select_next_service();
                DashboardCommand::Nothing
            },
            DashboardKey::PageUp => {
                self.scroll_current_panel_up(10);
                DashboardCommand::Nothing
            },
            DashboardKey::PageDown => {
                self.scroll_current_panel_down(10);
                DashboardCommand::Nothing
            },
            DashboardKey::Home => {
                self.scroll_current_panel_to_oldest();
                DashboardCommand::Nothing
            },
            DashboardKey::End => {
                self.scroll_current_panel_to_latest();
                DashboardCommand::Nothing
            },
            DashboardKey::Char('k') => {
                self.scroll_current_panel_up(1);
                DashboardCommand::Nothing
            },
            DashboardKey::Char('j') => {
                self.scroll_current_panel_down(1);
                DashboardCommand::Nothing
            },
            DashboardKey::Char(ch) => {
                if '0' <= ch && ch <= '9' {
                    let index = (ch as u32 - '0' as u32) as usize;
                    if index > 0 && index <= self.services.len() {
                        self.selected = index - 1;
                        self.log_scroll = 0;
                    }
                }
                DashboardCommand::Nothing
            },
            _ => DashboardCommand::Nothing,
        }
    }
}

fn find_running_pid(running: &Vec<ServiceRuntimeState>, name: &str) -> (r: Option<u32>)
    ensures
        r == running_pid(running@, name@),
{
    let mut i: usize = running.len();
    proof {
        assert(running@.take(i as int) =~= running@);
    }
    while i > 0
        invariant
            i <= running@.len(),
            running_pid(running@, name@) == running_pid(running@.take(i as int), name@),
        decreases i,
    {
        let ghost pre = running@.take(i as int);
        proof {
            assert(pre.drop_last() =~= running@.take(i - 1));
        }
        if same_text(running[i - 1].service_name.as_str(), name) {
            return Some(running[i - 1].pid);
        }
        i = i - 1;
    }
    None
}

impl DashboardState {
    /// The dashboard at start: one panel per configured service, in order,
    /// with the pid of its running process if there is one.
    pub fn new(services: &Vec<ResolvedServiceConfig>, running: &Vec<ServiceRuntimeState>) -> (r: Self)
        ensures
            r.services@.len() == services@.len(),
            forall|i: int|
                0 <= i < services@.len() ==> fresh_panel(
                    #[trigger] r.services@[i],
                    services@[i],
                    running_pid(running@, services@[i].name@),
                ),
            r.events@.len() == 0,
            r.main_tab == DashboardTab::Overview,
            r.phase == DashboardPhase::Running,
            r.selected == 0,
            r.log_scroll == 0,
            r.event_scroll == 0,
            r.keys_help@ == keys_help_text(DashboardPhase::Running),
            r.notice@ == "ready"@,
    {
        let mut panels: Vec<ServicePanel> = Vec::new();
        let n = services.len();
        let mut i: usize = 0;
        while i < n
            invariant
                n == services@.len(),
                i <= n,
                panels@.len() == i,
                forall|j: int|
                    0 <= j < i ==> fresh_panel(
                        #[trigger] panels@[j],
                        services@[j],
                        running_pid(running@, services@[j].name@),
                    ),
            decreases n - i,
        {
            let service = &services[i];
            let rp = find_running_pid(running, service.name.as_str());
            let panel = match rp {
                Some(pid) => ServicePanel {
                    name: service.name.clone(),
                    pid,
                    watching: service.watch.is_some(),
                    status: ServiceStatus::Running,
                    last_watch_event: None,
                    logs: Vec::new(),
                },
                None => ServicePanel {
                    name: service.name.clone(),
                    pid: 0,
                    watching: service.watch.is_some(),
                    status: ServiceStatus::Stopped("not running".to_owned()),
                    last_watch_event: None,
                    logs: Vec::new(),
                },
            };
            panels.push(panel);
            i = i + 1;
        }
        DashboardState {
            services: panels,
            events: Vec::new(),
            main_tab: DashboardTab::Overview,
            phase: DashboardPhase::Running,
            selected: 0,
            log_scroll: 0,
            event_scroll: 0,
            keys_help: dashboard_keys_help(DashboardPhase::Running).to_owned(),
            notice: "ready".to_owned(),
        }
    }

    /// The first panel named `name`.
    pub fn find_panel(&self, name: &str) -> (r: Option<usize>)
        ensures
            match r {
                Some(i) => is_first_panel(self.services@, name@, i as int),
                None => forall|j: int|
                    0 <= j < self.services@.len() ==> #[trigger] self.services@[j].name@ != name@,
            },
    {
        let n = self.services.len();
        let mut i: usize = 0;
        while i < n
            invariant
                n == self.services@.len(),
                i <= n,
                forall|j: int| 0 <= j < i ==> #[trigger] self.services@[j].name@ != name@,
            decreases n - i,
        {
            if same_text(self.services[i].name.as_str(), name) {
                return Some(i);
            }
            i = i + 1;
        }
        None
    }

    /// The name of the selected service, or nothing.
    pub fn selected_service_name(&self) -> (r: &str)
        ensures
            r@ == selected_name(*self),
    {
        proof {
            reveal_strlit("");
        }
        if self.selected < self.services.len() {
            self.services[self.selected].name.as_str()
        } else {
            ""
        }
    }

    /// How many services run.
    pub fn running_count(&self) -> (r: usize)
        ensures
            r == running_panels(self.services@),
    {
        let n = self.services.len();
        let mut count: usize = 0;
        let mut i: usize = 0;
        while i < n
            invariant
                n == self.services@.len(),
                i <= n,
                count == running_panels(self.services@.take(i as int)),
                count <= i,
            decreases n - i,
        {
            proof {
                assert(self.services@.take(i + 1).drop_last() =~= self.services@.take(i as int));
            }
            if matches!(self.services[i].status, ServiceStatus::Running) {
                count = count + 1;
            }
            i = i + 1;
        }
        proof {
            assert(self.services@.take(n as int) =~= self.services@);
        }
        count
    }

    /// How many services are watched.
    pub fn watching_count(&self) -> (r: usize)
        ensures
            r == watching_panels(self.services@),
    {
        let n = self.services.len();
        let mut count: usize = 0;
        let mut i: usize = 0;
        while i < n
            invariant
                n == self.services@.len(),
                i <= n,
                count == watching_panels(self.services@.take(i as int)),
                count <= i,
            decreases n - i,
        {
            proof {
                assert(self.services@.take(i + 1).drop_last() =~= self.services@.take(i as int));
            }
            if self.services[i].watching {
                count = count + 1;
            }
            i = i + 1;
        }
        proof {
            assert(self.services@.take(n as int) =~= self.services@);
        }
        count
    }

    /// The services the sidebar shows in `visible` rows.
    pub fn service_window_bounds(&self, visible: usize) -> (r: (usize, usize))
        ensures
            r == service_window_spec(self.services@.len() as usize, self.selected, visible),
            r.0 <= r.1 <= self.services@.len(),
    {
        let len = self.services.len();
        if len == 0 {
            return (0, 0);
        }
        if len <= visible {
            return (0, len);
        }
        let max_start = len - visible;
        let centered = self.selected.saturating_sub(visible / 2);
        let start = if centered < max_start {
            centered
        } else {
            max_start
        };
        (start, start + visible)
    }

    /// Records the exit of service `name`: stopped when `graceful`, failed
    /// otherwise.
    pub fn mark_exited(&mut self, name: &str, detail: String, graceful: bool)
        ensures
            same_view(*old(self), *final(self)),
            final(self).events == old(self).events,
            final(self).phase == old(self).phase,
            final(self).keys_help == old(self).keys_help,
            final(self).notice == old(self).notice,
            final(self).services@.len() == old(self).services@.len(),
            forall|i: int|
                0 <= i < old(self).services@.len() ==> if is_first_panel(old(self).services@, name@, i) {
                    &&& (if graceful {
                        final(self).services@[i].status matches ServiceStatus::Stopped(d) && d@
                            == detail@
                    } else {
                        final(self).services@[i].status matches ServiceStatus::Failed(d) && d@
                            == detail@
                    })
                    &&& final(self).services@[i].name == old(self).services@[i].name
                    &&& final(self).services@[i].pid == old(self).services@[i].pid
                    &&& final(self).services@[i].watching == old(self).services@[i].watching
                    &&& final(self).services@[i].last_watch_event == old(
                        self,
                    ).services@[i].last_watch_event
                    &&& final(self).services@[i].logs == old(self).services@[i].logs
                } else {
                    final(self).services@[i] == old(self).services@[i]
                },
    {
        match self.find_panel(name) {
            Some(p) => {
                let mut panel = self.services.remove(p);
                panel.status = if graceful {
                    ServiceStatus::Stopped(detail)
                } else {
                    ServiceStatus::Failed(detail)
                };
                self.services.insert(p, panel);
                proof {
                    assert forall|i: int| 0 <= i < old(self).services@.len() && i != p implies
                        !is_first_panel(old(self).services@, name@, i) by {
                        if i > p {
                            assert(old(self).services@[p as int].name@ == name@);
                        }
                    }
                }
            },
            None => {},
        }
    }
}

/// Bringing a panel in line twice with the same pid is bringing it in line
/// once.
proof fn lemma_synced_twice(o: ServicePanel, m: ServicePanel, n: ServicePanel, rp: Option<u32>)
    requires
        synced(o, m, rp),
        synced(m, n, rp),
    ensures
        synced(o, n, rp),
{
}

fn latest_watch_index(evs: &Vec<RuntimeEvent>, name: &str) -> (r: Option<usize>)
    ensures
        match r {
            Some(i) => latest_watch(evs@, name@) == Some(i as int) && i < evs@.len(),
            None => latest_watch(evs@, name@) is None,
        },
{
    let mut i: usize = evs.len();
    proof {
        assert(evs@.take(i as int) =~= evs@);
    }
    while i > 0
        invariant
            i <= evs@.len(),
            latest_watch(evs@, name@) == latest_watch(evs@.take(i as int), name@),
        decreases i,
    {
        let ghost pre = evs@.take(i as int);
        proof {
            assert(pre.drop_last() =~= evs@.take(i - 1));
        }
        let e = &evs[i - 1];
        let hit = match &e.service_name {
            Some(n) => same_text(n.as_str(), name),
            None => false,
        };
        if hit && starts_with(e.event_type.as_str(), "watch_") {
            return Some(i - 1);
        }
        i = i - 1;
    }
    None
}

impl DashboardState {
    /// Brings the panels of the configured services in line with the
    /// running processes: a running service shows its pid; a panel shown
    /// running whose service no longer runs is stopped.
    pub fn sync_running(&mut self, services: &Vec<ResolvedServiceConfig>, running: &Vec<ServiceRuntimeState>)
        ensures
            same_view(*old(self), *final(self)),
            final(self).events == old(self).events,
            final(self).phase == old(self).phase,
            final(self).keys_help == old(self).keys_help,
            final(self).notice == old(self).notice,
            final(self).services@.len() == old(self).services@.len(),
            forall|p: int|
                0 <= p < old(self).services@.len() ==> if is_first_panel(
                    old(self).services@,
                    old(self).services@[p].name@,
                    p,
                ) && configures(services@, old(self).services@[p].name@) {
                    synced(
                        old(self).services@[p],
                        #[trigger] final(self).services@[p],
                        running_pid(running@, old(self).services@[p].name@),
                    )
                } else {
                    final(self).services@[p] == old(self).services@[p]
                },
    {
        let ghost orig = self.services@;
        let n = services.len();
        let mut k: usize = 0;
        while k < n
            invariant
                n == services@.len(),
                k <= n,
                self.services@.len() == orig.len(),
                same_view(*old(self), *self),
                self.events == old(self).events,
                self.phase == old(self).phase,
                self.keys_help == old(self).keys_help,
                self.notice == old(self).notice,
                orig == old(self).services@,
                forall|p: int| 0 <= p < orig.len() ==> #[trigger] self.services@[p].name == orig[p].name,
                forall|p: int|
                    0 <= p < orig.len() ==> if is_first_panel(orig, orig[p].name@, p) && configures(
                        services@.take(k as int),
                        orig[p].name@,
                    ) {
                        synced(
                            orig[p],
                            #[trigger] self.services@[p],
                            running_pid(running@, orig[p].name@),
                        )
                    } else {
                        self.services@[p] == orig[p]
                    },
            decreases n - k,
        {
            let ghost cur = self.services@;
            let name = &services[k].name;
            let rp = find_running_pid(running, name.as_str());
            proof {
                assert forall|x: Seq<char>|
                    configures(services@.take(k + 1), x) == (configures(services@.take(k as int), x)
                        || x == name@) by {
                    let a = services@.take(k + 1);
                    let b = services@.take(k as int);
                    assert forall|j: int| 0 <= j < b.len() implies a[j] == b[j] by {}
                    assert(a[k as int] == services@[k as int]);
                    if configures(a, x) {
                        let j = choose|j: int| 0 <= j < a.len() && (#[trigger] a[j]).name@ == x;
                        if j < k {
                            assert(b[j].name@ == x);
                        }
                    }
                    if configures(b, x) {
                        let j = choose|j: int| 0 <= j < b.len() && (#[trigger] b[j]).name@ == x;
                        assert(a[j].name@ == x);
                    }
                }
            }
            match self.find_panel(name.as_str()) {
                Some(p0) => {
                    proof {
                        assert(is_first_panel(orig, name@, p0 as int)) by {
                            assert forall|j: int| 0 <= j < p0 implies orig[j].name@ != name@ by {
                                assert(cur[j].name == orig[j].name);
                            }
                        }
                    }
                    let changed = match rp {
                        Some(pid) => {
                            let mut panel = self.services.remove(p0);
                            panel.pid = pid;
                            panel.status = ServiceStatus::Running;
                            self.services.insert(p0, panel);
                            true
                        },
                        None => {
                            if matches!(self.services[p0].status, ServiceStatus::Running) {
                                let mut panel = self.services.remove(p0);
                                panel.pid = 0;
                                panel.status = ServiceStatus::Stopped("not running".to_owned());
                                self.services.insert(p0, panel);
                                true
                            } else {
                                false
                            }
                        },
                    };
                    proof {
                        assert(synced(cur[p0 as int], self.services@[p0 as int], rp));
                        if configures(services@.take(k as int), name@) {
                            lemma_synced_twice(orig[p0 as int], cur[p0 as int], self.services@[p0 as int], rp);
                        }
                        assert forall|p: int| 0 <= p < orig.len() && p != p0 implies self.services@[p]
                            == cur[p] by {}
                        assert forall|p: int|
                            0 <= p < orig.len() && p != p0 && orig[p].name@ == name@ implies !is_first_panel(
                            orig,
                            orig[p].name@,
                            p,
                        ) by {
                            if p > p0 {
                                assert(orig[p0 as int].name@ == name@);
                            }
                        }
                    }
                },
                None => {
                    proof {
                        assert forall|p: int| 0 <= p < orig.len() implies orig[p].name@ != name@ by {
                            assert(cur[p].name == orig[p].name);
                        }
                    }
                },
            }
            k = k + 1;
        }
        proof {
            assert(services@.take(n as int) =~= services@);
        }
    }

    /// Adds an output line to the panel of its service, keeping the last
    /// `MAX_LOG_LINES`; while the selected service's log is scrolled up it
    /// stays on the same lines.
    pub fn push_log(&mut self, event: LogEvent)
        ensures
            final(self).main_tab == old(self).main_tab,
            final(self).selected == old(self).selected,
            final(self).event_scroll == old(self).event_scroll,
            final(self).events == old(self).events,
            final(self).phase == old(self).phase,
            final(self).keys_help == old(self).keys_help,
            final(self).notice == old(self).notice,
            final(self).services@.len() == old(self).services@.len(),
            forall|p: int|
                0 <= p < old(self).services@.len() ==> if is_first_panel(
                    old(self).services@,
                    event.service_name@,
                    p,
                ) {
                    &&& views(final(self).services@[p].logs@) == keep_last(
                        views(old(self).services@[p].logs@).push(log_text(event.stream, event.line@)),
                        MAX_LOG_LINES as int,
                    )
                    &&& final(self).services@[p].name == old(self).services@[p].name
                    &&& final(self).services@[p].pid == old(self).services@[p].pid
                    &&& final(self).services@[p].watching == old(self).services@[p].watching
                    &&& final(self).services@[p].status == old(self).services@[p].status
                    &&& final(self).services@[p].last_watch_event == old(
                        self,
                    ).services@[p].last_watch_event
                } else {
                    final(self).services@[p] == old(self).services@[p]
                },
            final(self).log_scroll == if (exists|p: int|
                is_first_panel(old(self).services@, event.service_name@, p)) && event.service_name@
                == selected_name(*old(self)) && old(self).log_scroll > 0 {
                sat_add(old(self).log_scroll, 1)
            } else {
                old(self).log_scroll
            },
    {
        let selected: String = self.selected_service_name().to_owned();
        match self.find_panel(event.service_name.as_str()) {
            Some(p) => {
                let mut panel = self.services.remove(p);
                let tag = match event.stream {
                    LogStream::Stdout => "out",
                    LogStream::Stderr => "err",
                };
                let mut text = concat3("[", tag, "] ");
                text.append(event.line.as_str());
                let ghost before = views(panel.logs@);
                panel.logs.push(text);
                proof {
                    assert(views(panel.logs@) =~= before.push(log_text(event.stream, event.line@)));
                }
                let len = panel.logs.len();
                if len > MAX_LOG_LINES {
                    let ghost full = panel.logs@;
                    let kept = panel.logs.split_off(len - MAX_LOG_LINES);
                    panel.logs = kept;
                    proof {
                        assert(views(panel.logs@) =~= views(full).subrange(
                            len - MAX_LOG_LINES,
                            len as int,
                        ));
                    }
                }
                let same = same_text(panel.name.as_str(), selected.as_str());
                self.services.insert(p, panel);
                if same && self.log_scroll > 0 {
                    self.log_scroll = self.log_scroll.saturating_add(1);
                }
                proof {
                    assert forall|i: int|
                        0 <= i < old(self).services@.len() && i != p implies !is_first_panel(
                        old(self).services@,
                        event.service_name@,
                        i,
                    ) by {
                        if i > p {
                            assert(old(self).services@[p as int].name@ == event.service_name@);
                        }
                    }
                }
            },
            None => {
                proof {
                    assert forall|i: int| 0 <= i < old(self).services@.len() implies !is_first_panel(
                        old(self).services@,
                        event.service_name@,
                        i,
                    ) by {}
                }
            },
        }
    }

    /// Replaces the events with the last `MAX_EVENTS` of `events` and
    /// shows each service's latest watch event in its panel.
    pub fn set_events(&mut self, events: Vec<RuntimeEvent>)
        ensures
            same_view(*old(self), *final(self)),
            final(self).phase == old(self).phase,
            final(self).keys_help == old(self).keys_help,
            final(self).notice == old(self).notice,
            final(self).events@ == keep_last(events@, MAX_EVENTS as int),
            final(self).services@.len() == old(self).services@.len(),
            forall|p: int|
                0 <= p < old(self).services@.len() ==> {
                    &&& watch_summary_of(
                        final(self).events@,
                        old(self).services@[p].name@,
                        #[trigger] final(self).services@[p].last_watch_event,
                    )
                    &&& final(self).services@[p].name == old(self).services@[p].name
                    &&& final(self).services@[p].pid == old(self).services@[p].pid
                    &&& final(self).services@[p].watching == old(self).services@[p].watching
                    &&& final(self).services@[p].status == old(self).services@[p].status
                    &&& final(self).services@[p].logs == old(self).services@[p].logs
                },
    {
        let mut evs = events;
        let len = evs.len();
        if len > MAX_EVENTS {
            evs = evs.split_off(len - MAX_EVENTS);
        }
        self.events = evs;
        let ghost orig = self.services@;
        let n = self.services.len();
        let mut p: usize = 0;
        while p < n
            invariant
                n == orig.len(),
                p <= n,
                self.services@.len() == n,
                same_view(*old(self), *self),
                self.phase == old(self).phase,
                self.keys_help == old(self).keys_help,
                self.notice == old(self).notice,
                self.events@ == keep_last(events@, MAX_EVENTS as int),
                orig == old(self).services@,
                forall|q: int|
                    0 <= q < n ==> {
                        &&& (q < p ==> watch_summary_of(
                            self.events@,
                            orig[q].name@,
                            #[trigger] self.services@[q].last_watch_event,
                        ))
                        &&& (q >= p ==> self.services@[q] == orig[q])
                        &&& self.services@[q].name == orig[q].name
                        &&& self.services@[q].pid == orig[q].pid
                        &&& self.services@[q].watching == orig[q].watching
                        &&& self.services@[q].status == orig[q].status
                        &&& self.services@[q].logs == orig[q].logs
                    },
            decreases n - p,
        {
            let summary = match latest_watch_index(&self.events, self.services[p].name.as_str()) {
                Some(i) => {
                    let mut t = concat3(self.events[i].event_type.as_str(), " | ", self.events[i].detail.as_str());
                    Some(t)
                },
                None => None,
            };
            let mut panel = self.services.remove(p);
            panel.last_watch_event = summary;
            self.services.insert(p, panel);
            p = p + 1;
        }
    }

    /// Asks to restart the selected service from the running dashboard:
    /// its name, or nothing when none is selected.
    pub fn begin_restart(&mut self) -> (r: Option<String>)
        ensures
            same_view(*old(self), *final(self)),
            same_content(*old(self), *final(self)),
            selected_name(*old(self)).len() == 0 ==> r is None && final(self).notice@
                == "no service selected."@,
            selected_name(*old(self)).len() > 0 ==> (r matches Some(n) && n@ == selected_name(
                *old(self),
            ) && final(self).notice@ == "restarting "@ + n@ + "..."@),
    {
        let name: String = self.selected_service_name().to_owned();
        if name.unicode_len() == 0 {
            self.notice = "no service selected.".to_owned();
            None
        } else {
            self.notice = concat3("restarting ", name.as_str(), "...");
            Some(name)
        }
    }

    /// Shows how a restart of service `name` ended.
    pub fn after_restart(&mut self, name: &str, outcome: &ServiceRestartOutcome)
        ensures
            same_view(*old(self), *final(self)),
            same_content(*old(self), *final(self)),
            final(self).notice@ == dashboard_restart_notice(name@, *outcome),
    {
        proof {
            reveal_strlit("shutdown in progress");
        }
        self.notice = match outcome {
            ServiceRestartOutcome::Restarted => concat3("service ", name, " restarted"),
            ServiceRestartOutcome::Skipped { detail } => if same_text(detail.as_str(), "shutdown in progress") {
                "shutdown in progress; restart skipped".to_owned()
            } else {
                let mut t = concat3("failed to restart ", name, ": ");
                t.append(detail.as_str());
                t
            },
        };
    }

    /// What the post-run view does with a key's command: nothing yet,
    /// exit, or restart the selected service.
    pub fn post_run_command(&mut self, cmd: DashboardCommand) -> (r: Option<PostRunAction>)
        ensures
            same_view(*old(self), *final(self)),
            same_content(*old(self), *final(self)),
            match cmd {
                DashboardCommand::Nothing => r is None && final(self).notice == old(self).notice,
                DashboardCommand::Exit => r == Some(PostRunAction::Exit) && final(self).notice
                    == old(self).notice,
                DashboardCommand::RestartSelectedService => if selected_name(*old(self)).len() == 0 {
                    r is None && final(self).notice@ == "no service selected."@
                } else {
                    r matches Some(PostRunAction::RestartSelectedService(n)) && n@ == selected_name(
                        *old(self),
                    ) && final(self).notice == old(self).notice
                },
            },
    {
        match cmd {
            DashboardCommand::Nothing => None,
            DashboardCommand::Exit => Some(PostRunAction::Exit),
            DashboardCommand::RestartSelectedService => {
                let name: String = self.selected_service_name().to_owned();
                if name.unicode_len() == 0 {
                    self.notice = "no service selected.".to_owned();
                    None
                } else {
                    Some(PostRunAction::RestartSelectedService(name))
                }
            },
        }
    }
}

/// Moving to the next panel and back, or back and then on, returns to the
/// same panel; three moves the same way come round to it too.
pub proof fn lemma_tabs_cycle(t: DashboardTab)
    ensures
        previous_tab(next_tab(t)) == t,
        next_tab(previous_tab(t)) == t,
        next_tab(next_tab(next_tab(t))) == t,
{
}

} // verus!
