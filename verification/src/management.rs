//! The `management` command: what the registry and the event logs say about
//! each running instance, summarised for display.

use vstd::prelude::*;

use crate::events::{elapsed_text, format_elapsed};
use crate::paths::{components, lemma_path_order_total, lemma_path_order_transitive, path_components, components_lt, path_order_lt};
use crate::runtime_state::{RegistryEntry, RuntimeEvent, RuntimeState, ServiceRuntimeState};
use crate::text::{concat2, concat3, dec_digits, decimal, join, join_spec, same_text, views};

verus! {

/// The latest event of an instance, for display.
#[derive(Debug, Clone)]
pub struct ManagementEventSummary {
    pub event_type: String,
    pub service_name: Option<String>,
    pub hook_name: Option<String>,
    pub action_name: Option<String>,
    pub detail: String,
    pub timestamp_unix_secs: u64,
}

/// What the events say about one service: its latest hook and action and
/// how they went.
#[derive(Debug, Clone)]
pub struct ManagementServiceSummary {
    pub service_name: String,
    pub last_hook_name: Option<String>,
    pub last_hook_status: String,
    pub last_action_name: Option<String>,
    pub last_action_status: String,
    pub last_detail: Option<String>,
}

/// One running instance, for display.
#[derive(Debug, Clone)]
pub struct ManagementEntry {
    pub tool_pid: u32,
    pub project_root: String,
    pub config_path: String,
    pub instance_log_file: Option<String>,
    pub service_names: Vec<String>,
    pub service_count: usize,
    pub alive_services: usize,
    pub started_at_unix_secs: u64,
    pub uptime_secs: u64,
    pub uptime: String,
    pub status_summary: String,
    pub last_event: Option<ManagementEventSummary>,
    pub service_summaries: Vec<ManagementServiceSummary>,
}

/// How an instance is doing, from whether its supervisor is alive, how
/// many of its services are, and whether it left runtime files behind.
pub open spec fn instance_status(
    tool_alive: bool,
    alive_services: nat,
    service_count: nat,
    has_runtime_artifacts: bool,
) -> Seq<char> {
    if service_count > 0 && alive_services == service_count && tool_alive {
        "running"@
    } else if tool_alive || alive_services > 0 {
        "partial ("@ + dec_digits(alive_services) + "/"@ + dec_digits(service_count) + " alive)"@
    } else if has_runtime_artifacts {
        "stale"@
    } else {
        "unknown"@
    }
}

pub fn summarize_instance_status(
    tool_alive: bool,
    alive_services: usize,
    service_count: usize,
    has_runtime_artifacts: bool,
) -> (r: String)
    ensures
        r@ == instance_status(
            tool_alive,
            alive_services as nat,
            service_count as nat,
            has_runtime_artifacts,
        ),
{
    proof {
        reveal_strlit("running");
        reveal_strlit("partial (");
        reveal_strlit("/");
        reveal_strlit(" alive)");
        reveal_strlit("stale");
        reveal_strlit("unknown");
    }
    if service_count > 0 && alive_services == service_count && tool_alive {
        return "running".to_owned();
    }
    if tool_alive || alive_services > 0 {
        let mut out = concat2("partial (", decimal(alive_services as u64).as_str());
        out.append("/");
        out.append(decimal(service_count as u64).as_str());
        out.append(" alive)");
        return out;
    }
    if has_runtime_artifacts {
        return "stale".to_owned();
    }
    "unknown".to_owned()
}

/// An optional string by view.
pub open spec fn opt_view(o: Option<String>) -> Option<Seq<char>> {
    match o {
        Some(s) => Some(s@),
        None => None,
    }
}

fn copy_opt(o: &Option<String>) -> (r: Option<String>)
    ensures
        opt_view(r) == opt_view(*o),
{
    match o {
        Some(s) => Some(s.clone()),
        None => None,
    }
}

/// `r` summarises the last of `events`, and is `None` when there is none.
pub open spec fn last_event_of(r: Option<ManagementEventSummary>, events: Seq<RuntimeEvent>) -> bool {
    &&& events.len() == 0 ==> r is None
    &&& events.len() > 0 ==> (r matches Some(s) && {
        let e = events.last();
        &&& s.event_type@ == e.event_type@
        &&& opt_view(s.service_name) == opt_view(e.service_name)
        &&& opt_view(s.hook_name) == opt_view(e.hook_name)
        &&& opt_view(s.action_name) == opt_view(e.action_name)
        &&& s.detail@ == e.detail@
        &&& s.timestamp_unix_secs == e.timestamp_unix_secs
    })
}

/// The summary of the last event, if there is one.
pub fn summarize_last_event(events: &Vec<RuntimeEvent>) -> (r: Option<ManagementEventSummary>)
    ensures
        last_event_of(r, events@),
{
    let n = events.len();
    if n == 0 {
        return None;
    }
    let e = &events[n - 1];
    Some(
        ManagementEventSummary {
            event_type: e.event_type.clone(),
            service_name: copy_opt(&e.service_name),
            hook_name: copy_opt(&e.hook_name),
            action_name: copy_opt(&e.action_name),
            detail: e.detail.clone(),
            timestamp_unix_secs: e.timestamp_unix_secs,
        },
    )
}

/// A service summary as plain values: last hook, its status, last action,
/// its status, last detail.
pub type SummaryView = (Option<Seq<char>>, Seq<char>, Option<Seq<char>>, Seq<char>, Option<Seq<char>>);

pub open spec fn summary_start() -> SummaryView {
    (None, "unknown"@, None, "unknown"@, None)
}

/// What event `e` changes in a summary.
pub open spec fn summary_step(s: SummaryView, e: RuntimeEvent) -> SummaryView {
    let t = e.event_type@;
    let d = Some(e.detail@);
    if t == "hook_started"@ {
        (opt_view(e.hook_name), "running"@, s.2, s.3, d)
    } else if t == "hook_finished"@ {
        (opt_view(e.hook_name), "finished"@, s.2, s.3, d)
    } else if t == "hook_failed"@ {
        (opt_view(e.hook_name), "failed"@, s.2, s.3, d)
    } else if t == "action_started"@ {
        (s.0, s.1, opt_view(e.action_name), "running"@, d)
    } else if t == "action_finished"@ {
        (s.0, s.1, opt_view(e.action_name), "finished"@, d)
    } else if t == "action_failed"@ {
        (s.0, s.1, opt_view(e.action_name), "failed"@, d)
    } else if t == "action_timed_out"@ {
        (s.0, s.1, opt_view(e.action_name), "timeout"@, d)
    } else if t == "service_stop_timeout"@ {
        (Some("after_stop_timeout"@), "timeout"@, s.2, s.3, d)
    } else {
        s
    }
}

/// The summary of service `name` after the first `k` events.
pub open spec fn summary_upto(events: Seq<RuntimeEvent>, name: Seq<char>, k: int) -> SummaryView
    decreases k,
{
    if k <= 0 || k > events.len() {
        summary_start()
    } else {
        let prev = summary_upto(events, name, k - 1);
        if opt_view(events[k - 1].service_name) == Some(name) {
            summary_step(prev, events[k - 1])
        } else {
            prev
        }
    }
}

proof fn lemma_summary_prefix(events: Seq<RuntimeEvent>, e: RuntimeEvent, name: Seq<char>, k: int)
    requires
        0 <= k <= events.len(),
    ensures
        summary_upto(events.push(e), name, k) == summary_upto(events, name, k),
    decreases k,
{
    if k > 0 {
        lemma_summary_prefix(events, e, name, k - 1);
        assert(events.push(e)[k - 1] == events[k - 1]);
    }
}

/// One more event of a service changes its summary by what the event
/// says: a hook that starts, finishes or fails becomes the last hook, as
/// running, finished or failed; an action that starts, finishes, fails or
/// times out becomes the last action, as running, finished, failed or
/// timeout; a stop timeout marks the `after_stop_timeout` hook as timed
/// out; each of these becomes the last detail, and the other half of the
/// summary stays.  Any other event, and any event of another service,
/// changes nothing.
pub proof fn lemma_summary_after_event(events: Seq<RuntimeEvent>, name: Seq<char>, e: RuntimeEvent)
    ensures
        ({
            let before = summary_upto(events, name, events.len() as int);
            let after = summary_upto(events.push(e), name, events.len() + 1int);
            let t = e.event_type@;
            let d = Some(e.detail@);
            if opt_view(e.service_name) != Some(name) {
                after == before
            } else if t == "hook_started"@ {
                after == (opt_view(e.hook_name), "running"@, before.2, before.3, d)
            } else if t == "hook_finished"@ {
                after == (opt_view(e.hook_name), "finished"@, before.2, before.3, d)
            } else if t == "hook_failed"@ {
                after == (opt_view(e.hook_name), "failed"@, before.2, before.3, d)
            } else if t == "action_started"@ {
                after == (before.0, before.1, opt_view(e.action_name), "running"@, d)
            } else if t == "action_finished"@ {
                after == (before.0, before.1, opt_view(e.action_name), "finished"@, d)
            } else if t == "action_failed"@ {
                after == (before.0, before.1, opt_view(e.action_name), "failed"@, d)
            } else if t == "action_timed_out"@ {
                after == (before.0, before.1, opt_view(e.action_name), "timeout"@, d)
            } else if t == "service_stop_timeout"@ {
                after == (Some("after_stop_timeout"@), "timeout"@, before.2, before.3, d)
            } else {
                after == before
            }
        }),
{
    lemma_summary_prefix(events, e, name, events.len() as int);
    assert(events.push(e)[events.len() as int] == e);
}

/// The event types that set a service's last hook.
pub open spec fn is_hook_event(e: RuntimeEvent) -> bool {
    e.event_type@ == "hook_started"@ || e.event_type@ == "hook_finished"@ || e.event_type@
        == "hook_failed"@ || e.event_type@ == "service_stop_timeout"@
}

proof fn lemma_hook_part_stays(events: Seq<RuntimeEvent>, name: Seq<char>, j: int, k: int)
    requires
        0 <= j < k <= events.len(),
        forall|i: int|
            j < i < events.len() && opt_view((#[trigger] events[i]).service_name) == Some(name)
                ==> !is_hook_event(events[i]),
    ensures
        summary_upto(events, name, k).0 == summary_upto(events, name, j + 1).0,
        summary_upto(events, name, k).1 == summary_upto(events, name, j + 1).1,
    decreases k,
{
    if k > j + 1 {
        lemma_hook_part_stays(events, name, j, k - 1);
    }
}

/// The hook status of a service is that of its last hook event: a failed
/// hook as `failed`, a finished one as `finished`, a started one as
/// `running`, under that hook's name, whatever came before and whatever
/// action events follow.
pub proof fn lemma_last_hook_event(events: Seq<RuntimeEvent>, name: Seq<char>, j: int)
    requires
        0 <= j < events.len(),
        opt_view(events[j].service_name) == Some(name),
        is_hook_event(events[j]),
        forall|i: int|
            j < i < events.len() && opt_view((#[trigger] events[i]).service_name) == Some(name)
                ==> !is_hook_event(events[i]),
    ensures
        ({
            let sum = summary_upto(events, name, events.len() as int);
            let t = events[j].event_type@;
            &&& t == "hook_failed"@ ==> sum.0 == opt_view(events[j].hook_name) && sum.1 == "failed"@
            &&& t == "hook_finished"@ ==> sum.0 == opt_view(events[j].hook_name) && sum.1
                == "finished"@
            &&& t == "hook_started"@ ==> sum.0 == opt_view(events[j].hook_name) && sum.1
                == "running"@
            &&& t == "service_stop_timeout"@ ==> sum.0 == Some("after_stop_timeout"@) && sum.1
                == "timeout"@
        }),
{
    lemma_hook_part_stays(events, name, j, events.len() as int);
    reveal_strlit("hook_started");
    reveal_strlit("hook_finished");
    reveal_strlit("hook_failed");
    reveal_strlit("service_stop_timeout");
    assert("hook_started"@[5] != "hook_finished"@[5]);
    assert("hook_started"@[5] != "hook_failed"@[5]);
    assert("hook_finished"@[6] != "hook_failed"@[6]);
    assert("hook_started"@[0] != "service_stop_timeout"@[0]);
    assert("hook_finished"@[0] != "service_stop_timeout"@[0]);
    assert("hook_failed"@[0] != "service_stop_timeout"@[0]);
    reveal_strlit("action_started");
    reveal_strlit("action_finished");
    reveal_strlit("action_failed");
    reveal_strlit("action_timed_out");
    assert("action_started"@[0] != "service_stop_timeout"@[0]);
    assert("action_finished"@[0] != "service_stop_timeout"@[0]);
    assert("action_failed"@[0] != "service_stop_timeout"@[0]);
    assert("action_timed_out"@[0] != "service_stop_timeout"@[0]);
    assert(summary_upto(events, name, j + 1) == summary_step(summary_upto(events, name, j), events[j]));
}

/// A service with no events yet has an unknown hook and action status and
/// no detail.
pub proof fn lemma_summary_without_events(events: Seq<RuntimeEvent>, name: Seq<char>)
    requires
        forall|i: int| 0 <= i < events.len() ==> opt_view((#[trigger] events[i]).service_name) != Some(name),
    ensures
        summary_upto(events, name, events.len() as int) == (None::<Seq<char>>, "unknown"@, None::<Seq<char>>, "unknown"@, None::<Seq<char>>),
    decreases events.len(),
{
    if events.len() > 0 {
        let prev = events.drop_last();
        lemma_summary_without_events(prev, name);
        let last = events.last();
        lemma_summary_prefix(prev, last, name, prev.len() as int);
        assert(prev.push(last) =~= events);
        assert(events[events.len() - 1] == last);
    }
}

/// The part of a service summary that the events decide, as plain values;
/// the service's name is stated beside it wherever a summary is.
pub open spec fn summary_view(s: ManagementServiceSummary) -> SummaryView {
    (
        opt_view(s.last_hook_name),
        s.last_hook_status@,
        opt_view(s.last_action_name),
        s.last_action_status@,
        opt_view(s.last_detail),
    )
}

fn apply_event(summary: &mut ManagementServiceSummary, event: &RuntimeEvent)
    ensures
        summary_view(*final(summary)) == summary_step(summary_view(*old(summary)), *event),
        final(summary).service_name == old(summary).service_name,
{
    proof {
        reveal_strlit("running");
        reveal_strlit("finished");
        reveal_strlit("failed");
        reveal_strlit("timeout");
        reveal_strlit("after_stop_timeout");
    }
    let t = event.event_type.as_str();
    if same_text(t, "hook_started") {
        summary.last_hook_name = copy_opt(&event.hook_name);
        summary.last_hook_status = "running".to_owned();
        summary.last_detail = Some(event.detail.clone());
    } else if same_text(t, "hook_finished") {
        summary.last_hook_name = copy_opt(&event.hook_name);
        summary.last_hook_status = "finished".to_owned();
        summary.last_detail = Some(event.detail.clone());
    } else if same_text(t, "hook_failed") {
        summary.last_hook_name = copy_opt(&event.hook_name);
        summary.last_hook_status = "failed".to_owned();
        summary.last_detail = Some(event.detail.clone());
    } else if same_text(t, "action_started") {
        summary.last_action_name = copy_opt(&event.action_name);
        summary.last_action_status = "running".to_owned();
        summary.last_detail = Some(event.detail.clone());
    } else if same_text(t, "action_finished") {
        summary.last_action_name = copy_opt(&event.action_name);
        summary.last_action_status = "finished".to_owned();
        summary.last_detail = Some(event.detail.clone());
    } else if same_text(t, "action_failed") {
        summary.last_action_name = copy_opt(&event.action_name);
        summary.last_action_status = "failed".to_owned();
        summary.last_detail = Some(event.detail.clone());
    } else if same_text(t, "action_timed_out") {
        summary.last_action_name = copy_opt(&event.action_name);
        summary.last_action_status = "timeout".to_owned();
        summary.last_detail = Some(event.detail.clone());
    } else if same_text(t, "service_stop_timeout") {
        summary.last_hook_name = Some(crate::config::HookName::AfterStopTimeout.as_str().to_owned());
        summary.last_hook_status = "timeout".to_owned();
        summary.last_detail = Some(event.detail.clone());
    }
}

/// `r` holds, for each of `names` in turn, what `events` say about it.
pub open spec fn summaries_of(
    r: Seq<ManagementServiceSummary>,
    events: Seq<RuntimeEvent>,
    names: Seq<Seq<char>>,
) -> bool {
    &&& r.len() == names.len()
    &&& forall|i: int|
        0 <= i < r.len() ==> (#[trigger] r[i]).service_name@ == names[i] && summary_view(r[i])
            == summary_upto(events, names[i], events.len() as int)
}

/// For each named service, what the events say about its hooks and actions.
pub fn summarize_service_events(events: &Vec<RuntimeEvent>, service_names: &Vec<String>) -> (r: Vec<
    ManagementServiceSummary,
>)
    ensures
        summaries_of(r@, events@, views(service_names@)),
{
    proof {
        reveal_strlit("unknown");
    }
    let mut out: Vec<ManagementServiceSummary> = Vec::new();
    let n = service_names.len();
    let m = events.len();
    let mut i: usize = 0;
    while i < n
        invariant
            n == service_names@.len(),
            m == events@.len(),
            i <= n,
            out@.len() == i,
            forall|j: int|
                0 <= j < i ==> (#[trigger] out@[j]).service_name@ == service_names@[j]@
                    && summary_view(out@[j]) == summary_upto(events@, service_names@[j]@, m as int),
        decreases n - i,
    {
        let name = service_names[i].as_str();
        let mut summary = ManagementServiceSummary {
            service_name: name.to_owned(),
            last_hook_name: None,
            last_hook_status: "unknown".to_owned(),
            last_action_name: None,
            last_action_status: "unknown".to_owned(),
            last_detail: None,
        };
        let mut k: usize = 0;
        while k < m
            invariant
                m == events@.len(),
                k <= m,
                summary.service_name@ == name@,
                summary_view(summary) == summary_upto(events@, name@, k as int),
            decreases m - k,
        {
            let e = &events[k];
            let matches_name = match &e.service_name {
                Some(s) => same_text(s.as_str(), name),
                None => false,
            };
            if matches_name {
                apply_event(&mut summary, e);
            }
            k = k + 1;
        }
        out.push(summary);
        i = i + 1;
    }
    out
}

/// The current time in seconds since the Unix epoch, from the system clock
/// (zero if the clock reads earlier than the epoch).  Nothing is stated of
/// the value: it is the time.
#[verifier::external_body]
fn current_unix_secs() -> (r: u64) {
    match std::time::SystemTime::now().duration_since(std::time::UNIX_EPOCH) {
        Ok(d) => d.as_secs(),
        Err(_) => 0,
    }
}

impl ManagementEntry {
    /// The entry for a registered instance at time `now`.
    pub fn from_registry_entry_at(
        entry: RegistryEntry,
        tool_alive: bool,
        alive_services: usize,
        service_count: usize,
        service_names: Vec<String>,
        has_runtime_artifacts: bool,
        last_event: Option<ManagementEventSummary>,
        service_summaries: Vec<ManagementServiceSummary>,
        now: u64,
    ) -> (r: Self)
        ensures
            r.tool_pid == entry.tool_pid,
            r.project_root == entry.project_root,
            r.config_path == entry.config_path,
            r.instance_log_file == entry.instance_log_file,
            r.service_names == service_names,
            r.service_count == service_count,
            r.alive_services == alive_services,
            r.started_at_unix_secs == entry.started_at_unix_secs,
            r.uptime_secs == (if now >= entry.started_at_unix_secs {
                now - entry.started_at_unix_secs
            } else {
                0
            }),
            r.uptime@ == elapsed_text(r.uptime_secs as nat),
            r.status_summary@ == instance_status(
                tool_alive,
                alive_services as nat,
                service_count as nat,
                has_runtime_artifacts,
            ),
            r.last_event == last_event,
            r.service_summaries == service_summaries,
    {
        let uptime_secs = now.saturating_sub(entry.started_at_unix_secs);
        let status_summary = summarize_instance_status(
            tool_alive,
            alive_services,
            service_count,
            has_runtime_artifacts,
        );
        ManagementEntry {
            tool_pid: entry.tool_pid,
            project_root: entry.project_root,
            config_path: entry.config_path,
            instance_log_file: entry.instance_log_file,
            service_names,
            service_count,
            alive_services,
            started_at_unix_secs: entry.started_at_unix_secs,
            uptime_secs,
            uptime: format_elapsed(uptime_secs),
            status_summary,
            last_event,
            service_summaries,
        }
    }

    /// The entry for a registered instance now: everything but the uptime
    /// is as `from_registry_entry_at` gives it; the uptime is what the
    /// clock says.
    pub fn from_registry_entry(
        entry: RegistryEntry,
        tool_alive: bool,
        alive_services: usize,
        service_count: usize,
        service_names: Vec<String>,
        has_runtime_artifacts: bool,
        last_event: Option<ManagementEventSummary>,
        service_summaries: Vec<ManagementServiceSummary>,
    ) -> (r: Self)
        ensures
            r.tool_pid == entry.tool_pid,
            r.project_root == entry.project_root,
            r.config_path == entry.config_path,
            r.instance_log_file == entry.instance_log_file,
            r.service_names == service_names,
            r.service_count == service_count,
            r.alive_services == alive_services,
            r.started_at_unix_secs == entry.started_at_unix_secs,
            r.uptime@ == elapsed_text(r.uptime_secs as nat),
            r.status_summary@ == instance_status(
                tool_alive,
                alive_services as nat,
                service_count as nat,
                has_runtime_artifacts,
            ),
            r.last_event == last_event,
            r.service_summaries == service_summaries,
    {
        let now = current_unix_secs();
        Self::from_registry_entry_at(
            entry,
            tool_alive,
            alive_services,
            service_count,
            service_names,
            has_runtime_artifacts,
            last_event,
            service_summaries,
            now,
        )
    }
}

/// `-` for nothing.
pub open spec fn or_dash(o: Option<Seq<char>>) -> Seq<char> {
    match o {
        Some(s) => s,
        None => "-"@,
    }
}

/// The lines that describe one instance.
pub open spec fn entry_lines(e: ManagementEntry) -> Seq<Seq<char>> {
    let services = if e.service_names@.len() == 0 {
        "-"@
    } else {
        join_spec(views(e.service_names@), ", "@)
    };
    let last = match e.last_event {
        Some(ev) => ev.event_type@,
        None => "-"@,
    };
    seq![
        "- pid "@ + dec_digits(e.tool_pid as nat) + " | status "@ + e.status_summary@
            + " | uptime "@ + e.uptime@ + " | last "@ + last + " | root "@ + e.project_root@
            + " | config "@ + e.config_path@ + " | services: "@ + services,
    ] + match e.instance_log_file {
        Some(f) => seq!["  instance_log: "@ + f@],
        None => Seq::empty(),
    } + match e.last_event {
        Some(ev) => seq![
            "  recent: service="@ + or_dash(opt_view(ev.service_name)) + " hook="@ + or_dash(
                opt_view(ev.hook_name),
            ) + " action="@ + or_dash(opt_view(ev.action_name)) + " detail="@ + ev.detail@,
        ],
        None => Seq::empty(),
    }
}

/// The lines of the first `k` instances.
pub open spec fn entries_lines(active: Seq<ManagementEntry>, k: int) -> Seq<Seq<char>>
    decreases k,
{
    if k <= 0 || k > active.len() {
        Seq::empty()
    } else {
        entries_lines(active, k - 1) + entry_lines(active[k - 1])
    }
}

/// The listing of running instances, line by line.
pub open spec fn management_lines(active: Seq<ManagementEntry>) -> Seq<Seq<char>> {
    if active.len() == 0 {
        seq!["no running onekey instances"@]
    } else {
        seq!["onekey instances: "@ + dec_digits(active.len())] + entries_lines(
            active,
            active.len() as int,
        )
    }
}

fn dash_or(o: &Option<String>) -> (r: String)
    ensures
        r@ == or_dash(opt_view(*o)),
{
    proof {
        reveal_strlit("-");
    }
    match o {
        Some(s) => s.clone(),
        None => "-".to_owned(),
    }
}

fn push_text(lines: &mut Vec<String>, line: String)
    ensures
        views(final(lines)@) == views(old(lines)@).push(line@),
{
    lines.push(line);
    proof {
        assert(views(lines@) =~= views(old(lines)@).push(line@));
    }
}

/// The lines that `management` prints for the running instances.
pub fn management_report(active: &Vec<ManagementEntry>) -> (r: Vec<String>)
    ensures
        views(r@) == management_lines(active@),
{
    proof {
        reveal_strlit("no running onekey instances");
        reveal_strlit("onekey instances: ");
        reveal_strlit("- pid ");
        reveal_strlit(" | status ");
        reveal_strlit(" | uptime ");
        reveal_strlit(" | last ");
        reveal_strlit(" | root ");
        reveal_strlit(" | config ");
        reveal_strlit(" | services: ");
        reveal_strlit("-");
        reveal_strlit("  instance_log: ");
        reveal_strlit("  recent: service=");
        reveal_strlit(" hook=");
        reveal_strlit(" action=");
        reveal_strlit(" detail=");
    }
    let mut lines: Vec<String> = Vec::new();
    let n = active.len();
    if n == 0 {
        push_text(&mut lines, "no running onekey instances".to_owned());
        return lines;
    }
    push_text(&mut lines, concat2("onekey instances: ", decimal(n as u64).as_str()));
    let ghost head = views(lines@);
    let mut i: usize = 0;
    while i < n
        invariant
            n == active@.len(),
            i <= n,
            views(lines@) == head + entries_lines(active@, i as int),
        decreases n - i,
    {
        let e = &active[i];
        let ghost before = views(lines@);
        let services = if e.service_names.len() == 0 {
            "-".to_owned()
        } else {
            join(&e.service_names, ", ")
        };
        let last = match &e.last_event {
            Some(ev) => ev.event_type.clone(),
            None => "-".to_owned(),
        };
        let mut line = concat2("- pid ", decimal(e.tool_pid as u64).as_str());
        line.append(" | status ");
        line.append(e.status_summary.as_str());
        line.append(" | uptime ");
        line.append(e.uptime.as_str());
        line.append(" | last ");
        line.append(last.as_str());
        line.append(" | root ");
        line.append(e.project_root.as_str());
        line.append(" | config ");
        line.append(e.config_path.as_str());
        line.append(" | services: ");
        line.append(services.as_str());
        push_text(&mut lines, line);
        match &e.instance_log_file {
            Some(f) => push_text(&mut lines, concat2("  instance_log: ", f.as_str())),
            None => {},
        }
        match &e.last_event {
            Some(ev) => {
                let mut recent = concat2("  recent: service=", dash_or(&ev.service_name).as_str());
                recent.append(" hook=");
                recent.append(dash_or(&ev.hook_name).as_str());
                recent.append(" action=");
                recent.append(dash_or(&ev.action_name).as_str());
                recent.append(" detail=");
                recent.append(ev.detail.as_str());
                push_text(&mut lines, recent);
            },
            None => {},
        }
        proof {
            assert(views(lines@) =~= before + entry_lines(active@[i as int]));
        }
        i = i + 1;
    }
    lines
}


/// The project root of a registry entry, as path components.
pub open spec fn root_key(e: RegistryEntry) -> Seq<Seq<char>> {
    components(e.project_root@)
}

/// No entry comes after one whose project root sorts after its own.
pub open spec fn sorted_by_root(s: Seq<RegistryEntry>) -> bool {
    forall|i: int, j: int|
        0 <= i < j < s.len() ==> !path_order_lt(#[trigger] root_key(s[j]), #[trigger] root_key(s[i]))
}

/// The registry entries ordered by project root, compared as paths; entries
/// with the same root keep their order.
pub fn sort_registry_entries(entries: Vec<RegistryEntry>) -> (r: Vec<RegistryEntry>)
    ensures
        sorted_by_root(r@),
        r@.to_multiset() == entries@.to_multiset(),
{
    broadcast use vstd::seq_lib::group_to_multiset_ensures;

    let mut rest = entries;
    let mut out: Vec<RegistryEntry> = Vec::new();
    let mut keys: Vec<Vec<String>> = Vec::new();
    let ghost all = rest@;
    proof {
        assert(out@.to_multiset().add(rest@.to_multiset()) =~= all.to_multiset());
    }
    while rest.len() > 0
        invariant
            out@.len() == keys@.len(),
            forall|k: int| 0 <= k < keys@.len() ==> views(#[trigger] keys@[k]@) == root_key(out@[k]),
            sorted_by_root(out@),
            out@.to_multiset().add(rest@.to_multiset()) == all.to_multiset(),
        decreases rest@.len(),
    {
        let ghost before_rest = rest@;
        let e = rest.remove(0);
        proof {
            vstd::seq_lib::to_multiset_remove(before_rest, 0);
        }
        let key = path_components(e.project_root.as_str());
        let n = out.len();
        let mut k: usize = 0;
        while k < n
            invariant
                n == out@.len(),
                n == keys@.len(),
                k <= n,
                forall|x: int| 0 <= x < keys@.len() ==> views(#[trigger] keys@[x]@) == root_key(out@[x]),
                views(key@) == root_key(e),
                forall|x: int| 0 <= x < k ==> !path_order_lt(root_key(e), #[trigger] root_key(out@[x])),
            ensures
                k <= n,
                forall|x: int| 0 <= x < k ==> !path_order_lt(root_key(e), #[trigger] root_key(out@[x])),
                k < n ==> path_order_lt(root_key(e), root_key(out@[k as int])),
            decreases n - k,
        {
            if components_lt(&key, &keys[k]) {
                break;
            }
            k = k + 1;
        }
        let ghost old_out = out@;
        proof {
            assert forall|j: int| k <= j < n implies !path_order_lt(
                #[trigger] root_key(old_out[j]),
                root_key(e),
            ) by {
                lemma_path_order_total(root_key(e), root_key(old_out[k as int]));
                if path_order_lt(root_key(old_out[j]), root_key(e)) {
                    if j > k {
                        lemma_path_order_transitive(
                            root_key(old_out[j]),
                            root_key(e),
                            root_key(old_out[k as int]),
                        );
                    }
                }
            }
        }
        out.insert(k, e);
        keys.insert(k, key);
        proof {
            assert(out@ == old_out.insert(k as int, e));
            assert forall|i: int, j: int| 0 <= i < j < out@.len() implies !path_order_lt(
                #[trigger] root_key(out@[j]),
                #[trigger] root_key(out@[i]),
            ) by {
                if j < k {
                } else if j == k {
                } else if i < k {
                    assert(out@[j] == old_out[j - 1]);
                } else if i == k {
                    assert(out@[j] == old_out[j - 1]);
                } else {
                    assert(out@[i] == old_out[i - 1]);
                    assert(out@[j] == old_out[j - 1]);
                }
            }
            assert forall|x: int| 0 <= x < keys@.len() implies views(#[trigger] keys@[x]@) == root_key(
                out@[x],
            ) by {
                if x > k {
                    assert(keys@[x] == keys@[x]);
                }
            }
            vstd::seq_lib::to_multiset_insert(old_out, k as int, e);
            assert(before_rest[0] == e);
            assert(before_rest.to_multiset().count(e) > 0) by {
                vstd::seq_lib::to_multiset_contains(before_rest, e);
            }
            assert(out@.to_multiset().add(rest@.to_multiset()) =~= all.to_multiset()) by {
                broadcast use vstd::multiset::group_multiset_axioms;
            }
        }
    }
    proof {
        assert(rest@.to_multiset() =~= vstd::multiset::Multiset::empty());
        assert(out@.to_multiset() =~= all.to_multiset());
    }
    out
}


/// The services of an instance: those of its recorded state when that could
/// be read, else those the registry lists.
pub open spec fn instance_service_names(entry: RegistryEntry, state: Option<RuntimeState>) -> Seq<
    Seq<char>,
> {
    match state {
        Some(st) => st.services@.map_values(|x: ServiceRuntimeState| x.service_name@),
        None => views(entry.service_names@),
    }
}

/// How many of the flags are set.
pub open spec fn count_true(s: Seq<bool>) -> nat
    decreases s.len(),
{
    if s.len() == 0 {
        0
    } else {
        count_true(s.drop_last()) + if s.last() {
            1nat
        } else {
            0nat
        }
    }
}

fn count_alive(flags: &Vec<bool>) -> (r: usize)
    ensures
        r == count_true(flags@),
{
    let n = flags.len();
    let mut c: usize = 0;
    let mut i: usize = 0;
    while i < n
        invariant
            n == flags@.len(),
            i <= n,
            c == count_true(flags@.take(i as int)),
            c <= i,
        decreases n - i,
    {
        proof {
            assert(flags@.take(i + 1).drop_last() =~= flags@.take(i as int));
        }
        if flags[i] {
            c = c + 1;
        }
        i = i + 1;
    }
    proof {
        assert(flags@.take(n as int) =~= flags@);
    }
    c
}

fn state_service_names(state: &RuntimeState) -> (r: Vec<String>)
    ensures
        views(r@) == state.services@.map_values(|x: ServiceRuntimeState| x.service_name@),
{
    let mut out: Vec<String> = Vec::new();
    let n = state.services.len();
    let mut i: usize = 0;
    while i < n
        invariant
            n == state.services@.len(),
            i <= n,
            views(out@) == state.services@.take(i as int).map_values(
                |x: ServiceRuntimeState| x.service_name@,
            ),
        decreases n - i,
    {
        let ghost prev = out@;
        let name = state.services[i].service_name.clone();
        out.push(name);
        proof {
            assert(out@ == prev.push(name));
            assert(views(out@) =~= views(prev).push(name@));
            assert(state.services@.take(i + 1) =~= state.services@.take(i as int).push(
                state.services@[i as int],
            ));
            assert(views(out@) =~= state.services@.take(i + 1).map_values(
                |x: ServiceRuntimeState| x.service_name@,
            ));
        }
        i = i + 1;
    }
    proof {
        assert(state.services@.take(n as int) =~= state.services@);
    }
    out
}

/// The entry shown for a registered instance, given what was found of it:
/// whether its supervisor is alive, whether its state and lock files
/// exist, its recorded state if that could be read, whether each recorded
/// service's process is alive, and its events.  Nothing is shown of an
/// instance of which nothing is left; its files are then to be removed.
pub fn management_entry(
    entry: RegistryEntry,
    tool_alive: bool,
    state_exists: bool,
    lock_exists: bool,
    state: Option<RuntimeState>,
    services_alive: &Vec<bool>,
    events: &Vec<RuntimeEvent>,
) -> (r: Option<ManagementEntry>)
    ensures
        r is None <==> !(tool_alive || state_exists || lock_exists),
        r matches Some(m) ==> {
            &&& m.tool_pid == entry.tool_pid
            &&& m.project_root == entry.project_root
            &&& m.config_path == entry.config_path
            &&& m.instance_log_file == entry.instance_log_file
            &&& m.started_at_unix_secs == entry.started_at_unix_secs
            &&& views(m.service_names@) == instance_service_names(entry, state)
            &&& m.service_count == m.service_names@.len()
            &&& m.alive_services == (if state is Some {
                count_true(services_alive@)
            } else {
                0
            })
            &&& m.status_summary@ == instance_status(
                tool_alive,
                m.alive_services as nat,
                m.service_count as nat,
                state_exists || lock_exists,
            )
            &&& m.uptime@ == elapsed_text(m.uptime_secs as nat)
            &&& last_event_of(m.last_event, events@)
            &&& summaries_of(m.service_summaries@, events@, views(m.service_names@))
        },
{
    if !(tool_alive || state_exists || lock_exists) {
        return None;
    }
    let (service_names, alive_services) = match &state {
        Some(st) => (state_service_names(st), count_alive(services_alive)),
        None => (crate::config::copy_strings(&entry.service_names), 0),
    };
    let service_count = service_names.len();
    let last_event = summarize_last_event(events);
    let service_summaries = summarize_service_events(events, &service_names);
    Some(
        ManagementEntry::from_registry_entry(
            entry,
            tool_alive,
            alive_services,
            service_count,
            service_names,
            state_exists || lock_exists,
            last_event,
            service_summaries,
        ),
    )
}

} // verus!
