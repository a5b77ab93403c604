//! Restarts asked for by file watchers: which watchers a run starts, which
//! paths they ignore, and the pending restarts that wait out each
//! service's debounce.  Receiving watcher events, the clock and the
//! restarts themselves are left to the caller.

use vstd::prelude::*;

use crate::config::{copy_strings, ResolvedServiceConfig};
use crate::events::{detail_fields, field_texts, format_detail_fields};
use crate::name_map::{distinct_names, lemma_distinct_lookup, lookup, remove_spec, NameMap};
use crate::paths::{join, join_spec, lemma_parent_shorter, parent, parent_spec, same_path, same_path_spec};
use crate::planning::RunPlan;
use crate::runtime_state::RUNTIME_DIR;
use crate::text::{dec_digits, decimal, same_text};
use crate::watch::{WatchEvent, WatchRequest};

verus! {

/// How often a watcher looks at its paths.
pub const WATCH_POLL_INTERVAL_MS: u64 = 200;

/// A restart waiting for its service's debounce to pass.
#[derive(Debug, Clone)]
pub struct PendingWatchRestart {
    pub changed_path: String,
    pub ready_at_ms: u64,
}

/// The restarts asked for by watchers, one per service, by service name.
#[derive(Debug)]
pub struct WatchRuntime {
    pub pending: NameMap<PendingWatchRestart>,
}

/// A pending restart as plain text: the service and the changed path.
pub open spec fn pending_text(e: (Seq<char>, PendingWatchRestart)) -> (Seq<char>, Seq<char>) {
    (e.0, e.1.changed_path@)
}

/// The index of the first service named `name`.
pub open spec fn first_service(services: Seq<ResolvedServiceConfig>, name: Seq<char>, i: int) -> bool {
    &&& 0 <= i < services.len()
    &&& services[i].name@ == name
    &&& forall|k: int| 0 <= k < i ==> (#[trigger] services[k]).name@ != name
}

/// The path itself, then its parents up to (and without) `root`.
pub open spec fn ignore_chain(p: Seq<char>, root: Seq<char>) -> Seq<Seq<char>>
    decreases p.len(),
{
    seq![p] + match parent_spec(p) {
        Some(q) => if same_path_spec(q, root) {
            Seq::empty()
        } else {
            if q.len() < p.len() {
                ignore_chain(q, root)
            } else {
                Seq::empty()
            }
        },
        None => Seq::empty(),
    }
}

/// The chain of an optional log file.
pub open spec fn log_chain(file: Option<Seq<char>>, root: Seq<char>) -> Seq<Seq<char>> {
    match file {
        Some(f) => ignore_chain(f, root),
        None => Seq::empty(),
    }
}

/// The log file of a service, if it writes one.
pub open spec fn service_log_file(s: ResolvedServiceConfig) -> Option<Seq<char>> {
    match s.log {
        Some(l) => Some(l.file@),
        None => None,
    }
}

/// The chains of the log files of `services`, in order.
pub open spec fn services_chains(services: Seq<ResolvedServiceConfig>, root: Seq<char>) -> Seq<Seq<char>>
    decreases services.len(),
{
    if services.len() == 0 {
        Seq::empty()
    } else {
        services_chains(services.drop_last(), root) + log_chain(service_log_file(services.last()), root)
    }
}

/// The paths no watcher of a plan reports: the runtime directory, and each
/// log file with its parents below the project root.
pub open spec fn ignore_wanted(plan: RunPlan) -> Seq<Seq<char>> {
    let root = plan.project_root@;
    seq![join_spec(root, RUNTIME_DIR@)] + log_chain(instance_log_file(plan), root)
        + services_chains(plan.services@, root)
}

/// The instance log file of a plan, if it writes one.
pub open spec fn instance_log_file(plan: RunPlan) -> Option<Seq<char>> {
    match plan.instance_log {
        Some(l) => Some(l.file@),
        None => None,
    }
}

/// `out` holds exactly the paths of `ws`, each once (paths with the same
/// components count as one).
pub open spec fn holds_as_set(out: Seq<String>, ws: Seq<Seq<char>>) -> bool {
    &&& forall|i: int| 0 <= i < out.len() ==> ws.contains((#[trigger] out[i])@)
    &&& forall|w: Seq<char>|
        ws.contains(w) ==> exists|i: int| 0 <= i < out.len() && same_path_spec((#[trigger] out[i])@, w)
    &&& forall|i: int, j: int|
        0 <= i < j < out.len() ==> !same_path_spec((#[trigger] out[i])@, (#[trigger] out[j])@)
}

/// Adds `p` to the set `out` unless a path with its components is there.
fn add_ignored(out: &mut Vec<String>, p: String, Ghost(ws): Ghost<Seq<Seq<char>>>)
    requires
        holds_as_set(old(out)@, ws),
    ensures
        holds_as_set(final(out)@, ws.push(p@)),
{
    let n = out.len();
    let mut i: usize = 0;
    while i < n
        invariant
            n == out@.len(),
            i <= n,
            holds_as_set(out@, ws),
            forall|k: int| 0 <= k < i ==> !same_path_spec((#[trigger] out@[k])@, p@),
        decreases n - i,
    {
        if same_path(out[i].as_str(), p.as_str()) {
            proof {
                let ws2 = ws.push(p@);
                assert forall|k: int| 0 <= k < out@.len() implies ws2.contains((#[trigger] out@[k])@) by {
                    assert(ws.contains(out@[k]@));
                    let x = choose|x: int| 0 <= x < ws.len() && ws[x] == out@[k]@;
                    assert(ws2[x] == out@[k]@);
                }
                assert forall|w: Seq<char>| ws2.contains(w) implies exists|k: int|
                    0 <= k < out@.len() && same_path_spec((#[trigger] out@[k])@, w) by {
                    let x = choose|x: int| 0 <= x < ws2.len() && ws2[x] == w;
                    if x < ws.len() {
                        assert(ws.contains(w));
                    } else {
                        assert(same_path_spec(out@[i as int]@, w));
                    }
                }
            }
            return;
        }
        i = i + 1;
    }
    let ghost before = out@;
    out.push(p);
    proof {
        let ws2 = ws.push(p@);
        assert forall|k: int| 0 <= k < out@.len() implies ws2.contains((#[trigger] out@[k])@) by {
            if k < before.len() {
                assert(ws.contains(before[k]@));
                let x = choose|x: int| 0 <= x < ws.len() && ws[x] == before[k]@;
                assert(ws2[x] == before[k]@);
            } else {
                assert(ws2[ws.len() as int] == p@);
            }
        }
        assert forall|w: Seq<char>| ws2.contains(w) implies exists|k: int|
            0 <= k < out@.len() && same_path_spec((#[trigger] out@[k])@, w) by {
            let x = choose|x: int| 0 <= x < ws2.len() && ws2[x] == w;
            if x < ws.len() {
                assert(ws.contains(w));
                let k = choose|k: int| 0 <= k < before.len() && same_path_spec((#[trigger] before[k])@, w);
                assert(out@[k] == before[k]);
            } else {
                assert(same_path_spec(out@[n as int]@, w));
            }
        }
        assert forall|a: int, b: int| 0 <= a < b < out@.len() implies !same_path_spec(
            (#[trigger] out@[a])@,
            (#[trigger] out@[b])@,
        ) by {
            if b == n {
                assert(out@[a] == before[a]);
            } else {
                assert(out@[a] == before[a]);
                assert(out@[b] == before[b]);
            }
        }
    }
}

/// Adds a log file and its parents below `root` to the set `out`.
fn collect_ignore_path(
    out: &mut Vec<String>,
    root: &str,
    path: Option<&String>,
    Ghost(ws): Ghost<Seq<Seq<char>>>,
)
    requires
        holds_as_set(old(out)@, ws),
    ensures
        holds_as_set(
            final(out)@,
            ws + log_chain(
                match path {
                    Some(p) => Some(p@),
                    None => None,
                },
                root@,
            ),
        ),
{
    let p = match path {
        Some(p) => p,
        None => {
            assert(ws + Seq::<Seq<char>>::empty() =~= ws);
            return;
        },
    };
    let ghost start = p@;
    let mut current: String = p.clone();
    let ghost mut done: Seq<Seq<char>> = Seq::empty();
    proof {
        assert(ws + done =~= ws);
    }
    loop
        invariant
            holds_as_set(out@, ws + done),
            done + ignore_chain(current@, root@) == ignore_chain(start, root@),
            log_chain(
                match path {
                    Some(p) => Some(p@),
                    None => None,
                },
                root@,
            ) == ignore_chain(start, root@),
        decreases current@.len(),
    {
        let ghost chain = ignore_chain(current@, root@);
        add_ignored(out, current.clone(), Ghost(ws + done));
        proof {
            assert((ws + done).push(current@) =~= ws + done.push(current@));
            lemma_parent_shorter(current@);
        }
        match parent(current.as_str()) {
            Some(q) => {
                if same_path(q.as_str(), root) {
                    proof {
                        assert(chain =~= seq![current@]);
                        assert(done.push(current@) =~= done + chain);
                        assert(ws + done.push(current@) =~= ws + ignore_chain(start, root@));
                    }
                    return;
                }
                proof {
                    assert(chain =~= seq![current@] + ignore_chain(q@, root@));
                    assert(done.push(current@) + ignore_chain(q@, root@) =~= done + chain);
                    done = done.push(current@);
                }
                current = q;
            },
            None => {
                proof {
                    assert(chain =~= seq![current@]);
                    assert(done.push(current@) =~= done + chain);
                    assert(ws + done.push(current@) =~= ws + ignore_chain(start, root@));
                }
                return;
            },
        }
    }
}

/// The paths the watchers of a plan ignore.
pub fn watch_ignore_paths(plan: &RunPlan) -> (r: Vec<String>)
    ensures
        holds_as_set(r@, ignore_wanted(*plan)),
{
    let mut out: Vec<String> = Vec::new();
    let runtime_dir = join(plan.project_root.as_str(), RUNTIME_DIR);
    let ghost ws0: Seq<Seq<char>> = Seq::empty();
    add_ignored(&mut out, runtime_dir, Ghost(ws0));
    let ghost ws1 = ws0.push(join_spec(plan.project_root@, RUNTIME_DIR@));
    let instance_file = match &plan.instance_log {
        Some(l) => Some(&l.file),
        None => None,
    };
    collect_ignore_path(&mut out, plan.project_root.as_str(), instance_file, Ghost(ws1));
    let ghost ws2 = ws1 + log_chain(instance_log_file(*plan), plan.project_root@);
    let n = plan.services.len();
    let mut i: usize = 0;
    proof {
        assert(plan.services@.take(0) =~= Seq::<ResolvedServiceConfig>::empty());
        assert(ws2 + services_chains(plan.services@.take(0), plan.project_root@) =~= ws2);
    }
    while i < n
        invariant
            n == plan.services@.len(),
            i <= n,
            holds_as_set(out@, ws2 + services_chains(plan.services@.take(i as int), plan.project_root@)),
        decreases n - i,
    {
        let ghost before = ws2 + services_chains(plan.services@.take(i as int), plan.project_root@);
        let file = match &plan.services[i].log {
            Some(l) => Some(&l.file),
            None => None,
        };
        collect_ignore_path(&mut out, plan.project_root.as_str(), file, Ghost(before));
        proof {
            let t = plan.services@.take(i + 1);
            assert(t.drop_last() =~= plan.services@.take(i as int));
            assert(t.last() == plan.services@[i as int]);
            assert(before + log_chain(service_log_file(plan.services@[i as int]), plan.project_root@)
                =~= ws2 + services_chains(t, plan.project_root@));
        }
        i = i + 1;
    }
    proof {
        assert(plan.services@.take(n as int) =~= plan.services@);
        assert(ws2 + services_chains(plan.services@, plan.project_root@) =~= ignore_wanted(*plan));
    }
    out
}

/// The services of a plan that are watched, in order.
pub open spec fn watched_services(ss: Seq<ResolvedServiceConfig>) -> Seq<ResolvedServiceConfig>
    decreases ss.len(),
{
    if ss.len() == 0 {
        Seq::empty()
    } else {
        watched_services(ss.drop_last()) + if ss.last().watch is Some {
            seq![ss.last()]
        } else {
            Seq::empty()
        }
    }
}

/// The watcher of a watched service.
pub open spec fn request_for(r: WatchRequest, s: ResolvedServiceConfig, plan: RunPlan) -> bool {
    &&& r.service_name@ == s.name@
    &&& s.watch matches Some(w) && r.paths@ == w.paths@
    &&& holds_as_set(r.ignore_paths@, ignore_wanted(plan))
    &&& r.poll_interval_ms == WATCH_POLL_INTERVAL_MS
}

/// The watchers a run starts: one per watched service, in plan order, each
/// ignoring the plan's runtime and log paths.
pub fn watch_requests(plan: &RunPlan) -> (r: Vec<WatchRequest>)
    ensures
        r@.len() == watched_services(plan.services@).len(),
        forall|k: int|
            0 <= k < r@.len() ==> request_for(#[trigger] r@[k], watched_services(plan.services@)[k], *plan),
{
    let ignore = watch_ignore_paths(plan);
    let mut out: Vec<WatchRequest> = Vec::new();
    let n = plan.services.len();
    let mut i: usize = 0;
    proof {
        assert(plan.services@.take(0) =~= Seq::<ResolvedServiceConfig>::empty());
    }
    while i < n
        invariant
            n == plan.services@.len(),
            i <= n,
            holds_as_set(ignore@, ignore_wanted(*plan)),
            out@.len() == watched_services(plan.services@.take(i as int)).len(),
            forall|k: int|
                0 <= k < out@.len() ==> request_for(
                    #[trigger] out@[k],
                    watched_services(plan.services@.take(i as int))[k],
                    *plan,
                ),
        decreases n - i,
    {
        let ghost before = watched_services(plan.services@.take(i as int));
        let service = &plan.services[i];
        proof {
            let t = plan.services@.take(i + 1);
            assert(t.drop_last() =~= plan.services@.take(i as int));
            assert(t.last() == plan.services@[i as int]);
        }
        match &service.watch {
            Some(w) => {
                let request = WatchRequest {
                    service_name: service.name.clone(),
                    paths: copy_strings(&w.paths),
                    ignore_paths: copy_strings(&ignore),
                    poll_interval_ms: WATCH_POLL_INTERVAL_MS,
                };
                out.push(request);
                proof {
                    let after = watched_services(plan.services@.take(i + 1));
                    assert(after =~= before.push(plan.services@[i as int]));
                    assert forall|k: int| 0 <= k < out@.len() implies request_for(
                        #[trigger] out@[k],
                        after[k],
                        *plan,
                    ) by {
                        if k < before.len() {
                            assert(after[k] == before[k]);
                        }
                    }
                }
            },
            None => {
                proof {
                    let after = watched_services(plan.services@.take(i + 1));
                    assert(after =~= before);
                }
            },
        }
        i = i + 1;
    }
    proof {
        assert(plan.services@.take(n as int) =~= plan.services@);
    }
    out
}

/// The detail of a `watch_triggered` event.
pub fn watch_triggered_detail(path: &str, debounce_ms: u64) -> (r: String)
    ensures
        r@ == detail_fields(seq![("path"@, path@), ("debounce_ms"@, dec_digits(debounce_ms as nat))]),
{
    proof {
        reveal_strlit("path");
        reveal_strlit("debounce_ms");
    }
    let fields = [("path", path.to_owned()), ("debounce_ms", decimal(debounce_ms))];
    let r = format_detail_fields(&fields);
    proof {
        assert(field_texts(fields@) =~= seq![("path"@, path@), ("debounce_ms"@, dec_digits(debounce_ms as nat))]);
    }
    r
}

/// The detail of a `watch_debounced` event.
pub fn watch_debounced_detail(path: &str) -> (r: String)
    ensures
        r@ == detail_fields(seq![("path"@, path@), ("state"@, "ready"@)]),
{
    proof {
        reveal_strlit("path");
        reveal_strlit("state");
        reveal_strlit("ready");
    }
    let fields = [("path", path.to_owned()), ("state", "ready".to_owned())];
    let r = format_detail_fields(&fields);
    proof {
        assert(field_texts(fields@) =~= seq![("path"@, path@), ("state"@, "ready"@)]);
    }
    r
}

/// Whether some pending restart of `ps` is due at `now`, the first such
/// in name order being at `i`.
pub open spec fn first_due(ps: Seq<(Seq<char>, PendingWatchRestart)>, now: u64, i: int) -> bool {
    &&& 0 <= i < ps.len()
    &&& ps[i].1.ready_at_ms <= now
    &&& forall|k: int| 0 <= k < i ==> (#[trigger] ps[k]).1.ready_at_ms > now
}

/// `new_ps` is `old_ps` with a restart of `name` pending for `path`, due at
/// `ready`.
pub open spec fn recorded(
    old_ps: Seq<(Seq<char>, PendingWatchRestart)>,
    new_ps: Seq<(Seq<char>, PendingWatchRestart)>,
    name: Seq<char>,
    path: Seq<char>,
    ready: int,
) -> bool {
    &&& lookup(new_ps, name) matches Some(v) && v.changed_path@ == path && v.ready_at_ms == ready
    &&& forall|x: Seq<char>| x != name ==> #[trigger] lookup(new_ps, x) == lookup(old_ps, x)
}

/// Debounce: once a change of `name` is recorded as due at `ready`, no
/// restart of `name` is due before `ready`, and from `ready` on some
/// restart is due.
pub proof fn lemma_debounce_holds_restart(
    old_ps: Seq<(Seq<char>, PendingWatchRestart)>,
    new_ps: Seq<(Seq<char>, PendingWatchRestart)>,
    name: Seq<char>,
    path: Seq<char>,
    ready: int,
    now: u64,
)
    requires
        distinct_names(new_ps),
        recorded(old_ps, new_ps, name, path, ready),
    ensures
        now < ready ==> forall|i: int| #[trigger] first_due(new_ps, now, i) ==> new_ps[i].0 != name,
        now >= ready ==> exists|i: int| #[trigger] first_due(new_ps, now, i),
{
    let j = crate::name_map::lookup_index(new_ps, name)->Some_0;
    assert(crate::name_map::is_first(new_ps, name, j));
    assert forall|i: int| #[trigger] first_due(new_ps, now, i) && now < ready implies new_ps[i].0 != name by {
        if new_ps[i].0 == name {
            lemma_distinct_lookup(new_ps, i);
        }
    }
    if now >= ready {
        lemma_some_due(new_ps, now, j);
    }
}

proof fn lemma_some_due(ps: Seq<(Seq<char>, PendingWatchRestart)>, now: u64, j: int)
    requires
        0 <= j < ps.len(),
        ps[j].1.ready_at_ms <= now,
    ensures
        exists|i: int| #[trigger] first_due(ps, now, i),
    decreases j,
{
    if exists|k: int| 0 <= k < j && (#[trigger] ps[k]).1.ready_at_ms <= now {
        let k = choose|k: int| 0 <= k < j && (#[trigger] ps[k]).1.ready_at_ms <= now;
        lemma_some_due(ps, now, k);
    } else {
        assert(first_due(ps, now, j));
    }
}

impl WatchRuntime {
    /// No pending restarts.
    pub fn new() -> (r: Self)
        ensures
            r.pending.pairs().len() == 0,
    {
        WatchRuntime { pending: NameMap::new() }
    }

    /// Takes in a watcher's event: for the first service of the plan with
    /// that name, when it is watched, a restart is pending from now until
    /// its debounce has passed (replacing an earlier one), and the detail of
    /// the `watch_triggered` event comes back.  Events of other services
    /// are dropped.
    pub fn record_event(&mut self, plan: &RunPlan, event: &WatchEvent, now_ms: u64) -> (r: Option<String>)
        requires
            forall|i: int|
                0 <= i < plan.services@.len() ==> ((#[trigger] plan.services@[i]).watch matches Some(w)
                    ==> now_ms + w.debounce_ms <= u64::MAX),
        ensures
            match r {
                Some(detail) => exists|i: int|
                    first_service(plan.services@, event.service_name@, i) && (
                    #[trigger] plan.services@[i]).watch is Some && detail@ == detail_fields(
                        seq![("path"@, event.changed_path@), ("debounce_ms"@, dec_digits(plan.services@[i].watch.unwrap().debounce_ms as nat))],
                    ) && recorded(
                        old(self).pending.pairs(),
                        final(self).pending.pairs(),
                        event.service_name@,
                        event.changed_path@,
                        now_ms + plan.services@[i].watch.unwrap().debounce_ms,
                    ),
                None => {
                    &&& forall|i: int|
                        first_service(plan.services@, event.service_name@, i) ==> (
                        #[trigger] plan.services@[i]).watch is None
                    &&& final(self).pending.pairs() == old(self).pending.pairs()
                },
            },
    {
        let n = plan.services.len();
        let mut i: usize = 0;
        while i < n
            invariant
                n == plan.services@.len(),
                i <= n,
                self.pending.pairs() == old(self).pending.pairs(),
                forall|k: int| 0 <= k < i ==> (#[trigger] plan.services@[k]).name@ != event.service_name@,
                forall|k: int|
                    0 <= k < plan.services@.len() ==> ((#[trigger] plan.services@[k]).watch matches Some(
                        w,
                    ) ==> now_ms + w.debounce_ms <= u64::MAX),
            decreases n - i,
        {
            let service = &plan.services[i];
            if same_text(service.name.as_str(), event.service_name.as_str()) {
                proof {
                    assert(first_service(plan.services@, event.service_name@, i as int));
                    assert forall|k: int| first_service(plan.services@, event.service_name@, k) implies k
                        == i by {
                        if k < i {
                        } else if k > i {
                            assert(plan.services@[i as int].name@ == event.service_name@);
                        }
                    }
                }
                match &service.watch {
                    Some(w) => {
                        let detail = watch_triggered_detail(event.changed_path.as_str(), w.debounce_ms);
                        let pending = PendingWatchRestart {
                            changed_path: event.changed_path.clone(),
                            ready_at_ms: now_ms + w.debounce_ms,
                        };
                        self.pending.insert(service.name.clone(), pending);
                        proof {
                            assert(plan.services@[i as int].watch is Some);
                            assert(recorded(
                                old(self).pending.pairs(),
                                self.pending.pairs(),
                                event.service_name@,
                                event.changed_path@,
                                now_ms + plan.services@[i as int].watch.unwrap().debounce_ms,
                            ));
                        }
                        return Some(detail);
                    },
                    None => {
                        return None;
                    },
                }
            }
            i = i + 1;
        }
        proof {
            assert forall|k: int| first_service(plan.services@, event.service_name@, k) implies (
            #[trigger] plan.services@[k]).watch is None by {
                assert(plan.services@[k].name@ == event.service_name@);
            }
        }
        None
    }

    /// On shutdown: every pending restart as (service, changed path), in
    /// name order; none remains pending.
    pub fn drain_for_shutdown(&mut self) -> (r: Vec<(String, String)>)
        ensures
            r@.len() == old(self).pending.pairs().len(),
            forall|k: int|
                0 <= k < r@.len() ==> (#[trigger] r@[k]).0@ == old(self).pending.pairs()[k].0
                    && r@[k].1@ == old(self).pending.pairs()[k].1.changed_path@,
            final(self).pending.pairs().len() == 0,
    {
        let mut out: Vec<(String, String)> = Vec::new();
        let n = self.pending.len();
        let mut i: usize = 0;
        while i < n
            invariant
                n == self.pending.pairs().len(),
                self.pending.pairs() == old(self).pending.pairs(),
                i <= n,
                out@.len() == i,
                forall|k: int|
                    0 <= k < i ==> (#[trigger] out@[k]).0@ == old(self).pending.pairs()[k].0
                        && out@[k].1@ == old(self).pending.pairs()[k].1.changed_path@,
            decreases n - i,
        {
            let name = self.pending.name_at(i).clone();
            let path = self.pending.value_at(i).changed_path.clone();
            out.push((name, path));
            i = i + 1;
        }
        self.pending = NameMap::new();
        out
    }

    /// The first pending restart, in name order, whose debounce has passed
    /// at `now_ms`, taken out as (service, changed path).
    pub fn take_due(&mut self, now_ms: u64) -> (r: Option<(String, String)>)
        ensures
            match r {
                Some((name, path)) => exists|i: int|
                    first_due(old(self).pending.pairs(), now_ms, i) && name@ == old(
                        self,
                    ).pending.pairs()[i].0 && path@ == old(self).pending.pairs()[i].1.changed_path@
                        && final(self).pending.pairs() == old(self).pending.pairs().remove(i),
                None => {
                    &&& forall|i: int|
                        0 <= i < old(self).pending.pairs().len() ==> (#[trigger] old(
                            self,
                        ).pending.pairs()[i]).1.ready_at_ms > now_ms
                    &&& final(self).pending.pairs() == old(self).pending.pairs()
                },
            },
    {
        let n = self.pending.len();
        let mut i: usize = 0;
        while i < n
            invariant
                n == self.pending.pairs().len(),
                self.pending.pairs() == old(self).pending.pairs(),
                distinct_names(self.pending.pairs()),
                i <= n,
                forall|k: int|
                    0 <= k < i ==> (#[trigger] self.pending.pairs()[k]).1.ready_at_ms > now_ms,
            decreases n - i,
        {
            if self.pending.value_at(i).ready_at_ms <= now_ms {
                let name = self.pending.name_at(i).clone();
                let path = self.pending.value_at(i).changed_path.clone();
                proof {
                    lemma_distinct_lookup(self.pending.pairs(), i as int);
                }
                self.pending.remove(name.as_str());
                proof {
                    assert(first_due(old(self).pending.pairs(), now_ms, i as int));
                }
                return Some((name, path));
            }
            i = i + 1;
        }
        None
    }

    /// Drops the pending restart of `service_name`, if any.
    pub fn clear_pending(&mut self, service_name: &str)
        ensures
            final(self).pending.pairs() == remove_spec(old(self).pending.pairs(), service_name@),
            forall|x: Seq<char>| #[trigger]
                lookup(final(self).pending.pairs(), x) == (if x == service_name@ {
                    None
                } else {
                    lookup(old(self).pending.pairs(), x)
                }),
    {
        self.pending.remove(service_name);
    }
}

} // verus!
