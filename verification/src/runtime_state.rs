//! What a running instance records about itself: its state, its event log,
//! and its entry in the machine-wide registry of instances.

use vstd::prelude::*;

use crate::error::{AppError, AppResult, ExitCode};
use crate::paths::{join, join_spec, same_path, same_path_spec};
use crate::text::{concat3, dec_digits, decimal, is_blank, is_blank_spec, same_text, views};

verus! {

/// The directory under the project root that holds runtime files.
pub const RUNTIME_DIR: &'static str = ".onekey-run";

pub const STATE_FILE: &'static str = "state.json";

pub const LOCK_FILE: &'static str = "lock.json";

pub const EVENTS_FILE: &'static str = "events.jsonl";

/// The directory under the system temporary directory that holds the
/// registry.
pub const REGISTRY_DIR: &'static str = "onekey-run";

pub const REGISTRY_FILE: &'static str = "registry.json";

/// The recorded state of a running instance.
#[derive(Debug, Clone)]
pub struct RuntimeState {
    pub instance_id: String,
    pub project_root: String,
    pub config_path: String,
    pub instance_log_file: Option<String>,
    pub tool_pid: u32,
    pub started_at_unix_secs: u64,
    pub services: Vec<ServiceRuntimeState>,
}

/// One entry of the event log.
#[derive(Debug, Clone)]
pub struct RuntimeEvent {
    pub timestamp_unix_secs: u64,
    pub event_type: String,
    pub service_name: Option<String>,
    pub hook_name: Option<String>,
    pub action_name: Option<String>,
    pub detail: String,
}

/// A running service as recorded.
#[derive(Debug, Clone)]
pub struct ServiceRuntimeState {
    pub service_name: String,
    pub pid: u32,
    pub cwd: String,
    pub executable: String,
    pub args: Vec<String>,
    pub log_file: Option<String>,
    pub stop_signal: Option<String>,
    pub stop_timeout_secs: u64,
    pub platform: PlatformRuntimeState,
}

/// Platform details of a running service.
#[derive(Debug, Clone, Copy, Default)]
pub struct PlatformRuntimeState {
    pub process_group_id: Option<i32>,
}

/// An instance as the registry lists it.
#[derive(Debug, Clone)]
pub struct RegistryEntry {
    pub project_root: String,
    pub config_path: String,
    pub instance_log_file: Option<String>,
    pub tool_pid: u32,
    pub started_at_unix_secs: u64,
    pub service_names: Vec<String>,
}

/// The lock an instance holds on its project while it runs.
#[derive(Debug)]
pub struct RuntimeLock {
    pub lock_path: String,
}

/// The identifier of an instance: its process id and start time.
pub open spec fn instance_id_text(pid: u32, started: u64) -> Seq<char> {
    dec_digits(pid as nat) + "-"@ + dec_digits(started as nat)
}

pub fn generate_instance_id(pid: u32, started_at_unix_secs: u64) -> (r: String)
    ensures
        r@ == instance_id_text(pid, started_at_unix_secs),
{
    proof {
        reveal_strlit("-");
    }
    concat3(decimal(pid as u64).as_str(), "-", decimal(started_at_unix_secs).as_str())
}

impl RuntimeState {
    /// The state of an instance of process `tool_pid` started at
    /// `started_at_unix_secs`, with no service running yet.
    pub fn new(
        project_root: String,
        config_path: String,
        instance_log_file: Option<String>,
        tool_pid: u32,
        started_at_unix_secs: u64,
    ) -> (r: Self)
        ensures
            r.instance_id@ == instance_id_text(tool_pid, started_at_unix_secs),
            r.project_root == project_root,
            r.config_path == config_path,
            r.instance_log_file == instance_log_file,
            r.tool_pid == tool_pid,
            r.started_at_unix_secs == started_at_unix_secs,
            r.services@.len() == 0,
    {
        RuntimeState {
            instance_id: generate_instance_id(tool_pid, started_at_unix_secs),
            project_root,
            config_path,
            instance_log_file,
            tool_pid,
            started_at_unix_secs,
            services: Vec::new(),
        }
    }
}

/// The path of a runtime file of the project at `project_root`.
pub open spec fn runtime_file(project_root: Seq<char>, file: Seq<char>) -> Seq<char> {
    join_spec(join_spec(project_root, ".onekey-run"@), file)
}

pub fn state_path(project_root: &str) -> (r: String)
    ensures
        r@ == runtime_file(project_root@, "state.json"@),
{
    join(join(project_root, RUNTIME_DIR).as_str(), STATE_FILE)
}

pub fn events_path(project_root: &str) -> (r: String)
    ensures
        r@ == runtime_file(project_root@, "events.jsonl"@),
{
    join(join(project_root, RUNTIME_DIR).as_str(), EVENTS_FILE)
}

pub fn lock_path(project_root: &str) -> (r: String)
    ensures
        r@ == runtime_file(project_root@, "lock.json"@),
{
    join(join(project_root, RUNTIME_DIR).as_str(), LOCK_FILE)
}

/// The registry entries that do not belong to `project_root`, in order.
pub open spec fn entries_without(entries: Seq<RegistryEntry>, project_root: Seq<char>) -> Seq<
    RegistryEntry,
>
    decreases entries.len(),
{
    if entries.len() == 0 {
        Seq::empty()
    } else {
        entries_without(entries.drop_last(), project_root) + if !same_path_spec(
            entries.last().project_root@,
            project_root,
        ) {
            seq![entries.last()]
        } else {
            Seq::empty()
        }
    }
}

/// The entry that registers `state`.
pub open spec fn entry_for(e: RegistryEntry, state: RuntimeState) -> bool {
    &&& e.project_root@ == state.project_root@
    &&& e.config_path@ == state.config_path@
    &&& e.instance_log_file == state.instance_log_file
    &&& e.tool_pid == state.tool_pid
    &&& e.started_at_unix_secs == state.started_at_unix_secs
    &&& views(e.service_names@) == state.services@.map_values(
        |s: ServiceRuntimeState| s.service_name@,
    )
}

fn keep_others(entries: Vec<RegistryEntry>, project_root: &str) -> (r: Vec<RegistryEntry>)
    ensures
        r@ == entries_without(entries@, project_root@),
{
    let ghost src = entries@;
    let mut rest = entries;
    let mut out: Vec<RegistryEntry> = Vec::new();
    let n = rest.len();
    while rest.len() > 0
        invariant
            n == src.len(),
            rest@.len() <= n,
            rest@ == src.skip(n - rest@.len()),
            out@ == entries_without(src.take(n - rest@.len()), project_root@),
        decreases rest@.len(),
    {
        let ghost k = n - rest@.len();
        let e = rest.remove(0);
        proof {
            assert(e == src[k]);
            assert(rest@ =~= src.skip(k + 1));
            assert(src.take(k + 1).drop_last() =~= src.take(k));
            assert(src.take(k + 1).last() == src[k]);
        }
        if !same_path(e.project_root.as_str(), project_root) {
            out.push(e);
        }
        proof {
            assert(out@ =~= entries_without(src.take(k + 1), project_root@));
        }
    }
    proof {
        assert(src.take(n as int) =~= src);
    }
    out
}

/// The registry after instance `state` registers: any earlier entry for its
/// project is replaced by a new one at the end.
pub fn register_instance(entries: Vec<RegistryEntry>, state: &RuntimeState) -> (r: Vec<
    RegistryEntry,
>)
    ensures
        r@.len() == entries_without(entries@, state.project_root@).len() + 1,
        r@.drop_last() == entries_without(entries@, state.project_root@),
        entry_for(r@.last(), *state),
{
    let mut out = keep_others(entries, state.project_root.as_str());
    let mut names: Vec<String> = Vec::new();
    let n = state.services.len();
    let mut i: usize = 0;
    while i < n
        invariant
            n == state.services@.len(),
            i <= n,
            views(names@) == state.services@.map_values(|s: ServiceRuntimeState| s.service_name@).take(
                i as int,
            ),
        decreases n - i,
    {
        let ghost prev = names@;
        let name = state.services[i].service_name.clone();
        names.push(name);
        proof {
            assert(views(names@) =~= views(prev).push(name@));
            assert(state.services@.map_values(|s: ServiceRuntimeState| s.service_name@).take(i + 1)
                =~= state.services@.map_values(|s: ServiceRuntimeState| s.service_name@).take(
                i as int,
            ).push(name@));
        }
        i = i + 1;
    }
    proof {
        assert(state.services@.map_values(|s: ServiceRuntimeState| s.service_name@).take(n as int)
            =~= state.services@.map_values(|s: ServiceRuntimeState| s.service_name@));
    }
    let ghost before = out@;
    let entry = RegistryEntry {
        project_root: state.project_root.clone(),
        config_path: state.config_path.clone(),
        instance_log_file: crate::config::copy_opt(&state.instance_log_file),
        tool_pid: state.tool_pid,
        started_at_unix_secs: state.started_at_unix_secs,
        service_names: names,
    };
    out.push(entry);
    proof {
        assert(out@.drop_last() =~= before);
    }
    out
}

/// The registry after the instance of `project_root` leaves it, or `None`
/// when it had no entry and nothing needs writing.
pub fn unregister_instance(entries: Vec<RegistryEntry>, project_root: &str) -> (r: Option<
    Vec<RegistryEntry>,
>)
    ensures
        entries_without(entries@, project_root@).len() == entries@.len() ==> r is None,
        entries_without(entries@, project_root@).len() != entries@.len() ==> (r matches Some(v)
            && v@ == entries_without(entries@, project_root@)),
{
    let count_before = entries.len();
    let kept = keep_others(entries, project_root);
    if kept.len() == count_before {
        return None;
    }
    Some(kept)
}


/// No entry that remains belongs to the removed project, and every one of
/// them was there before.
pub proof fn lemma_without_excludes(entries: Seq<RegistryEntry>, project_root: Seq<char>)
    ensures
        forall|i: int|
            0 <= i < entries_without(entries, project_root).len() ==> !same_path_spec(
                (#[trigger] entries_without(entries, project_root)[i]).project_root@,
                project_root,
            ),
        forall|i: int|
            0 <= i < entries_without(entries, project_root).len() ==> entries.contains(
                #[trigger] entries_without(entries, project_root)[i],
            ),
        entries_without(entries, project_root).len() <= entries.len(),
    decreases entries.len(),
{
    if entries.len() > 0 {
        lemma_without_excludes(entries.drop_last(), project_root);
        let w = entries_without(entries, project_root);
        let p = entries_without(entries.drop_last(), project_root);
        assert forall|i: int| 0 <= i < w.len() implies entries.contains(#[trigger] w[i]) by {
            if i < p.len() {
                let j = choose|j: int| 0 <= j < entries.drop_last().len() && entries.drop_last()[j]
                    == p[i];
                assert(entries[j] == p[i]);
            } else {
                assert(w[i] == entries.last());
                assert(entries[entries.len() - 1] == entries.last());
            }
        }
    }
}

/// Removing a project twice is removing it once.
pub proof fn lemma_without_idempotent(entries: Seq<RegistryEntry>, project_root: Seq<char>)
    ensures
        entries_without(entries_without(entries, project_root), project_root) == entries_without(
            entries,
            project_root,
        ),
    decreases entries.len(),
{
    if entries.len() > 0 {
        lemma_without_idempotent(entries.drop_last(), project_root);
        let p = entries_without(entries.drop_last(), project_root);
        let w = entries_without(entries, project_root);
        if !same_path_spec(entries.last().project_root@, project_root) {
            assert(w.drop_last() =~= p);
            assert(w.last() == entries.last());
        } else {
            assert(w =~= p);
        }
    }
}

/// Unregistering never makes the registry longer, and unregistering the
/// same project a second time finds no entry of it, so (by
/// `unregister_instance`) it leaves the registry as it is.
pub proof fn lemma_unregister_twice(entries: Seq<RegistryEntry>, project_root: Seq<char>)
    ensures
        entries_without(entries, project_root).len() <= entries.len(),
        entries_without(entries_without(entries, project_root), project_root).len()
            == entries_without(entries, project_root).len(),
        entries_without(entries_without(entries, project_root), project_root) == entries_without(
            entries,
            project_root,
        ),
{
    lemma_without_excludes(entries, project_root);
    lemma_without_idempotent(entries, project_root);
}

/// After an instance registers, its project has exactly one entry, the
/// last one; unregistering it then gives back every other entry, in order.
pub proof fn lemma_register_then_unregister(
    entries: Seq<RegistryEntry>,
    registered: Seq<RegistryEntry>,
    state: RuntimeState,
)
    requires
        registered.len() == entries_without(entries, state.project_root@).len() + 1,
        registered.drop_last() == entries_without(entries, state.project_root@),
        entry_for(registered.last(), state),
    ensures
        forall|i: int|
            0 <= i < registered.len() - 1 ==> !same_path_spec(
                (#[trigger] registered[i]).project_root@,
                state.project_root@,
            ),
        entries_without(registered, state.project_root@) == entries_without(
            entries,
            state.project_root@,
        ),
        entries_without(registered, state.project_root@).len() != registered.len(),
{
    let root = state.project_root@;
    lemma_without_excludes(entries, root);
    assert forall|i: int| 0 <= i < registered.len() - 1 implies !same_path_spec(
        (#[trigger] registered[i]).project_root@,
        root,
    ) by {
        assert(registered[i] == registered.drop_last()[i]);
    }
    lemma_without_idempotent(entries, root);
    assert(entries_without(registered, root) =~= entries_without(registered.drop_last(), root));
}

/// The recorded services other than `name`, in order.
pub open spec fn services_without(ss: Seq<ServiceRuntimeState>, name: Seq<char>) -> Seq<
    ServiceRuntimeState,
>
    decreases ss.len(),
{
    if ss.len() == 0 {
        Seq::empty()
    } else {
        services_without(ss.drop_last(), name) + if ss.last().service_name@ != name {
            seq![ss.last()]
        } else {
            Seq::empty()
        }
    }
}

impl RuntimeState {
    /// Drops the record of service `name`.
    pub fn forget_service(&mut self, name: &str)
        ensures
            final(self).services@ == services_without(old(self).services@, name@),
            final(self).instance_id == old(self).instance_id,
            final(self).project_root == old(self).project_root,
            final(self).config_path == old(self).config_path,
            final(self).instance_log_file == old(self).instance_log_file,
            final(self).tool_pid == old(self).tool_pid,
            final(self).started_at_unix_secs == old(self).started_at_unix_secs,
    {
        let mut rest: Vec<ServiceRuntimeState> = Vec::new();
        std::mem::swap(&mut rest, &mut self.services);
        let ghost src = rest@;
        let n = rest.len();
        let mut out: Vec<ServiceRuntimeState> = Vec::new();
        while rest.len() > 0
            invariant
                n == src.len(),
                rest@.len() <= n,
                rest@ == src.skip(n - rest@.len()),
                out@ == services_without(src.take(n - rest@.len()), name@),
            decreases rest@.len(),
        {
            let ghost k = n - rest@.len();
            let e = rest.remove(0);
            proof {
                assert(e == src[k]);
                assert(rest@ =~= src.skip(k + 1));
                assert(src.take(k + 1).drop_last() =~= src.take(k));
                assert(src.take(k + 1).last() == src[k]);
            }
            if !same_text(e.service_name.as_str(), name) {
                out.push(e);
            }
            proof {
                assert(out@ =~= services_without(src.take(k + 1), name@));
            }
        }
        proof {
            assert(src.take(n as int) =~= src);
        }
        self.services = out;
    }

    /// Records service `entry` as running, in place of any earlier record of
    /// the same service.
    pub fn record_service(&mut self, entry: ServiceRuntimeState)
        ensures
            final(self).services@ == services_without(old(self).services@, entry.service_name@).push(
                entry,
            ),
            final(self).instance_id == old(self).instance_id,
            final(self).project_root == old(self).project_root,
            final(self).config_path == old(self).config_path,
            final(self).instance_log_file == old(self).instance_log_file,
            final(self).tool_pid == old(self).tool_pid,
            final(self).started_at_unix_secs == old(self).started_at_unix_secs,
    {
        self.forget_service(entry.service_name.as_str());
        self.services.push(entry);
    }
}

/// The pieces of `s` between newlines, empty ones included.
pub open spec fn newline_pieces(s: Seq<char>) -> Seq<Seq<char>>
    decreases s.len(),
{
    if s.len() == 0 {
        seq![Seq::empty()]
    } else {
        let r = newline_pieces(s.drop_last());
        if s.last() == '\n' {
            r.push(Seq::empty())
        } else {
            r.update(r.len() - 1, r.last().push(s.last()))
        }
    }
}

proof fn lemma_newline_pieces_nonempty(s: Seq<char>)
    ensures
        newline_pieces(s).len() >= 1,
    decreases s.len(),
{
    if s.len() > 0 {
        lemma_newline_pieces_nonempty(s.drop_last());
    }
}

/// A line without the carriage return of its `\r\n` ending.
pub open spec fn strip_cr(p: Seq<char>) -> Seq<char> {
    if p.len() > 0 && p.last() == '\r' {
        p.drop_last()
    } else {
        p
    }
}

/// The lines of `s` as `str::lines` gives them: split at `\n`, a `\r`
/// before it dropped, no empty line after a final line ending.
pub open spec fn text_lines(s: Seq<char>) -> Seq<Seq<char>> {
    let p = newline_pieces(s);
    let ended = p.drop_last().map_values(|x: Seq<char>| strip_cr(x));
    if p.last().len() == 0 {
        ended
    } else {
        ended.push(p.last())
    }
}

/// The lines that are not blank, each with its line number from 1.
pub open spec fn numbered_records(ls: Seq<Seq<char>>) -> Seq<(int, Seq<char>)>
    decreases ls.len(),
{
    if ls.len() == 0 {
        Seq::empty()
    } else {
        numbered_records(ls.drop_last()) + if is_blank_spec(ls.last()) {
            Seq::empty()
        } else {
            seq![(ls.len() as int, ls.last())]
        }
    }
}

/// The records of a JSON-lines text: its lines that are not blank, each
/// with its line number, counting from 1.
pub fn json_lines(raw: &str) -> (r: Vec<(usize, String)>)
    ensures
        r@.map_values(|x: (usize, String)| (x.0 as int, x.1@)) == numbered_records(text_lines(raw@)),
{
    let n = raw.unicode_len();
    let mut out: Vec<(usize, String)> = Vec::new();
    let mut start: usize = 0;
    let mut count: usize = 0;
    let mut i: usize = 0;
    let ghost f = |x: (usize, String)| (x.0 as int, x.1@);
    let ghost g = |x: Seq<char>| strip_cr(x);
    proof {
        assert(raw@.take(0) =~= Seq::<char>::empty());
        assert(newline_pieces(raw@.take(0)) =~= seq![Seq::<char>::empty()]);
        assert(newline_pieces(raw@.take(0)).drop_last() =~= Seq::<Seq<char>>::empty());
        assert(raw@.subrange(0, 0) =~= Seq::<char>::empty());
        assert(out@.map_values(f) =~= Seq::<(int, Seq<char>)>::empty());
        assert(Seq::<Seq<char>>::empty().map_values(g) =~= Seq::<Seq<char>>::empty());
    }
    while i < n
        invariant
            n == raw@.len(),
            i <= n,
            start <= i,
            forall|x: (usize, String)| #[trigger] f(x) == (x.0 as int, x.1@),
            forall|x: Seq<char>| #[trigger] g(x) == strip_cr(x),
            newline_pieces(raw@.take(i as int)).len() == count + 1,
            count <= start,
            raw@.subrange(start as int, i as int) == newline_pieces(raw@.take(i as int)).last(),
            out@.map_values(f) == numbered_records(
                newline_pieces(raw@.take(i as int)).drop_last().map_values(g),
            ),
        decreases n - i,
    {
        let c = raw.get_char(i);
        let ghost old_pieces = newline_pieces(raw@.take(i as int));
        proof {
            assert(raw@.take(i + 1).drop_last() =~= raw@.take(i as int));
            assert(raw@.take(i + 1).last() == c);
            lemma_newline_pieces_nonempty(raw@.take(i as int));
        }
        if c == '\n' {
            let piece = raw.substring_char(start, i);
            let m = piece.unicode_len();
            let line = if m > 0 && piece.get_char(m - 1) == '\r' {
                piece.substring_char(0, m - 1)
            } else {
                piece
            };
            proof {
                if m > 0 && piece@[m - 1] == '\r' {
                    assert(line@ =~= piece@.drop_last());
                }
                assert(line@ == strip_cr(old_pieces.last()));
                let new_pieces = newline_pieces(raw@.take(i + 1));
                assert(new_pieces == old_pieces.push(Seq::empty()));
                assert(new_pieces.drop_last() =~= old_pieces);
                assert(old_pieces =~= old_pieces.drop_last().push(old_pieces.last()));
                assert(old_pieces.map_values(g) =~= old_pieces.drop_last().map_values(g).push(line@));
                assert(old_pieces.map_values(g).drop_last() =~= old_pieces.drop_last().map_values(g));
                assert(new_pieces.last() =~= raw@.subrange(i + 1, i + 1));
            }
            let ghost before = out@;
            count = count + 1;
            if !is_blank(line) {
                out.push((count, line.to_owned()));
                proof {
                    assert(out@.map_values(f) =~= before.map_values(f).push((count as int, line@)));
                }
            }
            proof {
                assert(out@.map_values(f) =~= numbered_records(old_pieces.map_values(g)));
            }
            start = i + 1;
        } else {
            proof {
                let new_pieces = newline_pieces(raw@.take(i + 1));
                assert(new_pieces == old_pieces.update(old_pieces.len() - 1, old_pieces.last().push(c)));
                assert(new_pieces.drop_last() =~= old_pieces.drop_last());
                assert(raw@.subrange(start as int, i + 1) =~= raw@.subrange(start as int, i as int).push(c));
            }
        }
        i = i + 1;
    }
    proof {
        assert(raw@.take(n as int) =~= raw@);
        lemma_newline_pieces_nonempty(raw@);
    }
    let ghost pieces = newline_pieces(raw@);
    let ghost ended = pieces.drop_last().map_values(g);
    proof {
        assert(ended =~= pieces.drop_last().map_values(|x: Seq<char>| strip_cr(x)));
    }
    if start < n {
        let last = raw.substring_char(start, n);
        let ghost before = out@;
        proof {
            assert(ended.push(last@).drop_last() =~= ended);
        }
        if !is_blank(last) {
            out.push((count + 1, last.to_owned()));
            proof {
                assert(out@.map_values(f) =~= before.map_values(f).push((count + 1, last@)));
            }
        }
        proof {
            assert(out@.map_values(f) =~= numbered_records(ended.push(last@)));
        }
    } else {
        proof {
            assert(pieces.last() =~= Seq::<char>::empty());
        }
    }
    proof {
        assert(out@.map_values(f) =~= out@.map_values(|x: (usize, String)| (x.0 as int, x.1@)));
    }
    out
}

/// What the lock file of a running instance holds.
#[derive(Debug, Clone)]
pub struct LockRecord {
    pub instance_id: String,
    pub tool_pid: u32,
    pub project_root: String,
}

/// The error when a live instance holds the lock.
pub open spec fn lock_held_message(pid: u32, lock_path: Seq<char>) -> Seq<char> {
    "project is already running under pid "@ + dec_digits(pid as nat) + "; remove "@ + lock_path
        + " only if you are sure it is stale"@
}

/// What comes of finding a lock already there: an error while the instance
/// that holds it is alive; otherwise the lock is stale, and the caller
/// removes the runtime files and takes the lock again.
pub fn existing_lock_outcome(owner_alive: bool, owner_pid: u32, lock_path: &str) -> (r: AppResult<()>)
    ensures
        owner_alive ==> (r matches Err(e) && e.exit_code == ExitCode::StartupFailed && e.message@
            == lock_held_message(owner_pid, lock_path@)),
        !owner_alive ==> r is Ok,
{
    if owner_alive {
        let mut m = concat3("project is already running under pid ", decimal(owner_pid as u64).as_str(), "; remove ");
        m.append(lock_path);
        m.append(" only if you are sure it is stale");
        Err(AppError::startup_failed(m))
    } else {
        Ok(())
    }
}

} // verus!
