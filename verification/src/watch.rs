//! Watching the files of a service: what a snapshot of the watched paths
//! holds, which paths are ignored, and which path a new snapshot reports
//! as changed.  Reading the file system is left to the caller.

use vstd::prelude::*;

use crate::paths::{
    components, lemma_path_order_irreflexive, lemma_path_order_total, lemma_path_order_transitive,
    path_components, path_order_lt, path_starts_with, path_starts_with_spec, same_components,
    same_path, same_path_spec, components_lt,
};
use crate::text::views;

verus! {

/// A change seen by the watcher of a service.
#[derive(Clone, Debug, PartialEq, Eq)]
pub struct WatchEvent {
    pub service_name: String,
    pub changed_path: String,
}

/// What one watcher watches: the paths of a service, the paths it never
/// reports, and how often it looks.
#[derive(Clone, Debug)]
pub struct WatchRequest {
    pub service_name: String,
    pub paths: Vec<String>,
    pub ignore_paths: Vec<String>,
    pub poll_interval_ms: u64,
}

/// The kind of a file system entry.
#[derive(Clone, Copy, Debug, PartialEq, Eq, Structural)]
pub enum EntryKind {
    File,
    Dir,
    Symlink,
}

/// What a snapshot records of an entry.
#[derive(Clone, Copy, Debug, PartialEq, Eq, Structural)]
pub struct PathFingerprint {
    pub kind: EntryKind,
    pub len: u64,
    pub modified_nanos: u128,
}

/// One path of a snapshot and what was seen there.
#[derive(Clone, Debug)]
pub struct SnapshotEntry {
    pub path: String,
    pub fingerprint: PathFingerprint,
}

/// The fingerprint of an entry: a directory, else a symbolic link, else a
/// file; its length; its modification time in nanoseconds since the epoch,
/// or 0 when unknown.
pub fn fingerprint_for(is_dir: bool, is_symlink: bool, len: u64, modified_nanos: Option<u128>) -> (r:
    PathFingerprint)
    ensures
        r.kind == (if is_dir {
            EntryKind::Dir
        } else if is_symlink {
            EntryKind::Symlink
        } else {
            EntryKind::File
        }),
        r.len == len,
        r.modified_nanos == (match modified_nanos {
            Some(n) => n,
            None => 0,
        }),
{
    let kind = if is_dir {
        EntryKind::Dir
    } else if is_symlink {
        EntryKind::Symlink
    } else {
        EntryKind::File
    };
    let modified = match modified_nanos {
        Some(n) => n,
        None => 0,
    };
    PathFingerprint { kind, len, modified_nanos: modified }
}

/// Whether `path` is one of `ignore` or lies under one of them.
pub open spec fn is_ignored_spec(path: Seq<char>, ignore: Seq<String>) -> bool {
    exists|j: int|
        0 <= j < ignore.len() && (same_path_spec(path, (#[trigger] ignore[j])@)
            || path_starts_with_spec(path, ignore[j]@))
}

/// Whether the watcher skips `path`.
pub fn is_ignored_path(path: &str, ignore_paths: &Vec<String>) -> (r: bool)
    ensures
        r == is_ignored_spec(path@, ignore_paths@),
{
    let n = ignore_paths.len();
    let mut i: usize = 0;
    while i < n
        invariant
            n == ignore_paths@.len(),
            i <= n,
            forall|j: int|
                0 <= j < i ==> !(same_path_spec(path@, (#[trigger] ignore_paths@[j])@)
                    || path_starts_with_spec(path@, ignore_paths@[j]@)),
        decreases n - i,
    {
        let ignored = ignore_paths[i].as_str();
        if same_path(path, ignored) || path_starts_with(path, ignored) {
            proof {
                assert(ignore_paths@[i as int]@ == ignored@);
            }
            return true;
        }
        i = i + 1;
    }
    false
}

/// The components of an entry's path.
pub open spec fn entry_components(e: SnapshotEntry) -> Seq<Seq<char>> {
    components(e.path@)
}

/// Entries in strictly ascending path order, as a `BTreeMap` keyed by
/// paths walks them.
pub open spec fn ordered_entries(es: Seq<SnapshotEntry>) -> bool {
    forall|i: int, j: int|
        0 <= i < j < es.len() ==> path_order_lt(
            entry_components(#[trigger] es[i]),
            entry_components(#[trigger] es[j]),
        )
}

/// Whether some entry names the same path as `p`.
pub open spec fn holds_path(es: Seq<SnapshotEntry>, p: Seq<char>) -> bool {
    exists|j: int| 0 <= j < es.len() && entry_components(#[trigger] es[j]) == components(p)
}

/// Whether entry `e` reads differently in `next`: its path is missing or
/// has another fingerprint.
pub open spec fn entry_changed(e: SnapshotEntry, next: Seq<SnapshotEntry>) -> bool {
    !(exists|j: int|
        0 <= j < next.len() && entry_components(#[trigger] next[j]) == entry_components(e)
            && next[j].fingerprint == e.fingerprint)
}

/// The path a watcher reports on going from snapshot `prev` to `next`: the
/// first entry of `prev` that changed or vanished; failing that, the first
/// entry of `next` that is new.
pub open spec fn reported_change(prev: Seq<SnapshotEntry>, next: Seq<SnapshotEntry>, r: Option<
    String,
>) -> bool {
    match r {
        Some(p) => {
            ||| exists|i: int|
                0 <= i < prev.len() && entry_changed(#[trigger] prev[i], next) && (forall|k: int|
                    0 <= k < i ==> !entry_changed(#[trigger] prev[k], next)) && p@ == prev[i].path@
            ||| (forall|i: int| 0 <= i < prev.len() ==> !entry_changed(#[trigger] prev[i], next))
                && exists|i: int|
                0 <= i < next.len() && !holds_path(prev, (#[trigger] next[i]).path@) && (forall|
                    k: int,
                | 0 <= k < i ==> holds_path(prev, (#[trigger] next[k]).path@)) && p@
                    == next[i].path@
        },
        None => {
            &&& forall|i: int| 0 <= i < prev.len() ==> !entry_changed(#[trigger] prev[i], next)
            &&& forall|i: int| 0 <= i < next.len() ==> holds_path(prev, (#[trigger] next[i]).path@)
        },
    }
}

/// The entries seen under the watched paths, in path order.
#[derive(Debug)]
pub struct Snapshot {
    entries: Vec<SnapshotEntry>,
}

impl Snapshot {
    /// The entries, in path order.
    pub closed spec fn entries_view(&self) -> Seq<SnapshotEntry> {
        self.entries@
    }

    #[verifier::type_invariant]
    closed spec fn in_order(&self) -> bool {
        ordered_entries(self.entries@)
    }

    /// The empty snapshot.
    pub fn new() -> (r: Self)
        ensures
            r.entries_view().len() == 0,
    {
        Snapshot { entries: Vec::new() }
    }

    /// A snapshot of `entries`, when they are in strictly ascending path
    /// order; nothing otherwise.
    pub fn from_ordered(entries: Vec<SnapshotEntry>) -> (r: Option<Self>)
        ensures
            match r {
                Some(s) => s.entries_view() == entries@,
                None => !ordered_entries(entries@),
            },
    {
        let n = entries.len();
        if n == 0 {
            return Some(Snapshot { entries });
        }
        let mut prev = path_components(entries[0].path.as_str());
        let mut i: usize = 1;
        while i < n
            invariant
                n == entries@.len(),
                1 <= i <= n,
                views(prev@) == entry_components(entries@[i - 1]),
                forall|a: int, b: int|
                    0 <= a < b < i ==> path_order_lt(
                        entry_components(#[trigger] entries@[a]),
                        entry_components(#[trigger] entries@[b]),
                    ),
            decreases n - i,
        {
            let cur = path_components(entries[i].path.as_str());
            if !components_lt(&prev, &cur) {
                return None;
            }
            proof {
                assert forall|a: int, b: int| 0 <= a < b < i + 1 implies path_order_lt(
                    entry_components(#[trigger] entries@[a]),
                    entry_components(#[trigger] entries@[b]),
                ) by {
                    if b == i && a < i - 1 {
                        lemma_path_order_transitive(
                            entry_components(entries@[a]),
                            entry_components(entries@[i - 1]),
                            entry_components(entries@[b]),
                        );
                    }
                }
            }
            prev = cur;
            i = i + 1;
        }
        Some(Snapshot { entries })
    }

    /// The entries, in path order.
    pub fn entries(&self) -> (r: &Vec<SnapshotEntry>)
        ensures
            r@ == self.entries_view(),
            ordered_entries(r@),
    {
        proof {
            use_type_invariant(self);
        }
        &self.entries
    }
}

/// Whether two fingerprints agree.
fn same_fingerprint(a: &PathFingerprint, b: &PathFingerprint) -> (r: bool)
    ensures
        r == (*a == *b),
{
    let kinds = match (a.kind, b.kind) {
        (EntryKind::File, EntryKind::File) => true,
        (EntryKind::Dir, EntryKind::Dir) => true,
        (EntryKind::Symlink, EntryKind::Symlink) => true,
        _ => false,
    };
    kinds && a.len == b.len && a.modified_nanos == b.modified_nanos
}

/// Where the path with components `c` would sit among ordered entries,
/// from position `start` on: the first position whose path does not sort
/// before it.
fn advance_to(es: &Vec<SnapshotEntry>, start: usize, c: &Vec<String>) -> (r: usize)
    requires
        ordered_entries(es@),
        start <= es@.len(),
        forall|k: int| 0 <= k < start ==> path_order_lt(entry_components(#[trigger] es@[k]), views(c@)),
    ensures
        start <= r <= es@.len(),
        forall|k: int| 0 <= k < r ==> path_order_lt(entry_components(#[trigger] es@[k]), views(c@)),
        r < es@.len() ==> !path_order_lt(entry_components(es@[r as int]), views(c@)),
{
    let n = es.len();
    let mut j = start;
    while j < n
        invariant
            n == es@.len(),
            start <= j <= n,
            forall|k: int|
                0 <= k < j ==> path_order_lt(entry_components(#[trigger] es@[k]), views(c@)),
        decreases n - j,
    {
        let cj = path_components(es[j].path.as_str());
        if !components_lt(&cj, c) {
            return j;
        }
        j = j + 1;
    }
    j
}

/// Among ordered entries, with all before `j` sorting before the path of
/// components `c` and the one at `j` (if any) not, the path is present
/// exactly when the entry at `j` names it.
proof fn lemma_position(es: Seq<SnapshotEntry>, j: int, c: Seq<Seq<char>>)
    requires
        ordered_entries(es),
        0 <= j <= es.len(),
        forall|k: int| 0 <= k < j ==> path_order_lt(entry_components(#[trigger] es[k]), c),
        j < es.len() ==> !path_order_lt(entry_components(es[j]), c),
    ensures
        forall|k: int|
            0 <= k < es.len() && k != j ==> entry_components(#[trigger] es[k]) != c,
{
    assert forall|k: int| 0 <= k < es.len() && k != j implies entry_components(
        #[trigger] es[k],
    ) != c by {
        if k < j {
            lemma_path_order_irreflexive(c);
        } else {
            let cj = entry_components(es[j]);
            lemma_path_order_total(cj, c);
            if cj != c {
                assert(path_order_lt(c, cj));
                assert(path_order_lt(cj, entry_components(es[k])));
                lemma_path_order_transitive(c, cj, entry_components(es[k]));
                lemma_path_order_irreflexive(c);
            } else {
                assert(path_order_lt(cj, entry_components(es[k])));
                lemma_path_order_irreflexive(c);
            }
        }
    }
}

/// The path a watcher reports between two snapshots, if any changed.
pub fn first_changed_path(previous: &Snapshot, next: &Snapshot) -> (r: Option<String>)
    ensures
        reported_change(previous.entries_view(), next.entries_view(), r),
{
    let prev = previous.entries();
    let nxt = next.entries();
    let ghost ps = prev@;
    let ghost ns = nxt@;
    let n = prev.len();
    let m = nxt.len();
    let mut j: usize = 0;
    let mut i: usize = 0;
    while i < n
        invariant
            n == ps.len(),
            m == ns.len(),
            ps == prev@,
            ns == nxt@,
            ps == previous.entries_view(),
            ns == next.entries_view(),
            ordered_entries(ps),
            ordered_entries(ns),
            i <= n,
            j <= m,
            forall|k: int| 0 <= k < i ==> !entry_changed(#[trigger] ps[k], ns),
            i < n ==> forall|k: int|
                0 <= k < j ==> path_order_lt(entry_components(#[trigger] ns[k]), entry_components(ps[i as int])),
        decreases n - i,
    {
        let ci = path_components(prev[i].path.as_str());
        let jj = advance_to(nxt, j, &ci);
        let found = if jj < m {
            let cj = path_components(nxt[jj].path.as_str());
            same_components(&cj, &ci) && same_fingerprint(&nxt[jj].fingerprint, &prev[i].fingerprint)
        } else {
            false
        };
        proof {
            lemma_position(ns, jj as int, entry_components(ps[i as int]));
        }
        if !found {
            let p = prev[i].path.clone();
            proof {
                assert(entry_changed(ps[i as int], ns));
                assert(0 <= i < ps.len() && entry_changed(ps[i as int], ns) && (forall|k: int|
                    0 <= k < i ==> !entry_changed(#[trigger] ps[k], ns)) && p@ == ps[i as int].path@);
            }
            return Some(p);
        }
        proof {
            if i + 1 < n {
                assert forall|k: int| 0 <= k < jj implies path_order_lt(
                    entry_components(#[trigger] ns[k]),
                    entry_components(ps[i + 1]),
                ) by {
                    lemma_path_order_transitive(
                        entry_components(ns[k]),
                        entry_components(ps[i as int]),
                        entry_components(ps[i + 1]),
                    );
                }
            }
        }
        j = jj;
        i = i + 1;
    }
    let mut j2: usize = 0;
    let mut k: usize = 0;
    while k < m
        invariant
            n == ps.len(),
            m == ns.len(),
            ps == prev@,
            ns == nxt@,
            ps == previous.entries_view(),
            ns == next.entries_view(),
            ordered_entries(ps),
            ordered_entries(ns),
            forall|x: int| 0 <= x < n ==> !entry_changed(#[trigger] ps[x], ns),
            k <= m,
            j2 <= n,
            forall|x: int| 0 <= x < k ==> holds_path(ps, (#[trigger] ns[x]).path@),
            k < m ==> forall|x: int|
                0 <= x < j2 ==> path_order_lt(entry_components(#[trigger] ps[x]), entry_components(ns[k as int])),
        decreases m - k,
    {
        let ck = path_components(nxt[k].path.as_str());
        let jj = advance_to(prev, j2, &ck);
        let present = if jj < n {
            let cj = path_components(prev[jj].path.as_str());
            same_components(&cj, &ck)
        } else {
            false
        };
        proof {
            lemma_position(ps, jj as int, entry_components(ns[k as int]));
        }
        if !present {
            let p = nxt[k].path.clone();
            proof {
                assert(!holds_path(ps, ns[k as int].path@));
                assert(0 <= k < ns.len() && !holds_path(ps, ns[k as int].path@) && (forall|x: int|
                    0 <= x < k ==> holds_path(ps, (#[trigger] ns[x]).path@)) && p@ == ns[k as int].path@);
            }
            return Some(p);
        }
        proof {
            assert(entry_components(ps[jj as int]) == components(ns[k as int].path@));
            if k + 1 < m {
                assert forall|x: int| 0 <= x < jj implies path_order_lt(
                    entry_components(#[trigger] ps[x]),
                    entry_components(ns[k + 1]),
                ) by {
                    lemma_path_order_transitive(
                        entry_components(ps[x]),
                        entry_components(ns[k as int]),
                        entry_components(ns[k + 1]),
                    );
                }
            }
        }
        j2 = jj;
        k = k + 1;
    }
    None
}

/// A snapshot compared with itself reports no change.
pub proof fn lemma_same_snapshot_reports_nothing(es: Seq<SnapshotEntry>, r: Option<String>)
    requires
        reported_change(es, es, r),
    ensures
        r is None,
{
    assert forall|i: int| 0 <= i < es.len() implies !entry_changed(#[trigger] es[i], es) by {
        assert(entry_components(es[i]) == entry_components(es[i]));
    }
    assert forall|i: int| 0 <= i < es.len() implies holds_path(es, (#[trigger] es[i]).path@) by {
        assert(entry_components(es[i]) == components(es[i].path@));
    }
}

} // verus!
