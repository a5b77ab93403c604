//! A map from names to values kept in ascending name order, one entry per
//! name: the behaviour of a `BTreeMap<String, V>`.

use vstd::prelude::*;

use crate::lex::{lemma_lex_irreflexive, lemma_lex_total, lemma_lex_transitive, lex_lt, text_lt};
use crate::text::{same_text, views};

verus! {

/// Whether index `i` holds the first entry named `k`.
pub open spec fn is_first<V>(ps: Seq<(Seq<char>, V)>, k: Seq<char>, i: int) -> bool {
    &&& 0 <= i < ps.len()
    &&& ps[i].0 == k
    &&& forall|j: int| 0 <= j < i ==> ps[j].0 != k
}

/// The index of the entry named `k`, if any.
pub open spec fn lookup_index<V>(ps: Seq<(Seq<char>, V)>, k: Seq<char>) -> Option<int> {
    if exists|i: int| is_first(ps, k, i) {
        Some(choose|i: int| is_first(ps, k, i))
    } else {
        None
    }
}

/// The value stored under `k`, if any.
pub open spec fn lookup<V>(ps: Seq<(Seq<char>, V)>, k: Seq<char>) -> Option<V> {
    match lookup_index(ps, k) {
        Some(i) => Some(ps[i].1),
        None => None,
    }
}

/// Names strictly ascend.
pub open spec fn sorted_names<V>(ps: Seq<(Seq<char>, V)>) -> bool {
    forall|i: int, j: int| 0 <= i < j < ps.len() ==> lex_lt(#[trigger] ps[i].0, #[trigger] ps[j].0)
}

/// `p` is where `k` goes among sorted names.
pub open spec fn is_insertion_point<V>(ps: Seq<(Seq<char>, V)>, k: Seq<char>, p: int) -> bool {
    &&& 0 <= p <= ps.len()
    &&& forall|i: int| 0 <= i < p ==> lex_lt(#[trigger] ps[i].0, k)
    &&& forall|i: int| p <= i < ps.len() ==> !lex_lt(#[trigger] ps[i].0, k)
}

pub open spec fn insertion_point<V>(ps: Seq<(Seq<char>, V)>, k: Seq<char>) -> int {
    choose|p: int| is_insertion_point(ps, k, p)
}

/// The entries after `insert(k, v)`: an existing entry takes the new value,
/// a new name goes to its place in the order.
pub open spec fn insert_spec<V>(ps: Seq<(Seq<char>, V)>, k: Seq<char>, v: V) -> Seq<(Seq<char>, V)> {
    match lookup_index(ps, k) {
        Some(i) => ps.update(i, (k, v)),
        None => ps.insert(insertion_point(ps, k), (k, v)),
    }
}

/// The entries after `remove(k)`.
pub open spec fn remove_spec<V>(ps: Seq<(Seq<char>, V)>, k: Seq<char>) -> Seq<(Seq<char>, V)> {
    match lookup_index(ps, k) {
        Some(i) => ps.remove(i),
        None => ps,
    }
}

/// No two entries share a name.
pub open spec fn distinct_names<V>(ps: Seq<(Seq<char>, V)>) -> bool {
    forall|i: int, j: int| 0 <= i < ps.len() && 0 <= j < ps.len() && i != j ==> ps[i].0 != ps[j].0
}

/// The names of the entries, in order.
pub open spec fn names_of<V>(ps: Seq<(Seq<char>, V)>) -> Seq<Seq<char>> {
    ps.map_values(|e: (Seq<char>, V)| e.0)
}

pub proof fn lemma_first_unique<V>(ps: Seq<(Seq<char>, V)>, k: Seq<char>, i: int)
    requires
        is_first(ps, k, i),
    ensures
        lookup_index(ps, k) == Some(i),
{
    let c = choose|c: int| is_first(ps, k, c);
    assert(is_first(ps, k, c));
    if c < i {
        assert(ps[c].0 != k);
    } else if i < c {
        assert(ps[i].0 != k);
    }
}

pub proof fn lemma_absent<V>(ps: Seq<(Seq<char>, V)>, k: Seq<char>)
    requires
        forall|j: int| 0 <= j < ps.len() ==> ps[j].0 != k,
    ensures
        lookup_index(ps, k) is None,
{
}

/// Sorted names are distinct.
pub proof fn lemma_sorted_distinct<V>(ps: Seq<(Seq<char>, V)>)
    requires
        sorted_names(ps),
    ensures
        distinct_names(ps),
{
    assert forall|i: int, j: int| 0 <= i < ps.len() && 0 <= j < ps.len() && i != j implies ps[i].0
        != ps[j].0 by {
        if i < j {
            assert(lex_lt(ps[i].0, ps[j].0));
        } else {
            assert(lex_lt(ps[j].0, ps[i].0));
        }
        lemma_lex_irreflexive(ps[i].0);
    }
}

/// In a map with distinct names, the entry named `ps[i].0` is at `i`.
pub proof fn lemma_distinct_lookup<V>(ps: Seq<(Seq<char>, V)>, i: int)
    requires
        distinct_names(ps),
        0 <= i < ps.len(),
    ensures
        lookup_index(ps, ps[i].0) == Some(i),
{
    assert(is_first(ps, ps[i].0, i));
    lemma_first_unique(ps, ps[i].0, i);
}

pub proof fn lemma_insertion_point_unique<V>(ps: Seq<(Seq<char>, V)>, k: Seq<char>, p: int)
    requires
        is_insertion_point(ps, k, p),
    ensures
        insertion_point(ps, k) == p,
{
    let c = choose|c: int| is_insertion_point(ps, k, c);
    assert(is_insertion_point(ps, k, c));
    if c < p {
        assert(lex_lt(ps[c].0, k));
    } else if p < c {
        assert(lex_lt(ps[p].0, k));
    }
}

/// Inserting a name that sorts after every present name appends it.
pub proof fn lemma_insert_after_all<V>(ps: Seq<(Seq<char>, V)>, k: Seq<char>, v: V)
    requires
        forall|i: int| 0 <= i < ps.len() ==> lex_lt(#[trigger] ps[i].0, k),
    ensures
        insert_spec(ps, k, v) == ps.push((k, v)),
{
    assert forall|j: int| 0 <= j < ps.len() implies ps[j].0 != k by {
        lemma_lex_irreflexive(k);
    }
    lemma_absent(ps, k);
    assert(is_insertion_point(ps, k, ps.len() as int));
    lemma_insertion_point_unique(ps, k, ps.len() as int);
    assert(ps.insert(ps.len() as int, (k, v)) =~= ps.push((k, v)));
}

/// Every sorted list of names has a place for any name.
pub proof fn lemma_insertion_point_exists<V>(ps: Seq<(Seq<char>, V)>, k: Seq<char>)
    requires
        sorted_names(ps),
    ensures
        is_insertion_point(ps, k, insertion_point(ps, k)),
    decreases ps.len(),
{
    if ps.len() == 0 {
        assert(is_insertion_point(ps, k, 0));
    } else {
        let front = ps.drop_last();
        assert(sorted_names(front)) by {
            assert forall|i: int, j: int| 0 <= i < j < front.len() implies lex_lt(
                #[trigger] front[i].0,
                #[trigger] front[j].0,
            ) by {
                assert(front[i] == ps[i] && front[j] == ps[j]);
            }
        }
        lemma_insertion_point_exists(front, k);
        let q = insertion_point(front, k);
        let last = ps.len() - 1;
        assert forall|i: int| 0 <= i < front.len() implies #[trigger] front[i] == ps[i] by {}
        assert forall|i: int| 0 <= i < q implies lex_lt(#[trigger] ps[i].0, k) by {
            assert(front[i] == ps[i]);
        }
        if q == front.len() && lex_lt(ps[last].0, k) {
            assert(is_insertion_point(ps, k, ps.len() as int));
        } else if q == front.len() {
            assert(is_insertion_point(ps, k, last));
        } else {
            assert(!lex_lt(front[q].0, k));
            assert(lex_lt(ps[q].0, ps[last].0));
            if lex_lt(ps[last].0, k) {
                lemma_lex_transitive(ps[q].0, ps[last].0, k);
            }
            assert forall|i: int| q <= i < ps.len() implies !lex_lt(#[trigger] ps[i].0, k) by {
                if i < last {
                    assert(front[i] == ps[i]);
                }
            }
            assert(is_insertion_point(ps, k, q));
        }
    }
}

/// A name that no entry carries is looked up as absent, and the absence
/// of a first entry means no entry carries it when names are distinct.
pub proof fn lemma_absent_iff<V>(ps: Seq<(Seq<char>, V)>, k: Seq<char>)
    requires
        distinct_names(ps),
    ensures
        lookup_index(ps, k) is None <==> forall|j: int| 0 <= j < ps.len() ==> ps[j].0 != k,
{
    if exists|j: int| 0 <= j < ps.len() && ps[j].0 == k {
        let j = choose|j: int| 0 <= j < ps.len() && ps[j].0 == k;
        assert(is_first(ps, k, j));
        lemma_first_unique(ps, k, j);
    }
}

/// Reading a name after writing it gives the written value; every other
/// name reads as before.
pub proof fn lemma_insert_lookup<V>(ps: Seq<(Seq<char>, V)>, k: Seq<char>, v: V, x: Seq<char>)
    requires
        sorted_names(ps),
    ensures
        lookup(insert_spec(ps, k, v), x) == (if x == k {
            Some(v)
        } else {
            lookup(ps, x)
        }),
        sorted_names(insert_spec(ps, k, v)),
{
    lemma_sorted_distinct(ps);
    let ns = insert_spec(ps, k, v);
    match lookup_index(ps, k) {
        Some(i) => {
            assert(is_first(ps, k, i));
            assert(ns == ps.update(i, (k, v)));
            assert(sorted_names(ns)) by {
                assert forall|a: int, b: int| 0 <= a < b < ns.len() implies lex_lt(
                    #[trigger] ns[a].0,
                    #[trigger] ns[b].0,
                ) by {
                    assert(ns[a].0 == ps[a].0 && ns[b].0 == ps[b].0);
                }
            }
            lemma_sorted_distinct(ns);
            if x == k {
                assert(is_first(ns, k, i));
                lemma_first_unique(ns, k, i);
            } else {
                lemma_absent_iff(ps, x);
                lemma_absent_iff(ns, x);
                match lookup_index(ps, x) {
                    Some(j) => {
                        assert(is_first(ps, x, j));
                        assert(is_first(ns, x, j));
                        lemma_first_unique(ns, x, j);
                    },
                    None => {
                        assert forall|j: int| 0 <= j < ns.len() implies ns[j].0 != x by {
                            if j != i {
                                assert(ns[j] == ps[j]);
                            }
                        }
                    },
                }
            }
        },
        None => {
            lemma_absent_iff(ps, k);
            lemma_insertion_point_exists(ps, k);
            let p = insertion_point(ps, k);
            assert(ns == ps.insert(p, (k, v)));
            assert(sorted_names(ns)) by {
                assert forall|a: int, b: int| 0 <= a < b < ns.len() implies lex_lt(
                    #[trigger] ns[a].0,
                    #[trigger] ns[b].0,
                ) by {
                    if p < ps.len() {
                        lemma_lex_total(ps[p].0, k);
                    }
                    if b < p {
                    } else if b == p {
                    } else if a == p {
                        assert(ns[b].0 == ps[b - 1].0);
                        if b - 1 > p {
                            assert(lex_lt(ps[p].0, ps[b - 1].0));
                            lemma_lex_transitive(k, ps[p].0, ps[b - 1].0);
                        }
                    } else if a < p {
                        assert(ns[b].0 == ps[b - 1].0);
                        assert(lex_lt(k, ps[p].0));
                        if b - 1 > p {
                            assert(lex_lt(ps[p].0, ps[b - 1].0));
                            lemma_lex_transitive(k, ps[p].0, ps[b - 1].0);
                        }
                        lemma_lex_transitive(ps[a].0, k, ps[b - 1].0);
                    } else {
                        assert(ns[a].0 == ps[a - 1].0);
                        assert(ns[b].0 == ps[b - 1].0);
                    }
                }
            }
            lemma_sorted_distinct(ns);
            if x == k {
                assert(is_first(ns, k, p));
                lemma_first_unique(ns, k, p);
            } else {
                lemma_absent_iff(ps, x);
                lemma_absent_iff(ns, x);
                match lookup_index(ps, x) {
                    Some(j) => {
                        assert(is_first(ps, x, j));
                        let nj = if j < p {
                            j
                        } else {
                            j + 1
                        };
                        assert(ns[nj] == ps[j]);
                        assert(is_first(ns, x, nj));
                        lemma_first_unique(ns, x, nj);
                    },
                    None => {
                        assert forall|j: int| 0 <= j < ns.len() implies ns[j].0 != x by {
                            if j < p {
                                assert(ns[j] == ps[j]);
                            } else if j > p {
                                assert(ns[j] == ps[j - 1]);
                            }
                        }
                    },
                }
            }
        },
    }
}

/// Reading a name after removing it finds nothing; every other name reads
/// as before.
pub proof fn lemma_remove_lookup<V>(ps: Seq<(Seq<char>, V)>, k: Seq<char>, x: Seq<char>)
    requires
        sorted_names(ps),
    ensures
        lookup(remove_spec(ps, k), x) == (if x == k {
            None
        } else {
            lookup(ps, x)
        }),
        sorted_names(remove_spec(ps, k)),
{
    lemma_sorted_distinct(ps);
    let ns = remove_spec(ps, k);
    match lookup_index(ps, k) {
        Some(i) => {
            assert(is_first(ps, k, i));
            assert(ns == ps.remove(i));
            assert(sorted_names(ns)) by {
                assert forall|a: int, b: int| 0 <= a < b < ns.len() implies lex_lt(
                    #[trigger] ns[a].0,
                    #[trigger] ns[b].0,
                ) by {
                    if a < i && b >= i {
                        assert(ns[b].0 == ps[b + 1].0);
                    } else if a >= i {
                        assert(ns[a].0 == ps[a + 1].0);
                        assert(ns[b].0 == ps[b + 1].0);
                    }
                }
            }
            lemma_sorted_distinct(ns);
            lemma_absent_iff(ns, x);
            lemma_absent_iff(ps, x);
            if x == k {
                assert forall|j: int| 0 <= j < ns.len() implies ns[j].0 != x by {
                    if j < i {
                        assert(ns[j] == ps[j]);
                    } else {
                        assert(ns[j] == ps[j + 1]);
                    }
                }
            } else {
                match lookup_index(ps, x) {
                    Some(j) => {
                        assert(is_first(ps, x, j));
                        let nj = if j < i {
                            j
                        } else {
                            j - 1
                        };
                        assert(ns[nj] == ps[j]);
                        assert(is_first(ns, x, nj));
                        lemma_first_unique(ns, x, nj);
                    },
                    None => {
                        assert forall|j: int| 0 <= j < ns.len() implies ns[j].0 != x by {
                            if j < i {
                                assert(ns[j] == ps[j]);
                            } else {
                                assert(ns[j] == ps[j + 1]);
                            }
                        }
                    },
                }
            }
        },
        None => {
            lemma_absent_iff(ps, k);
        },
    }
}

/// Entries with their names taken by view.
pub open spec fn pairs_of<V>(entries: Seq<(String, V)>) -> Seq<(Seq<char>, V)> {
    entries.map_values(|e: (String, V)| (e.0@, e.1))
}

/// A name-keyed map in ascending name order.
#[derive(Debug)]
pub struct NameMap<V> {
    entries: Vec<(String, V)>,
}

impl<V> NameMap<V> {
    /// The entries as (name, value) pairs, in ascending name order.
    pub closed spec fn pairs(&self) -> Seq<(Seq<char>, V)> {
        pairs_of(self.entries@)
    }

    #[verifier::type_invariant]
    closed spec fn ordered(&self) -> bool {
        sorted_names(self.pairs())
    }

    pub fn new() -> (r: Self)
        ensures
            r.pairs() == Seq::<(Seq<char>, V)>::empty(),
    {
        let r = NameMap { entries: Vec::new() };
        assert(r.pairs() =~= Seq::<(Seq<char>, V)>::empty());
        r
    }

    pub fn len(&self) -> (r: usize)
        ensures
            r == self.pairs().len(),
            sorted_names(self.pairs()),
            distinct_names(self.pairs()),
    {
        proof {
            use_type_invariant(self);
            lemma_sorted_distinct(self.pairs());
        }
        self.entries.len()
    }

    pub fn is_empty(&self) -> (r: bool)
        ensures
            r == (self.pairs().len() == 0),
    {
        self.entries.len() == 0
    }

    /// The name at position `i`.
    pub fn name_at(&self, i: usize) -> (r: &String)
        requires
            i < self.pairs().len(),
        ensures
            r@ == self.pairs()[i as int].0,
    {
        &self.entries[i].0
    }

    /// The value at position `i`.
    pub fn value_at(&self, i: usize) -> (r: &V)
        requires
            i < self.pairs().len(),
        ensures
            *r == self.pairs()[i as int].1,
    {
        &self.entries[i].1
    }

    /// The position of `name`, if present.
    pub fn position(&self, name: &str) -> (r: Option<usize>)
        ensures
            match r {
                Some(i) => lookup_index(self.pairs(), name@) == Some(i as int),
                None => lookup_index(self.pairs(), name@) is None && forall|j: int|
                    0 <= j < self.pairs().len() ==> self.pairs()[j].0 != name@,
            },
    {
        let n = self.entries.len();
        let mut i: usize = 0;
        while i < n
            invariant
                n == self.pairs().len(),
                i <= n,
                forall|j: int| 0 <= j < i ==> self.pairs()[j].0 != name@,
            decreases n - i,
        {
            if same_text(self.entries[i].0.as_str(), name) {
                proof {
                    assert(is_first(self.pairs(), name@, i as int));
                    lemma_first_unique(self.pairs(), name@, i as int);
                }
                return Some(i);
            }
            i = i + 1;
        }
        proof {
            lemma_absent(self.pairs(), name@);
        }
        None
    }

    pub fn get(&self, name: &str) -> (r: Option<&V>)
        ensures
            match lookup(self.pairs(), name@) {
                Some(v) => r == Some(&v),
                None => r is None,
            },
            distinct_names(self.pairs()),
    {
        proof {
            use_type_invariant(self);
            lemma_sorted_distinct(self.pairs());
        }
        match self.position(name) {
            Some(i) => Some(&self.entries[i].1),
            None => None,
        }
    }

    pub fn contains_key(&self, name: &str) -> (r: bool)
        ensures
            r == lookup_index(self.pairs(), name@) is Some,
            distinct_names(self.pairs()),
    {
        proof {
            use_type_invariant(self);
            lemma_sorted_distinct(self.pairs());
        }
        self.position(name).is_some()
    }

    pub fn insert(&mut self, name: String, value: V)
        ensures
            final(self).pairs() == insert_spec(old(self).pairs(), name@, value),
            forall|x: Seq<char>| #[trigger]
                lookup(final(self).pairs(), x) == (if x == name@ {
                    Some(value)
                } else {
                    lookup(old(self).pairs(), x)
                }),
    {
        proof {
            use_type_invariant(&*self);
            assert forall|x: Seq<char>| #[trigger]
                lookup(insert_spec(self.pairs(), name@, value), x) == (if x == name@ {
                    Some(value)
                } else {
                    lookup(self.pairs(), x)
                }) by {
                lemma_insert_lookup(self.pairs(), name@, value, x);
            }
        }
        let ghost ps = self.pairs();
        let ghost k = name@;
        let n = self.entries.len();
        let mut p: usize = 0;
        while p < n
            invariant
                n == ps.len(),
                ps == self.pairs(),
                name@ == k,
                p <= n,
                forall|i: int| 0 <= i < p ==> lex_lt(#[trigger] ps[i].0, k),
            ensures
                p < n ==> !lex_lt(ps[p as int].0, k),
            decreases n - p,
        {
            let below = text_lt(self.entries[p].0.as_str(), name.as_str());
            if !below {
                break;
            }
            p = p + 1;
        }
        proof {
            assert forall|i: int| p <= i < ps.len() implies !lex_lt(#[trigger] ps[i].0, k) by {
                if i > p {
                    assert(lex_lt(ps[p as int].0, ps[i].0));
                    if lex_lt(ps[i].0, k) {
                        lemma_lex_transitive(ps[p as int].0, ps[i].0, k);
                    }
                }
            }
            assert(is_insertion_point(ps, k, p as int));
            lemma_insertion_point_unique(ps, k, p as int);
            assert forall|i: int| 0 <= i < p implies ps[i].0 != k by {
                lemma_lex_irreflexive(k);
            }
        }
        if p < n && same_text(self.entries[p].0.as_str(), name.as_str()) {
            proof {
                assert(is_first(ps, k, p as int));
                lemma_first_unique(ps, k, p as int);
            }
            let mut entries = Vec::new();
            std::mem::swap(&mut entries, &mut self.entries);
            entries.set(p, (name, value));
            assert(pairs_of(entries@) =~= ps.update(p as int, (k, value)));
            assert(sorted_names(pairs_of(entries@))) by {
                let ns = pairs_of(entries@);
                assert forall|i: int, j: int| 0 <= i < j < ns.len() implies lex_lt(
                    #[trigger] ns[i].0,
                    #[trigger] ns[j].0,
                ) by {
                    assert(ns[i].0 == ps[i].0);
                    assert(ns[j].0 == ps[j].0);
                }
            }
            self.entries = entries;
        } else {
            proof {
                assert forall|j: int| 0 <= j < ps.len() implies ps[j].0 != k by {
                    if j > p {
                        lemma_lex_total(ps[p as int].0, k);
                        assert(lex_lt(k, ps[p as int].0));
                        assert(lex_lt(ps[p as int].0, ps[j].0));
                        lemma_lex_transitive(k, ps[p as int].0, ps[j].0);
                        lemma_lex_irreflexive(k);
                    } else if j == p {
                    } else {
                        lemma_lex_irreflexive(k);
                    }
                }
                lemma_absent(ps, k);
            }
            let mut entries = Vec::new();
            std::mem::swap(&mut entries, &mut self.entries);
            entries.insert(p, (name, value));
            proof {
                let ns = ps.insert(p as int, (k, value));
                assert(pairs_of(entries@) =~= ns);
                assert forall|i: int, j: int| 0 <= i < j < ns.len() implies lex_lt(
                    #[trigger] ns[i].0,
                    #[trigger] ns[j].0,
                ) by {
                    if p < n {
                        lemma_lex_total(ps[p as int].0, k);
                    }
                    if j < p {
                    } else if j == p {
                    } else if i == p {
                        assert(ns[j].0 == ps[j - 1].0);
                        if j - 1 > p {
                            assert(lex_lt(ps[p as int].0, ps[j - 1].0));
                            lemma_lex_transitive(k, ps[p as int].0, ps[j - 1].0);
                        }
                    } else if i < p {
                        assert(ns[j].0 == ps[j - 1].0);
                        if j - 1 >= p {
                            assert(lex_lt(k, ps[p as int].0));
                            if j - 1 > p {
                                assert(lex_lt(ps[p as int].0, ps[j - 1].0));
                                lemma_lex_transitive(k, ps[p as int].0, ps[j - 1].0);
                            }
                            lemma_lex_transitive(ps[i].0, k, ps[j - 1].0);
                        }
                    } else {
                        assert(ns[i].0 == ps[i - 1].0);
                        assert(ns[j].0 == ps[j - 1].0);
                    }
                }
            }
            self.entries = entries;
        }
    }

    pub fn remove(&mut self, name: &str) -> (r: Option<V>)
        ensures
            final(self).pairs() == remove_spec(old(self).pairs(), name@),
            r == lookup(old(self).pairs(), name@),
            forall|x: Seq<char>| #[trigger]
                lookup(final(self).pairs(), x) == (if x == name@ {
                    None
                } else {
                    lookup(old(self).pairs(), x)
                }),
    {
        proof {
            use_type_invariant(&*self);
            assert forall|x: Seq<char>| #[trigger]
                lookup(remove_spec(self.pairs(), name@), x) == (if x == name@ {
                    None
                } else {
                    lookup(self.pairs(), x)
                }) by {
                lemma_remove_lookup(self.pairs(), name@, x);
            }
        }
        let ghost ps = self.pairs();
        match self.position(name) {
            Some(i) => {
                let mut entries = Vec::new();
                std::mem::swap(&mut entries, &mut self.entries);
                let (_, v) = entries.remove(i);
                proof {
                    let ns = ps.remove(i as int);
                    assert(pairs_of(entries@) =~= ns);
                    assert forall|a: int, b: int| 0 <= a < b < ns.len() implies lex_lt(
                        #[trigger] ns[a].0,
                        #[trigger] ns[b].0,
                    ) by {
                        if a < i && b >= i {
                            assert(ns[b].0 == ps[b + 1].0);
                        } else if a >= i {
                            assert(ns[a].0 == ps[a + 1].0);
                            assert(ns[b].0 == ps[b + 1].0);
                        }
                    }
                }
                self.entries = entries;
                Some(v)
            },
            None => None,
        }
    }
}

impl<V> NameMap<V> {
    /// The names, in ascending order.
    pub fn names(&self) -> (r: Vec<String>)
        ensures
            views(r@) == names_of(self.pairs()),
            views(r@).no_duplicates(),
            distinct_names(self.pairs()),
            sorted_names(self.pairs()),
    {
        proof {
            use_type_invariant(self);
            lemma_sorted_distinct(self.pairs());
        }
        let mut out: Vec<String> = Vec::new();
        let n = self.entries.len();
        let mut i: usize = 0;
        while i < n
            invariant
                n == self.pairs().len(),
                i <= n,
                views(out@) == names_of(self.pairs()).take(i as int),
            decreases n - i,
        {
            let ghost prev = out@;
            let name = self.entries[i].0.clone();
            out.push(name);
            proof {
                assert(views(out@) =~= views(prev).push(name@));
                assert(names_of(self.pairs()).take(i + 1) =~= names_of(self.pairs()).take(
                    i as int,
                ).push(self.pairs()[i as int].0));
            }
            i = i + 1;
        }
        proof {
            let ps = self.pairs();
            assert(names_of(ps).take(n as int) =~= names_of(ps));
            assert forall|a: int, b: int|
                0 <= a < names_of(ps).len() && 0 <= b < names_of(ps).len() && a != b implies names_of(
                ps,
            )[a] != names_of(ps)[b] by {
                assert(ps[a].0 != ps[b].0);
            }
        }
        out
    }
}

impl<V: Clone> NameMap<V> {
    /// A copy of the map with equal names and cloned values.
    pub fn duplicate(&self) -> (r: Self)
        ensures
            names_of(r.pairs()) == names_of(self.pairs()),
    {
        proof {
            use_type_invariant(self);
        }
        let mut entries: Vec<(String, V)> = Vec::new();
        let n = self.entries.len();
        let mut i: usize = 0;
        while i < n
            invariant
                n == self.entries@.len(),
                i <= n,
                entries@.len() == i,
                sorted_names(self.pairs()),
                forall|j: int| 0 <= j < i ==> #[trigger] entries@[j].0@ == self.entries@[j].0@,
            decreases n - i,
        {
            entries.push((self.entries[i].0.clone(), self.entries[i].1.clone()));
            i = i + 1;
        }
        assert(names_of(pairs_of(entries@)) =~= names_of(self.pairs()));
        assert(sorted_names(pairs_of(entries@))) by {
            let ns = pairs_of(entries@);
            assert forall|a: int, b: int| 0 <= a < b < ns.len() implies lex_lt(
                #[trigger] ns[a].0,
                #[trigger] ns[b].0,
            ) by {
                assert(ns[a].0 == self.pairs()[a].0);
                assert(ns[b].0 == self.pairs()[b].0);
            }
        }
        NameMap { entries }
    }
}

} // verus!
