//! The [`Cache`]: the per-query-type map from query value to entry state.

use vstd::prelude::*;
use std::rc::Rc;
use crate::query::Query;
use crate::state::State;
use crate::request::Request;
use crate::cached::Cached;

verus! {

/// The result of asking the cache to begin a fetch.
#[derive(Clone, Copy)]
pub enum FetchPlan {
    /// The entry was already loading: attach to this request, which is the
    /// one already in flight, and start nothing.
    AwaitExisting(Request),
    /// The entry was not loading: it has been moved to `Loading` under this
    /// request, and the caller must now start the one computation for it.
    StartNew(Request),
}

/// The map from query value to entry state, scoped to one query type.
///
/// Entries are stored as an association list with pairwise-distinct keys; its
/// abstract value, written `cache@`, is the finite map from query value to
/// [`State`]. One `Cache` exists per query type, which keeps distinct query
/// types in disjoint slots by construction.
pub struct Cache<Q: Query> {
    entries: Vec<(Rc<Q>, State<Q::Output>)>,
}

/// No two stored entries share a key.
pub open spec fn distinct_keys<Q: Query>(s: Seq<(Rc<Q>, State<Q::Output>)>) -> bool {
    forall|i: int, j: int| 0 <= i < j < s.len() ==> (#[trigger] s[i]).0 != (#[trigger] s[j]).0
}

/// The map an entry list stands for; later entries win, which is moot once
/// keys are distinct.
pub open spec fn entries_map<Q: Query>(s: Seq<(Rc<Q>, State<Q::Output>)>) -> Map<Q, State<Q::Output>>
    decreases s.len(),
{
    if s.len() == 0 {
        Map::empty()
    } else {
        entries_map(s.drop_last()).insert(*s.last().0, s.last().1)
    }
}

/// The state recorded for `q`, reading a missing entry as `Idle`: a key never
/// touched and a key cleared back to `Idle` read the same, though only the
/// latter occupies a slot.
pub open spec fn spec_entry<Q: Query>(m: Map<Q, State<Q::Output>>, q: Q) -> State<Q::Output> {
    if m.dom().contains(q) {
        m[q]
    } else {
        State::Idle
    }
}

/// The map after setting `q` to valid `d`: whatever was there is replaced.
pub open spec fn spec_insert<Q: Query>(
    m: Map<Q, State<Q::Output>>,
    q: Q,
    d: Rc<Q::Output>,
) -> Map<Q, State<Q::Output>> {
    m.insert(q, State::Valid(d))
}

/// The map after invalidating `q`: a present entry is marked stale, which
/// moves only `Valid` data to `Invalid`; an absent key changes nothing.
pub open spec fn spec_invalidate<Q: Query>(m: Map<Q, State<Q::Output>>, q: Q) -> Map<
    Q,
    State<Q::Output>,
> {
    if m.dom().contains(q) {
        m.insert(q, m[q].spec_set_invalid())
    } else {
        m
    }
}

/// The map after clearing `q`: a present entry is emptied back to `Idle` but
/// keeps its slot; an absent key changes nothing.
pub open spec fn spec_clear<Q: Query>(m: Map<Q, State<Q::Output>>, q: Q) -> Map<
    Q,
    State<Q::Output>,
> {
    if m.dom().contains(q) {
        m.insert(q, State::Idle)
    } else {
        m
    }
}

/// What beginning a fetch for `q` under the fresh request `fresh` decides and
/// leaves behind: attach to the request already in flight and change nothing,
/// or install `fresh` over the entry, preserving its prior data.
pub open spec fn spec_begin_fetch<Q: Query>(
    m: Map<Q, State<Q::Output>>,
    q: Q,
    fresh: Request,
) -> (FetchPlan, Map<Q, State<Q::Output>>) {
    let cur = spec_entry(m, q);
    match cur {
        State::Loading(_, r) => (FetchPlan::AwaitExisting(r), m),
        _ => (FetchPlan::StartNew(fresh), m.insert(q, cur.spec_set_loading(fresh))),
    }
}

proof fn lemma_entries_map_dom<Q: Query>(s: Seq<(Rc<Q>, State<Q::Output>)>, k: Q)
    ensures
        entries_map(s).dom().contains(k) <==> exists|i: int| 0 <= i < s.len() && (#[trigger] s[i]).0 == k,
    decreases s.len(),
{
    if s.len() == 0 {
    } else {
        lemma_entries_map_dom(s.drop_last(), k);
        if s.last().0 == k {
            assert(s[s.len() - 1].0 == k);
        } else {
            if entries_map(s).dom().contains(k) {
                let i = choose|i: int| 0 <= i < s.drop_last().len() && (#[trigger] s.drop_last()[i]).0 == k;
                assert(s[i].0 == k);
            }
            if exists|i: int| 0 <= i < s.len() && (#[trigger] s[i]).0 == k {
                let i = choose|i: int| 0 <= i < s.len() && (#[trigger] s[i]).0 == k;
                assert(i < s.len() - 1);
                assert(s.drop_last()[i].0 == k);
            }
        }
    }
}

proof fn lemma_entries_map_index<Q: Query>(s: Seq<(Rc<Q>, State<Q::Output>)>, i: int, k: Q)
    requires
        distinct_keys(s),
        0 <= i < s.len(),
        s[i].0 == k,
    ensures
        entries_map(s).dom().contains(k),
        entries_map(s)[k] == s[i].1,
    decreases s.len(),
{
    if i == s.len() - 1 {
    } else {
        assert(s.last().0 != k);
        assert(s.drop_last()[i] == s[i]);
        lemma_entries_map_index(s.drop_last(), i, k);
    }
}

proof fn lemma_entries_map_update<Q: Query>(
    s: Seq<(Rc<Q>, State<Q::Output>)>,
    i: int,
    p: (Rc<Q>, State<Q::Output>),
)
    requires
        distinct_keys(s),
        0 <= i < s.len(),
        p.0 == s[i].0,
    ensures
        entries_map(s.update(i, p)) == entries_map(s).insert(*p.0, p.1),
        distinct_keys(s.update(i, p)),
    decreases s.len(),
{
    let t = s.update(i, p);
    assert forall|a: int, b: int| 0 <= a < b < t.len() implies (#[trigger] t[a]).0 != (#[trigger] t[b]).0 by {
        assert(t[a].0 == s[a].0);
        assert(t[b].0 == s[b].0);
    }
    if i == s.len() - 1 {
        assert(t.drop_last() =~= s.drop_last());
        assert(entries_map(t) =~= entries_map(s).insert(*p.0, p.1));
    } else {
        assert(t.drop_last() =~= s.drop_last().update(i, p));
        assert(s.drop_last()[i] == s[i]);
        lemma_entries_map_update(s.drop_last(), i, p);
        assert(t.last() == s.last());
        assert(s.last().0 != p.0);
        assert(entries_map(t) =~= entries_map(s).insert(*p.0, p.1));
    }
}

proof fn lemma_entries_map_push<Q: Query>(
    s: Seq<(Rc<Q>, State<Q::Output>)>,
    p: (Rc<Q>, State<Q::Output>),
)
    requires
        distinct_keys(s),
        forall|i: int| 0 <= i < s.len() ==> (#[trigger] s[i]).0 != p.0,
    ensures
        entries_map(s.push(p)) == entries_map(s).insert(*p.0, p.1),
        distinct_keys(s.push(p)),
{
    let t = s.push(p);
    assert(t.drop_last() =~= s);
    assert(t.last() == p);
    assert forall|a: int, b: int| 0 <= a < b < t.len() implies (#[trigger] t[a]).0 != (#[trigger] t[b]).0 by {
        if b < t.len() - 1 {
            assert(t[a] == s[a]);
            assert(t[b] == s[b]);
        } else {
            assert(t[a] == s[a]);
            assert(t[b] == p);
        }
    }
}

proof fn lemma_entries_map_remove<Q: Query>(s: Seq<(Rc<Q>, State<Q::Output>)>, i: int, k: Q)
    requires
        distinct_keys(s),
        0 <= i < s.len(),
        s[i].0 == k,
    ensures
        entries_map(s.remove(i)) == entries_map(s).remove(k),
        distinct_keys(s.remove(i)),
    decreases s.len(),
{
    let t = s.remove(i);
    assert forall|a: int, b: int| 0 <= a < b < t.len() implies (#[trigger] t[a]).0 != (#[trigger] t[b]).0 by {
        let a0 = if a < i { a } else { a + 1 };
        let b0 = if b < i { b } else { b + 1 };
        assert(t[a] == s[a0]);
        assert(t[b] == s[b0]);
    }
    if i == s.len() - 1 {
        assert(t =~= s.drop_last());
        lemma_entries_map_dom(s.drop_last(), k);
        assert forall|j: int| 0 <= j < s.drop_last().len() implies (#[trigger] s.drop_last()[j]).0 != k by {
            assert(s.drop_last()[j] == s[j]);
        }
        assert(entries_map(t) =~= entries_map(s).remove(k));
    } else {
        assert(t.drop_last() =~= s.drop_last().remove(i));
        assert(s.drop_last()[i] == s[i]);
        lemma_entries_map_remove(s.drop_last(), i, k);
        assert(t.last() == s.last());
        assert(s.last().0 != k);
        assert(entries_map(t) =~= entries_map(s).remove(k));
    }
}

impl<Q: Query> Cache<Q> {
    #[verifier::type_invariant]
    spec fn wf(self) -> bool {
        distinct_keys(self.entries@)
    }

    /// Make an empty cache.
    pub fn new() -> (r: Self)
        ensures
            r@ == Map::<Q, State<Q::Output>>::empty(),
    {
        let r = Cache { entries: Vec::new() };
        proof {
            assert(r@ =~= Map::<Q, State<Q::Output>>::empty());
        }
        r
    }

    /// The index holding `query`, if any.
    fn find_index(&self, query: &Q) -> (r: Option<usize>)
        ensures
            match r {
                Some(i) => i < self.entries@.len() && self.entries@[i as int].0 == *query,
                None => forall|j: int| 0 <= j < self.entries@.len() ==> (#[trigger] self.entries@[j]).0 != *query,
            },
    {
        let n = self.entries.len();
        let mut i: usize = 0;
        while i < n
            invariant
                n == self.entries@.len(),
                i <= n,
                forall|j: int| 0 <= j < i ==> (#[trigger] self.entries@[j]).0 != *query,
            decreases n - i,
        {
            let pair = &self.entries[i];
            if pair.0.eq_query(query) {
                return Some(i);
            }
            i = i + 1;
        }
        None
    }

    /// A snapshot of the current state for `query`, or `None` if no slot for
    /// it has ever been touched. The snapshot shares the underlying data with
    /// the slot and does not track later changes.
    pub fn get(&self, query: &Q) -> (r: Option<Cached<Q>>)
        ensures
            match r {
                Some(c) => self@.dom().contains(*query) && c.spec_query() == *query
                    && c.spec_state() == self@[*query],
                None => !self@.dom().contains(*query),
            },
    {
        proof {
            use_type_invariant(&*self);
        }
        match self.find_index(query) {
            Some(i) => {
                proof {
                    lemma_entries_map_index(self.entries@, i as int, *query);
                }
                let pair = &self.entries[i];
                Some(Cached::snapshot(pair.0.clone(), pair.1.clone()))
            },
            None => {
                proof {
                    lemma_entries_map_dom(self.entries@, *query);
                }
                None
            },
        }
    }

    /// Set the entry for `query` to valid `data`, replacing whatever state
    /// was there; a loading entry's request reference is discarded, and a
    /// computation still in flight will simply write its own result back
    /// later, last writer winning.
    pub fn insert(&mut self, query: Rc<Q>, data: Rc<Q::Output>)
        ensures
            final(self)@ == spec_insert(old(self)@, *query, data),
    {
        proof {
            use_type_invariant(&*self);
        }
        let ghost s0 = self.entries@;
        let idx = self.find_index(&query);
        let mut entries: Vec<(Rc<Q>, State<Q::Output>)> = Vec::new();
        std::mem::swap(&mut entries, &mut self.entries);
        let ghost np = (query, State::<Q::Output>::Valid(data));
        match idx {
            Some(i) => {
                entries[i] = (query, State::valid(data));
                proof {
                    assert(entries@ =~= s0.update(i as int, np));
                    lemma_entries_map_update(s0, i as int, np);
                }
            },
            None => {
                entries.push((query, State::valid(data)));
                proof {
                    assert(entries@ =~= s0.push(np));
                    assert forall|j: int| 0 <= j < s0.len() implies (#[trigger] s0[j]).0 != np.0 by {}
                    lemma_entries_map_push(s0, np);
                }
            },
        }
        self.entries = entries;
    }

    /// Delete the entry for `query` entirely, leaving no slot behind;
    /// idempotent on absent keys.
    pub fn remove(&mut self, query: &Q)
        ensures
            final(self)@ == old(self)@.remove(*query),
    {
        proof {
            use_type_invariant(&*self);
        }
        let ghost s0 = self.entries@;
        match self.find_index(query) {
            Some(i) => {
                let mut entries: Vec<(Rc<Q>, State<Q::Output>)> = Vec::new();
                std::mem::swap(&mut entries, &mut self.entries);
                entries.remove(i);
                proof {
                    lemma_entries_map_remove(s0, i as int, *query);
                }
                self.entries = entries;
            },
            None => {
                proof {
                    lemma_entries_map_dom(s0, *query);
                    assert(entries_map(s0).remove(*query) =~= entries_map(s0));
                }
            },
        }
    }

    /// Mark the entry for `query` stale: valid data becomes invalid, while
    /// absent keys and entries in any other state are left alone.
    pub fn invalidate(&mut self, query: &Q)
        ensures
            final(self)@ == spec_invalidate(old(self)@, *query),
    {
        proof {
            use_type_invariant(&*self);
        }
        let ghost s0 = self.entries@;
        match self.find_index(query) {
            Some(i) => {
                proof {
                    lemma_entries_map_index(s0, i as int, *query);
                }
                let key = self.entries[i].0.clone();
                let mut st = self.entries[i].1.clone();
                st.set_invalid();
                let mut entries: Vec<(Rc<Q>, State<Q::Output>)> = Vec::new();
                std::mem::swap(&mut entries, &mut self.entries);
                let ghost np = (key, st);
                entries[i] = (key, st);
                proof {
                    assert(entries@ =~= s0.update(i as int, np));
                    lemma_entries_map_update(s0, i as int, np);
                }
                self.entries = entries;
            },
            None => {
                proof {
                    lemma_entries_map_dom(s0, *query);
                }
            },
        }
    }

    /// Empty the entry for `query` back to `Idle`, keeping its slot, so the
    /// key reads as present-but-dataless; absent keys are left alone.
    pub fn clear(&mut self, query: &Q)
        ensures
            final(self)@ == spec_clear(old(self)@, *query),
    {
        proof {
            use_type_invariant(&*self);
        }
        let ghost s0 = self.entries@;
        match self.find_index(query) {
            Some(i) => {
                proof {
                    lemma_entries_map_index(s0, i as int, *query);
                }
                let key = self.entries[i].0.clone();
                let mut entries: Vec<(Rc<Q>, State<Q::Output>)> = Vec::new();
                std::mem::swap(&mut entries, &mut self.entries);
                let ghost np = (key, State::<Q::Output>::Idle);
                entries[i] = (key, State::Idle);
                proof {
                    assert(entries@ =~= s0.update(i as int, np));
                    lemma_entries_map_update(s0, i as int, np);
                }
                self.entries = entries;
            },
            None => {
                proof {
                    lemma_entries_map_dom(s0, *query);
                }
            },
        }
    }

    /// Get-or-create access for `query`: an absent key gets an `Idle` slot,
    /// in one step, and a copy of the entry's current state comes back.
    pub fn entry(&mut self, query: Rc<Q>) -> (s: State<Q::Output>)
        ensures
            final(self)@ == if old(self)@.dom().contains(*query) {
                old(self)@
            } else {
                old(self)@.insert(*query, State::Idle)
            },
            final(self)@.dom().contains(*query),
            s == final(self)@[*query],
    {
        proof {
            use_type_invariant(&*self);
        }
        let ghost s0 = self.entries@;
        let qr: &Q = &*query;
        match self.find_index(qr) {
            Some(i) => {
                proof {
                    lemma_entries_map_index(s0, i as int, *qr);
                }
                self.entries[i].1.clone()
            },
            None => {
                proof {
                    lemma_entries_map_dom(s0, *qr);
                }
                let mut entries: Vec<(Rc<Q>, State<Q::Output>)> = Vec::new();
                std::mem::swap(&mut entries, &mut self.entries);
                let ghost np = (query, State::<Q::Output>::Idle);
                entries.push((query, State::Idle));
                proof {
                    assert(entries@ =~= s0.push(np));
                    assert forall|j: int| 0 <= j < s0.len() implies (#[trigger] s0[j]).0 != np.0 by {}
                    lemma_entries_map_push(s0, np);
                }
                self.entries = entries;
                State::Idle
            },
        }
    }

    /// Begin a fetch for `query`, installing `fresh` as its request if and
    /// only if no request is already in flight for it.
    ///
    /// This is the deduplication point: when the entry is already loading,
    /// the plan hands back the request already in flight and the cache is
    /// left untouched, so overlapping fetches for one key attach to one
    /// computation. Otherwise the entry moves to `Loading` under `fresh`,
    /// preserving whatever data it held, and the caller must start the one
    /// computation for it.
    pub fn begin_fetch(&mut self, query: Rc<Q>, fresh: Request) -> (plan: FetchPlan)
        ensures
            (plan, final(self)@) == spec_begin_fetch(old(self)@, *query, fresh),
    {
        proof {
            use_type_invariant(&*self);
        }
        let ghost s0 = self.entries@;
        let qr: &Q = &*query;
        match self.find_index(qr) {
            Some(i) => {
                proof {
                    lemma_entries_map_index(s0, i as int, *qr);
                }
                let pending = self.entries[i].1.pending_data();
                match pending {
                    Some(r) => FetchPlan::AwaitExisting(r),
                    None => {
                        let key = self.entries[i].0.clone();
                        let mut st = self.entries[i].1.clone();
                        st.set_loading(fresh);
                        let mut entries: Vec<(Rc<Q>, State<Q::Output>)> = Vec::new();
                        std::mem::swap(&mut entries, &mut self.entries);
                        let ghost np = (key, st);
                        entries[i] = (key, st);
                        proof {
                            assert(entries@ =~= s0.update(i as int, np));
                            lemma_entries_map_update(s0, i as int, np);
                        }
                        self.entries = entries;
                        FetchPlan::StartNew(fresh)
                    },
                }
            },
            None => {
                proof {
                    lemma_entries_map_dom(s0, *qr);
                }
                let mut entries: Vec<(Rc<Q>, State<Q::Output>)> = Vec::new();
                std::mem::swap(&mut entries, &mut self.entries);
                let ghost np = (query, State::<Q::Output>::Loading(None, fresh));
                entries.push((query, State::Loading(None, fresh)));
                proof {
                    assert(entries@ =~= s0.push(np));
                    assert forall|j: int| 0 <= j < s0.len() implies (#[trigger] s0[j]).0 != np.0 by {}
                    lemma_entries_map_push(s0, np);
                }
                self.entries = entries;
                FetchPlan::StartNew(fresh)
            },
        }
    }
}

impl<Q: Query> View for Cache<Q> {
    type V = Map<Q, State<Q::Output>>;

    closed spec fn view(&self) -> Map<Q, State<Q::Output>> {
        entries_map(self.entries@)
    }
}

} // verus!
