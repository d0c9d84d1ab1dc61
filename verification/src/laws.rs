//! Laws the cache obeys, stated over its abstract map and proved once for
//! every query type, key, and datum.

use vstd::prelude::*;
use std::rc::Rc;
use crate::query::Query;
use crate::state::State;
use crate::request::Request;
use crate::cache::FetchPlan;
use crate::cache::spec_entry;
use crate::cache::spec_insert;
use crate::cache::spec_invalidate;
use crate::cache::spec_clear;
use crate::cache::spec_begin_fetch;

verus! {

/// The plans handed out, and the map left behind, when fetches for `q` begin
/// one after another under the fresh requests in `rs`, with no completion in
/// between.
pub open spec fn spec_begin_fetch_all<Q: Query>(
    m: Map<Q, State<Q::Output>>,
    q: Q,
    rs: Seq<Request>,
) -> (Seq<FetchPlan>, Map<Q, State<Q::Output>>)
    decreases rs.len(),
{
    if rs.len() == 0 {
        (Seq::empty(), m)
    } else {
        let (plans, m1) = spec_begin_fetch_all(m, q, rs.drop_last());
        let (plan, m2) = spec_begin_fetch(m1, q, rs.last());
        (plans.push(plan), m2)
    }
}

/// Deduplication: when any number of fetches for one key begin while no
/// request for it is outstanding and none completes in between, exactly the
/// first starts a computation; every later one is told to attach to that
/// first request, and none of them changes the cache any further.
pub proof fn lemma_fetch_dedup<Q: Query>(m: Map<Q, State<Q::Output>>, q: Q, rs: Seq<Request>)
    requires
        !(spec_entry(m, q) is Loading),
        rs.len() >= 1,
    ensures
        ({
            let (plans, m1) = spec_begin_fetch_all(m, q, rs);
            &&& plans.len() == rs.len()
            &&& plans[0] == FetchPlan::StartNew(rs[0])
            &&& forall|i: int| 1 <= i < plans.len() ==> plans[i] == FetchPlan::AwaitExisting(rs[0])
            &&& spec_entry(m1, q).spec_pending() == Some(rs[0])
            &&& m1 == spec_begin_fetch(m, q, rs[0]).1
        }),
    decreases rs.len(),
{
    if rs.len() == 1 {
        assert(rs.drop_last().len() == 0);
    } else {
        lemma_fetch_dedup(m, q, rs.drop_last());
        assert(rs.drop_last()[0] == rs[0]);
        let (plans0, m1) = spec_begin_fetch_all(m, q, rs.drop_last());
        assert(spec_entry(m1, q) is Loading);
        let (plans, m2) = spec_begin_fetch_all(m, q, rs);
        assert(m2 == m1);
        assert forall|i: int| 1 <= i < plans.len() implies plans[i] == FetchPlan::AwaitExisting(
            rs[0],
        ) by {
            if i < plans.len() - 1 {
                assert(plans[i] == plans0[i]);
            }
        }
    }
}

/// While a request for `q` is in flight, beginning another fetch never starts
/// a second computation: the plan names the request already pending and the
/// cache is left exactly as it was.
pub proof fn lemma_fetch_attaches_while_loading<Q: Query>(
    m: Map<Q, State<Q::Output>>,
    q: Q,
    fresh: Request,
)
    requires
        spec_entry(m, q) is Loading,
    ensures
        spec_begin_fetch(m, q, fresh).1 == m,
        spec_begin_fetch(m, q, fresh).0 matches FetchPlan::AwaitExisting(r) && Some(r)
            == spec_entry(m, q).spec_pending(),
{
}

/// Beginning a fetch preserves the entry's readable prior data in the loading
/// state: whatever data the entry held is carried along, and an entry that
/// held none loads from nothing.
pub proof fn lemma_fetch_preserves_prior_data<Q: Query>(
    m: Map<Q, State<Q::Output>>,
    q: Q,
    fresh: Request,
)
    requires
        !(spec_entry(m, q) is Loading),
    ensures
        spec_entry(spec_begin_fetch(m, q, fresh).1, q) == State::Loading(
            spec_entry(m, q).spec_data(),
            fresh,
        ),
{
}

/// Last write wins: setting `q` to `a` and then to `b` leaves `q` valid at
/// `b`, exactly as if only `b` had been written.
pub proof fn lemma_last_write_wins<Q: Query>(
    m: Map<Q, State<Q::Output>>,
    q: Q,
    a: Rc<Q::Output>,
    b: Rc<Q::Output>,
)
    ensures
        spec_entry(spec_insert(spec_insert(m, q, a), q, b), q) == State::Valid(b),
        spec_insert(spec_insert(m, q, a), q, b) == spec_insert(m, q, b),
{
    assert(spec_insert(spec_insert(m, q, a), q, b) =~= spec_insert(m, q, b));
}

/// Invalidation preserves data: after setting `q` to `x` and invalidating it,
/// `q` still reads `x`, now marked stale rather than valid.
pub proof fn lemma_invalidate_preserves_data<Q: Query>(
    m: Map<Q, State<Q::Output>>,
    q: Q,
    x: Rc<Q::Output>,
)
    ensures
        spec_entry(spec_invalidate(spec_insert(m, q, x), q), q) == State::Invalid(x),
        spec_entry(spec_invalidate(spec_insert(m, q, x), q), q).spec_data() == Some(x),
        !(spec_entry(spec_invalidate(spec_insert(m, q, x), q), q) is Valid),
{
}

/// Removal clears presence: after setting `q` and removing it, no slot for
/// `q` remains at all, exactly as if it had never been touched.
pub proof fn lemma_remove_clears_presence<Q: Query>(
    m: Map<Q, State<Q::Output>>,
    q: Q,
    x: Rc<Q::Output>,
)
    ensures
        !spec_insert(m, q, x).remove(q).dom().contains(q),
        spec_entry(spec_insert(m, q, x).remove(q), q) == State::<Q::Output>::Idle,
{
}

/// Clearing is not removal: after setting `q` and clearing it, the slot for
/// `q` is still occupied but holds an idle, dataless entry; a caller reading
/// it sees no data, just as for a removed key, but the slot remains.
pub proof fn lemma_clear_keeps_slot<Q: Query>(
    m: Map<Q, State<Q::Output>>,
    q: Q,
    x: Rc<Q::Output>,
)
    ensures
        spec_clear(spec_insert(m, q, x), q).dom().contains(q),
        spec_clear(spec_insert(m, q, x), q)[q] == State::<Q::Output>::Idle,
        spec_entry(spec_clear(spec_insert(m, q, x), q), q).spec_data() is None,
{
}

/// Fetch-then-get ordering: once a request's result has been written back,
/// a later read of the same key returns exactly that data, valid.
pub proof fn lemma_fetch_then_get<Q: Query>(
    m: Map<Q, State<Q::Output>>,
    q: Q,
    d: Rc<Q::Output>,
)
    ensures
        spec_entry(spec_insert(m, q, d), q) == State::Valid(d),
        spec_entry(spec_insert(m, q, d), q).spec_data() == Some(d),
{
}

/// Invalidation is idempotent and safe everywhere: invalidating twice is the
/// same as invalidating once, and on an entry that is not valid — stale,
/// idle, loading, or absent — it changes nothing at all.
pub proof fn lemma_invalidate_idempotent<Q: Query>(m: Map<Q, State<Q::Output>>, q: Q)
    ensures
        spec_invalidate(spec_invalidate(m, q), q) == spec_invalidate(m, q),
        !(spec_entry(m, q) is Valid) ==> spec_invalidate(m, q) == m,
{
    if m.dom().contains(q) {
        assert(spec_invalidate(spec_invalidate(m, q), q) =~= spec_invalidate(m, q));
        if !(m[q] is Valid) {
            assert(spec_invalidate(m, q) =~= m);
        }
    }
}

/// Isolation between keys: every operation on `q` leaves the entry of any
/// other key `k` exactly as it was. Distinct query types are isolated by
/// construction — each type's entries live in a cache value of its own type —
/// so with this lemma no operation can return or disturb any entry but the
/// one it names.
pub proof fn lemma_ops_frame<Q: Query>(
    m: Map<Q, State<Q::Output>>,
    q: Q,
    k: Q,
    d: Rc<Q::Output>,
    fresh: Request,
)
    requires
        k != q,
    ensures
        spec_entry(spec_insert(m, q, d), k) == spec_entry(m, k),
        spec_entry(m.remove(q), k) == spec_entry(m, k),
        spec_entry(spec_invalidate(m, q), k) == spec_entry(m, k),
        spec_entry(spec_clear(m, q), k) == spec_entry(m, k),
        spec_entry(spec_begin_fetch(m, q, fresh).1, k) == spec_entry(m, k),
{
}

} // verus!
