//! The [`Client`]: owner of a cache, exposing the mutation primitives.

use vstd::prelude::*;
use std::rc::Rc;
use crate::query::Query;
use crate::state::State;
use crate::request::Request;
use crate::cache::Cache;
use crate::cache::FetchPlan;
use crate::cache::spec_insert;
use crate::cache::spec_invalidate;
use crate::cache::spec_clear;
use crate::cache::spec_begin_fetch;
use crate::cached::Cached;

verus! {

/// Exclusive owner of one query type's [`Cache`], exposing the mutation
/// primitives the outward-facing layer calls.
///
/// Its abstract value, written `client@`, is the cache's map from query value
/// to entry [`State`]. Every mutation here happens synchronously within the
/// call: the one suspension point of a fetch lies between
/// [`begin_fetch`](Client::begin_fetch), which commits the loading
/// transition, and [`complete_request`](Client::complete_request), which
/// writes the finished result back, so no entry is ever observed mid-update.
///
/// A shared, interiorly mutable handle over clients, and the `async` loop
/// that actually awaits a request, cannot be verified here: the surrounding
/// runtime wraps clients in such a handle, routes each query type to its own
/// client, and drives the two fetch halves around its await.
pub struct Client<Q: Query> {
    cache: Cache<Q>,
}

impl<Q: Query> View for Client<Q> {
    type V = Map<Q, State<Q::Output>>;

    closed spec fn view(&self) -> Map<Q, State<Q::Output>> {
        self.cache@
    }
}

impl<Q: Query> Client<Q> {
    /// Make a client with an empty cache.
    pub fn new() -> (r: Self)
        ensures
            r@ == Map::<Q, State<Q::Output>>::empty(),
    {
        Client { cache: Cache::new() }
    }

    /// Read access to the owned cache.
    pub fn cache(&self) -> (r: &Cache<Q>)
        ensures
            r@ == self@,
    {
        &self.cache
    }

    /// Manually set the output data for a query: its entry becomes valid
    /// `data`, overwriting any previous state.
    pub fn set_query_data(&mut self, query: Rc<Q>, data: Rc<Q::Output>)
        ensures
            final(self)@ == spec_insert(old(self)@, *query, data),
    {
        self.cache.insert(query, data);
    }

    /// The write-back a finished request performs: store the result it
    /// produced as the entry's valid data, overwriting any previous state.
    /// The runtime runs this once per request, however many callers await
    /// clones of that request; under last-writer-wins it lands like any other
    /// write.
    pub fn complete_request(&mut self, query: Rc<Q>, data: Rc<Q::Output>)
        ensures
            final(self)@ == spec_insert(old(self)@, *query, data),
    {
        self.cache.insert(query, data);
    }

    /// Begin a fetch for `query`: either a plan to attach to the request
    /// already in flight, leaving the cache untouched, or a commitment of
    /// `fresh` as the entry's new loading request, in which case the caller
    /// must start the one computation for it.
    pub fn begin_fetch(&mut self, query: Rc<Q>, fresh: Request) -> (plan: FetchPlan)
        ensures
            (plan, final(self)@) == spec_begin_fetch(old(self)@, *query, fresh),
    {
        self.cache.begin_fetch(query, fresh)
    }

    /// A snapshot of the cached state for `query`, or `None` if no slot for
    /// it has ever been touched; no side effect, and the snapshot does not
    /// track later changes.
    pub fn get_query_data(&self, query: &Q) -> (r: Option<Cached<Q>>)
        ensures
            match r {
                Some(c) => self@.dom().contains(*query) && c.spec_query() == *query
                    && c.spec_state() == self@[*query],
                None => !self@.dom().contains(*query),
            },
    {
        self.cache.get(query)
    }

    /// Mark cached data for `query` stale without refetching: valid data
    /// becomes invalid but stays readable; anything else is left alone.
    pub fn invalidate_query(&mut self, query: &Q)
        ensures
            final(self)@ == spec_invalidate(old(self)@, *query),
    {
        self.cache.invalidate(query);
    }

    /// Completely remove the entry for `query`, as if it had never been
    /// fetched.
    pub fn remove_query(&mut self, query: &Q)
        ensures
            final(self)@ == old(self)@.remove(*query),
    {
        self.cache.remove(query);
    }

    /// Empty the entry for `query` back to `Idle` without triggering a
    /// refresh, keeping the slot in the cache.
    pub fn clear_query(&mut self, query: &Q)
        ensures
            final(self)@ == spec_clear(old(self)@, *query),
    {
        self.cache.clear(query);
    }
}

impl<Q: Query> Default for Client<Q> {
    /// A client with an empty cache.
    fn default() -> (r: Self)
        ensures
            r@ == Map::<Q, State<Q::Output>>::empty(),
    {
        Client { cache: Cache::new() }
    }
}

} // verus!
