//! The [`Cached`] snapshot handed back to callers.

use vstd::prelude::*;
use std::rc::Rc;
use crate::query::Query;
use crate::state::State;

verus! {

/// A point-in-time snapshot of one cache entry.
///
/// The snapshot shares the underlying data with the cache slot it was taken
/// from; it does not track later changes to that slot.
pub struct Cached<Q: Query> {
    query: Rc<Q>,
    data: State<Q::Output>,
}

impl<Q: Query> Cached<Q> {
    /// Bundle a query value and a copy of its slot's state into a snapshot.
    pub(crate) fn snapshot(query: Rc<Q>, data: State<Q::Output>) -> (r: Self)
        ensures
            r.spec_query() == query,
            r.spec_state() == data,
    {
        Cached { query, data }
    }

    /// The query value this snapshot belongs to.
    pub closed spec fn spec_query(self) -> Q {
        *self.query
    }

    /// The entry state captured by this snapshot.
    pub closed spec fn spec_state(self) -> State<Q::Output> {
        self.data
    }

    /// The query value this snapshot belongs to.
    pub fn query(&self) -> (r: &Q)
        ensures
            *r == self.spec_query(),
    {
        &*self.query
    }

    /// The readable data, present exactly when the captured state was valid
    /// or invalid.
    pub fn data(&self) -> (r: Option<&Q::Output>)
        ensures
            match self.spec_state().spec_data() {
                Some(d) => r matches Some(t) && *t == d,
                None => r is None,
            },
    {
        self.data.data()
    }

    /// Whether a computation was outstanding when the snapshot was taken.
    pub fn is_loading(&self) -> (r: bool)
        ensures
            r <==> self.spec_state() is Loading,
    {
        self.data.is_loading()
    }

    /// Whether the captured data was present and not marked stale.
    pub fn is_valid(&self) -> (r: bool)
        ensures
            r <==> self.spec_state() is Valid,
    {
        self.data.is_valid()
    }

    /// Whether the entry was empty when the snapshot was taken.
    pub fn is_idle(&self) -> (r: bool)
        ensures
            r <==> self.spec_state() is Idle,
    {
        self.data.is_idle()
    }
}

impl<Q: Query> Clone for Cached<Q> {
    /// Another snapshot of the same entry, sharing the same underlying data.
    fn clone(&self) -> (r: Self)
        ensures
            r == *self,
    {
        Cached { query: self.query.clone(), data: self.data.clone() }
    }
}

} // verus!
