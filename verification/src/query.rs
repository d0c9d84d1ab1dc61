//! The [`Query`] trait: values that identify a unit of work.

use vstd::prelude::*;

verus! {

/// A query names a unit of work whose result has the fixed type
/// [`Output`](Query::Output).
///
/// The query value itself is the cache key: two query values that are equal
/// identify the same logical request, share one cache slot, and share one
/// in-flight request. Implementations provide [`eq_query`](Query::eq_query),
/// an executable equality test that must agree with logical equality of the
/// two values; the cache relies on it to route every operation to the right
/// slot.
pub trait Query: Sized {
    /// The result type produced by performing this query.
    ///
    /// No assumption is made about failure: a fallible query is expected to
    /// pick a result-like `Output`, and the cache stores whatever value the
    /// computation produced.
    type Output;

    /// Decide whether two query values identify the same request.
    fn eq_query(&self, other: &Self) -> (r: bool)
        ensures
            r <==> *self == *other,
    ;
}

} // verus!
