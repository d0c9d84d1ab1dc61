//! The [`Request`] handle: one in-flight computation, shared by its awaiters.

use vstd::prelude::*;

verus! {

/// A handle identifying one in-flight computation.
///
/// The cache never runs a computation itself: it records which request a
/// loading entry belongs to, and every caller that asks for the same query
/// while that entry is loading receives this same handle back, so all of them
/// attach to one computation. The surrounding runtime keys its shared futures
/// by the handle's number.
#[derive(Clone, Copy, PartialEq, Eq, Structural, Debug)]
pub struct Request {
    id: u64,
}

impl View for Request {
    type V = u64;

    closed spec fn view(&self) -> u64 {
        self.id
    }
}

impl Request {
    /// Make a handle with the given number.
    ///
    /// Callers that start computations are expected to pick a number not used
    /// by any handle still pending, so that a handle read back out of the
    /// cache picks out one computation.
    pub fn new(id: u64) -> (r: Self)
        ensures
            r@ == id,
    {
        Request { id }
    }

    /// The handle's number.
    pub fn id(&self) -> (r: u64)
        ensures
            r == self@,
    {
        self.id
    }
}

} // verus!
