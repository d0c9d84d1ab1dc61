//! The per-entry lifecycle [`State`].

use vstd::prelude::*;
use std::rc::Rc;
use crate::request::Request;

verus! {

/// The lifecycle state of one cache entry.
///
/// Result data is held behind [`Rc`], so the slot and every snapshot handed
/// to a caller share one immutable value rather than copies of it.
pub enum State<T> {
    /// Data exists but has been explicitly marked stale; still readable.
    Invalid(Rc<T>),
    /// The last computation succeeded and nothing has invalidated it since.
    Valid(Rc<T>),
    /// A computation is outstanding. The first field preserves the last good
    /// value, if any, so consumers may keep showing it while refetching; the
    /// second names the in-flight request.
    Loading(Option<Rc<T>>, Request),
    /// No computation ever started and no data is held.
    Idle,
}

impl<T> State<T> {
    /// The data this state holds, if it is readable: present exactly in the
    /// `Valid` and `Invalid` states.
    pub open spec fn spec_data(self) -> Option<Rc<T>> {
        match self {
            State::Valid(d) => Some(d),
            State::Invalid(d) => Some(d),
            State::Loading(_, _) => None,
            State::Idle => None,
        }
    }

    /// The data a fetch started from this state would preserve while loading.
    pub open spec fn spec_prior(self) -> Option<Rc<T>> {
        match self {
            State::Valid(d) => Some(d),
            State::Invalid(d) => Some(d),
            State::Loading(d, _) => d,
            State::Idle => None,
        }
    }

    /// The request in flight, if this state is `Loading`.
    pub open spec fn spec_pending(self) -> Option<Request> {
        match self {
            State::Loading(_, req) => Some(req),
            _ => None,
        }
    }

    /// The state after an explicit invalidation: `Valid` data becomes
    /// `Invalid`; every other state is left as it is.
    pub open spec fn spec_set_invalid(self) -> Self {
        match self {
            State::Valid(d) => State::Invalid(d),
            other => other,
        }
    }

    /// The state after a fetch starts under the given request: always
    /// `Loading`, preserving whatever data preceded it.
    pub open spec fn spec_set_loading(self, req: Request) -> Self {
        State::Loading(self.spec_prior(), req)
    }

    /// Make a `Valid` state holding the given data.
    pub fn valid(data: Rc<T>) -> (r: Self)
        ensures
            r == State::Valid(data),
    {
        State::Valid(data)
    }

    /// Mark the data stale: `Valid` becomes `Invalid`; any other state,
    /// including `Loading`, is untouched.
    pub fn set_invalid(&mut self)
        ensures
            *final(self) == old(self).spec_set_invalid(),
    {
        let next: Option<State<T>> = match &*self {
            State::Valid(d) => Some(State::Invalid(d.clone())),
            _ => None,
        };
        match next {
            Some(s) => {
                *self = s;
            },
            None => {},
        }
    }

    /// Move to `Loading` under the given request, preserving whatever data
    /// preceded it.
    pub fn set_loading(&mut self, req: Request)
        ensures
            *final(self) == old(self).spec_set_loading(req),
    {
        let prior: Option<Rc<T>> = match &*self {
            State::Valid(d) => Some(d.clone()),
            State::Invalid(d) => Some(d.clone()),
            State::Loading(d, _) => match d {
                Some(x) => Some(x.clone()),
                None => None,
            },
            State::Idle => None,
        };
        *self = State::Loading(prior, req);
    }

    /// Empty the state back to `Idle`, dropping any data or pending request
    /// reference.
    pub fn clear(&mut self)
        ensures
            *final(self) == State::<T>::Idle,
    {
        *self = State::Idle;
    }

    /// Whether a computation is outstanding.
    pub fn is_loading(&self) -> (r: bool)
        ensures
            r <==> *self is Loading,
    {
        matches!(self, State::Loading(..))
    }

    /// The request in flight, if any.
    pub fn pending_data(&self) -> (r: Option<Request>)
        ensures
            r == self.spec_pending(),
    {
        match self {
            State::Loading(_, req) => Some(*req),
            _ => None,
        }
    }

    /// The readable data: present exactly in the `Valid` and `Invalid`
    /// states.
    pub fn data(&self) -> (r: Option<&T>)
        ensures
            match self.spec_data() {
                Some(d) => r matches Some(t) && *t == d,
                None => r is None,
            },
    {
        match self {
            State::Valid(d) => Some(&**d),
            State::Invalid(d) => Some(&**d),
            _ => None,
        }
    }

    /// Whether the data is present and not marked stale.
    pub fn is_valid(&self) -> (r: bool)
        ensures
            r <==> *self is Valid,
    {
        matches!(self, State::Valid(..))
    }

    /// Whether this entry has been emptied or never touched.
    pub fn is_idle(&self) -> (r: bool)
        ensures
            r <==> *self is Idle,
    {
        matches!(self, State::Idle)
    }
}

impl<T> Default for State<T> {
    /// The initial state of an entry: `Idle`.
    fn default() -> (r: Self)
        ensures
            r == State::<T>::Idle,
    {
        State::Idle
    }
}

impl<T> Clone for State<T> {
    /// A snapshot of the state, sharing the same underlying data.
    fn clone(&self) -> (r: Self)
        ensures
            r == *self,
    {
        match self {
            State::Invalid(d) => State::Invalid(d.clone()),
            State::Valid(d) => State::Valid(d.clone()),
            State::Loading(d, req) => State::Loading(
                match d {
                    Some(x) => Some(x.clone()),
                    None => None,
                },
                *req,
            ),
            State::Idle => State::Idle,
        }
    }
}

} // verus!
