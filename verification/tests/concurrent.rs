//! Drives fetches through a single-threaded executor, the way the
//! surrounding runtime does: the cache decides, shared futures carry the one
//! computation, and every overlapping caller attaches to it.

use std::cell::RefCell;
use std::collections::HashMap;
use std::future::Future;
use std::pin::Pin;
use std::rc::Rc;
use std::task::Context;
use std::task::Poll;
use std::task::Waker;

use futures::executor::LocalPool;
use futures::future::LocalBoxFuture;
use futures::future::Shared;
use futures::task::LocalSpawnExt;
use futures::FutureExt;

use query_cache::Client;
use query_cache::FetchPlan;
use query_cache::Query;
use query_cache::Request;

#[derive(Debug)]
struct CounterQ;

impl Query for CounterQ {
    type Output = u64;

    fn eq_query(&self, _other: &Self) -> bool {
        true
    }
}

/// A gate the test opens once every fetch is underway, so that the
/// computation cannot finish before the overlapping fetches have all begun.
#[derive(Default)]
struct GateState {
    open: bool,
    waker: Option<Waker>,
}

#[derive(Clone, Default)]
struct Gate(Rc<RefCell<GateState>>);

impl Gate {
    fn open(&self) {
        let mut state = self.0.borrow_mut();
        state.open = true;
        if let Some(waker) = state.waker.take() {
            waker.wake();
        }
    }
}

struct GateWait(Gate);

impl Future for GateWait {
    type Output = ();

    fn poll(self: Pin<&mut Self>, cx: &mut Context<'_>) -> Poll<()> {
        let mut state = self.0 .0.borrow_mut();
        if state.open {
            Poll::Ready(())
        } else {
            state.waker = Some(cx.waker().clone());
            Poll::Pending
        }
    }
}

type SharedRequest = Shared<LocalBoxFuture<'static, Rc<u64>>>;

#[derive(Clone)]
struct Runtime {
    client: Rc<RefCell<Client<CounterQ>>>,
    pending: Rc<RefCell<HashMap<u64, SharedRequest>>>,
    counter: Rc<RefCell<u64>>,
    next_id: Rc<RefCell<u64>>,
}

impl Runtime {
    fn new() -> Self {
        Runtime {
            client: Rc::new(RefCell::new(Client::new())),
            pending: Rc::new(RefCell::new(HashMap::new())),
            counter: Rc::new(RefCell::new(0)),
            next_id: Rc::new(RefCell::new(0)),
        }
    }
}

async fn fetch_counter(rt: Runtime, gate: Gate) -> Rc<u64> {
    let work: SharedRequest = {
        let client = rt.client.clone();
        let counter = rt.counter.clone();
        async move {
            GateWait(gate).await;
            let value = {
                let mut c = counter.borrow_mut();
                *c += 1;
                *c
            };
            let data = Rc::new(value);
            client
                .borrow_mut()
                .complete_request(Rc::new(CounterQ), data.clone());
            data
        }
        .boxed_local()
        .shared()
    };

    let fresh = {
        let mut n = rt.next_id.borrow_mut();
        *n += 1;
        Request::new(*n)
    };
    let plan = rt.client.borrow_mut().begin_fetch(Rc::new(CounterQ), fresh);
    let shared = match plan {
        FetchPlan::StartNew(r) => {
            rt.pending.borrow_mut().insert(r.id(), work.clone());
            work
        }
        FetchPlan::AwaitExisting(r) => rt
            .pending
            .borrow()
            .get(&r.id())
            .expect("a loading entry's request is registered")
            .clone(),
    };
    // No borrow of the client is held across the await.
    shared.await
}

#[test]
fn concurrent_fetches_share_one_computation() {
    let rt = Runtime::new();
    let gate = Gate::default();
    let results: Rc<RefCell<Vec<Rc<u64>>>> = Rc::new(RefCell::new(Vec::new()));

    let mut pool = LocalPool::new();
    let spawner = pool.spawner();
    for _ in 0..3 {
        let rt = rt.clone();
        let gate = gate.clone();
        let results = results.clone();
        spawner
            .spawn_local(async move {
                let r = fetch_counter(rt, gate).await;
                results.borrow_mut().push(r);
            })
            .expect("spawning on a fresh pool succeeds");
    }

    pool.run_until_stalled();
    assert_eq!(*rt.counter.borrow(), 0);
    {
        let cached = rt
            .client
            .borrow()
            .get_query_data(&CounterQ)
            .expect("the first fetch created the entry");
        assert!(cached.is_loading());
        assert!(cached.data().is_none());
    }

    gate.open();
    pool.run();

    // Exactly one computation ran, and every caller got the same value,
    // sharing one allocation.
    assert_eq!(*rt.counter.borrow(), 1);
    let results = results.borrow();
    assert_eq!(results.len(), 3);
    assert_eq!(*results[0], 1);
    assert!(Rc::ptr_eq(&results[0], &results[1]));
    assert!(Rc::ptr_eq(&results[0], &results[2]));

    // A later, separate read still returns the data the fetches resolved to.
    let cached = rt
        .client
        .borrow()
        .get_query_data(&CounterQ)
        .expect("the completed request wrote the entry back");
    assert!(cached.is_valid());
    assert_eq!(cached.data(), Some(&1));
}

#[test]
fn sequential_fetches_refetch() {
    let rt = Runtime::new();
    let gate = Gate::default();
    gate.open();

    let mut pool = LocalPool::new();
    let first = pool.run_until(fetch_counter(rt.clone(), gate.clone()));
    assert_eq!(*first, 1);
    // The first request completed, so an explicit second fetch computes anew.
    let second = pool.run_until(fetch_counter(rt.clone(), gate));
    assert_eq!(*second, 2);
    assert_eq!(*rt.counter.borrow(), 2);
}
