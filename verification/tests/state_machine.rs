use std::rc::Rc;

use query_cache::Request;
use query_cache::State;

#[test]
fn default_state_is_idle() {
    let s: State<u32> = State::default();
    assert!(s.is_idle());
    assert!(!s.is_loading());
    assert!(!s.is_valid());
    assert!(s.data().is_none());
    assert!(s.pending_data().is_none());
}

#[test]
fn valid_constructor_holds_data() {
    let s = State::valid(Rc::new(5u32));
    assert!(s.is_valid());
    assert!(!s.is_idle());
    assert!(!s.is_loading());
    assert_eq!(s.data(), Some(&5));
}

#[test]
fn set_invalid_moves_valid_to_invalid_keeping_data() {
    let mut s = State::valid(Rc::new(7u32));
    s.set_invalid();
    assert!(!s.is_valid());
    assert!(!s.is_idle());
    assert!(!s.is_loading());
    assert_eq!(s.data(), Some(&7));
}

#[test]
fn set_invalid_is_a_no_op_elsewhere() {
    let mut idle: State<u32> = State::Idle;
    idle.set_invalid();
    assert!(idle.is_idle());

    let mut invalid = State::Invalid(Rc::new(3u32));
    invalid.set_invalid();
    assert!(!invalid.is_valid());
    assert_eq!(invalid.data(), Some(&3));

    let mut loading: State<u32> = State::Loading(None, Request::new(1));
    loading.set_invalid();
    assert!(loading.is_loading());
    assert_eq!(loading.pending_data(), Some(Request::new(1)));
}

#[test]
fn set_loading_from_idle_has_no_prior_data() {
    let mut s: State<u32> = State::Idle;
    s.set_loading(Request::new(4));
    assert!(s.is_loading());
    assert!(s.data().is_none());
    assert_eq!(s.pending_data(), Some(Request::new(4)));
    assert!(matches!(s, State::Loading(None, _)));
}

#[test]
fn set_loading_preserves_valid_and_invalid_data() {
    let mut v = State::valid(Rc::new(9u32));
    v.set_loading(Request::new(2));
    match &v {
        State::Loading(Some(d), r) => {
            assert_eq!(**d, 9);
            assert_eq!(r.id(), 2);
        }
        _ => panic!("expected a loading state with prior data"),
    }

    let mut i = State::Invalid(Rc::new(8u32));
    i.set_loading(Request::new(3));
    assert!(matches!(&i, State::Loading(Some(d), _) if **d == 8));
}

#[test]
fn set_loading_while_loading_keeps_prior_data_and_swaps_request() {
    let mut s: State<u32> = State::Loading(Some(Rc::new(6)), Request::new(1));
    s.set_loading(Request::new(2));
    match &s {
        State::Loading(Some(d), r) => {
            assert_eq!(**d, 6);
            assert_eq!(r.id(), 2);
        }
        _ => panic!("expected a loading state with prior data"),
    }
}

#[test]
fn clear_empties_any_state() {
    let mut v = State::valid(Rc::new(1u32));
    v.clear();
    assert!(v.is_idle());

    let mut l: State<u32> = State::Loading(Some(Rc::new(2)), Request::new(1));
    l.clear();
    assert!(l.is_idle());
    assert!(l.pending_data().is_none());
}

#[test]
fn state_clone_shares_the_same_data() {
    let s = State::valid(Rc::new(11u32));
    let t = s.clone();
    match (&s, &t) {
        (State::Valid(a), State::Valid(b)) => assert!(Rc::ptr_eq(a, b)),
        _ => panic!("expected two valid states"),
    }
}

#[test]
fn request_ids_round_trip() {
    let r = Request::new(42);
    assert_eq!(r.id(), 42);
    let s = r;
    assert_eq!(s, Request::new(42));
    assert_ne!(s, Request::new(43));
}
