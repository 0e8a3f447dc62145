use ntex::http::message::{Method, Payload, RequestHead};
use ntex::router::pattern::Param;
use ntex::web::httprequest::HttpRequestPool;
use ntex::web::state::StateContainer;
use std::rc::Rc;

fn state(key: u64, value: u32) -> Rc<StateContainer<u32>> {
    let mut c = StateContainer::new();
    c.insert(key, value);
    Rc::new(c)
}

#[test]
fn fresh_objects_get_new_serial_numbers() {
    let st = state(1, 1);
    let mut pool: HttpRequestPool<u32> = HttpRequestPool::create();
    assert_eq!(pool.idle_len(), 0);
    let a = pool.acquire(RequestHead::new(Method::Get, b"/a"), Payload::Empty, &st);
    let b = pool.acquire(RequestHead::new(Method::Get, b"/b"), Payload::Empty, &st);
    assert_eq!(a.id(), 0);
    assert_eq!(b.id(), 1);
    assert_eq!(pool.idle_len(), 0);
}

#[test]
fn round_trip_gives_the_same_object_fully_reset() {
    let first_state = state(1, 10);
    let second_state = state(2, 20);
    let mut pool: HttpRequestPool<u32> = HttpRequestPool::create();

    let mut head = RequestHead::new(Method::Post, b"/first");
    head.upgrade = true;
    let mut req = pool.acquire(head, Payload::Stream(9), &first_state);
    let serial = req.id();
    req.set_params(vec![Param { name: b"id".to_vec(), value: b"42".to_vec() }]);
    req.set_extension(5, 55);
    assert_eq!(req.param(b"id"), Some(&b"42".to_vec()));
    assert_eq!(req.extensions().get(5), Some(&55));
    pool.release(req);
    assert_eq!(pool.idle_len(), 1);

    let again = pool.acquire(RequestHead::new(Method::Get, b"/second"), Payload::Empty, &second_state);
    assert_eq!(pool.idle_len(), 0);
    assert_eq!(again.id(), serial);
    assert_eq!(again.head().method, Method::Get);
    assert_eq!(again.head().uri, b"/second".to_vec());
    assert!(!again.head().upgrade);
    assert_eq!(again.payload(), Payload::Empty);
    assert!(again.param(b"id").is_none());
    assert!(again.extensions().get(5).is_none());
    assert_eq!(again.app_state().get(2), Some(&20));
    assert!(again.app_state().get(1).is_none());
}

#[test]
fn most_recently_released_object_is_handed_out_first() {
    let st = state(1, 1);
    let mut pool: HttpRequestPool<u32> = HttpRequestPool::create();
    let a = pool.acquire(RequestHead::new(Method::Get, b"/"), Payload::Empty, &st);
    let b = pool.acquire(RequestHead::new(Method::Get, b"/"), Payload::Empty, &st);
    let c = pool.acquire(RequestHead::new(Method::Get, b"/"), Payload::Empty, &st);
    let (ia, ib, ic) = (a.id(), b.id(), c.id());
    pool.release(b);
    pool.release(a);
    pool.release(c);
    assert_eq!(pool.idle_len(), 3);
    let x = pool.acquire(RequestHead::new(Method::Get, b"/"), Payload::Empty, &st);
    let y = pool.acquire(RequestHead::new(Method::Get, b"/"), Payload::Empty, &st);
    let z = pool.acquire(RequestHead::new(Method::Get, b"/"), Payload::Empty, &st);
    assert_eq!((x.id(), y.id(), z.id()), (ic, ia, ib));
    let fresh = pool.acquire(RequestHead::new(Method::Get, b"/"), Payload::Empty, &st);
    assert_eq!(fresh.id(), 3);
}

#[test]
fn state_is_shared_not_copied() {
    let st = state(1, 1);
    let mut pool: HttpRequestPool<u32> = HttpRequestPool::create();
    let a = pool.acquire(RequestHead::new(Method::Get, b"/"), Payload::Empty, &st);
    assert_eq!(Rc::strong_count(&st), 2);
    assert!(std::ptr::eq(a.app_state(), &*st));
    pool.release(a);
}

#[test]
fn first_parameter_of_a_name_wins() {
    let st = state(1, 1);
    let mut pool: HttpRequestPool<u32> = HttpRequestPool::create();
    let mut req = pool.acquire(RequestHead::new(Method::Get, b"/"), Payload::Empty, &st);
    req.set_params(vec![
        Param { name: b"a".to_vec(), value: b"1".to_vec() },
        Param { name: b"b".to_vec(), value: b"2".to_vec() },
        Param { name: b"a".to_vec(), value: b"3".to_vec() },
    ]);
    assert_eq!(req.param(b"a"), Some(&b"1".to_vec()));
    assert_eq!(req.param(b"b"), Some(&b"2".to_vec()));
    assert!(req.param(b"c").is_none());
}
