use ntex::service::map_init_err::MapInitErr;
use ntex::service::{Identity, Poll, Service, ServiceFactory, Transform};

struct Doubler;

impl Service<usize> for Doubler {
    type Response = usize;
    type Error = ();

    fn poll_ready(&mut self) -> Poll<Result<(), ()>> {
        Poll::Ready(Ok(()))
    }

    fn call(&mut self, req: &mut usize) -> Result<usize, ()> {
        Ok(*req * 2)
    }
}

#[derive(Clone)]
struct Flaky;

impl ServiceFactory<usize, bool> for Flaky {
    type Response = usize;
    type Error = ();
    type InitError = u8;
    type Service = Doubler;

    fn new_service(&mut self, err: bool) -> Result<Doubler, u8> {
        if err {
            Err(7)
        } else {
            Ok(Doubler)
        }
    }
}

#[test]
fn map_init_err() {
    let mut factory = MapInitErr::new(Flaky, |_: u8| {
        std::io::Error::new(std::io::ErrorKind::Other, "err")
    })
    .clone();

    assert!(factory.new_service(true).is_err());
    assert!(factory.new_service(false).is_ok());
}

#[test]
fn map_init_err_changes_only_the_failure() {
    let mut factory = MapInitErr::new(Flaky, |e: u8| format!("code {}", e + 1));
    match factory.new_service(true) {
        Err(text) => assert_eq!(text, "code 8"),
        Ok(_) => unreachable!(),
    }
    let mut service = factory.new_service(false).ok().unwrap();
    assert!(matches!(service.poll_ready(), Poll::Ready(Ok(()))));
    let mut req = 21usize;
    assert_eq!(service.call(&mut req), Ok(42));
}

#[test]
fn identity_hands_the_service_on() {
    let mut service = Identity.new_transform(Doubler);
    let mut req = 4usize;
    assert_eq!(service.call(&mut req), Ok(8));
}

use ntex::service::and_then::AndThen;
use ntex::service::boxed;
use ntex::service::boxed::{BoxService, BoxServiceFactory};
use ntex::service::map_err::MapErr;
use std::cell::Cell;
use std::rc::Rc;

/// A service whose readiness checks follow a script and whose calls fail
/// on odd requests.
struct Picky {
    readiness: Vec<Poll<Result<(), u8>>>,
    calls: Rc<Cell<usize>>,
}

impl Service<usize> for Picky {
    type Response = usize;
    type Error = u8;

    fn poll_ready(&mut self) -> Poll<Result<(), u8>> {
        if self.readiness.is_empty() {
            Poll::Ready(Ok(()))
        } else {
            self.readiness.remove(0)
        }
    }

    fn call(&mut self, req: &mut usize) -> Result<usize, u8> {
        self.calls.set(self.calls.get() + 1);
        if *req % 2 == 1 {
            Err(3)
        } else {
            *req += 100;
            Ok(*req / 2)
        }
    }
}

fn picky(readiness: Vec<Poll<Result<(), u8>>>) -> (Picky, Rc<Cell<usize>>) {
    let calls = Rc::new(Cell::new(0));
    (Picky { readiness, calls: calls.clone() }, calls)
}

#[test]
fn map_err_changes_only_the_failure() {
    let (inner, _) = picky(vec![Poll::Pending, Poll::Ready(Err(9)), Poll::Ready(Ok(()))]);
    let mut service = MapErr::new(inner, |e: u8| format!("error {}", e));
    assert!(matches!(service.poll_ready(), Poll::Pending));
    match service.poll_ready() {
        Poll::Ready(Err(text)) => assert_eq!(text, "error 9"),
        _ => unreachable!(),
    }
    assert!(matches!(service.poll_ready(), Poll::Ready(Ok(()))));
    let mut req = 8usize;
    assert_eq!(service.call(&mut req), Ok(54));
    assert_eq!(req, 108);
    let mut req = 7usize;
    assert_eq!(service.call(&mut req), Err("error 3".to_string()));
    assert_eq!(req, 7);
}

#[test]
fn and_then_feeds_the_first_response_to_the_second_stage() {
    let (a, first) = picky(vec![]);
    let (b, second) = picky(vec![]);
    let mut chain = AndThen::new(a, b);
    assert!(matches!(chain.poll_ready(), Poll::Ready(Ok(()))));
    // 8 -> (8 + 100) / 2 = 54 -> (54 + 100) / 2 = 77
    let mut req = 8usize;
    assert_eq!(chain.call(&mut req), Ok(77));
    assert_eq!(req, 108);
    assert_eq!((first.get(), second.get()), (1, 1));
}

#[test]
fn and_then_stops_at_the_first_failure() {
    let (a, first) = picky(vec![]);
    let (b, second) = picky(vec![]);
    let mut chain = AndThen::new(a, b);
    let mut req = 7usize;
    assert_eq!(chain.call(&mut req), Err(3));
    assert_eq!((first.get(), second.get()), (1, 0));

    // 10 -> 55, which the second stage refuses
    let mut req = 10usize;
    assert_eq!(chain.call(&mut req), Err(3));
    assert_eq!((first.get(), second.get()), (2, 1));
}

#[test]
fn and_then_is_ready_when_both_stages_are() {
    let (a, _) = picky(vec![Poll::Pending, Poll::Ready(Ok(())), Poll::Ready(Ok(()))]);
    let (b, _) = picky(vec![Poll::Ready(Ok(())), Poll::Pending, Poll::Ready(Ok(()))]);
    let mut chain = AndThen::new(a, b);
    assert!(matches!(chain.poll_ready(), Poll::Pending));
    assert!(matches!(chain.poll_ready(), Poll::Pending));
    assert!(matches!(chain.poll_ready(), Poll::Ready(Ok(()))));

    let (a, _) = picky(vec![Poll::Ready(Err(1))]);
    let (b, _) = picky(vec![Poll::Ready(Err(2))]);
    let mut chain = AndThen::new(a, b);
    assert!(matches!(chain.poll_ready(), Poll::Ready(Err(1))));

    let (a, _) = picky(vec![Poll::Pending]);
    let (b, _) = picky(vec![Poll::Ready(Err(2))]);
    let mut chain = AndThen::new(a, b);
    assert!(matches!(chain.poll_ready(), Poll::Ready(Err(2))));
}

struct Tripler;

impl Service<usize> for Tripler {
    type Response = usize;
    type Error = u8;

    fn poll_ready(&mut self) -> Poll<Result<(), u8>> {
        Poll::Ready(Ok(()))
    }

    fn call(&mut self, req: &mut usize) -> Result<usize, u8> {
        Ok(*req * 3)
    }
}

#[test]
fn boxed_services_of_different_types_share_one_collection() {
    let (p, calls) = picky(vec![Poll::Pending]);
    let mut services: Vec<BoxService<usize, usize, u8>> =
        vec![boxed::service(p), boxed::service(Tripler)];
    assert!(matches!(services[0].poll_ready(), Poll::Pending));
    assert!(matches!(services[0].poll_ready(), Poll::Ready(Ok(()))));
    assert!(matches!(services[1].poll_ready(), Poll::Ready(Ok(()))));
    let mut req = 4usize;
    assert_eq!(services[0].call(&mut req), Ok(52));
    assert_eq!(req, 104);
    assert_eq!(services[1].call(&mut req), Ok(312));
    let mut req = 5usize;
    assert_eq!(services[0].call(&mut req), Err(3));
    assert_eq!(calls.get(), 2);
}

struct TriplerFactory {
    broken: bool,
}

impl ServiceFactory<usize, ()> for TriplerFactory {
    type Response = usize;
    type Error = u8;
    type InitError = &'static str;
    type Service = Tripler;

    fn new_service(&mut self, _: ()) -> Result<Tripler, &'static str> {
        if self.broken {
            Err("broken")
        } else {
            Ok(Tripler)
        }
    }
}

#[test]
fn boxed_factory_builds_boxed_services() {
    let mut factories: Vec<BoxServiceFactory<usize, (), usize, u8, &'static str>> = vec![
        boxed::factory(TriplerFactory { broken: false }),
        boxed::factory(TriplerFactory { broken: true }),
    ];
    let mut service = factories[0].new_service(()).ok().unwrap();
    let mut req = 5usize;
    assert_eq!(service.call(&mut req), Ok(15));
    assert_eq!(factories[1].new_service(()).err(), Some("broken"));
}

use ntex::service::join;

#[test]
fn join_combines_two_readiness_answers() {
    assert!(matches!(join::<u8>(true, Poll::Ready(Ok(()))), Poll::Ready(Ok(()))));
    assert!(matches!(join::<u8>(false, Poll::Ready(Ok(()))), Poll::Pending));
    assert!(matches!(join::<u8>(true, Poll::Pending), Poll::Pending));
    assert!(matches!(join::<u8>(false, Poll::Pending), Poll::Pending));
    assert!(matches!(join::<u8>(true, Poll::Ready(Err(4))), Poll::Ready(Err(4))));
    assert!(matches!(join::<u8>(false, Poll::Ready(Err(4))), Poll::Ready(Err(4))));
}
