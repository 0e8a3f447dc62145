use ntex::http::message::{Method, Payload, Request, RequestHead, Response};
use ntex::router::pattern::ResourceDef;
use ntex::service::{Identity, Poll, Service, ServiceFactory, Transform};
use ntex::web::app_service::{
    conclude, settle, AppConfig, AppFactory, AppFactoryInner, AppRouter, AppRouting, AppService,
    DefaultService, ErrorContainer, Gate, Target, WebResponse, WebServiceEntry,
};
use ntex::web::guard::Predicate;
use ntex::web::httprequest::{HttpRequestPool, WebRequest};
use ntex::web::rmap::ResourceMap;
use ntex::web::state::{StateContainer, StateEntry, StateFactory};
use std::cell::{Cell, RefCell};
use std::marker::PhantomData;
use std::rc::Rc;

type Req = WebRequest<u32>;

/// An error that renders itself as a response with its own status and a
/// body made of the error's text and the path of the request.
#[derive(Debug)]
struct Failure {
    status: u16,
    text: &'static str,
}

impl ErrorContainer<u32> for Failure {
    fn error_response(&self, req: &Req) -> Response {
        let mut res = Response::new(self.status);
        res.body = self.text.as_bytes().to_vec();
        res.body.extend_from_slice(b" at ");
        res.body.extend_from_slice(&req.head().uri);
        res
    }
}

#[derive(Default)]
struct Log {
    calls: Cell<usize>,
    last_id: RefCell<Option<Vec<u8>>>,
    last_state: Cell<Option<u32>>,
}

/// A handler that answers with a fixed status, or fails.
struct Handler {
    status: u16,
    fail: bool,
    log: Rc<Log>,
}

impl Service<Req> for Handler {
    type Response = WebResponse;
    type Error = Failure;

    fn poll_ready(&mut self) -> Poll<Result<(), Failure>> {
        Poll::Ready(Ok(()))
    }

    fn call(&mut self, req: &mut Req) -> Result<WebResponse, Failure> {
        self.log.calls.set(self.log.calls.get() + 1);
        *self.log.last_id.borrow_mut() = req.param(b"id").cloned();
        self.log.last_state.set(req.app_state().get(1).copied());
        if self.fail {
            Err(Failure { status: 418, text: "teapot" })
        } else {
            let mut res = Response::new(self.status);
            res.body = b"handled".to_vec();
            Ok(WebResponse::new(res))
        }
    }
}

struct HandlerFactory {
    status: u16,
    fail: bool,
    broken: bool,
    log: Rc<Log>,
    built: Rc<Cell<usize>>,
}

impl ServiceFactory<Req, ()> for HandlerFactory {
    type Response = WebResponse;
    type Error = Failure;
    type InitError = ();
    type Service = Handler;

    fn new_service(&mut self, _: ()) -> Result<Handler, ()> {
        self.built.set(self.built.get() + 1);
        if self.broken {
            Err(())
        } else {
            Ok(Handler { status: self.status, fail: self.fail, log: self.log.clone() })
        }
    }
}

/// A filter whose readiness checks and calls follow a script.
struct Filter {
    readiness: Vec<Poll<Result<(), Failure>>>,
    fail: bool,
    calls: Rc<Cell<usize>>,
}

impl Service<Req> for Filter {
    type Response = ();
    type Error = Failure;

    fn poll_ready(&mut self) -> Poll<Result<(), Failure>> {
        if self.readiness.is_empty() {
            Poll::Ready(Ok(()))
        } else {
            self.readiness.remove(0)
        }
    }

    fn call(&mut self, req: &mut Req) -> Result<(), Failure> {
        self.calls.set(self.calls.get() + 1);
        if self.fail {
            Err(Failure { status: 401, text: "denied" })
        } else {
            req.set_extension(77, 7);
            Ok(())
        }
    }
}

struct FilterFactory {
    fail: bool,
    broken: bool,
    calls: Rc<Cell<usize>>,
}

impl ServiceFactory<Req, ()> for FilterFactory {
    type Response = ();
    type Error = Failure;
    type InitError = ();
    type Service = Filter;

    fn new_service(&mut self, _: ()) -> Result<Filter, ()> {
        if self.broken {
            Err(())
        } else {
            Ok(Filter { readiness: Vec::new(), fail: self.fail, calls: self.calls.clone() })
        }
    }
}

struct NoState;

impl StateFactory<u32> for NoState {
    fn create(&self, _state: &StateContainer<u32>) -> Result<StateEntry<u32>, ()> {
        Err(())
    }
}

/// A state factory that doubles what the first phase stored under key 1.
struct Doubling;

impl StateFactory<u32> for Doubling {
    fn create(&self, state: &StateContainer<u32>) -> Result<StateEntry<u32>, ()> {
        match state.get(1) {
            Some(v) => Ok(StateEntry { key: 2, value: *v * 2 }),
            None => Err(()),
        }
    }
}

type Routing = AppRouting<Filter, Handler, DefaultService<Failure>, Predicate, u32, Failure>;

fn filter(fail: bool) -> (Filter, Rc<Cell<usize>>) {
    let calls = Rc::new(Cell::new(0));
    (Filter { readiness: Vec::new(), fail, calls: calls.clone() }, calls)
}

fn users_routing(fail_handler: bool, fail_filter: bool, with_default: bool) -> (Routing, Rc<Log>, Rc<Cell<usize>>) {
    let log = Rc::new(Log::default());
    let mut map: ResourceMap<Predicate> = ResourceMap::new(ResourceDef::root());
    map.register(
        ResourceDef::new(b"/users/{id}").unwrap(),
        0,
        Some(vec![Predicate::Method(Method::Get)]),
        None,
    );
    let router = map.finish(1, false).unwrap();
    let handlers = vec![Handler { status: 200, fail: fail_handler, log: log.clone() }];
    let default = if with_default { Some(DefaultService::default()) } else { None };
    let (f, calls) = filter(fail_filter);
    (AppRouting::new(f, AppRouter::new(router, handlers, default)), log, calls)
}

fn request(pool: &mut HttpRequestPool<u32>, method: Method, path: &[u8]) -> Req {
    let state = Rc::new(StateContainer::new());
    pool.acquire(RequestHead::new(method, path), Payload::Empty, &state)
}

fn ready(routing: &mut Routing) {
    assert!(matches!(routing.poll_ready(), Poll::Ready(Ok(()))));
}

#[test]
fn get_users_42_reaches_the_handler_with_its_id() {
    let (mut routing, log, _) = users_routing(false, false, true);
    let mut pool = HttpRequestPool::create();
    let mut req = request(&mut pool, Method::Get, b"/users/42");
    ready(&mut routing);
    let res = routing.call(&mut req).unwrap();
    assert_eq!(res.response.status, 200);
    assert_eq!(res.response.body, b"handled".to_vec());
    assert_eq!(log.calls.get(), 1);
    assert_eq!(*log.last_id.borrow(), Some(b"42".to_vec()));
    assert_eq!(req.param(b"id"), Some(&b"42".to_vec()));
}

#[test]
fn post_users_42_fails_the_guard_and_is_not_found() {
    let (mut routing, log, _) = users_routing(false, false, true);
    let mut pool = HttpRequestPool::create();
    let mut req = request(&mut pool, Method::Post, b"/users/42");
    ready(&mut routing);
    let res = routing.call(&mut req).unwrap();
    assert_eq!(res.response.status, 404);
    assert!(res.response.body.is_empty());
    assert_eq!(log.calls.get(), 0);
    assert!(req.param(b"id").is_none());
}

#[test]
fn no_routes_and_no_default_is_not_found_and_no_handler_runs() {
    let map: ResourceMap<Predicate> = ResourceMap::new(ResourceDef::root());
    let router = map.finish(0, false).unwrap();
    let (f, filtered) = filter(false);
    let handlers: Vec<Handler> = Vec::new();
    let mut routing: Routing = AppRouting::new(f, AppRouter::new(router, handlers, None));
    let mut pool = HttpRequestPool::create();
    for path in [&b"/"[..], b"", b"/users/42", b"/a/b/c"] {
        let mut req = request(&mut pool, Method::Get, path);
        ready(&mut routing);
        let res = routing.call(&mut req).unwrap();
        assert_eq!(res.response.status, 404);
        assert!(res.response.headers.is_empty());
        assert!(res.response.body.is_empty());
        assert!(!res.response.upgrade);
        pool.release(req);
    }
    assert_eq!(filtered.get(), 4);
}

#[test]
fn no_match_without_default_is_not_found() {
    let (mut routing, log, _) = users_routing(false, false, false);
    let mut pool = HttpRequestPool::create();
    let mut req = request(&mut pool, Method::Get, b"/nowhere");
    ready(&mut routing);
    let res = routing.call(&mut req).unwrap();
    assert_eq!(res.response.status, 404);
    assert_eq!(log.calls.get(), 0);
}

#[test]
fn handler_error_is_rendered_never_passed_on() {
    let (mut routing, log, _) = users_routing(true, false, true);
    let mut pool = HttpRequestPool::create();
    let mut req = request(&mut pool, Method::Get, b"/users/42");
    ready(&mut routing);
    let res = routing.call(&mut req);
    let res = res.unwrap();
    assert_eq!(res.response.status, 418);
    assert_eq!(res.response.body, b"teapot at /users/42".to_vec());
    assert_eq!(log.calls.get(), 1);
}

#[test]
fn filter_failure_is_rendered_and_the_router_is_not_reached() {
    let (mut routing, log, filtered) = users_routing(false, true, true);
    let mut pool = HttpRequestPool::create();
    let mut req = request(&mut pool, Method::Get, b"/users/42");
    ready(&mut routing);
    let res = routing.call(&mut req).unwrap();
    assert_eq!(res.response.status, 401);
    assert_eq!(res.response.body, b"denied at /users/42".to_vec());
    assert_eq!(filtered.get(), 1);
    assert_eq!(log.calls.get(), 0);
    assert!(req.param(b"id").is_none());
}

#[test]
fn filter_runs_before_the_handler_and_may_change_the_request() {
    let (mut routing, _, filtered) = users_routing(false, false, true);
    let mut pool = HttpRequestPool::create();
    let mut req = request(&mut pool, Method::Get, b"/users/42");
    ready(&mut routing);
    routing.call(&mut req).unwrap();
    assert_eq!(filtered.get(), 1);
    assert_eq!(req.extensions().get(77), Some(&7));
}

#[test]
fn pipeline_is_pending_while_the_filter_is() {
    let (mut routing, _, _) = users_routing(false, false, true);
    routing.filter.readiness = vec![Poll::Pending, Poll::Pending, Poll::Ready(Ok(()))];
    assert!(matches!(routing.poll_ready(), Poll::Pending));
    assert!(matches!(routing.poll_ready(), Poll::Pending));
    assert!(matches!(routing.poll_ready(), Poll::Ready(Ok(()))));
}

#[test]
fn failed_readiness_of_the_filter_is_rendered_by_the_next_call() {
    let (mut routing, log, filtered) = users_routing(false, false, true);
    routing.filter.readiness = vec![Poll::Ready(Err(Failure { status: 503, text: "busy" }))];
    assert!(matches!(routing.poll_ready(), Poll::Ready(Ok(()))));
    let mut pool = HttpRequestPool::create();
    let mut req = request(&mut pool, Method::Get, b"/users/42");
    let res = routing.call(&mut req).unwrap();
    assert_eq!(res.response.status, 503);
    assert_eq!(res.response.body, b"busy at /users/42".to_vec());
    assert_eq!(filtered.get(), 0);
    assert_eq!(log.calls.get(), 0);
}

#[test]
fn recognize_tells_where_a_request_goes() {
    let (routing, _, _) = users_routing(false, false, true);
    let mut pool = HttpRequestPool::create();
    let mut req = request(&mut pool, Method::Get, b"/users/9");
    assert_eq!(routing.router.recognize(&mut req), Target::Handler(0));
    assert_eq!(req.param(b"id"), Some(&b"9".to_vec()));
    let mut req = request(&mut pool, Method::Put, b"/users/9");
    assert_eq!(routing.router.recognize(&mut req), Target::Fallback);
    let (routing, _, _) = users_routing(false, false, false);
    let mut req = request(&mut pool, Method::Put, b"/users/9");
    assert_eq!(routing.router.recognize(&mut req), Target::NotFound);
}

#[test]
fn conclude_keeps_a_response_and_renders_an_error() {
    let mut pool = HttpRequestPool::create();
    let req = request(&mut pool, Method::Get, b"/x");
    let ok: Result<WebResponse, Failure> = Ok(WebResponse::new(Response::new(204)));
    assert_eq!(conclude(ok, &req).response.status, 204);
    let err: Result<WebResponse, Failure> = Err(Failure { status: 409, text: "clash" });
    let res = conclude(err, &req);
    assert_eq!(res.response.status, 409);
    assert_eq!(res.response.body, b"clash at /x".to_vec());
}

#[test]
fn default_service_answers_not_found() {
    let mut d: DefaultService<Failure> = DefaultService::default();
    let mut pool = HttpRequestPool::create();
    let mut req = request(&mut pool, Method::Get, b"/x");
    assert!(matches!(Service::<Req>::poll_ready(&mut d), Poll::Ready(Ok(()))));
    let res = d.call(&mut req).unwrap();
    assert_eq!(res.response.status, 404);
    let mut built = ServiceFactory::<Req, ()>::new_service(&mut d, ()).unwrap();
    assert_eq!(built.call(&mut req).unwrap().response.status, 404);
}

type Inner<M, SF> = AppFactoryInner<
    M,
    FilterFactory,
    HandlerFactory,
    DefaultService<Failure>,
    SF,
    Predicate,
    u32,
    Failure,
>;

struct Parts {
    log_users: Rc<Log>,
    log_items: Rc<Log>,
    built: Rc<Cell<usize>>,
    filtered: Rc<Cell<usize>>,
}

fn inner<M, SF>(middleware: M, state_factories: Vec<SF>, broken: (bool, bool, bool)) -> (Inner<M, SF>, Parts) {
    let parts = Parts {
        log_users: Rc::new(Log::default()),
        log_items: Rc::new(Log::default()),
        built: Rc::new(Cell::new(0)),
        filtered: Rc::new(Cell::new(0)),
    };
    let services = vec![
        WebServiceEntry {
            rdef: ResourceDef::new(b"/users/{id}").unwrap(),
            factory: HandlerFactory {
                status: 200,
                fail: false,
                broken: broken.0,
                log: parts.log_users.clone(),
                built: parts.built.clone(),
            },
            guards: Some(vec![Predicate::Method(Method::Get)]),
            nested: None,
        },
        WebServiceEntry {
            rdef: ResourceDef::new(b"/items").unwrap(),
            factory: HandlerFactory {
                status: 201,
                fail: false,
                broken: broken.1,
                log: parts.log_items.clone(),
                built: parts.built.clone(),
            },
            guards: None,
            nested: None,
        },
    ];
    let app = AppFactoryInner {
        middleware,
        filter: Some(FilterFactory { fail: false, broken: broken.2, calls: parts.filtered.clone() }),
        extensions: None,
        state: vec![StateEntry { key: 1, value: 21 }],
        state_factories,
        services,
        default: Some(DefaultService::default()),
        external: vec![ResourceDef::new(b"/elsewhere").unwrap()],
        case_insensitive: false,
        marker: PhantomData,
    };
    (app, parts)
}

fn send<T>(app: &mut AppService<T, u32>, method: Method, path: &[u8], upgrade: bool) -> WebResponse
where
    T: Service<Req, Response = WebResponse, Error = std::convert::Infallible>,
{
    let mut head = RequestHead::new(method, path);
    head.upgrade = upgrade;
    let mut req = Request { head, payload: Payload::Stream(3) };
    assert!(matches!(app.poll_ready(), Poll::Ready(Ok(()))));
    let res = app.call(&mut req).unwrap();
    assert!(req.head.uri.is_empty());
    assert_eq!(req.payload, Payload::Empty);
    res
}

#[test]
fn started_application_serves_requests() {
    let (app, parts) = inner(Identity, vec![Doubling], (false, false, false));
    let mut factory = AppFactory::new(app);
    let config = AppConfig { secure: true, host: b"example.org".to_vec() };
    let mut app = ServiceFactory::<Request, AppConfig>::new_service(&mut factory, config).unwrap();
    assert!(app.config.secure);
    assert_eq!(app.config.host, b"example.org".to_vec());
    assert_eq!(parts.built.get(), 2);
    assert_eq!(app.state.get(1), Some(&21));
    assert_eq!(app.state.get(2), Some(&42));
    assert_eq!(app.pool.idle_len(), 0);

    let res = send(&mut app, Method::Get, b"/users/42", false);
    assert_eq!(res.response.status, 200);
    assert!(!res.response.upgrade);
    assert_eq!(*parts.log_users.last_id.borrow(), Some(b"42".to_vec()));
    assert_eq!(parts.log_users.last_state.get(), Some(21));
    assert_eq!(app.pool.idle_len(), 1);

    let res = send(&mut app, Method::Post, b"/users/42", false);
    assert_eq!(res.response.status, 404);
    assert_eq!(parts.log_users.calls.get(), 1);

    let res = send(&mut app, Method::Post, b"/items", false);
    assert_eq!(res.response.status, 201);
    assert_eq!(parts.log_items.calls.get(), 1);

    let res = send(&mut app, Method::Get, b"/elsewhere", false);
    assert_eq!(res.response.status, 404);

    assert_eq!(parts.filtered.get(), 4);
    assert_eq!(app.pool.idle_len(), 1);
}

#[test]
fn upgrade_request_marks_the_response() {
    let (app, _) = inner(Identity, Vec::<NoState>::new(), (false, false, false));
    let mut factory = AppFactory::new(app);
    let mut app = ServiceFactory::<Request, ()>::new_service(&mut factory, ()).unwrap();
    assert!(!app.config.secure);
    assert!(app.config.host.is_empty());
    assert!(app.state.get(2).is_none());
    let res = send(&mut app, Method::Get, b"/users/1", true);
    assert_eq!(res.response.status, 200);
    assert!(res.response.upgrade);
    let res = send(&mut app, Method::Get, b"/users/1", false);
    assert!(!res.response.upgrade);
}

#[test]
fn request_object_is_recycled_across_requests() {
    let (app, _) = inner(Identity, Vec::<NoState>::new(), (false, false, false));
    let mut app = AppFactory::new(app).0.create(AppConfig::default()).unwrap();
    for _ in 0..5 {
        send(&mut app, Method::Get, b"/users/1", false);
        assert_eq!(app.pool.idle_len(), 1);
    }
    let state = Rc::new(StateContainer::new());
    let req = app.pool.acquire(RequestHead::new(Method::Get, b"/"), Payload::Empty, &state);
    assert_eq!(req.id(), 0);
    assert!(req.param(b"id").is_none());
    assert!(req.extensions().get(77).is_none());
}

#[test]
fn start_up_fails_with_the_first_factory_that_fails() {
    let (app, parts) = inner(Identity, Vec::<NoState>::new(), (true, false, false));
    assert!(AppFactory::new(app).0.create(AppConfig::default()).is_err());
    assert_eq!(parts.built.get(), 1);

    let (app, parts) = inner(Identity, Vec::<NoState>::new(), (false, true, false));
    assert!(AppFactory::new(app).0.create(AppConfig::default()).is_err());
    assert_eq!(parts.built.get(), 2);

    let (app, parts) = inner(Identity, Vec::<NoState>::new(), (false, false, true));
    assert!(AppFactory::new(app).0.create(AppConfig::default()).is_err());
    assert_eq!(parts.built.get(), 2);
}

#[test]
fn start_up_fails_on_a_nested_slot_that_no_service_fills() {
    let (mut app, _) = inner(Identity, Vec::<NoState>::new(), (false, false, false));
    let mut nested: ResourceMap<Predicate> = ResourceMap::new(ResourceDef::root());
    nested.register(ResourceDef::new(b"/deep").unwrap(), 2, None, None);
    app.services[1].nested = Some(nested);
    assert!(app.create(AppConfig::default()).is_err());

    let (mut app, parts) = inner(Identity, Vec::<NoState>::new(), (false, false, false));
    let mut nested: ResourceMap<Predicate> = ResourceMap::new(ResourceDef::root());
    nested.register(ResourceDef::new(b"/deep").unwrap(), 0, None, None);
    app.services[1].nested = Some(nested);
    let mut app = app.create(AppConfig::default()).unwrap();
    let res = send(&mut app, Method::Delete, b"/items/deep", false);
    assert_eq!(res.response.status, 200);
    assert_eq!(parts.log_users.calls.get(), 1);
}

#[test]
fn start_up_uses_up_what_was_registered() {
    let (mut app, _) = inner(Identity, Vec::<NoState>::new(), (false, false, false));
    assert!(app.create(AppConfig::default()).is_ok());
    assert!(app.default.is_none());
    assert!(app.filter.is_none());
    assert!(app.services.is_empty());
    assert!(app.state.is_empty());
    assert!(app.external.is_empty());
}

#[test]
fn second_start_is_answered_with_a_failure() {
    let (app, parts) = inner(Identity, Vec::<NoState>::new(), (false, false, false));
    let mut factory = AppFactory::new(app);
    assert!(ServiceFactory::<Request, AppConfig>::new_service(&mut factory, AppConfig::default()).is_ok());
    assert_eq!(parts.built.get(), 2);
    assert!(ServiceFactory::<Request, AppConfig>::new_service(&mut factory, AppConfig::default()).is_err());
    assert!(ServiceFactory::<Request, ()>::new_service(&mut factory, ()).is_err());
    assert_eq!(parts.built.get(), 2);
}

#[test]
fn start_after_a_failed_start_fails_too() {
    let (app, parts) = inner(Identity, Vec::<NoState>::new(), (true, false, false));
    let mut factory = AppFactory::new(app);
    assert!(ServiceFactory::<Request, ()>::new_service(&mut factory, ()).is_err());
    assert!(ServiceFactory::<Request, ()>::new_service(&mut factory, ()).is_err());
    assert_eq!(parts.built.get(), 1);
}

#[test]
fn failing_state_factory_is_fatal_to_start_up() {
    let (mut app, parts) = inner(Identity, vec![NoState], (false, false, false));
    assert!(app.create(AppConfig::default()).is_err());
    // the handlers were built before the state factories ran
    assert_eq!(parts.built.get(), 2);

    // the first-phase value that this factory needs is missing
    let (mut app, _) = inner(Identity, vec![Doubling], (false, false, false));
    app.state.clear();
    assert!(app.create(AppConfig::default()).is_err());
}

#[test]
fn application_without_default_handler_starts_and_answers_not_found() {
    let (mut app, parts) = inner(Identity, Vec::<NoState>::new(), (false, false, false));
    app.default = None;
    let mut app = app.create(AppConfig::default()).unwrap();
    let res = send(&mut app, Method::Get, b"/users/42", false);
    assert_eq!(res.response.status, 200);
    let res = send(&mut app, Method::Post, b"/users/42", false);
    assert_eq!(res.response.status, 404);
    assert!(res.response.body.is_empty());
    assert_eq!(parts.log_users.calls.get(), 1);
}

#[test]
fn application_with_nothing_registered_answers_not_found() {
    let (mut app, parts) = inner(Identity, Vec::<NoState>::new(), (false, false, false));
    app.default = None;
    app.services.clear();
    app.external.clear();
    let mut app = app.create(AppConfig::default()).unwrap();
    for path in [&b"/"[..], b"", b"/users/42", b"/items", b"/a/b/c"] {
        let res = send(&mut app, Method::Get, path, false);
        assert_eq!(res.response.status, 404);
        assert!(res.response.headers.is_empty());
        assert!(res.response.body.is_empty());
    }
    assert_eq!(parts.built.get(), 0);
    assert_eq!(parts.log_users.calls.get(), 0);
    assert_eq!(parts.log_items.calls.get(), 0);
}

#[test]
fn earlier_state_is_kept_and_first_phase_goes_on_top() {
    let (mut app, _) = inner(Identity, vec![Doubling], (false, false, false));
    let mut before = StateContainer::new();
    before.insert(1, 5);
    before.insert(9, 90);
    app.extensions = Some(before);
    let app = app.create(AppConfig::default()).unwrap();
    assert_eq!(app.state.get(9), Some(&90));
    assert_eq!(app.state.get(1), Some(&21));
    assert_eq!(app.state.get(2), Some(&42));
}

/// A middleware that stamps every response with a header.
struct Stamp;

struct Stamped<S> {
    inner: S,
}

impl<S: Service<Req, Response = WebResponse, Error = std::convert::Infallible>> Service<Req> for Stamped<S> {
    type Response = WebResponse;
    type Error = std::convert::Infallible;

    fn poll_ready(&mut self) -> Poll<Result<(), std::convert::Infallible>> {
        self.inner.poll_ready()
    }

    fn call(&mut self, req: &mut Req) -> Result<WebResponse, std::convert::Infallible> {
        let mut res = self.inner.call(req)?;
        res.response.headers.push(ntex::http::message::Header {
            name: b"x-stamp".to_vec(),
            value: b"1".to_vec(),
        });
        Ok(res)
    }
}

impl<S: Service<Req, Response = WebResponse, Error = std::convert::Infallible>> Transform<S> for Stamp {
    type Service = Stamped<S>;

    fn new_transform(&self, service: S) -> Stamped<S> {
        Stamped { inner: service }
    }
}

#[test]
fn middleware_wraps_the_pipeline() {
    let (mut app, _) = inner(Stamp, Vec::<NoState>::new(), (false, false, false));
    let mut app = app.create(AppConfig::default()).unwrap();
    let res = send(&mut app, Method::Get, b"/users/3", false);
    assert_eq!(res.response.status, 200);
    assert_eq!(res.response.headers.len(), 1);
    assert_eq!(res.response.headers[0].name, b"x-stamp".to_vec());
    let res = send(&mut app, Method::Get, b"/none", false);
    assert_eq!(res.response.status, 404);
    assert_eq!(res.response.headers.len(), 1);
}

#[test]
fn settle_turns_the_filters_answer_into_gate_and_answer() {
    let (gate, p) = settle::<Failure>(Poll::Pending);
    assert!(matches!(gate, Gate::Closed));
    assert!(matches!(p, Poll::Pending));
    let (gate, p) = settle::<Failure>(Poll::Ready(Ok(())));
    assert!(matches!(gate, Gate::Open));
    assert!(matches!(p, Poll::Ready(Ok(()))));
    let (gate, p) = settle(Poll::Ready(Err(Failure { status: 503, text: "busy" })));
    assert!(matches!(gate, Gate::Failed(Failure { status: 503, text: "busy" })));
    assert!(matches!(p, Poll::Ready(Ok(()))));
}

#[test]
fn filter_is_asked_once_per_readiness_check_and_handlers_are_not_asked() {
    struct Counted {
        polls: Rc<Cell<usize>>,
    }
    impl Service<Req> for Counted {
        type Response = ();
        type Error = Failure;
        fn poll_ready(&mut self) -> Poll<Result<(), Failure>> {
            self.polls.set(self.polls.get() + 1);
            if self.polls.get() < 3 {
                Poll::Pending
            } else {
                Poll::Ready(Ok(()))
            }
        }
        fn call(&mut self, _req: &mut Req) -> Result<(), Failure> {
            Ok(())
        }
    }
    struct Unasked;
    impl Service<Req> for Unasked {
        type Response = WebResponse;
        type Error = Failure;
        fn poll_ready(&mut self) -> Poll<Result<(), Failure>> {
            panic!("a handler is never asked for readiness")
        }
        fn call(&mut self, _req: &mut Req) -> Result<WebResponse, Failure> {
            Ok(WebResponse::new(Response::new(200)))
        }
    }
    let polls = Rc::new(Cell::new(0));
    let mut map: ResourceMap<Predicate> = ResourceMap::new(ResourceDef::root());
    map.register(ResourceDef::new(b"/x").unwrap(), 0, None, None);
    let router = map.finish(1, false).unwrap();
    let mut routing: AppRouting<Counted, Unasked, Unasked, Predicate, u32, Failure> = AppRouting::new(
        Counted { polls: polls.clone() },
        AppRouter::new(router, vec![Unasked], Some(Unasked)),
    );
    assert!(matches!(routing.poll_ready(), Poll::Pending));
    assert_eq!(polls.get(), 1);
    assert!(matches!(routing.poll_ready(), Poll::Pending));
    assert_eq!(polls.get(), 2);
    assert!(matches!(routing.poll_ready(), Poll::Ready(Ok(()))));
    assert_eq!(polls.get(), 3);
    let mut pool = HttpRequestPool::create();
    let mut req = request(&mut pool, Method::Get, b"/x");
    assert_eq!(routing.call(&mut req).unwrap().response.status, 200);
    let mut req = request(&mut pool, Method::Get, b"/y");
    assert!(matches!(routing.poll_ready(), Poll::Ready(Ok(()))));
    assert_eq!(routing.call(&mut req).unwrap().response.status, 200);
}
