//! The application service: start-up, and the dispatch of one request
//! through filter, router and handler.
//!
//! A request is dispatched in stages that run strictly one after the
//! other. The filter sees the request first; if it fails, its error is
//! rendered and nothing else runs. Then the router looks the request up.
//! On a match the handler in the route's slot is called, otherwise the
//! default handler, and without a default handler the answer is the generic
//! "not found" response. Whatever error a handler gives is rendered as a
//! response: no error leaves the pipeline.
use super::guard::Guard;
use super::httprequest::{HttpRequestPool, WebRequest};
use super::rmap::{
    captured, first_match, lemma_first_match, lemma_route_origin, lemma_routes_of_one, under,
    ResourceMap, RouteView, Router,
};
use super::state::{
    filled_onto, may_stop, produced_by, run_factories, StateContainer, StateEntry, StateFactory,
};
use crate::http::message::{Payload, Request, Response};
use crate::router::pattern::{ParamView, ResourceDef};
use crate::service::{Poll, Service, ServiceFactory, Transform};
use core::convert::Infallible;
use core::marker::PhantomData;
use std::rc::Rc;
use vstd::prelude::*;

verus! {

/// An error that can render itself as a response to the request that it
/// came up for. Rendering cannot fail.
pub trait ErrorContainer<V> {
    /// `res` is a rendering of this error for `req`.
    open spec fn renders(&self, req: WebRequest<V>, res: Response) -> bool {
        true
    }

    /// Renders the error.
    fn error_response(&self, req: &WebRequest<V>) -> (res: Response)
        ensures
            self.renders(*req, res),
    ;
}

/// What a handler answers.
#[derive(Debug)]
pub struct WebResponse {
    pub response: Response,
}

impl WebResponse {
    /// Wraps a response.
    pub fn new(response: Response) -> (res: Self)
        ensures
            res.response == response,
    {
        WebResponse { response }
    }
}

/// What the pipeline answers for the outcome `out` of a stage: the
/// response where the stage gave one, a rendering of the error otherwise.
pub open spec fn concluded<V, E: ErrorContainer<V>>(
    out: Result<WebResponse, E>,
    req: WebRequest<V>,
    resp: WebResponse,
) -> bool {
    match out {
        Ok(res) => resp == res,
        Err(e) => e.renders(req, resp.response),
    }
}

/// Turns the outcome of a stage into the pipeline's answer.
pub fn conclude<V, E: ErrorContainer<V>>(out: Result<WebResponse, E>, req: &WebRequest<V>) -> (resp:
    WebResponse)
    ensures
        concluded(out, *req, resp),
{
    match out {
        Ok(res) => res,
        Err(e) => WebResponse::new(e.error_response(req)),
    }
}

/// `resp` is an answer of the pipeline to a call of `svc` that received
/// the request as `before` and left it as `after`.
pub open spec fn served<V, E: ErrorContainer<V>, S: Service<
    WebRequest<V>,
    Response = WebResponse,
    Error = E,
>>(svc: S, before: WebRequest<V>, after: WebRequest<V>, resp: WebResponse) -> bool {
    exists|out: Result<WebResponse, E>| #[trigger]
        svc.may_return(before, after, out) && concluded(out, after, resp)
}

/// The handler of last resort: answers every request with "not found".
pub struct DefaultService<E> {
    marker: PhantomData<E>,
}

impl<E> Clone for DefaultService<E> {
    fn clone(&self) -> Self {
        DefaultService { marker: PhantomData }
    }
}

impl<E> Default for DefaultService<E> {
    fn default() -> Self {
        DefaultService { marker: PhantomData }
    }
}

impl<V, E> ServiceFactory<WebRequest<V>, ()> for DefaultService<E> {
    type Response = WebResponse;

    type Error = E;

    type InitError = ();

    type Service = Self;

    /// Building always succeeds.
    open spec fn may_create(&self, cfg: (), res: Result<Self, ()>) -> bool {
        res is Ok
    }

    fn new_service(&mut self, cfg: ()) -> (res: Result<Self, ()>) {
        Ok(DefaultService { marker: PhantomData })
    }
}

impl<V, E> Service<WebRequest<V>> for DefaultService<E> {
    type Response = WebResponse;

    type Error = E;

    open spec fn ready(&self) -> bool {
        true
    }

    open spec fn always_ready(&self) -> bool {
        true
    }

    /// A readiness check always answers ready.
    open spec fn may_poll(&self, p: Poll<Result<(), E>>) -> bool {
        p matches Poll::Ready(Ok(_))
    }

    /// The request is left as it was and the answer is "not found".
    open spec fn may_return(
        &self,
        before: WebRequest<V>,
        after: WebRequest<V>,
        res: Result<WebResponse, E>,
    ) -> bool {
        &&& after == before
        &&& res matches Ok(resp)
        &&& resp.response.is_not_found()
    }

    fn poll_ready(&mut self) -> (p: Poll<Result<(), E>>) {
        Poll::Ready(Ok(()))
    }

    fn call(&mut self, req: &mut WebRequest<V>) -> (res: Result<WebResponse, E>) {
        Ok(WebResponse::new(Response::not_found()))
    }
}

/// Where the router sends a request.
#[derive(Clone, Copy, Debug, PartialEq, Eq, Structural)]
pub enum Target {
    /// To the handler in this slot.
    Handler(usize),
    /// To the default handler.
    Fallback,
    /// Nowhere: the answer is "not found".
    NotFound,
}

/// The finished router with the handlers that its slots refer to.
pub struct AppRouter<S, D, G: Guard, V, E> {
    pub router: Router<G>,
    pub handlers: Vec<S>,
    pub default: Option<D>,
    pub marker: PhantomData<(V, E)>,
}

impl<S, D, G: Guard, V, E> AppRouter<S, D, G, V, E> {
    /// A router with its handler table and default handler.
    pub fn new(router: Router<G>, handlers: Vec<S>, default: Option<D>) -> (r: Self)
        ensures
            r.router == router,
            r.handlers == handlers,
            r.default == default,
    {
        AppRouter { router, handlers, default, marker: PhantomData }
    }

    /// Where a request goes: to the slot of the first route that applies,
    /// or to the default handler, or nowhere.
    pub open spec fn target(&self, req: WebRequest<V>) -> Target {
        let head = req.head_spec();
        match first_match(self.router.routes(), head.uri@, head, self.router.ignore_case()) {
            Some(at) => Target::Handler(self.router.routes()[at].slot),
            None => if self.default is Some {
                Target::Fallback
            } else {
                Target::NotFound
            },
        }
    }

    /// The parameters that a request holds after routing: what the
    /// matching route's pattern captures, or what the request held before
    /// where no route applies.
    pub open spec fn routed_params(&self, req: WebRequest<V>) -> Seq<ParamView> {
        let head = req.head_spec();
        match first_match(self.router.routes(), head.uri@, head, self.router.ignore_case()) {
            Some(at) => captured(
                self.router.routes()[at].pattern,
                head.uri@,
                self.router.ignore_case(),
            ),
            None => req.params(),
        }
    }

    /// Routes a request: looks it up and, on a match, records the captured
    /// parameters in the request.
    pub fn recognize(&self, req: &mut WebRequest<V>) -> (t: Target)
        ensures
            t == self.target(*old(req)),
            final(req).routed_as(*old(req), self.routed_params(*old(req))),
            !(t is Handler) ==> *final(req) == *old(req),
            t matches Target::Handler(slot) ==> slot < self.router.bound(),
    {
        let found = self.router.lookup(req.head().uri.as_slice(), req.head());
        match found {
            Some(m) => {
                req.set_params(m.params);
                Target::Handler(m.slot)
            },
            None => {
                if self.default.is_some() {
                    Target::Fallback
                } else {
                    Target::NotFound
                }
            },
        }
    }
}

impl<V, E, S, D, G> AppRouter<S, D, G, V, E> where
    E: ErrorContainer<V>,
    S: Service<WebRequest<V>, Response = WebResponse, Error = E>,
    D: Service<WebRequest<V>, Response = WebResponse, Error = E>,
    G: Guard,
 {
    /// The slots of the router are the positions of the handler table, and
    /// every handler is well formed and always ready.
    pub open spec fn wf(&self) -> bool {
        &&& self.handlers@.len() == self.router.bound()
        &&& forall|i: int|
            0 <= i < self.handlers@.len() ==> (#[trigger] self.handlers@[i]).valid()
                && self.handlers@[i].always_ready()
        &&& self.default matches Some(d) ==> d.valid() && d.always_ready()
    }

    /// `resp` is an answer to the request `req` after routing, and `after`
    /// is the request as the handler left it.
    pub open spec fn dispatched(
        &self,
        req: WebRequest<V>,
        after: WebRequest<V>,
        resp: WebResponse,
    ) -> bool {
        match self.target(req) {
            Target::Handler(slot) => exists|routed: WebRequest<V>| #[trigger]
                routed.routed_as(req, self.routed_params(req)) && served(
                    self.handlers@[slot as int],
                    routed,
                    after,
                    resp,
                ),
            Target::Fallback => served(self.default.unwrap(), req, after, resp),
            Target::NotFound => after == req && resp.response.is_not_found(),
        }
    }

    /// Routes the request and calls the handler that it goes to. An error
    /// of the handler is rendered.
    pub fn dispatch(&mut self, req: &mut WebRequest<V>) -> (resp: WebResponse)
        requires
            old(self).wf(),
        ensures
            final(self).wf(),
            final(self).router == old(self).router,
            final(self).default is Some == old(self).default is Some,
            old(self).dispatched(*old(req), *final(req), resp),
    {
        match self.recognize(req) {
            Target::Handler(slot) => {
                let handler = &mut self.handlers[slot];
                let out = handler.call(req);
                conclude(out, req)
            },
            Target::Fallback => {
                let out = match &mut self.default {
                    Some(d) => d.call(req),
                    None => Ok(WebResponse::new(Response::not_found())),
                };
                conclude(out, req)
            },
            Target::NotFound => WebResponse::new(Response::not_found()),
        }
    }
}

/// Where nothing is registered, no route and no default handler, every
/// request goes nowhere: the answer is "not found", no handler runs and the
/// request is left as it was.
pub proof fn lemma_nothing_registered<V, E, S, D, G>(
    router: AppRouter<S, D, G, V, E>,
    req: WebRequest<V>,
    after: WebRequest<V>,
    resp: WebResponse,
) where
    E: ErrorContainer<V>,
    S: Service<WebRequest<V>, Response = WebResponse, Error = E>,
    D: Service<WebRequest<V>, Response = WebResponse, Error = E>,
    G: Guard,

    requires
        router.router.routes().len() == 0,
        router.default is None,
    ensures
        router.target(req) == Target::NotFound,
        router.dispatched(req, after, resp) ==> after == req && resp.response.is_not_found(),
{
    let head = req.head_spec();
    lemma_first_match(router.router.routes(), head.uri@, head, router.router.ignore_case());
}

/// What the last readiness check of the filter gave and no call has used
/// up yet.
pub enum Gate<E> {
    /// Nothing: the filter was not asked, or is not ready.
    Closed,
    /// The filter is ready.
    Open,
    /// The filter failed. The next call renders this error.
    Failed(E),
}

/// What the dispatcher makes of an answer of its filter to a readiness
/// check. While the filter is pending the dispatcher is pending too. Once
/// the filter has answered, the dispatcher is ready: a failure of the
/// filter is kept, and the next call renders it.
pub open spec fn settled<E>(answer: Poll<Result<(), E>>) -> (Gate<E>, Poll<Result<(), Infallible>>) {
    match answer {
        Poll::Pending => (Gate::Closed, Poll::Pending),
        Poll::Ready(Ok(_)) => (Gate::Open, Poll::Ready(Ok(()))),
        Poll::Ready(Err(e)) => (Gate::Failed(e), Poll::Ready(Ok(()))),
    }
}

/// Computes `settled`.
pub fn settle<E>(answer: Poll<Result<(), E>>) -> (r: (Gate<E>, Poll<Result<(), Infallible>>))
    ensures
        r == settled(answer),
        match answer {
            Poll::Pending => r.0 is Closed && r.1 is Pending,
            Poll::Ready(Ok(_)) => r.0 is Open && r.1 == Poll::Ready(Ok::<(), Infallible>(())),
            Poll::Ready(Err(e)) => r.0 == Gate::Failed(e) && r.1 == Poll::Ready(
                Ok::<(), Infallible>(()),
            ),
        },
{
    match answer {
        Poll::Pending => (Gate::Closed, Poll::Pending),
        Poll::Ready(Ok(_)) => (Gate::Open, Poll::Ready(Ok(()))),
        Poll::Ready(Err(e)) => (Gate::Failed(e), Poll::Ready(Ok(()))),
    }
}

/// The dispatch pipeline: filter, then router, then handler.
pub struct AppRouting<F, S, D, G: Guard, V, E> {
    pub filter: F,
    pub router: AppRouter<S, D, G, V, E>,
    pub gate: Gate<E>,
}

impl<F, S, D, G: Guard, V, E> AppRouting<F, S, D, G, V, E> {
    /// A pipeline of the given filter and router. It is not ready before
    /// its first readiness check.
    pub fn new(filter: F, router: AppRouter<S, D, G, V, E>) -> (r: Self)
        ensures
            r.filter == filter,
            r.router == router,
            r.gate is Closed,
    {
        AppRouting { filter, router, gate: Gate::Closed }
    }
}

impl<V, E, F, S, D, G> Service<WebRequest<V>> for AppRouting<F, S, D, G, V, E> where
    E: ErrorContainer<V>,
    F: Service<WebRequest<V>, Response = (), Error = E>,
    S: Service<WebRequest<V>, Response = WebResponse, Error = E>,
    D: Service<WebRequest<V>, Response = WebResponse, Error = E>,
    G: Guard,
 {
    type Response = WebResponse;

    type Error = Infallible;

    /// Router and filter are well formed, and behind an open gate the
    /// filter is ready.
    open spec fn valid(&self) -> bool {
        &&& self.router.wf()
        &&& self.filter.valid()
        &&& self.gate is Open ==> self.filter.ready() || self.filter.always_ready()
    }

    /// The pipeline is ready when its filter has answered a readiness
    /// check: router and handlers are always ready.
    open spec fn ready(&self) -> bool {
        !(self.gate is Closed)
    }

    /// The pipeline is always ready if its filter is.
    open spec fn always_ready(&self) -> bool {
        self.filter.always_ready()
    }

    /// The answer is always a response. Behind a failed gate it renders
    /// the filter's readiness error. Otherwise the filter runs: its error
    /// is rendered, and if it passes the request is dispatched.
    open spec fn may_return(
        &self,
        before: WebRequest<V>,
        after: WebRequest<V>,
        res: Result<WebResponse, Infallible>,
    ) -> bool {
        &&& res matches Ok(resp)
        &&& match self.gate {
            Gate::Failed(e) => after == before && e.renders(before, resp.response),
            _ => exists|mid: WebRequest<V>, passed: Result<(), E>| #[trigger]
                self.filter.may_return(before, mid, passed) && match passed {
                    Err(e) => after == mid && e.renders(mid, resp.response),
                    Ok(_) => self.router.dispatched(mid, after, resp),
                },
        }
    }

    /// The pipeline answers what `settled` makes of an answer of the
    /// filter.
    open spec fn may_poll(&self, p: Poll<Result<(), Infallible>>) -> bool {
        exists|answer: Poll<Result<(), E>>| #[trigger]
            self.filter.may_poll(answer) && p == settled(answer).1
    }

    /// Asks the filter, once, and nothing else: router and handlers are
    /// not asked. The pipeline is pending exactly while the filter is;
    /// once the filter has answered the pipeline is ready, and a failure of
    /// the filter is kept for the next call to render.
    fn poll_ready(&mut self) -> (p: Poll<Result<(), Infallible>>)
        ensures
            final(self).router == old(self).router,
            exists|answer: Poll<Result<(), E>>| #[trigger]
                old(self).filter.may_poll(answer) && final(self).gate == settled(answer).0 && p
                    == settled(answer).1,
            p is Pending <==> final(self).gate is Closed,
            p is Ready ==> p == Poll::Ready(Ok::<(), Infallible>(())),
            old(self).filter.always_ready() ==> final(self).gate is Open
                && final(self).filter.always_ready(),
    {
        let answer = self.filter.poll_ready();
        let ghost asked = answer;
        let (gate, p) = settle(answer);
        self.gate = gate;
        proof {
            assert(old(self).filter.may_poll(asked));
        }
        p
    }

    fn call(&mut self, req: &mut WebRequest<V>) -> (res: Result<WebResponse, Infallible>)
        ensures
            final(self).gate is Closed,
            final(self).router.router == old(self).router.router,
    {
        let mut gate = Gate::Closed;
        core::mem::swap(&mut gate, &mut self.gate);
        match gate {
            Gate::Failed(e) => Ok(WebResponse::new(e.error_response(req))),
            _ => {
                match self.filter.call(req) {
                    Err(e) => Ok(WebResponse::new(e.error_response(req))),
                    Ok(_) => Ok(self.router.dispatch(req)),
                }
            },
        }
    }
}

/// Settings of the application. The core passes them along and does not
/// read them.
#[derive(Debug)]
pub struct AppConfig {
    pub secure: bool,
    pub host: Vec<u8>,
}

impl Default for AppConfig {
    fn default() -> (cfg: Self)
        ensures
            !cfg.secure,
            cfg.host@.len() == 0,
    {
        AppConfig { secure: false, host: Vec::new() }
    }
}

/// The response `inner`, marked as an upgrade if the request asked for one.
pub open spec fn upgraded(inner: WebResponse, upgrade: bool) -> WebResponse {
    if upgrade {
        WebResponse { response: Response { upgrade: true, ..inner.response } }
    } else {
        inner
    }
}

/// The running application: the pipeline behind its middleware, the
/// frozen state container and the request pool.
pub struct AppService<T, V> {
    pub service: T,
    pub pool: HttpRequestPool<V>,
    pub state: Rc<StateContainer<V>>,
    pub config: AppConfig,
}

impl<T, V> Service<Request> for AppService<T, V> where
    T: Service<WebRequest<V>, Response = WebResponse, Error = Infallible>,
 {
    type Response = WebResponse;

    type Error = Infallible;

    open spec fn valid(&self) -> bool {
        self.service.valid()
    }

    /// The application is ready when the pipeline is.
    open spec fn ready(&self) -> bool {
        self.service.ready()
    }

    open spec fn always_ready(&self) -> bool {
        self.service.always_ready()
    }

    /// The application answers what the pipeline behind the middleware
    /// answers.
    open spec fn may_poll(&self, p: Poll<Result<(), Infallible>>) -> bool {
        self.service.may_poll(p)
    }

    /// The request is emptied into a request object from the pool, which
    /// is reset to it; the pipeline works on that object; the answer is the
    /// pipeline's, marked as an upgrade if the request asked for one. The
    /// answer is always a response: should the service behind the
    /// middleware ever hand out an error, the answer is the generic
    /// "internal server error" response and the error goes no further.
    open spec fn may_return(
        &self,
        before: Request,
        after: Request,
        res: Result<WebResponse, Infallible>,
    ) -> bool {
        &&& after.head.is_blank()
        &&& after.payload == Payload::Empty
        &&& exists|
            taken: WebRequest<V>,
            left: WebRequest<V>,
            inner: Result<WebResponse, Infallible>,
        |
            {
                &&& taken.serial() == self.pool@.upcoming()
                &&& taken.is_reset_to(before.head, before.payload, *self.state)
                &&& #[trigger] self.service.may_return(taken, left, inner)
                &&& res matches Ok(answer)
                &&& match inner {
                    Ok(resp) => answer == upgraded(resp, left.head_spec().upgrade),
                    Err(_) => answer.response.is_server_error(),
                }
            }
    }

    fn poll_ready(&mut self) -> (p: Poll<Result<(), Infallible>>)
        ensures
            final(self).pool == old(self).pool,
            final(self).state == old(self).state,
    {
        self.service.poll_ready()
    }

    /// Takes a request object from the pool, lets the pipeline work on
    /// it and gives the object back to the pool.
    fn call(&mut self, req: &mut Request) -> (res: Result<WebResponse, Infallible>)
        ensures
            res is Ok,
            final(self).state == old(self).state,
            final(self).pool@.next == old(self).pool@.acquire().next,
            final(self).pool@.idle.len() == old(self).pool@.acquire().idle.len() + 1,
            final(self).pool@.idle.drop_last() == old(self).pool@.acquire().idle,
    {
        let (head, payload) = req.take_parts();
        let mut wreq = self.pool.acquire(head, payload, &self.state);
        let res = self.service.call(&mut wreq);
        match res {
            Ok(inner) => {
                let upgrade = wreq.head().upgrade;
                self.pool.release(wreq);
                if upgrade {
                    let mut resp = inner;
                    resp.response.upgrade = true;
                    Ok(resp)
                } else {
                    Ok(inner)
                }
            },
            Err(_) => {
                self.pool.release(wreq);
                Ok(WebResponse::new(Response::server_error()))
            },
        }
    }
}

/// One registered service: the pattern it is mounted at, the factory of
/// its handler, its guards and the resource map nested below it.
pub struct WebServiceEntry<A, G> {
    pub rdef: ResourceDef,
    pub factory: A,
    pub guards: Option<Vec<G>>,
    pub nested: Option<ResourceMap<G>>,
}

/// Where a service is mounted: the pattern, the guards and the resource
/// map nested below it.
pub struct Mount<G> {
    pub rdef: ResourceDef,
    pub guards: Option<Vec<G>>,
    pub nested: Option<ResourceMap<G>>,
}

/// Where the registered services are mounted, in the order of
/// registration.
pub open spec fn mounts_of<A, G>(services: Seq<WebServiceEntry<A, G>>) -> Seq<Mount<G>> {
    services.map_values(
        |e: WebServiceEntry<A, G>| Mount { rdef: e.rdef, guards: e.guards, nested: e.nested },
    )
}

/// Everything that was registered with the application before start-up.
pub struct AppFactoryInner<M, F, A, DF, SF, G, V, E> {
    pub middleware: M,
    pub filter: Option<F>,
    pub extensions: Option<StateContainer<V>>,
    pub state: Vec<StateEntry<V>>,
    pub state_factories: Vec<SF>,
    pub services: Vec<WebServiceEntry<A, G>>,
    pub default: Option<DF>,
    pub external: Vec<ResourceDef>,
    pub case_insensitive: bool,
    pub marker: PhantomData<E>,
}

/// The guards of a mounted service.
pub open spec fn entry_guards<G>(entry: Mount<G>) -> Seq<G> {
    match entry.guards {
        Some(list) => list@,
        None => Seq::empty(),
    }
}

/// The routes that the service mounted as number `slot` adds: its own
/// route, then the routes of the map nested below it, each with the
/// service's pattern and guards in front.
pub open spec fn entry_routes<G: Guard>(entry: Mount<G>, slot: usize) -> Seq<
    RouteView<G>,
> {
    seq![RouteView { pattern: entry.rdef@, guards: entry_guards(entry), slot }] + match entry.nested {
        Some(sub) => sub.routes().map_values(
            |r: RouteView<G>| under(entry.rdef@, entry_guards(entry), r),
        ),
        None => Seq::empty(),
    }
}

/// The routes of an application, in the order in which a lookup tries
/// them: the routes of its services in the order of registration.
pub open spec fn app_routes<G: Guard>(services: Seq<Mount<G>>) -> Seq<
    RouteView<G>,
>
    decreases services.len(),
{
    if services.len() == 0 {
        Seq::empty()
    } else {
        app_routes(services.drop_last()) + entry_routes(
            services.last(),
            (services.len() - 1) as usize,
        )
    }
}

/// Whether `map` is the resource map of an application with the given
/// external patterns and mounted services: an empty pattern at the root, below it
/// one node per external pattern and then one node per service, in the
/// order of registration, the node of service `i` with slot `i`.
pub open spec fn is_app_map<G: Guard>(
    map: ResourceMap<G>,
    external: Seq<ResourceDef>,
    services: Seq<Mount<G>>,
) -> bool {
    &&& map.rdef@.len() == 0
    &&& map.slot is None
    &&& map.guards@.len() == 0
    &&& map.nested@.len() == external.len() + services.len()
    &&& forall|k: int|
        0 <= k < external.len() ==> {
            &&& (#[trigger] map.nested@[k]).rdef == external[k]
            &&& map.nested@[k].slot is None
            &&& map.nested@[k].routes().len() == 0
        }
    &&& forall|i: int|
        0 <= i < services.len() ==> {
            let node = #[trigger] map.nested@[external.len() + i];
            &&& node.rdef == services[i].rdef
            &&& node.slot == Some(i as usize)
            &&& node.guards@ == entry_guards(services[i])
            &&& node.nested@ == match services[i].nested {
                Some(sub) => seq![sub],
                None => Seq::empty(),
            }
        }
}

/// The routes of the nodes of an application's resource map are the
/// routes of the application.
proof fn lemma_app_nodes<G: Guard>(
    nodes: Seq<ResourceMap<G>>,
    external: Seq<ResourceDef>,
    services: Seq<Mount<G>>,
)
    requires
        services.len() <= usize::MAX,
        nodes.len() == external.len() + services.len(),
        forall|k: int| 0 <= k < external.len() ==> (#[trigger] nodes[k]).routes().len() == 0,
        forall|i: int|
            0 <= i < services.len() ==> {
                let node = #[trigger] nodes[external.len() + i];
                &&& node.rdef == services[i].rdef
                &&& node.slot == Some(i as usize)
                &&& node.guards@ == entry_guards(services[i])
                &&& node.nested@ == match services[i].nested {
                    Some(sub) => seq![sub],
                    None => Seq::empty(),
                }
            },
    ensures
        ResourceMap::routes_of(nodes) == app_routes(services),
    decreases nodes.len(),
{
    if services.len() > 0 {
        let i = services.len() - 1;
        let node = nodes[external.len() + i];
        let entry = services[i];
        assert forall|j: int| 0 <= j < services.drop_last().len() implies {
            let n = #[trigger] nodes.drop_last()[external.len() + j];
            &&& n.rdef == services.drop_last()[j].rdef
            &&& n.slot == Some(j as usize)
            &&& n.guards@ == entry_guards(services.drop_last()[j])
            &&& n.nested@ == match services.drop_last()[j].nested {
                Some(sub) => seq![sub],
                None => Seq::empty(),
            }
        } by {}
        assert forall|k: int| 0 <= k < external.len() implies (#[trigger] nodes.drop_last()[k]).routes().len()
            == 0 by {}
        lemma_app_nodes(nodes.drop_last(), external, services.drop_last());
        node.lemma_routes_shape();
        if let Some(sub) = entry.nested {
            lemma_routes_of_one(sub);
        }
    } else if external.len() > 0 {
        assert forall|k: int| 0 <= k < external.drop_last().len() implies (
        #[trigger] nodes.drop_last()[k]).routes().len() == 0 by {}
        lemma_app_nodes(nodes.drop_last(), external.drop_last(), services);
    }
}

/// The routes of an application's resource map are the routes of the
/// application.
pub proof fn lemma_app_map_routes<G: Guard>(
    map: ResourceMap<G>,
    external: Seq<ResourceDef>,
    services: Seq<Mount<G>>,
)
    requires
        services.len() <= usize::MAX,
        is_app_map(map, external, services),
    ensures
        map.routes() == app_routes(services),
{
    map.lemma_routes_shape();
    lemma_app_nodes(map.nested@, external, services);
    let kids = ResourceMap::routes_of(map.nested@);
    assert forall|j: int| 0 <= j < kids.len() implies map.routes()[j] == kids[j] by {}
}

/// The routes of one service stand among the routes of the application.
proof fn lemma_entry_routes_in_app<G: Guard>(
    services: Seq<Mount<G>>,
    i: int,
    j: int,
)
    requires
        0 <= i < services.len() <= usize::MAX,
        0 <= j < entry_routes(services[i], i as usize).len(),
    ensures
        exists|at: int|
            0 <= at < app_routes(services).len() && #[trigger] app_routes(services)[at]
                == entry_routes(services[i], i as usize)[j],
    decreases services.len(),
{
    let front = app_routes(services.drop_last());
    if i == services.len() - 1 {
        assert(app_routes(services)[front.len() + j] == entry_routes(services[i], i as usize)[j]);
    } else {
        lemma_entry_routes_in_app(services.drop_last(), i, j);
        let at = choose|at: int|
            0 <= at < front.len() && #[trigger] front[at] == entry_routes(
                services.drop_last()[i],
                i as usize,
            )[j];
        assert(app_routes(services)[at] == front[at]);
    }
}

/// Where every slot of an application's resource map is filled, so is
/// every slot of the maps nested below its services.
pub proof fn lemma_resolved_slots_are_nested<G: Guard>(
    map: ResourceMap<G>,
    external: Seq<ResourceDef>,
    services: Seq<Mount<G>>,
)
    requires
        services.len() <= usize::MAX,
        is_app_map(map, external, services),
        map.slots_below(services.len()),
    ensures
        forall|i: int|
            0 <= i < services.len() ==> ((#[trigger] services[i]).nested matches Some(sub)
                ==> sub.slots_below(services.len())),
{
    lemma_app_map_routes(map, external, services);
    assert forall|i: int| 0 <= i < services.len() implies ((#[trigger] services[i]).nested matches Some(
        sub,
    ) ==> sub.slots_below(services.len())) by {
        if let Some(sub) = services[i].nested {
            assert forall|k: int| 0 <= k < sub.routes().len() implies (#[trigger] sub.routes()[k]).slot
                < services.len() by {
                let own = entry_routes(services[i], i as usize);
                assert(own[1 + k] == under(
                    services[i].rdef@,
                    entry_guards(services[i]),
                    sub.routes()[k],
                ));
                lemma_entry_routes_in_app(services, i, 1 + k);
            }
        }
    }
}

/// In the resource map of an application a slot that no service fills can
/// only stand in a resource map that was nested below a service.
pub proof fn lemma_unresolved_slot_is_nested<G: Guard>(
    map: ResourceMap<G>,
    external: Seq<ResourceDef>,
    services: Seq<Mount<G>>,
)
    requires
        is_app_map(map, external, services),
        !map.slots_below(services.len()),
    ensures
        exists|i: int|
            0 <= i < services.len() && ((#[trigger] services[i]).nested matches Some(sub)
                && !sub.slots_below(services.len())),
{
    let n = services.len();
    let routes = map.routes();
    let kids = ResourceMap::routes_of(map.nested@);
    let bad = choose|j: int| 0 <= j < routes.len() && !((#[trigger] routes[j]).slot < n);
    map.lemma_routes_shape();
    lemma_route_origin(map.nested@, bad);
    let (k, at) = choose|k: int, at: int|
        0 <= k < map.nested@.len() && 0 <= at < map.nested@[k].routes().len() && kids[bad]
            == #[trigger] map.nested@[k].routes()[at];
    // the node of an external pattern has no route, and the own route of
    // a service's node has the service's number as its slot: the route at
    // fault comes from the map nested below a service
    if k >= external.len() {
        let i = k - external.len();
        let node = map.nested@[external.len() + i];
        node.lemma_routes_shape();
        if at > 0 {
            if let Some(sub) = services[i].nested {
                lemma_routes_of_one(sub);
            }
        }
    }
}

/// Whether a resource map nested below a mounted service names a slot that
/// no mounted service fills.
pub open spec fn has_unfilled_slot<G: Guard>(mounts: Seq<Mount<G>>) -> bool {
    exists|i: int|
        0 <= i < mounts.len() && ((#[trigger] mounts[i]).nested matches Some(sub)
            && !sub.slots_below(mounts.len()))
}

/// Builds and finishes the resource map of an application: the external
/// patterns first, then one node per mounted service in the order of
/// registration, the node of service number `i` with slot `i`. There is
/// no router where a nested map names a slot that no service fills.
#[verifier::loop_isolation(false)]
pub fn build_router<G: Guard>(
    external: Vec<ResourceDef>,
    mounts: Vec<Mount<G>>,
    ignore_case: bool,
) -> (r: Option<Router<G>>)
    ensures
        r is Some <==> !has_unfilled_slot(mounts@),
        r matches Some(router) ==> router.routes() == app_routes(mounts@) && router.bound()
            == mounts@.len() && router.ignore_case() == ignore_case,
{
    let mut external = external;
    let mut mounts = mounts;
    let ghost ext = external@;
    let ghost all = mounts@;
    let external_len = external.len();
    let mounts_len = mounts.len();
    let mut rmap: ResourceMap<G> = ResourceMap::new(ResourceDef::root());
    let mut done: usize = 0;
    while external.len() > 0
        invariant
            ext.len() == external_len,
            done + external@.len() == ext.len(),
            external@ == ext.skip(done as int),
            rmap.rdef@.len() == 0,
            rmap.slot is None,
            rmap.guards@.len() == 0,
            rmap.nested@.len() == done,
            forall|k: int|
                0 <= k < done ==> {
                    &&& (#[trigger] rmap.nested@[k]).rdef == ext[k]
                    &&& rmap.nested@[k].slot is None
                    &&& rmap.nested@[k].routes().len() == 0
                },
        decreases external@.len(),
    {
        let rdef = external.remove(0);
        rmap.add_external(rdef);
        proof {
            assert forall|k: int| 0 <= k < done + 1 implies {
                &&& (#[trigger] rmap.nested@[k]).rdef == ext[k]
                &&& rmap.nested@[k].slot is None
                &&& rmap.nested@[k].routes().len() == 0
            } by {
                if k < done {
                    assert(rmap.nested@[k] == rmap.nested@.drop_last()[k]);
                } else {
                    rmap.nested@[k].lemma_routes_shape();
                }
            }
        }
        done += 1;
    }
    let mut slot: usize = 0;
    while mounts.len() > 0
        invariant
            all.len() == mounts_len,
            slot + mounts@.len() == all.len(),
            mounts@ == all.skip(slot as int),
            rmap.rdef@.len() == 0,
            rmap.slot is None,
            rmap.guards@.len() == 0,
            is_app_map(rmap, ext, all.take(slot as int)),
        decreases mounts@.len(),
    {
        let ghost before = rmap.nested@;
        let mount = mounts.remove(0);
        rmap.register(mount.rdef, slot, mount.guards, mount.nested);
        proof {
            let now = all.take(slot + 1);
            assert forall|k: int| 0 <= k < ext.len() implies {
                &&& (#[trigger] rmap.nested@[k]).rdef == ext[k]
                &&& rmap.nested@[k].slot is None
                &&& rmap.nested@[k].routes().len() == 0
            } by {
                assert(rmap.nested@[k] == before[k]);
            }
            assert forall|i: int| 0 <= i < now.len() implies {
                let node = #[trigger] rmap.nested@[ext.len() + i];
                &&& node.rdef == now[i].rdef
                &&& node.slot == Some(i as usize)
                &&& node.guards@ == entry_guards(now[i])
                &&& node.nested@ == match now[i].nested {
                    Some(sub) => seq![sub],
                    None => Seq::empty(),
                }
            } by {
                if i < slot {
                    assert(rmap.nested@[ext.len() + i] == before[ext.len() + i]);
                }
            }
        }
        slot += 1;
    }
    let ghost map = rmap;
    proof {
        assert(all.take(slot as int) =~= all);
        lemma_app_map_routes(map, ext, all);
    }
    match rmap.finish(mounts_len, ignore_case) {
        Some(router) => {
            proof {
                lemma_resolved_slots_are_nested(map, ext, all);
            }
            Some(router)
        },
        None => {
            proof {
                lemma_unresolved_slot_is_nested(map, ext, all);
            }
            None
        },
    }
}

impl<M, F, A, DF, SF, G, V, E> AppFactoryInner<M, F, A, DF, SF, G, V, E> where
    E: ErrorContainer<V>,
    G: Guard,
    F: ServiceFactory<WebRequest<V>, (), Response = (), Error = E, InitError = ()>,
    A: ServiceFactory<WebRequest<V>, (), Response = WebResponse, Error = E, InitError = ()>,
    DF: ServiceFactory<WebRequest<V>, (), Response = WebResponse, Error = E, InitError = ()>,
    SF: StateFactory<V>,
    M: Transform<AppRouting<F::Service, A::Service, DF::Service, G, V, E>>,
    M::Service: Service<WebRequest<V>, Response = WebResponse, Error = Infallible>,
 {
    /// What start-up takes for granted of what was registered: every
    /// factory is usable, whatever the factories build is well formed, the
    /// handlers are always ready, and the middleware wraps a well-formed
    /// pipeline into a well-formed service.
    pub open spec fn startable(&self) -> bool {
        &&& self.filter matches Some(f) ==> f.usable() && forall|s: F::Service| #[trigger]
            f.may_create((), Ok(s)) ==> s.valid()
        &&& self.default matches Some(d) ==> d.usable() && forall|s: DF::Service| #[trigger]
            d.may_create((), Ok(s)) ==> s.valid() && s.always_ready()
        &&& forall|i: int|
            0 <= i < self.services@.len() ==> (#[trigger] self.services@[i]).factory.usable()
                && forall|s: A::Service| #[trigger]
                self.services@[i].factory.may_create((), Ok(s)) ==> s.valid()
                    && s.always_ready()
        &&& forall|
            inner: AppRouting<F::Service, A::Service, DF::Service, G, V, E>,
            outer: M::Service,
        | #[trigger] self.middleware.wraps(inner, outer) && inner.valid() ==> outer.valid()
    }

    /// What the state container holds when the first state factory runs:
    /// the entries of the first phase on top of what was there before.
    pub open spec fn first_phase(&self) -> Map<u64, V> {
        filled_onto(
            match self.extensions {
                Some(c) => c@,
                None => Map::empty(),
            },
            self.state@,
        )
    }

    /// Whether a resource map nested below a service names a slot that no
    /// registered service fills.
    pub open spec fn has_unfilled_slot(&self) -> bool {
        has_unfilled_slot(mounts_of(self.services@))
    }

    /// Whether the application `app` is one that start-up may give: it has
    /// the given configuration, an empty request pool, the state that the
    /// two phases leave where every state factory succeeded, and behind
    /// the middleware a pipeline with the filter, one handler per service
    /// and, where one was registered, the default handler, each built by
    /// its factory, and with the routes of the services. Every slot of the
    /// nested maps is filled.
    pub open spec fn starts(&self, config: AppConfig, app: AppService<M::Service, V>) -> bool {
        &&& app.config == config
        &&& app.service.valid()
        &&& app.pool@.idle.len() == 0
        &&& !self.has_unfilled_slot()
        &&& exists|produced: Seq<StateEntry<V>>| #[trigger]
            produced_by(self.state_factories@, self.first_phase(), produced) && app.state@
                == filled_onto(self.first_phase(), produced)
        &&& exists|routing: AppRouting<F::Service, A::Service, DF::Service, G, V, E>|
            {
                &&& #[trigger] self.middleware.wraps(routing, app.service)
                &&& routing.gate is Closed
                &&& routing.router.router.routes() == app_routes(mounts_of(self.services@))
                &&& routing.router.router.ignore_case() == self.case_insensitive
                &&& self.filter matches Some(f) && f.may_create((), Ok(routing.filter))
                &&& match self.default {
                    Some(d) => routing.router.default matches Some(built) && d.may_create(
                        (),
                        Ok(built),
                    ),
                    None => routing.router.default is None,
                }
                &&& routing.router.handlers@.len() == self.services@.len()
                &&& forall|i: int|
                    0 <= i < self.services@.len() ==> (#[trigger] self.services@[i]).factory.may_create(
                        (),
                        Ok(routing.router.handlers@[i]),
                    )
            }
    }

    /// Whether start-up may fail: the filter's factory is gone, as it is
    /// after a start; a factory may fail to build its service; a nested
    /// resource map names a slot that no registered service fills; or a
    /// state factory may fail on what it reads.
    pub open spec fn may_fail(&self) -> bool {
        ||| self.filter is None
        ||| exists|i: int|
            0 <= i < self.services@.len() && (#[trigger] self.services@[i]).factory.may_create(
                (),
                Err(()),
            )
        ||| self.filter matches Some(f) && f.may_create((), Err(()))
        ||| self.default matches Some(d) && d.may_create((), Err(()))
        ||| self.has_unfilled_slot()
        ||| may_stop(self.state_factories@, self.first_phase())
    }

    /// Starts the application. Builds the handler of every registered
    /// service, in the order of registration, then the filter and, if one
    /// was registered, the default handler. Builds and finishes the
    /// resource map, fills the state container in its two phases, wraps
    /// the pipeline in the middleware and creates the request pool.
    ///
    /// Start-up fails as soon as a factory fails, be it the factory of a
    /// handler, of the filter, of the default handler or of a state value,
    /// and it fails where a nested resource map names a slot that no
    /// service fills. What was registered is used up by a start, so that a
    /// further start fails as well.
    #[verifier::loop_isolation(false)]
    pub fn create(&mut self, config: AppConfig) -> (r: Result<AppService<M::Service, V>, ()>)
        requires
            old(self).startable(),
        ensures
            match r {
                Ok(app) => old(self).starts(config, app),
                Err(_) => old(self).may_fail(),
            },
            old(self).filter is None ==> r is Err && *final(self) == *old(self),
            old(self).has_unfilled_slot() ==> r is Err,
            final(self).startable(),
            final(self).filter is None,
            old(self).filter is Some ==> final(self).default is None && final(self).services@.len()
                == 0 && final(self).external@.len() == 0,
            r is Ok ==> final(self).extensions is None && final(self).state@.len() == 0,
            final(self).middleware == old(self).middleware,
            final(self).state_factories == old(self).state_factories,
            final(self).case_insensitive == old(self).case_insensitive,
    {
        let ghost start = *self;
        // the filter's factory; without it there is nothing to start
        let mut filter_factory = match self.filter.take() {
            Some(f) => f,
            None => {
                return Err(());
            },
        };
        let default = self.default.take();

        // one handler per registered service, in the order of registration
        let mut entries: Vec<WebServiceEntry<A, G>> = Vec::new();
        core::mem::swap(&mut entries, &mut self.services);
        let mut external: Vec<ResourceDef> = Vec::new();
        core::mem::swap(&mut external, &mut self.external);
        let ghost all = entries@;
        let entries_len = entries.len();
        let mut handlers: Vec<A::Service> = Vec::new();
        let mut mounts: Vec<Mount<G>> = Vec::new();
        let mut slot: usize = 0;
        while entries.len() > 0
            invariant
                all.len() == entries_len,
                slot + entries@.len() == all.len(),
                entries@ == all.skip(slot as int),
                handlers@.len() == slot,
                mounts@ == mounts_of(all.take(slot as int)),
                forall|i: int|
                    0 <= i < slot ==> (#[trigger] handlers@[i]).valid() && handlers@[i].always_ready(),
                forall|i: int|
                    0 <= i < slot ==> (#[trigger] all[i]).factory.may_create((), Ok(handlers@[i])),
            decreases entries@.len(),
        {
            let mut entry = entries.remove(0);
            let service = match entry.factory.new_service(()) {
                Ok(s) => s,
                Err(e) => {
                    proof {
                        assert(start.services@[slot as int].factory.may_create((), Err(())));
                    }
                    return Err(());
                },
            };
            handlers.push(service);
            mounts.push(Mount { rdef: entry.rdef, guards: entry.guards, nested: entry.nested });
            proof {
                assert(mounts@ =~= mounts_of(all.take(slot + 1)));
            }
            slot += 1;
        }
        proof {
            assert(all.take(slot as int) =~= all);
        }

        // the filter, and the default handler if there is one
        let filter = match filter_factory.new_service(()) {
            Ok(f) => f,
            Err(e) => {
                return Err(());
            },
        };
        let default_service = match default {
            Some(mut factory) => match factory.new_service(()) {
                Ok(d) => Some(d),
                Err(e) => {
                    return Err(());
                },
            },
            None => None,
        };

        // the resource map
        let router = match build_router(external, mounts, self.case_insensitive) {
            Some(router) => router,
            None => {
                return Err(());
            },
        };
        let routing = AppRouting::new(filter, AppRouter::new(router, handlers, default_service));

        // first phase of the state container
        let mut entries_of_state: Vec<StateEntry<V>> = Vec::new();
        core::mem::swap(&mut entries_of_state, &mut self.state);
        let mut container = match self.extensions.take() {
            Some(c) => c,
            None => StateContainer::new(),
        };
        container.extend(entries_of_state);
        let ghost base = container@;
        proof {
            assert(base == start.first_phase());
        }

        // second phase: a state factory that fails ends the start
        match run_factories(&mut container, &self.state_factories) {
            Ok(_) => {},
            Err(_) => {
                return Err(());
            },
        }

        let service = self.middleware.new_transform(routing);
        let state = Rc::new(container);
        let pool = HttpRequestPool::create();
        let app = AppService { service, pool, state, config };
        proof {
            assert(start.middleware.wraps(routing, app.service));
        }
        Ok(app)
    }
}

/// Service factory for converting `Request` to a `WebResponse`.
///
/// It also executes state factories.
pub struct AppFactory<M, F, A, DF, SF, G, V, E>(pub AppFactoryInner<M, F, A, DF, SF, G, V, E>);

impl<M, F, A, DF, SF, G, V, E> AppFactory<M, F, A, DF, SF, G, V, E> {
    /// Wraps what was registered with the application.
    pub fn new(app: AppFactoryInner<M, F, A, DF, SF, G, V, E>) -> (factory: Self)
        ensures
            factory.0 == app,
    {
        AppFactory(app)
    }
}

impl<M, F, A, DF, SF, G, V, E> ServiceFactory<Request, AppConfig> for AppFactory<
    M,
    F,
    A,
    DF,
    SF,
    G,
    V,
    E,
> where
    E: ErrorContainer<V>,
    G: Guard,
    F: ServiceFactory<WebRequest<V>, (), Response = (), Error = E, InitError = ()>,
    A: ServiceFactory<WebRequest<V>, (), Response = WebResponse, Error = E, InitError = ()>,
    DF: ServiceFactory<WebRequest<V>, (), Response = WebResponse, Error = E, InitError = ()>,
    SF: StateFactory<V>,
    M: Transform<AppRouting<F::Service, A::Service, DF::Service, G, V, E>>,
    M::Service: Service<WebRequest<V>, Response = WebResponse, Error = Infallible>,
 {
    type Response = WebResponse;

    type Error = Infallible;

    type InitError = ();

    type Service = AppService<M::Service, V>;

    /// The factory takes its factories' contracts for granted and nothing
    /// else: it may be asked at any time, also after a start.
    open spec fn usable(&self) -> bool {
        self.0.startable()
    }

    open spec fn may_create(
        &self,
        cfg: AppConfig,
        res: Result<AppService<M::Service, V>, ()>,
    ) -> bool {
        match res {
            Ok(app) => self.0.starts(cfg, app),
            Err(_) => self.0.may_fail(),
        }
    }

    /// Starts the application. After a start the factory is used up: it
    /// stays usable, and every further start fails.
    fn new_service(&mut self, cfg: AppConfig) -> (res: Result<AppService<M::Service, V>, ()>)
        ensures
            final(self).0.startable(),
            final(self).0.filter is None,
    {
        self.0.create(cfg)
    }
}

impl<M, F, A, DF, SF, G, V, E> ServiceFactory<Request, ()> for AppFactory<
    M,
    F,
    A,
    DF,
    SF,
    G,
    V,
    E,
> where
    E: ErrorContainer<V>,
    G: Guard,
    F: ServiceFactory<WebRequest<V>, (), Response = (), Error = E, InitError = ()>,
    A: ServiceFactory<WebRequest<V>, (), Response = WebResponse, Error = E, InitError = ()>,
    DF: ServiceFactory<WebRequest<V>, (), Response = WebResponse, Error = E, InitError = ()>,
    SF: StateFactory<V>,
    M: Transform<AppRouting<F::Service, A::Service, DF::Service, G, V, E>>,
    M::Service: Service<WebRequest<V>, Response = WebResponse, Error = Infallible>,
 {
    type Response = WebResponse;

    type Error = Infallible;

    type InitError = ();

    type Service = AppService<M::Service, V>;

    open spec fn usable(&self) -> bool {
        self.0.startable()
    }

    /// As with the default configuration.
    open spec fn may_create(&self, cfg: (), res: Result<AppService<M::Service, V>, ()>) -> bool {
        match res {
            Ok(app) => exists|config: AppConfig|
                !config.secure && config.host@.len() == 0 && #[trigger] self.0.starts(config, app),
            Err(_) => self.0.may_fail(),
        }
    }

    fn new_service(&mut self, cfg: ()) -> (res: Result<AppService<M::Service, V>, ()>)
        ensures
            final(self).0.startable(),
            final(self).0.filter is None,
    {
        let config = AppConfig::default();
        self.0.create(config)
    }
}

} // verus!
