//! Type-erased services.
//!
//! Services of different types can be kept in one collection once each
//! stands behind a `BoxService`. The handle forgets the type and keeps the
//! contract: readiness, calls and results are those of the service inside.
use super::{Poll, Service, ServiceFactory};
use vstd::prelude::*;

verus! {

/// The service contract without associated types, so that services of
/// different types can stand behind one handle.
pub trait Erased<Req, Res, E> {
    /// `Service::valid` of the service.
    spec fn valid_erased(&self) -> bool;

    /// `Service::ready` of the service.
    spec fn ready_erased(&self) -> bool;

    /// `Service::always_ready` of the service.
    spec fn always_ready_erased(&self) -> bool;

    /// `Service::may_return` of the service.
    spec fn may_return_erased(&self, before: Req, after: Req, res: Result<Res, E>) -> bool;

    /// `Service::may_poll` of the service.
    spec fn may_poll_erased(&self, p: Poll<Result<(), E>>) -> bool;

    /// `Service::poll_ready` of the service.
    fn poll_erased(&mut self) -> (p: Poll<Result<(), E>>)
        requires
            old(self).valid_erased(),
        ensures
            final(self).valid_erased(),
            old(self).may_poll_erased(p),
            p matches Poll::Ready(Ok(_)) ==> final(self).ready_erased(),
            old(self).always_ready_erased() ==> final(self).always_ready_erased()
                && p matches Poll::Ready(Ok(_)),
    ;

    /// `Service::call` of the service.
    fn call_erased(&mut self, req: &mut Req) -> (res: Result<Res, E>)
        requires
            old(self).valid_erased(),
            old(self).ready_erased() || old(self).always_ready_erased(),
        ensures
            final(self).valid_erased(),
            old(self).may_return_erased(*old(req), *final(req), res),
            old(self).always_ready_erased() ==> final(self).always_ready_erased(),
    ;
}

impl<Req, S: Service<Req>> Erased<Req, S::Response, S::Error> for S {
    open spec fn valid_erased(&self) -> bool {
        self.valid()
    }

    open spec fn ready_erased(&self) -> bool {
        self.ready()
    }

    open spec fn always_ready_erased(&self) -> bool {
        self.always_ready()
    }

    open spec fn may_return_erased(
        &self,
        before: Req,
        after: Req,
        res: Result<S::Response, S::Error>,
    ) -> bool {
        self.may_return(before, after, res)
    }

    open spec fn may_poll_erased(&self, p: Poll<Result<(), S::Error>>) -> bool {
        self.may_poll(p)
    }

    fn poll_erased(&mut self) -> (p: Poll<Result<(), S::Error>>) {
        self.poll_ready()
    }

    fn call_erased(&mut self, req: &mut Req) -> (res: Result<S::Response, S::Error>) {
        self.call(req)
    }
}

/// A service behind a uniform handle.
#[verifier::reject_recursive_types(Req)]
#[verifier::reject_recursive_types(Res)]
#[verifier::reject_recursive_types(E)]
pub struct BoxService<Req, Res, E> {
    inner: Box<dyn Erased<Req, Res, E>>,
}

/// Whether `boxed` behaves as the service `inner`: it is well formed and
/// ready when `inner` is, and a call may give what a call of `inner` may
/// give.
pub open spec fn is_handle_of<Req, S: Service<Req>>(
    boxed: BoxService<Req, S::Response, S::Error>,
    inner: S,
) -> bool {
    &&& boxed.valid() == inner.valid()
    &&& boxed.ready() == inner.ready()
    &&& boxed.always_ready() == inner.always_ready()
    &&& forall|p: Poll<Result<(), S::Error>>| #[trigger] boxed.may_poll(p) == inner.may_poll(p)
    &&& forall|before: Req, after: Req, res: Result<S::Response, S::Error>| #[trigger]
        boxed.may_return(before, after, res) == inner.may_return(before, after, res)
}

/// Puts a service behind a handle.
pub fn service<Req, S: Service<Req> + 'static>(inner: S) -> (boxed: BoxService<
    Req,
    S::Response,
    S::Error,
>)
    ensures
        is_handle_of(boxed, inner),
{
    BoxService { inner: Box::new(inner) }
}

impl<Req, Res, E> Service<Req> for BoxService<Req, Res, E> {
    type Response = Res;

    type Error = E;

    closed spec fn valid(&self) -> bool {
        self.inner.valid_erased()
    }

    closed spec fn ready(&self) -> bool {
        self.inner.ready_erased()
    }

    closed spec fn always_ready(&self) -> bool {
        self.inner.always_ready_erased()
    }

    closed spec fn may_return(&self, before: Req, after: Req, res: Result<Res, E>) -> bool {
        self.inner.may_return_erased(before, after, res)
    }

    closed spec fn may_poll(&self, p: Poll<Result<(), E>>) -> bool {
        self.inner.may_poll_erased(p)
    }

    fn poll_ready(&mut self) -> (p: Poll<Result<(), E>>) {
        self.inner.poll_erased()
    }

    fn call(&mut self, req: &mut Req) -> (res: Result<Res, E>) {
        self.inner.call_erased(req)
    }
}

/// The factory contract without associated types.
pub trait ErasedFactory<Req, Cfg, Res, E, InitErr> {
    /// `ServiceFactory::usable` of the factory.
    spec fn usable_erased(&self) -> bool;

    /// What building may give: a handle on a service that the factory may
    /// build, or an error that the factory may fail with.
    spec fn may_create_erased(
        &self,
        cfg: Cfg,
        res: Result<BoxService<Req, Res, E>, InitErr>,
    ) -> bool;

    /// `ServiceFactory::new_service` of the factory, with the service put
    /// behind a handle.
    fn new_service_erased(&mut self, cfg: Cfg) -> (res: Result<BoxService<Req, Res, E>, InitErr>)
        requires
            old(self).usable_erased(),
        ensures
            old(self).may_create_erased(cfg, res),
    ;
}

impl<Req, Cfg, F> ErasedFactory<Req, Cfg, F::Response, F::Error, F::InitError> for F where
    F: ServiceFactory<Req, Cfg>,
    F::Service: 'static,
 {
    open spec fn usable_erased(&self) -> bool {
        self.usable()
    }

    open spec fn may_create_erased(
        &self,
        cfg: Cfg,
        res: Result<BoxService<Req, F::Response, F::Error>, F::InitError>,
    ) -> bool {
        match res {
            Ok(boxed) => exists|inner: F::Service| #[trigger]
                self.may_create(cfg, Ok(inner)) && is_handle_of(boxed, inner),
            Err(e) => self.may_create(cfg, Err(e)),
        }
    }

    fn new_service_erased(&mut self, cfg: Cfg) -> (res: Result<
        BoxService<Req, F::Response, F::Error>,
        F::InitError,
    >) {
        match self.new_service(cfg) {
            Ok(inner) => Ok(service(inner)),
            Err(e) => Err(e),
        }
    }
}

/// A service factory behind a uniform handle. The services it builds
/// stand behind handles too.
#[verifier::reject_recursive_types(Req)]
#[verifier::reject_recursive_types(Cfg)]
#[verifier::reject_recursive_types(Res)]
#[verifier::reject_recursive_types(E)]
#[verifier::reject_recursive_types(InitErr)]
pub struct BoxServiceFactory<Req, Cfg, Res, E, InitErr> {
    inner: Box<dyn ErasedFactory<Req, Cfg, Res, E, InitErr>>,
}

/// Whether `boxed` builds what the factory `inner` builds.
pub open spec fn is_factory_handle_of<Req, Cfg, F: ServiceFactory<Req, Cfg>>(
    boxed: BoxServiceFactory<Req, Cfg, F::Response, F::Error, F::InitError>,
    inner: F,
) -> bool {
    &&& boxed.usable() == inner.usable()
    &&& forall|cfg: Cfg, res: Result<BoxService<Req, F::Response, F::Error>, F::InitError>| #[trigger]
        boxed.may_create(cfg, res) == match res {
            Ok(handle) => exists|built: F::Service| #[trigger]
                inner.may_create(cfg, Ok(built)) && is_handle_of(handle, built),
            Err(e) => inner.may_create(cfg, Err(e)),
        }
}

/// Puts a service factory behind a handle.
pub fn factory<Req, Cfg, F>(inner: F) -> (boxed: BoxServiceFactory<
    Req,
    Cfg,
    F::Response,
    F::Error,
    F::InitError,
>) where F: ServiceFactory<Req, Cfg> + 'static, F::Service: 'static
    ensures
        is_factory_handle_of(boxed, inner),
{
    BoxServiceFactory { inner: Box::new(inner) }
}

impl<Req, Cfg, Res, E, InitErr> ServiceFactory<Req, Cfg> for BoxServiceFactory<
    Req,
    Cfg,
    Res,
    E,
    InitErr,
> {
    type Response = Res;

    type Error = E;

    type InitError = InitErr;

    type Service = BoxService<Req, Res, E>;

    closed spec fn usable(&self) -> bool {
        self.inner.usable_erased()
    }

    closed spec fn may_create(&self, cfg: Cfg, res: Result<BoxService<Req, Res, E>, InitErr>) -> bool {
        self.inner.may_create_erased(cfg, res)
    }

    fn new_service(&mut self, cfg: Cfg) -> (res: Result<BoxService<Req, Res, E>, InitErr>) {
        self.inner.new_service_erased(cfg)
    }
}

} // verus!
