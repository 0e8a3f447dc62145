//! The contract between a caller and a unit that processes one request at a
//! time under backpressure, and between application start-up and the units
//! that build such services.
//!
//! The traits state their contracts over predicates that an implementation
//! may define. Each predicate has a default that promises nothing beyond
//! the signature: by default a service is never known to be ready and a
//! call may give any result. An implementation that states no contract of
//! its own writes the executable methods only.
use vstd::prelude::*;

pub mod and_then;
pub mod boxed;
pub mod map_err;
pub mod map_init_err;

verus! {

/// Result of a readiness check: the value is there, or the caller has to
/// come back later.
#[derive(Debug)]
pub enum Poll<T> {
    Ready(T),
    Pending,
}

/// A unit that processes one request at a time.
///
/// A caller owns the service exclusively while it checks readiness and
/// calls. `call` may only follow a readiness check that reported
/// `Poll::Ready(Ok(()))` on the same instance, with no other call in
/// between: `call` uses up the readiness that `poll_ready` established.
/// The one exception is a service that is always ready.
pub trait Service<Req> {
    type Response;

    type Error;

    /// The service is well formed. Every method keeps it so.
    open spec fn valid(&self) -> bool {
        true
    }

    /// A call is in order: readiness has been reported and no call has
    /// used it up yet.
    open spec fn ready(&self) -> bool {
        false
    }

    /// The service is ready unconditionally: a readiness check always
    /// succeeds, and a call is in order at any time.
    open spec fn always_ready(&self) -> bool {
        false
    }

    /// The results that a call may give. `before` is the request as the
    /// service receives it, `after` the request as the service leaves it.
    open spec fn may_return(
        &self,
        before: Req,
        after: Req,
        res: Result<Self::Response, Self::Error>,
    ) -> bool {
        true
    }

    /// The answers that a readiness check may give.
    open spec fn may_poll(&self, p: Poll<Result<(), Self::Error>>) -> bool {
        true
    }

    /// Checks whether the service can take a request now.
    fn poll_ready(&mut self) -> (p: Poll<Result<(), Self::Error>>)
        requires
            old(self).valid(),
        ensures
            final(self).valid(),
            old(self).may_poll(p),
            p matches Poll::Ready(Ok(_)) ==> final(self).ready(),
            old(self).always_ready() ==> final(self).always_ready() && p matches Poll::Ready(
                Ok(_),
            ),
    ;

    /// Processes one request. The service borrows the request for the
    /// duration of the call and hands it back on return.
    fn call(&mut self, req: &mut Req) -> (res: Result<Self::Response, Self::Error>)
        requires
            old(self).valid(),
            old(self).ready() || old(self).always_ready(),
        ensures
            final(self).valid(),
            old(self).may_return(*old(req), *final(req), res),
            old(self).always_ready() ==> final(self).always_ready(),
    ;
}

/// The answer of two stages that are asked for readiness one after the
/// other, where the first did not fail: the error of the second if it
/// failed, ready if both are ready, pending otherwise.
pub open spec fn joined<E>(first_ready: bool, second: Poll<Result<(), E>>) -> Poll<Result<(), E>> {
    match second {
        Poll::Ready(Err(e)) => Poll::Ready(Err(e)),
        Poll::Ready(Ok(_)) => if first_ready {
            Poll::Ready(Ok(()))
        } else {
            Poll::Pending
        },
        Poll::Pending => Poll::Pending,
    }
}

/// Computes `joined`.
pub fn join<E>(first_ready: bool, second: Poll<Result<(), E>>) -> (p: Poll<Result<(), E>>)
    ensures
        p == joined(first_ready, second),
{
    match second {
        Poll::Ready(Err(e)) => Poll::Ready(Err(e)),
        Poll::Ready(Ok(_)) => {
            if first_ready {
                Poll::Ready(Ok(()))
            } else {
                Poll::Pending
            }
        },
        Poll::Pending => Poll::Pending,
    }
}

/// The answers that two stages may give together when they are asked one
/// after the other: the error of the first if it fails, in which case the
/// second is not asked, and otherwise what `joined` makes of the two
/// answers.
pub open spec fn may_poll_both<R1, R2, A: Service<R1>, B: Service<R2, Error = A::Error>>(
    first: A,
    second: B,
    p: Poll<Result<(), A::Error>>,
) -> bool {
    exists|a: Poll<Result<(), A::Error>>| #[trigger]
        first.may_poll(a) && match a {
            Poll::Ready(Err(e)) => p == Poll::Ready(Err::<(), A::Error>(e)),
            _ => exists|b: Poll<Result<(), A::Error>>| #[trigger]
                second.may_poll(b) && p == joined(a is Ready, b),
        }
}

/// A unit that builds a service from a configuration value. Building may
/// fail; such a failure is fatal to application start-up and distinct from
/// the failure of a single call.
pub trait ServiceFactory<Req, Cfg> {
    type Response;

    type Error;

    type InitError;

    type Service: Service<Req, Response = Self::Response, Error = Self::Error>;

    /// The factory can build a service.
    open spec fn usable(&self) -> bool {
        true
    }

    /// The results that building with `cfg` may give.
    open spec fn may_create(&self, cfg: Cfg, res: Result<Self::Service, Self::InitError>) -> bool {
        true
    }

    /// Builds one service instance.
    fn new_service(&mut self, cfg: Cfg) -> (res: Result<Self::Service, Self::InitError>)
        requires
            old(self).usable(),
        ensures
            old(self).may_create(cfg, res),
    ;
}

/// A middleware: wraps an inner service into an outer one with the same
/// request and response shape.
pub trait Transform<S> {
    type Service;

    /// `outer` is a wrapping of `inner` that this middleware may build.
    open spec fn wraps(&self, inner: S, outer: Self::Service) -> bool {
        true
    }

    /// Wraps `service`.
    fn new_transform(&self, service: S) -> (outer: Self::Service)
        ensures
            self.wraps(service, outer),
    ;
}

/// The middleware that changes nothing: the outer service is the inner one.
#[derive(Clone, Copy, Debug)]
pub struct Identity;

impl<S> Transform<S> for Identity {
    type Service = S;

    open spec fn wraps(&self, inner: S, outer: S) -> bool {
        outer == inner
    }

    fn new_transform(&self, service: S) -> (outer: S) {
        service
    }
}

} // verus!
