//! Service combinator that changes the representation of a failure.
use super::{Poll, Service};
use core::marker::PhantomData;
use vstd::prelude::*;

verus! {

/// Service for the `map_err` combinator, changing the type of a service's
/// error. A response of the wrapped service is handed on untouched; an
/// error, of a readiness check or of a call, passes through `f`.
pub struct MapErr<A, F, E> {
    a: A,
    f: F,
    e: PhantomData<E>,
}

impl<A, F, E> MapErr<A, F, E> {
    /// The wrapped service.
    pub closed spec fn service(&self) -> A {
        self.a
    }

    /// The function applied to an error.
    pub closed spec fn mapper(&self) -> F {
        self.f
    }

    /// Create new `MapErr` combinator
    pub fn new(a: A, f: F) -> (r: Self)
        ensures
            r.service() == a,
            r.mapper() == f,
    {
        Self { a, f, e: PhantomData }
    }

    /// What the combinator's contract comes to, stated over the wrapped
    /// service and the mapper. A caller that made the combinator from a
    /// closure learns from here when it is well formed and what a call may
    /// give.
    pub proof fn lemma_contract<R>(self) where A: Service<R>, F: Fn(A::Error) -> E
        ensures
            Service::<R>::valid(&self) == (self.service().valid() && forall|e: A::Error|
                call_requires(self.mapper(), (e,))),
            Service::<R>::ready(&self) == self.service().ready(),
            Service::<R>::always_ready(&self) == self.service().always_ready(),
            Service::<R>::may_poll(&self, Poll::Pending) == self.service().may_poll(Poll::Pending),
            forall|unit: ()| #[trigger]
                Service::<R>::may_poll(&self, Poll::Ready(Ok(unit))) == self.service().may_poll(
                    Poll::Ready(Ok(unit)),
                ),
            forall|e: E| #[trigger]
                Service::<R>::may_poll(&self, Poll::Ready(Err(e))) == exists|inner: A::Error| #[trigger]
                    self.service().may_poll(Poll::Ready(Err(inner))) && call_ensures(
                        self.mapper(),
                        (inner,),
                        e,
                    ),
            forall|before: R, after: R, resp: A::Response| #[trigger]
                Service::<R>::may_return(&self, before, after, Ok(resp))
                    == self.service().may_return(before, after, Ok(resp)),
            forall|before: R, after: R, e: E| #[trigger]
                Service::<R>::may_return(&self, before, after, Err(e)) == exists|inner: A::Error| #[trigger]
                    self.service().may_return(before, after, Err(inner)) && call_ensures(
                        self.mapper(),
                        (inner,),
                        e,
                    ),
    {
    }
}

impl<A, R, F, E> Service<R> for MapErr<A, F, E> where A: Service<R>, F: Fn(A::Error) -> E {
    type Response = A::Response;

    type Error = E;

    /// The wrapped service is well formed and the mapper accepts every
    /// error.
    open spec fn valid(&self) -> bool {
        &&& self.service().valid()
        &&& forall|e: A::Error| call_requires(self.mapper(), (e,))
    }

    open spec fn ready(&self) -> bool {
        self.service().ready()
    }

    open spec fn always_ready(&self) -> bool {
        self.service().always_ready()
    }

    /// Success is exactly the wrapped service's success; a failure is the
    /// image under the mapper of a failure of the wrapped service.
    open spec fn may_return(&self, before: R, after: R, res: Result<A::Response, E>) -> bool {
        match res {
            Ok(resp) => self.service().may_return(before, after, Ok(resp)),
            Err(e) => exists|inner: A::Error| #[trigger]
                self.service().may_return(before, after, Err(inner)) && call_ensures(
                    self.mapper(),
                    (inner,),
                    e,
                ),
        }
    }

    /// Pending and ready are exactly the wrapped service's answers; a
    /// failure is the image under the mapper of a failure of the wrapped
    /// service.
    open spec fn may_poll(&self, p: Poll<Result<(), E>>) -> bool {
        match p {
            Poll::Pending => self.service().may_poll(Poll::Pending),
            Poll::Ready(Ok(unit)) => self.service().may_poll(Poll::Ready(Ok(unit))),
            Poll::Ready(Err(e)) => exists|inner: A::Error| #[trigger]
                self.service().may_poll(Poll::Ready(Err(inner))) && call_ensures(
                    self.mapper(),
                    (inner,),
                    e,
                ),
        }
    }

    fn poll_ready(&mut self) -> (p: Poll<Result<(), E>>)
        ensures
            final(self).mapper() == old(self).mapper(),
    {
        let p = self.a.poll_ready();
        proof {
            assert forall|e: A::Error| call_requires(self.mapper(), (e,)) by {
                assert(call_requires(old(self).mapper(), (e,)));
            }
        }
        match p {
            Poll::Pending => Poll::Pending,
            Poll::Ready(Ok(unit)) => Poll::Ready(Ok(unit)),
            Poll::Ready(Err(inner)) => {
                proof {
                    assert(call_requires(self.mapper(), (inner,)));
                }
                Poll::Ready(Err((self.f)(inner)))
            },
        }
    }

    fn call(&mut self, req: &mut R) -> (res: Result<A::Response, E>)
        ensures
            final(self).mapper() == old(self).mapper(),
    {
        let res = self.a.call(req);
        proof {
            assert forall|e: A::Error| call_requires(self.mapper(), (e,)) by {
                assert(call_requires(old(self).mapper(), (e,)));
            }
        }
        match res {
            Ok(resp) => Ok(resp),
            Err(inner) => {
                proof {
                    assert(call_requires(self.mapper(), (inner,)));
                }
                Err((self.f)(inner))
            },
        }
    }
}

} // verus!
