//! Filters: the stages that see a request before the router does.
//!
//! A filter works on the request in place. It may add to the request, and
//! it may fail, which ends the dispatch of the request. Filters are chained
//! with `Stack`, which runs them in order and stops at the first failure.
use super::httprequest::WebRequest;
use crate::service::{join, joined, may_poll_both, Poll, Service, ServiceFactory};
use core::marker::PhantomData;
use vstd::prelude::*;

verus! {

/// The filter that lets every request pass as it is.
pub struct Filter<E> {
    marker: PhantomData<E>,
}

impl<E> Filter<E> {
    /// The filter.
    pub fn new() -> Self {
        Filter { marker: PhantomData }
    }
}

impl<V, E> Service<WebRequest<V>> for Filter<E> {
    type Response = ();

    type Error = E;

    open spec fn ready(&self) -> bool {
        true
    }

    open spec fn always_ready(&self) -> bool {
        true
    }

    /// A readiness check always answers ready.
    open spec fn may_poll(&self, p: Poll<Result<(), E>>) -> bool {
        p matches Poll::Ready(Ok(_))
    }

    /// The request passes unchanged.
    open spec fn may_return(
        &self,
        before: WebRequest<V>,
        after: WebRequest<V>,
        res: Result<(), E>,
    ) -> bool {
        after == before && res is Ok
    }

    fn poll_ready(&mut self) -> (p: Poll<Result<(), E>>) {
        Poll::Ready(Ok(()))
    }

    fn call(&mut self, req: &mut WebRequest<V>) -> (res: Result<(), E>) {
        Ok(())
    }
}

impl<V, E> ServiceFactory<WebRequest<V>, ()> for Filter<E> {
    type Response = ();

    type Error = E;

    type InitError = ();

    type Service = Filter<E>;

    /// Building always succeeds.
    open spec fn may_create(&self, cfg: (), res: Result<Filter<E>, ()>) -> bool {
        res is Ok
    }

    fn new_service(&mut self, cfg: ()) -> (res: Result<Filter<E>, ()>) {
        Ok(Filter { marker: PhantomData })
    }
}

/// Two filters in a row: `first` sees the request before `second` does,
/// and `second` does not see a request that `first` refused.
pub struct Stack<A, B> {
    pub first: A,
    pub second: B,
}

impl<A, B> Stack<A, B> {
    /// Puts `second` behind `first`.
    pub fn new(first: A, second: B) -> (s: Self)
        ensures
            s.first == first,
            s.second == second,
    {
        Stack { first, second }
    }
}

impl<R, A, B> Service<R> for Stack<A, B> where
    A: Service<R, Response = ()>,
    B: Service<R, Response = (), Error = A::Error>,
 {
    type Response = ();

    type Error = A::Error;

    open spec fn valid(&self) -> bool {
        self.first.valid() && self.second.valid()
    }

    /// Both filters are ready.
    open spec fn ready(&self) -> bool {
        &&& self.first.ready() || self.first.always_ready()
        &&& self.second.ready() || self.second.always_ready()
    }

    open spec fn always_ready(&self) -> bool {
        self.first.always_ready() && self.second.always_ready()
    }

    /// The first filter fails and the request stays as that filter left
    /// it, or the first filter passes and the second decides.
    open spec fn may_return(&self, before: R, after: R, res: Result<(), A::Error>) -> bool {
        exists|mid: R, passed: Result<(), A::Error>| #[trigger]
            self.first.may_return(before, mid, passed) && match passed {
                Err(e) => after == mid && res == Err::<(), A::Error>(e),
                Ok(_) => self.second.may_return(mid, after, res),
            }
    }

    /// Both filters are asked, the first one first; a filter behind one
    /// that failed is not asked.
    open spec fn may_poll(&self, p: Poll<Result<(), A::Error>>) -> bool {
        may_poll_both(self.first, self.second, p)
    }

    /// Asks both filters. The answer is ready when both are; the error of
    /// the first one that fails is the answer, and pending otherwise.
    fn poll_ready(&mut self) -> (p: Poll<Result<(), A::Error>>) {
        let first = self.first.poll_ready();
        let ghost a = first;
        let first_ready = match first {
            Poll::Ready(Err(e)) => {
                return Poll::Ready(Err(e));
            },
            Poll::Ready(Ok(_)) => true,
            Poll::Pending => false,
        };
        let second = self.second.poll_ready();
        let ghost b = second;
        let p = join(first_ready, second);
        proof {
            assert(old(self).first.may_poll(a) && old(self).second.may_poll(b));
        }
        p
    }

    fn call(&mut self, req: &mut R) -> (res: Result<(), A::Error>) {
        let passed = self.first.call(req);
        match passed {
            Err(e) => Err(e),
            Ok(_) => self.second.call(req),
        }
    }
}

} // verus!
