//! Service combinator that runs two services in sequence.
use super::{join, joined, may_poll_both, Poll, Service};
use vstd::prelude::*;

verus! {

/// Service for the `and_then` combinator, chaining a computation onto the
/// end of another service which completes successfully. The response of
/// the first service is the request of the second. A failure of either
/// stage ends the call with that stage's error, and the second stage does
/// not run after a failure of the first.
pub struct AndThen<A, B> {
    a: A,
    b: B,
}

impl<A, B> AndThen<A, B> {
    /// The first stage.
    pub closed spec fn first(&self) -> A {
        self.a
    }

    /// The second stage.
    pub closed spec fn second(&self) -> B {
        self.b
    }

    /// Create new `AndThen` combinator
    pub fn new(a: A, b: B) -> (r: Self)
        ensures
            r.first() == a,
            r.second() == b,
    {
        Self { a, b }
    }
}

impl<A, B, R> Service<R> for AndThen<A, B> where
    A: Service<R>,
    B: Service<A::Response, Error = A::Error>,
 {
    type Response = B::Response;

    type Error = A::Error;

    open spec fn valid(&self) -> bool {
        self.first().valid() && self.second().valid()
    }

    /// Both stages are ready.
    open spec fn ready(&self) -> bool {
        &&& self.first().ready() || self.first().always_ready()
        &&& self.second().ready() || self.second().always_ready()
    }

    open spec fn always_ready(&self) -> bool {
        self.first().always_ready() && self.second().always_ready()
    }

    /// The first stage fails and its error is the result, or it gives a
    /// response on which the second stage gives the result.
    open spec fn may_return(&self, before: R, after: R, res: Result<B::Response, A::Error>) -> bool {
        exists|mid: Result<A::Response, A::Error>| #[trigger]
            self.first().may_return(before, after, mid) && match mid {
                Err(e) => res == Err::<B::Response, A::Error>(e),
                Ok(fed) => exists|left: A::Response| #[trigger]
                    self.second().may_return(fed, left, res),
            }
    }

    /// Both stages are asked, the first one first; a stage behind one
    /// that failed is not asked.
    open spec fn may_poll(&self, p: Poll<Result<(), A::Error>>) -> bool {
        may_poll_both(self.first(), self.second(), p)
    }

    /// Asks both stages. The answer is ready when both are; the error of
    /// the first one that fails is the answer, and pending otherwise.
    fn poll_ready(&mut self) -> (p: Poll<Result<(), A::Error>>) {
        let first = self.a.poll_ready();
        let ghost a = first;
        let first_ready = match first {
            Poll::Ready(Err(e)) => {
                return Poll::Ready(Err(e));
            },
            Poll::Ready(Ok(_)) => true,
            Poll::Pending => false,
        };
        let second = self.b.poll_ready();
        let ghost b = second;
        let p = join(first_ready, second);
        proof {
            assert(old(self).first().may_poll(a) && old(self).second().may_poll(b));
        }
        p
    }

    fn call(&mut self, req: &mut R) -> (res: Result<B::Response, A::Error>) {
        match self.a.call(req) {
            Err(e) => {
                Err(e)
            },
            Ok(fed) => {
                let mut fed = fed;
                let res = self.b.call(&mut fed);
                res
            },
        }
    }
}

} // verus!
