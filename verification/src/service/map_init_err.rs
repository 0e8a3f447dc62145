//! Factory combinator that changes the representation of a start-up failure.
use super::ServiceFactory;
use core::marker::PhantomData;
use vstd::prelude::*;

verus! {

/// `MapInitErr` service combinator: the wrapped factory builds the service,
/// and a failure to build passes through `f`. A service that was built is
/// handed on untouched.
pub struct MapInitErr<A, F, E> {
    a: A,
    f: F,
    e: PhantomData<E>,
}

impl<A, F, E> MapInitErr<A, F, E> {
    /// The wrapped factory.
    pub closed spec fn factory(&self) -> A {
        self.a
    }

    /// The function applied to a start-up failure.
    pub closed spec fn mapper(&self) -> F {
        self.f
    }

    /// Create new `MapInitErr` combinator
    pub fn new(a: A, f: F) -> (r: Self)
        ensures
            r.factory() == a,
            r.mapper() == f,
    {
        Self { a, f, e: PhantomData }
    }

    /// What the combinator's contract comes to, stated over the wrapped
    /// factory and the mapper. A caller that made the combinator from a
    /// closure learns from here when it is usable and what it may build.
    pub proof fn lemma_contract<R, C>(self) where A: ServiceFactory<R, C>, F: Fn(A::InitError) -> E
        ensures
            ServiceFactory::<R, C>::usable(&self) == (self.factory().usable() && forall|
                e: A::InitError,
            |
                call_requires(self.mapper(), (e,))),
            forall|cfg: C, srv: A::Service| #[trigger]
                ServiceFactory::<R, C>::may_create(&self, cfg, Ok(srv))
                    == self.factory().may_create(cfg, Ok(srv)),
            forall|cfg: C, e: E| #[trigger]
                ServiceFactory::<R, C>::may_create(&self, cfg, Err(e)) == exists|
                    inner: A::InitError,
                | #[trigger]
                    self.factory().may_create(cfg, Err(inner)) && call_ensures(
                        self.mapper(),
                        (inner,),
                        e,
                    ),
    {
    }
}

impl<A, F, E> Clone for MapInitErr<A, F, E> where A: Clone, F: Clone {
    fn clone(&self) -> (r: Self)
        ensures
            cloned(self.factory(), r.factory()),
            cloned(self.mapper(), r.mapper()),
    {
        Self { a: self.a.clone(), f: self.f.clone(), e: PhantomData }
    }
}

impl<A, R, C, F, E> ServiceFactory<R, C> for MapInitErr<A, F, E> where
    A: ServiceFactory<R, C>,
    F: Fn(A::InitError) -> E,
 {
    type Response = A::Response;

    type Error = A::Error;

    type Service = A::Service;

    type InitError = E;

    /// The wrapped factory is usable and the mapper accepts every failure.
    open spec fn usable(&self) -> bool {
        &&& self.factory().usable()
        &&& forall|e: A::InitError| call_requires(self.mapper(), (e,))
    }

    /// Success is exactly the wrapped factory's success; a failure is the
    /// image under the mapper of a failure of the wrapped factory.
    open spec fn may_create(&self, cfg: C, res: Result<A::Service, E>) -> bool {
        match res {
            Ok(srv) => self.factory().may_create(cfg, Ok(srv)),
            Err(e) => exists|inner: A::InitError|
                #[trigger] self.factory().may_create(cfg, Err(inner)) && call_ensures(
                    self.mapper(),
                    (inner,),
                    e,
                ),
        }
    }

    fn new_service(&mut self, cfg: C) -> (res: Result<A::Service, E>)
        ensures
            final(self).mapper() == old(self).mapper(),
    {
        match self.a.new_service(cfg) {
            Ok(srv) => Ok(srv),
            Err(inner) => Err((self.f)(inner)),
        }
    }
}

} // verus!
