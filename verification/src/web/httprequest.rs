//! The request object that the pipeline works on, and the pool that
//! recycles such objects.
//!
//! A request object is owned by exactly one party at a time. The pool owns
//! the idle objects. `acquire` hands one out, to the pipeline, which lends
//! it to one stage after the other and gives it back with `release` when
//! the request is done.
use super::state::StateContainer;
use crate::http::message::{Payload, RequestHead};
use crate::router::pattern::{param_views, Param, ParamView};
use crate::util::bytes_eq;
use std::rc::Rc;
use vstd::prelude::*;

verus! {

/// Another handle on a shared value.
///
/// Calls `Rc::clone`, which makes a new pointer to the same allocation: the
/// value behind the result is the value behind the argument.
#[verifier::external_body]
pub(crate) fn share<T>(shared: &Rc<T>) -> (r: Rc<T>)
    ensures
        r == *shared,
{
    Rc::clone(shared)
}

/// One in-flight request: its head, payload handle, routed path state,
/// per-request data and a handle on the shared application state.
pub struct WebRequest<V> {
    serial: u64,
    head: RequestHead,
    payload: Payload,
    params: Vec<Param>,
    extensions: StateContainer<V>,
    app_state: Rc<StateContainer<V>>,
}

impl<V> WebRequest<V> {
    /// Number that tells this object from the others of its pool.
    pub closed spec fn serial(&self) -> u64 {
        self.serial
    }

    /// The request head.
    pub closed spec fn head_spec(&self) -> RequestHead {
        self.head
    }

    /// The payload handle.
    pub closed spec fn payload_spec(&self) -> Payload {
        self.payload
    }

    /// The parameters that routing captured from the path.
    pub closed spec fn params(&self) -> Seq<ParamView> {
        param_views(self.params@)
    }

    /// The per-request data.
    pub closed spec fn extensions_spec(&self) -> Map<u64, V> {
        self.extensions@
    }

    /// The application state.
    pub closed spec fn app_state_spec(&self) -> StateContainer<V> {
        *self.app_state
    }

    /// Whether the object is as `acquire` leaves it for a request with the
    /// given head and payload: nothing of an earlier request is left.
    pub open spec fn is_reset_to(
        &self,
        head: RequestHead,
        payload: Payload,
        state: StateContainer<V>,
    ) -> bool {
        &&& self.head_spec() == head
        &&& self.payload_spec() == payload
        &&& self.params().len() == 0
        &&& self.extensions_spec() == Map::<u64, V>::empty()
        &&& self.app_state_spec() == state
    }

    /// The same request with other captured parameters.
    pub open spec fn routed_as(&self, before: WebRequest<V>, params: Seq<ParamView>) -> bool {
        &&& self.serial() == before.serial()
        &&& self.head_spec() == before.head_spec()
        &&& self.payload_spec() == before.payload_spec()
        &&& self.extensions_spec() == before.extensions_spec()
        &&& self.app_state_spec() == before.app_state_spec()
        &&& self.params() == params
    }

    /// Computes `serial`.
    pub fn id(&self) -> (serial: u64)
        ensures
            serial == self.serial(),
    {
        self.serial
    }

    /// The request head.
    pub fn head(&self) -> (head: &RequestHead)
        ensures
            *head == self.head_spec(),
    {
        &self.head
    }

    /// The payload handle.
    pub fn payload(&self) -> (payload: Payload)
        ensures
            payload == self.payload_spec(),
    {
        self.payload
    }

    /// The application state.
    pub fn app_state(&self) -> (state: &StateContainer<V>)
        ensures
            *state == self.app_state_spec(),
    {
        &self.app_state
    }

    /// The per-request data.
    pub fn extensions(&self) -> (data: &StateContainer<V>)
        ensures
            data@ == self.extensions_spec(),
    {
        &self.extensions
    }

    /// Stores per-request data under `key`.
    pub fn set_extension(&mut self, key: u64, value: V)
        ensures
            final(self).serial() == old(self).serial(),
            final(self).head_spec() == old(self).head_spec(),
            final(self).payload_spec() == old(self).payload_spec(),
            final(self).params() == old(self).params(),
            final(self).app_state_spec() == old(self).app_state_spec(),
            final(self).extensions_spec() == old(self).extensions_spec().insert(key, value),
    {
        self.extensions.insert(key, value);
    }

    /// Records the parameters that routing captured.
    pub fn set_params(&mut self, params: Vec<Param>)
        ensures
            final(self).routed_as(*old(self), param_views(params@)),
    {
        self.params = params;
    }

    /// The value of the first captured parameter with the given name.
    pub fn param(&self, name: &[u8]) -> (value: Option<&Vec<u8>>)
        ensures
            match value {
                Some(v) => exists|i: int|
                    0 <= i < self.params().len() && (#[trigger] self.params()[i]).name == name@
                        && self.params()[i].value == v@ && forall|j: int|
                        0 <= j < i ==> (#[trigger] self.params()[j]).name != name@,
                None => forall|i: int|
                    0 <= i < self.params().len() ==> (#[trigger] self.params()[i]).name != name@,
            },
    {
        let mut i: usize = 0;
        while i < self.params.len()
            invariant
                i <= self.params@.len(),
                forall|j: int| 0 <= j < i ==> (#[trigger] self.params()[j]).name != name@,
            decreases self.params@.len() - i,
        {
            if bytes_eq(self.params[i].name.as_slice(), name) {
                assert(self.params()[i as int].name == name@);
                return Some(&self.params[i].value);
            }
            i += 1;
        }
        None
    }
}

/// What the pool holds, as far as its callers can tell: the serial numbers
/// of the idle objects, the most recently released last, and the serial
/// number that the next fresh object gets.
pub struct PoolView {
    pub idle: Seq<u64>,
    pub next: u64,
}

impl PoolView {
    /// The serial number of the next object to be handed out.
    pub open spec fn upcoming(self) -> u64 {
        if self.idle.len() > 0 {
            self.idle.last()
        } else {
            self.next
        }
    }

    /// The pool after it handed out an object.
    pub open spec fn acquire(self) -> PoolView {
        if self.idle.len() > 0 {
            PoolView { idle: self.idle.drop_last(), next: self.next }
        } else {
            PoolView {
                idle: self.idle,
                next: if self.next < u64::MAX {
                    (self.next + 1) as u64
                } else {
                    self.next
                },
            }
        }
    }

    /// The pool after it took back the object with this serial number.
    pub open spec fn release(self, serial: u64) -> PoolView {
        PoolView { idle: self.idle.push(serial), next: self.next }
    }
}

/// Pool of request objects of one worker.
pub struct HttpRequestPool<V> {
    idle: Vec<WebRequest<V>>,
    next: u64,
}

impl<V> View for HttpRequestPool<V> {
    type V = PoolView;

    closed spec fn view(&self) -> PoolView {
        PoolView { idle: self.idle@.map_values(|r: WebRequest<V>| r.serial), next: self.next }
    }
}

impl<V> HttpRequestPool<V> {
    /// A pool without objects.
    pub fn create() -> (pool: Self)
        ensures
            pool@.idle.len() == 0,
            pool@.next == 0,
    {
        HttpRequestPool { idle: Vec::new(), next: 0 }
    }

    /// Number of idle objects.
    pub fn idle_len(&self) -> (n: usize)
        ensures
            n == self@.idle.len(),
    {
        self.idle.len()
    }

    /// Hands out an object for a new request: the most recently released
    /// one if an object is idle, otherwise a fresh one. Whatever the object
    /// held before, it is reset to the given head, payload and state, with
    /// no captured parameter and no per-request data.
    pub fn acquire(&mut self, head: RequestHead, payload: Payload, state: &Rc<StateContainer<V>>) -> (req:
        WebRequest<V>)
        ensures
            req.serial() == old(self)@.upcoming(),
            req.is_reset_to(head, payload, **state),
            final(self)@ == old(self)@.acquire(),
    {
        match self.idle.pop() {
            Some(mut req) => {
                req.head = head;
                req.payload = payload;
                req.params.clear();
                req.extensions.clear();
                req.app_state = share(state);
                proof {
                    assert(self@.idle =~= old(self)@.idle.drop_last());
                }
                req
            },
            None => {
                let serial = self.next;
                if self.next < u64::MAX {
                    self.next = self.next + 1;
                }
                let req = WebRequest {
                    serial,
                    head,
                    payload,
                    params: Vec::new(),
                    extensions: StateContainer::new(),
                    app_state: share(state),
                };
                req
            },
        }
    }

    /// Takes an object back. The caller gives up the object, so that
    /// nothing refers to it any more when it is handed out again.
    pub fn release(&mut self, req: WebRequest<V>)
        ensures
            final(self)@ == old(self)@.release(req.serial()),
    {
        self.idle.push(req);
        proof {
            assert(self@.idle =~= old(self)@.idle.push(req.serial()));
        }
    }
}

/// Round trip: an object that is released is the one that the next
/// `acquire` hands out, and the pool is then as it was before the release.
pub proof fn lemma_release_then_acquire(pool: PoolView, serial: u64)
    ensures
        pool.release(serial).upcoming() == serial,
        pool.release(serial).acquire() == pool,
{
    assert(pool.idle.push(serial).drop_last() =~= pool.idle);
}

} // verus!
