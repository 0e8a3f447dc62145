//! Request head, payload handle and response.
use super::status;
use crate::util::{bytes_eq_ignore_case, lower_seq};
use vstd::prelude::*;
use vstd::slice::slice_to_vec;

verus! {

/// Request method.
#[derive(Clone, Copy, Debug, PartialEq, Eq, Structural)]
pub enum Method {
    Options,
    Get,
    Post,
    Put,
    Delete,
    Head,
    Trace,
    Connect,
    Patch,
    /// Any method outside the standard set.
    Extension,
}

/// One header line.
#[derive(Debug)]
pub struct Header {
    pub name: Vec<u8>,
    pub value: Vec<u8>,
}

/// The first value that `headers` holds under `name`. Header names are
/// compared without regard to ASCII case.
pub open spec fn first_value(headers: Seq<Header>, name: Seq<u8>) -> Option<Seq<u8>>
    decreases headers.len(),
{
    if headers.len() == 0 {
        None
    } else if lower_seq(headers[0].name@) == lower_seq(name) {
        Some(headers[0].value@)
    } else {
        first_value(headers.skip(1), name)
    }
}

/// Head of a parsed request.
#[derive(Debug)]
pub struct RequestHead {
    pub method: Method,
    /// Path of the request target, as raw bytes.
    pub uri: Vec<u8>,
    pub headers: Vec<Header>,
    /// The request asks for a protocol upgrade.
    pub upgrade: bool,
}

impl RequestHead {
    /// A head without headers that asks for no upgrade.
    pub fn new(method: Method, uri: &[u8]) -> (head: Self)
        ensures
            head.method == method,
            head.uri@ == uri@,
            head.headers@.len() == 0,
            !head.upgrade,
    {
        RequestHead { method, uri: slice_to_vec(uri), headers: Vec::new(), upgrade: false }
    }

    /// Whether the head is the blank one: method GET, empty path, no
    /// header, no upgrade.
    pub open spec fn is_blank(&self) -> bool {
        &&& self.method == Method::Get
        &&& self.uri@.len() == 0
        &&& self.headers@.len() == 0
        &&& !self.upgrade
    }

    /// The blank head.
    pub fn blank() -> (head: Self)
        ensures
            head.is_blank(),
    {
        RequestHead { method: Method::Get, uri: Vec::new(), headers: Vec::new(), upgrade: false }
    }

    /// The first value under `name`, if the head has a header of that name.
    pub fn header(&self, name: &[u8]) -> (value: Option<&Vec<u8>>)
        ensures
            first_value(self.headers@, name@) == match value {
                Some(v) => Some(v@),
                None => None,
            },
    {
        let mut i: usize = 0;
        assert(self.headers@.skip(0) =~= self.headers@);
        while i < self.headers.len()
            invariant
                i <= self.headers@.len(),
                first_value(self.headers@, name@) == first_value(
                    self.headers@.skip(i as int),
                    name@,
                ),
            decreases self.headers@.len() - i,
        {
            let h = &self.headers[i];
            proof {
                assert(self.headers@.skip(i as int).skip(1) =~= self.headers@.skip(i + 1));
            }
            if bytes_eq_ignore_case(h.name.as_slice(), name) {
                return Some(&h.value);
            }
            i += 1;
        }
        None
    }
}

/// Handle of the byte stream that carries a request's payload. The core
/// passes it along and never reads it.
#[derive(Clone, Copy, Debug, PartialEq, Eq, Structural)]
pub enum Payload {
    /// The request carries no payload.
    Empty,
    /// The payload arrives on the stream with this handle.
    Stream(u64),
}

/// A request as it arrives from the transport layer.
#[derive(Debug)]
pub struct Request {
    pub head: RequestHead,
    pub payload: Payload,
}

impl Request {
    /// Moves the head and the payload handle out and leaves a blank head
    /// and no payload behind.
    pub fn take_parts(&mut self) -> (parts: (RequestHead, Payload))
        ensures
            parts.0 == old(self).head,
            parts.1 == old(self).payload,
            final(self).head.is_blank(),
            final(self).payload == Payload::Empty,
    {
        let mut head = RequestHead::blank();
        core::mem::swap(&mut head, &mut self.head);
        let payload = self.payload;
        self.payload = Payload::Empty;
        (head, payload)
    }

    /// The head and the payload handle.
    pub fn into_parts(self) -> (parts: (RequestHead, Payload))
        ensures
            parts.0 == self.head,
            parts.1 == self.payload,
    {
        (self.head, self.payload)
    }
}

/// A response as it goes back to the transport layer.
#[derive(Debug)]
pub struct Response {
    pub status: u16,
    pub headers: Vec<Header>,
    pub body: Vec<u8>,
    /// The request this answers asked for a protocol upgrade.
    pub upgrade: bool,
}

impl Response {
    /// A response with the given status, no header and an empty body.
    pub fn new(status: u16) -> (res: Self)
        ensures
            res.status == status,
            res.headers@.len() == 0,
            res.body@.len() == 0,
            !res.upgrade,
    {
        Response { status, headers: Vec::new(), body: Vec::new(), upgrade: false }
    }

    /// The generic "not found" response.
    pub open spec fn is_not_found(&self) -> bool {
        &&& self.status == status::NOT_FOUND
        &&& self.headers@.len() == 0
        &&& self.body@.len() == 0
        &&& !self.upgrade
    }

    /// Builds the generic "not found" response.
    pub fn not_found() -> (res: Self)
        ensures
            res.is_not_found(),
    {
        Response::new(status::NOT_FOUND)
    }

    /// The generic "internal server error" response.
    pub open spec fn is_server_error(&self) -> bool {
        &&& self.status == status::INTERNAL_SERVER_ERROR
        &&& self.headers@.len() == 0
        &&& self.body@.len() == 0
        &&& !self.upgrade
    }

    /// Builds the generic "internal server error" response.
    pub fn server_error() -> (res: Self)
        ensures
            res.is_server_error(),
    {
        Response::new(status::INTERNAL_SERVER_ERROR)
    }

    /// The status code.
    pub fn status(&self) -> (code: u16)
        ensures
            code == self.status,
    {
        self.status
    }
}

} // verus!
