//! Plain request and response values, as the transport layer hands them to
//! the core and takes them back, and the error taxonomy.
pub mod error;
pub mod message;
pub mod status;

pub use message::{Header, Method, Payload, Request, RequestHead, Response};
