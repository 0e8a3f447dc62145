//! Request-handling core of an asynchronous network-service framework.
//!
//! `service` holds the readiness/call contract that every handler, filter
//! and middleware honours, and the combinators built on it. `http` holds
//! the plain request and response values and the error taxonomy. `router`
//! holds path patterns and their matching. `web` holds the application
//! pipeline: guards, filters, the resource map, the state container, the
//! request pool and the dispatcher.
//!
//! The core itself never suspends. A stage that has to wait is driven from
//! outside: the core says where a request goes and what becomes of a
//! stage's outcome, and the caller runs the stage.
pub mod http;
pub mod router;
pub mod service;
pub mod util;
pub mod web;
