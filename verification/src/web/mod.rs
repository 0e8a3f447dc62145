//! The application pipeline: guards, filters, the resource map, the state
//! container, the request pool and the dispatcher.
pub mod app_service;
pub mod guard;
pub mod httprequest;
pub mod rmap;
pub mod stack;
pub mod state;
