//! Status codes that the core itself produces.
use vstd::prelude::*;

verus! {

/// 200 OK
pub const OK: u16 = 200;

/// 404 Not Found
pub const NOT_FOUND: u16 = 404;

/// 500 Internal Server Error
pub const INTERNAL_SERVER_ERROR: u16 = 500;

} // verus!
