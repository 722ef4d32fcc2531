//! The LAN protocol: message types, error mapping, the server-side handlers'
//! decisions and the client side's request building and reply handling.
//!
//! Routing, sockets and HTTP belong to the program's runtime; every handler
//! here takes the request body (and the state it needs) as plain values.
pub mod client;
pub mod error;
pub mod handlers;
pub mod protocol;

use vstd::prelude::*;

verus! {

/// The port the server listens on.
pub const DEFAULT_PORT: u16 = 5858;

/// Largest request body accepted, in bytes (7 MiB).
pub const BODY_LIMIT_BYTES: usize = 7 * 1024 * 1024;

} // verus!
