//! The decisions of the server-side handlers, one module per endpoint group.
pub mod heartbeat;
pub mod history;
pub mod leave;
pub mod peers;
pub mod file;
pub mod clipboard;
pub mod handshake;
