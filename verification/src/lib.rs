//! Sync Copy core library: end-to-end encryption framing, the peer registry,
//! input sanitisation, handshake rate limiting, the clipboard history store and
//! the decision logic of the LAN sync protocol.

pub mod addr;
pub mod addr_parse;
pub mod app;
pub mod commands;
pub mod crypto;
pub mod keyed;
pub mod peer;
pub mod text;
pub mod tray;
pub mod network;
