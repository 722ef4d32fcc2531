//! Application state kept by the library: the per-peer client pool, the
//! clipboard history store, the lifecycle phase machine and the decisions of
//! the heartbeat and clipboard workers.
pub mod client_pool;
pub mod config;
pub mod history;
pub mod lifecycle;
pub mod clipboard;
pub mod heartbeat_worker;
