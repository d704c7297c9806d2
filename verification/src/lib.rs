//! Core of a sticky-session reverse proxy for sharded long-poll event-queue
//! backends.
//!
//! Every event queue is born on exactly one backend shard (a TCP port on
//! loopback) and must be routed back to that shard for its whole lifetime.
//! This crate holds the verified heart of the proxy: queue-id extraction from
//! requests, the queue-to-shard routing table and its update policy, the
//! per-backend health model, and the construction of forwarded requests and
//! error responses. The surrounding process (listener, HTTP client, probe
//! timer, metrics) lives outside and talks to this crate in plain values.

pub mod configuration;
pub mod error_response;
pub mod form;
pub mod handler;
pub mod health;
pub mod state;
pub mod text;
