//! Harmony: the decision core of a round-robin HTTP reverse proxy.
//!
//! The crate holds the rules of the balancer as verified code: which backend
//! serves the next request, when a caller has used up its quota, what is
//! forwarded to a backend, and how a health sweep walks the pool. Sockets,
//! timers and locks belong to the program that embeds the crate.
//!
//! - [`pool`]: the ordered pool of backends and its rotation.
//! - [`limiter`]: the request counter of every caller.
//! - [`health`]: the background health sweep, one step at a time.
//! - [`proxy`]: the path of one request, from its caller to its backend.
//! - [`client`], [`events`], [`config`]: addresses, log lines and startup.

pub mod client;
pub mod config;
pub mod events;
pub mod health;
pub mod limiter;
pub mod pool;
pub mod proxy;
