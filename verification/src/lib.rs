//! Guest-side runtime core for a host-driven sandboxed game module.
//!
//! The host process drives the guest through a single polling entry point and
//! a small foreign-call surface that passes only plain values. This crate
//! holds the pieces that need real design and carry contracts:
//!
//! - [`data`]: positions and block descriptors used by world mutations.
//! - [`world`]: the block-batch accumulator and its wire encoding.
//! - [`time`]: a monotonic instant and duration arithmetic built from the
//!   host's (seconds, nanoseconds) clock readings.
//! - [`task`]: deadline-based suspension primitives (`Sleep`, `Timeout`).
//! - [`event`]: decoding of the host's event envelopes into typed events.
//! - [`registry`]: per-event-kind ordered handler registrations.
//! - [`scheduler`]: the cooperative driver that turns one host activation
//!   into an ordered plan of spawns, polls and host calls.
//! - [`profile`]: player account information.
//!
//! Host calls themselves (fetching events, sending messages, reading the
//! clock) are performed by the embedding layer, which hands their results to
//! these functions as plain values.

pub mod data;
pub mod event;
pub mod profile;
pub mod registry;
pub mod scheduler;
pub mod task;
pub mod time;
pub mod world;
