//! Session and concurrency coordinator for a chat-driven remote control of a
//! supervised game service.
//!
//! The crate holds the verified core: classifying the service's status from
//! the init system's answer and the auxiliary query output, driving the
//! bounded wait for start confirmation, managing at most one log-relay
//! session per chat, extracting chat lines from the service log, and routing
//! inbound chat messages to the right handler.  All surrounding input and
//! output (process invocation, the chat transport, task spawning) lives
//! outside this crate and exchanges plain values with it.

pub mod dispatch;
pub mod identity;
pub mod pending;
pub mod registry;
pub mod relay;
pub mod scan;
pub mod sequencer;
pub mod status;
mod store;
