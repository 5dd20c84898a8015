//! A single-upstream, multi-subscriber message relay.
//!
//! One upstream connection feeds a fan-out hub; every subscriber owns a
//! bounded delivery queue in the hub and is served from it in order. The
//! crate holds the relay's rules as plain, synchronous state transitions;
//! sockets and task scheduling are left to the caller.

pub mod config;
pub mod delivery;
pub mod hub;
pub mod queue;
pub mod session;
pub mod upstream;
