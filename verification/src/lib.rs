//! Relaying messages between POSIX message queues that live in different
//! IPC namespaces.
//!
//! The crate holds the rules of the relay: which queue names are accepted,
//! how a payload becomes text and text a payload, in which order a worker
//! joins a namespace, gives up its privilege and opens its queue, how a
//! cancellable poll loop reacts to each thing that can happen to it, and how
//! a relayed message is tagged. Everything that touches the kernel (queues,
//! namespaces, capabilities, threads, the clock) is left to the caller, which
//! performs the actions that the state machines here hand out and reports
//! back what happened.

pub mod bridge;
pub mod decimal;
pub mod error;
pub mod listing;
pub mod message;
pub mod name;
pub mod namespace;
pub mod poller;
pub mod relay;
pub mod setup;
