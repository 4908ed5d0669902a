//! Liveness monitoring for a fixed fleet of servers that announce themselves
//! with periodic heartbeat datagrams.
//!
//! A server is declared down once it has been silent for longer than the
//! liveness threshold and up again once its heartbeats resume.  The crate holds
//! the decisions: which identifiers are registered, what a datagram means, which
//! servers change state in a sweep pass and what the notification for a change
//! says.  Sockets, timers and mail delivery belong to the program around it.

pub mod id;
pub mod keys;
pub mod laws;
pub mod listener;
pub mod notifier;
pub mod registry;
pub mod store;
pub mod sweeper;
pub mod text;
