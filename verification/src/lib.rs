//! Client core of a federated e-cash system.
//!
//! The crate models the client subsystem that turns user-initiated operations
//! into transactions against a federation and drives them to completion via
//! persistent state machines:
//!
//! * an operation log, append-only and keyed by operation id;
//! * a notifier broadcasting state transitions to filtered subscribers;
//! * an executor owning all live state machines, with distinct active and
//!   inactive sets;
//! * a transaction builder and balancer that tops up or absorbs change via a
//!   designated primary module;
//! * the transaction-submission state machine;
//! * the global client context handed to every state transition.
//!
//! Asynchronous edges (federation RPC, timers, background workers) are driven
//! from outside: every decision the client makes is a function from state and
//! event to next state, stated in contracts and verified.

pub mod client;
pub mod codec;
pub mod config;
pub mod crypto;
pub mod errors;
pub mod executor;
pub mod ids;
pub mod module;
pub mod notifier;
pub mod oplog;
pub mod secret;
pub mod sm;
pub mod transaction;
