//! Structured errors returned by the client surface.
//!
//! Within a state transition nothing raises: failure modes become states.
//! At the client and builder surface all failures are returned as values of
//! this enum.

use vstd::prelude::*;

verus! {

/// Error taxonomy of the client core.
#[derive(Clone, Copy, PartialEq, Eq, Structural, Debug)]
pub enum ClientError {
    /// An amount sum does not fit the base unit integer.
    AmountOverflow,
    /// The primary module cannot produce an input of the requested amount.
    InsufficientFunds,
    /// An operation with this id already exists in the log or the executor.
    DuplicateOperation,
    /// A state machine with this exact key already exists.
    StateAlreadyExists,
    /// The state machine to transition is not in the active set.
    StateNotFound,
    /// The builder was not given a config.
    MissingConfig,
    /// The builder was not given a database.
    MissingDatabase,
    /// The builder was not given a primary module instance.
    MissingPrimaryModule,
    /// The configured primary instance is absent or of an unknown kind.
    UnknownPrimaryModule,
    /// The primary module instance does not support being primary.
    PrimaryModuleNotCapable,
    /// No configured module instance carries the given id.
    UnknownModuleInstance,
    /// Two api versions with the same major component conflict.
    ConflictingApiVersions,
    /// Key material was rejected by the signature backend.
    InvalidKey,
    /// A subscriber fell behind the notifier's bounded buffer.
    SubscriberDisconnected,
}

} // verus!
