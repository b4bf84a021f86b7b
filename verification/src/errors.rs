//! Error taxonomy of the vault and of the transport bridge.
//!
//! Every failure is value-returned; the core performs no retries of its own.

use vstd::prelude::*;

verus! {

/// Errors surfaced by the key vault.
#[derive(Clone, Copy, Debug, PartialEq, Eq, Structural)]
pub enum KeyStoreError {
    /// An operation referenced a public key absent from the vault.
    KeyNotFound,
    /// A creation would collide with an existing public key.
    KeyAlreadyExists,
    /// The password was rejected by the signer that owns the key.
    WrongCredential,
    /// The persistence layer failed; in-memory state was rolled back.
    StoreFailed,
}

/// Errors surfaced by a transport `post` call.
#[derive(Clone, Copy, Debug, PartialEq, Eq, Structural)]
pub enum QueryError {
    /// The request was abandoned before any resolution arrived.
    RequestDropped,
    /// No response arrived within the sender's window.
    TimeoutReached,
    /// The external sender reported a send-level failure.
    RequestFailed,
}

} // verus!
