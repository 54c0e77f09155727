//! Error taxonomy of the reputation ledger.
//!
//! Every error is reported synchronously and aborts the enclosing operation
//! with no partial effect: an operation that returns an error leaves the
//! ledger exactly as it found it.

use vstd::prelude::*;

verus! {

/// The reasons a ledger operation can be rejected.
#[derive(Clone, Copy, Debug, PartialEq, Eq, Structural)]
pub enum ReputationError {
    /// An agent name longer than 50 units was supplied to registration.
    NameTooLong,
    /// A profile already exists for the registering identity.
    AgentAlreadyRegistered,
    /// The referenced agent profile does not exist.
    AgentNotRegistered,
    /// The voucher's reputation is below the configured vouching threshold.
    InsufficientReputation,
    /// An agent attempted to vouch for itself.
    SelfVouchNotAllowed,
    /// A vouch withdrawal was attempted before the lockup period elapsed.
    LockupNotExpired,
    /// A task completion carried a zero reputation amount.
    InvalidReputationAmount,
    /// A task identifier longer than 100 units was supplied.
    TaskIdTooLong,
    /// The operation requires an active profile, but the agent is inactive.
    AgentInactive,
    /// Decay was requested with no whole inactive day elapsed.
    DecayCooldown,
    /// Defensive signal for an arithmetic path that cannot saturate safely.
    /// The verified operations never produce it.
    MathOverflow,
    /// The singleton protocol configuration already exists.
    AlreadyInitialized,
    /// The protocol configuration has not been created yet.
    NotInitialized,
    /// A task record already exists for this (task identifier, agent) pair.
    TaskAlreadyRecorded,
    /// An outstanding vouch record already exists for this (voucher, target) pair.
    VouchAlreadyExists,
    /// No outstanding vouch record exists for this (voucher, target) pair.
    VouchNotFound,
}

} // verus!
