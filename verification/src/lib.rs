//! A reputation ledger for autonomous agents.
//!
//! Agents register a profile, earn reputation by completing verified tasks,
//! stake reputation to vouch for or against peers, and see their reputation
//! decay while inactive. The ledger is a deterministic state machine: every
//! record lives at an address that is a pure function of its identifying key,
//! every operation either applies completely or leaves the ledger unchanged,
//! and all arithmetic saturates instead of wrapping.
//!
//! The actual movement of staked tokens (minting on task completion, escrow
//! deposits and releases for vouches) is delegated to an external fungible
//! token ledger: operations that require it return a [`ledger::TokenInstruction`]
//! describing the exact transfer the host must perform atomically with the
//! state change.

pub mod address;
pub mod errors;
pub mod ledger;
pub mod state;
