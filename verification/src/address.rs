//! Deterministic record addressing.
//!
//! Every record the ledger maintains lives at an address that is a pure
//! function of a namespace tag plus the record's identifying key material.
//! Derivation is total and deterministic — identical inputs always yield the
//! identical address — and distinct inputs yield distinct addresses, which is
//! what makes record creation collision-checked: a second record with the
//! same key would land on the same address and is rejected.
//!
//! Addresses are a specification-level notion here: the executable store
//! keys each record family by exactly the key material of its address tuple,
//! so the injectivity lemmas below are the statement that this keying and
//! address-collision checking agree.

use vstd::prelude::*;

verus! {

/// A storage address: one namespace per record family, carrying the key
/// material the family is derived from.
pub enum Address {
    /// The singleton configuration record.
    Config,
    /// The protocol-owned minting capability.
    MintAuthority,
    /// An agent profile, derived from the owning identity.
    Agent { owner: u64 },
    /// A task completion record, derived from the task identifier and the
    /// completing agent's identity.
    Task { task_id: Seq<char>, agent: u64 },
    /// A vouch record, derived from the ordered (voucher, target) pair.
    Vouch { voucher: u64, vouched_for: u64 },
    /// A vouch's escrow holding account, derived from the vouch record's own
    /// address, so each vouch has an independent, uniquely-addressed escrow.
    Escrow { vouch: Box<Address> },
}

/// Address of the singleton configuration record.
pub open spec fn config_address() -> Address {
    Address::Config
}

/// Address of an agent's profile record.
pub open spec fn agent_address(owner: u64) -> Address {
    Address::Agent { owner }
}

/// Address of the task record for a (task identifier, agent) pair.
pub open spec fn task_address(task_id: Seq<char>, agent: u64) -> Address {
    Address::Task { task_id, agent }
}

/// Address of the vouch record for an ordered (voucher, target) pair.
pub open spec fn vouch_address(voucher: u64, vouched_for: u64) -> Address {
    Address::Vouch { voucher, vouched_for }
}

/// Address of the escrow account owned by the vouch record at `vouch`.
pub open spec fn escrow_address(vouch: Address) -> Address {
    Address::Escrow { vouch: Box::new(vouch) }
}

/// Profile addressing is injective: two profiles collide exactly when they
/// belong to the same identity, so one profile can exist per identity.
pub proof fn lemma_agent_address_injective(a: u64, b: u64)
    ensures
        (agent_address(a) == agent_address(b)) <==> a == b,
{
}

/// Task addressing is injective in both the task identifier and the agent:
/// a (task_id, agent) pair can be recorded at most once.
pub proof fn lemma_task_address_injective(id_a: Seq<char>, agent_a: u64, id_b: Seq<char>, agent_b: u64)
    ensures
        (task_address(id_a, agent_a) == task_address(id_b, agent_b)) <==> (id_a == id_b
            && agent_a == agent_b),
{
}

/// Vouch addressing is injective in the ordered pair: at most one outstanding
/// vouch record exists per (voucher, target) at a time, and the pair taken in
/// the opposite order addresses a different record.
pub proof fn lemma_vouch_address_injective(va: u64, ta: u64, vb: u64, tb: u64)
    ensures
        (vouch_address(va, ta) == vouch_address(vb, tb)) <==> (va == vb && ta == tb),
{
}

/// Escrow addressing is injective in the owning vouch record's address, and
/// the record families never collide with one another: the namespace tag
/// keeps every family in its own part of the address space.
pub proof fn lemma_escrow_address_injective(a: Address, b: Address)
    ensures
        (escrow_address(a) == escrow_address(b)) <==> a == b,
        escrow_address(a) != config_address(),
        forall|owner: u64| escrow_address(a) != agent_address(owner),
        forall|v: u64, t: u64| escrow_address(a) != vouch_address(v, t),
{
}

} // verus!
