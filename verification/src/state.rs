//! The typed records the ledger maintains, and the pure reputation helpers.
//!
//! Identities (agents, the token unit of account) are opaque numeric ids
//! handed in by the host environment; the ledger only ever compares them for
//! equality and uses them as key material for address derivation.

use vstd::prelude::*;

verus! {

/// Singleton protocol configuration record. Created once by `initialize`,
/// never closed.
#[derive(Clone, Copy)]
pub struct ProtocolConfig {
    /// Identity permitted to initialize the protocol.
    pub authority: u64,
    /// Reference to the external fungible-token ledger's unit of account.
    pub reputation_mint: u64,
    /// Minimum reputation an agent must hold to vouch.
    pub min_reputation_for_vouching: u64,
    /// Decay rate in basis points (10000 = 100%) applied per inactive day.
    pub decay_rate_per_day: u64,
    /// Minimum elapsed seconds before a vouch stake may be withdrawn.
    pub vouch_lockup_period: i64,
}

/// Per-agent profile record, keyed by the agent's identity.
pub struct AgentProfile {
    pub owner: u64,
    /// Display name, at most 50 units.
    pub name: String,
    /// Unsigned reputation balance; mutated with saturating arithmetic only.
    pub reputation_score: u64,
    pub total_tasks_completed: u64,
    pub last_activity_timestamp: i64,
    /// Cleared automatically once `reputation_score` decays below 10.
    pub is_active: bool,
    pub positive_vouches: u64,
    pub negative_vouches: u64,
    /// Total stake currently escrowed behind this agent's outstanding vouches.
    pub staked_amount: u64,
}

/// Outstanding vouch, keyed by the ordered pair (voucher, vouched_for).
/// Created on vouch, never mutated, destroyed on withdrawal.
#[derive(Clone, Copy)]
pub struct VouchRecord {
    pub voucher: u64,
    pub vouched_for: u64,
    /// Escrowed stake for a positive vouch; declared challenge weight for a
    /// negative one (no tokens move for a negative vouch).
    pub amount: u64,
    /// True for a vouch in favour, false for a challenge.
    pub is_positive: bool,
    pub created_at: i64,
}

/// Audit-trail record of a completed task, keyed by (task identifier, agent).
/// Created once, never mutated, never closed.
pub struct TaskRecord {
    pub agent: u64,
    /// Task identifier, at most 100 units.
    pub task_id: String,
    pub reputation_earned: u64,
    pub completed_at: i64,
}

/// `a + b` capped at `u64::MAX`.
pub open spec fn sat_add_u64(a: u64, b: u64) -> u64 {
    if a + b > u64::MAX {
        u64::MAX
    } else {
        (a + b) as u64
    }
}

/// `a - b` floored at zero.
pub open spec fn sat_sub_u64(a: u64, b: u64) -> u64 {
    if a < b {
        0u64
    } else {
        (a - b) as u64
    }
}

/// `a - b` clamped to the `i64` range.
pub open spec fn sat_sub_i64(a: i64, b: i64) -> i64 {
    if a - b > i64::MAX {
        i64::MAX
    } else if a - b < i64::MIN {
        i64::MIN
    } else {
        (a - b) as i64
    }
}

/// One day of decay: subtract `floor(r * rate / 10000)` from `r`, with the
/// product saturating at `u64::MAX` before the division and the subtraction
/// saturating at zero.
pub open spec fn decay_step(r: u64, rate: u64) -> u64 {
    let prod: int = if r * rate > u64::MAX {
        u64::MAX as int
    } else {
        r * rate
    };
    let dec: int = prod / 10000;
    if dec >= r {
        0u64
    } else {
        (r - dec) as u64
    }
}

/// Compound decay over `days` whole inactive days: each day's reduction is
/// computed on the already-reduced balance, not by a closed-form multiply.
pub open spec fn spec_decay(r: u64, days: int, rate: u64) -> u64
    decreases days,
{
    if days <= 0 {
        r
    } else {
        decay_step(spec_decay(r, days - 1, rate), rate)
    }
}

/// Advisory reputation offset derived from an agent's vouch ratio:
/// zero when the agent has no vouches, otherwise
/// `(positive * 100 / (positive + negative) - 50) / 2` with integer division
/// truncating toward zero.
pub open spec fn spec_vouch_bonus(positive: u64, negative: u64) -> int {
    let total: int = positive + negative;
    if total == 0 {
        0
    } else {
        let ratio: int = (positive * 100) / total;
        if ratio >= 50 {
            (ratio - 50) / 2
        } else {
            -((50 - ratio) / 2)
        }
    }
}

/// A single decay step never increases the balance.
proof fn lemma_decay_step_le(r: u64, rate: u64)
    ensures
        decay_step(r, rate) <= r,
{
    assert(r * rate >= 0) by (nonlinear_arith);
}

/// Decay is monotonically non-increasing: however many whole days elapse and
/// whatever the rate, the decayed balance never exceeds the starting balance.
pub proof fn lemma_decay_monotonic(r: u64, days: int, rate: u64)
    ensures
        spec_decay(r, days, rate) <= r,
    decreases days,
{
    if days <= 0 {
    } else {
        lemma_decay_monotonic(r, days - 1, rate);
        lemma_decay_step_le(spec_decay(r, days - 1, rate), rate);
    }
}

/// The vouch bonus always lies in the advisory band around zero.
pub proof fn lemma_vouch_bonus_range(positive: u64, negative: u64)
    ensures
        -25 <= spec_vouch_bonus(positive, negative) <= 25,
{
    let total: int = positive + negative;
    if total != 0 {
        assert(0 <= (positive * 100) / total <= 100) by (nonlinear_arith)
            requires
                0 < total <= u64::MAX * 2,
                0 <= positive <= total,
        ;
    }
}

/// Applies `days_inactive` whole days of compound decay to
/// `current_reputation` at `decay_rate` basis points per day.
/// A non-positive day count leaves the balance untouched.
pub fn calculate_decay(current_reputation: u64, days_inactive: i64, decay_rate: u64) -> (r: u64)
    ensures
        r == spec_decay(current_reputation, days_inactive as int, decay_rate),
        r <= current_reputation,
{
    proof {
        lemma_decay_monotonic(current_reputation, days_inactive as int, decay_rate);
    }
    if days_inactive <= 0 {
        return current_reputation;
    }
    let mut remaining: u64 = current_reputation;
    let mut day: i64 = 0;
    while day < days_inactive
        invariant
            0 <= day <= days_inactive,
            remaining == spec_decay(current_reputation, day as int, decay_rate),
        decreases days_inactive - day,
    {
        assert(remaining * decay_rate <= u64::MAX * u64::MAX) by (nonlinear_arith)
            requires
                remaining <= u64::MAX,
                decay_rate <= u64::MAX,
        ;
        let prod_wide: u128 = (remaining as u128) * (decay_rate as u128);
        let prod: u64 = if prod_wide > u64::MAX as u128 {
            u64::MAX
        } else {
            prod_wide as u64
        };
        let dec: u64 = prod / 10000;
        remaining = if dec >= remaining {
            0
        } else {
            remaining - dec
        };
        day = day + 1;
    }
    remaining
}

/// Computes the advisory vouch-ratio bonus for a profile's vouch counters.
/// Pure and total; never applied to `reputation_score` by the ledger itself.
pub fn calculate_vouch_bonus(positive_vouches: u64, negative_vouches: u64) -> (bonus: i64)
    ensures
        bonus == spec_vouch_bonus(positive_vouches, negative_vouches),
        -25 <= bonus <= 25,
{
    proof {
        lemma_vouch_bonus_range(positive_vouches, negative_vouches);
    }
    let total: u128 = positive_vouches as u128 + negative_vouches as u128;
    if total == 0 {
        return 0;
    }
    let ratio: u128 = (positive_vouches as u128 * 100) / total;
    assert(ratio == (positive_vouches * 100) / (positive_vouches + negative_vouches));
    if ratio >= 50 {
        ((ratio - 50) / 2) as i64
    } else {
        -(((50 - ratio) / 2) as i64)
    }
}

} // verus!
