use agent_reputation::errors::ReputationError;
use agent_reputation::ledger::Ledger;
use agent_reputation::ledger::TokenInstruction;
use agent_reputation::ledger::TokenParty;

const DAY: i64 = 86400;
const MINT: u64 = 777;

fn initialized_ledger() -> Ledger {
    let mut l = Ledger::new();
    // authority 1, mint 777, vouching threshold 10, 1000 bps/day, 1 day lockup
    l.initialize(1, MINT, 10, 1000, DAY).unwrap();
    l
}

fn profile_field<F: Fn(&agent_reputation::state::AgentProfile) -> u64>(
    l: &Ledger,
    owner: u64,
    f: F,
) -> u64 {
    for p in &l.agents {
        if p.owner == owner {
            return f(p);
        }
    }
    panic!("no profile for owner");
}

#[test]
fn initialize_only_once() {
    let mut l = Ledger::new();
    assert!(l.initialize(1, MINT, 10, 1000, DAY).is_ok());
    assert_eq!(
        l.initialize(1, MINT, 10, 1000, DAY),
        Err(ReputationError::AlreadyInitialized)
    );
}

#[test]
fn register_succeeds_exactly_once_per_identity() {
    let mut l = initialized_ledger();
    assert!(l.register_agent(42, String::from("alice"), 0).is_ok());
    assert_eq!(
        l.register_agent(42, String::from("alice-again"), 5),
        Err(ReputationError::AgentAlreadyRegistered)
    );
    // A different identity still registers fine.
    assert!(l.register_agent(43, String::from("bob"), 5).is_ok());
}

#[test]
fn register_rejects_long_names() {
    let mut l = initialized_ledger();
    let long = "x".repeat(51);
    assert_eq!(
        l.register_agent(42, long, 0),
        Err(ReputationError::NameTooLong)
    );
    let edge = "x".repeat(50);
    assert!(l.register_agent(42, edge, 0).is_ok());
}

#[test]
fn fresh_profile_is_zeroed_and_active() {
    let mut l = initialized_ledger();
    l.register_agent(42, String::from("alice"), 99).unwrap();
    let p = l.agents.iter().find(|p| p.owner == 42).unwrap();
    assert_eq!(p.reputation_score, 0);
    assert_eq!(p.total_tasks_completed, 0);
    assert_eq!(p.last_activity_timestamp, 99);
    assert!(p.is_active);
    assert_eq!(p.positive_vouches, 0);
    assert_eq!(p.negative_vouches, 0);
    assert_eq!(p.staked_amount, 0);
}

#[test]
fn complete_task_earns_reputation_and_requests_mint() {
    let mut l = initialized_ledger();
    l.register_agent(42, String::from("alice"), 0).unwrap();
    let instr = l
        .complete_task(42, String::from("task-1"), 150, 10)
        .unwrap();
    assert_eq!(
        instr,
        TokenInstruction::MintTo {
            mint: MINT,
            destination: 42,
            amount: 150,
            authority: TokenParty::MintAuthority,
        }
    );
    assert_eq!(l.get_reputation(42), Ok(150));
    assert_eq!(profile_field(&l, 42, |p| p.total_tasks_completed), 1);
}

#[test]
fn complete_task_is_idempotent_per_pair() {
    let mut l = initialized_ledger();
    l.register_agent(42, String::from("alice"), 0).unwrap();
    l.complete_task(42, String::from("task-1"), 150, 10).unwrap();
    // Same (task_id, agent) pair again: rejected, no reputation change.
    assert_eq!(
        l.complete_task(42, String::from("task-1"), 150, 20),
        Err(ReputationError::TaskAlreadyRecorded)
    );
    assert_eq!(l.get_reputation(42), Ok(150));
    // A different task id for the same agent is fine.
    assert!(l.complete_task(42, String::from("task-2"), 50, 30).is_ok());
    assert_eq!(l.get_reputation(42), Ok(200));
    // The same task id for a different agent is fine too.
    l.register_agent(43, String::from("bob"), 0).unwrap();
    assert!(l.complete_task(43, String::from("task-1"), 25, 40).is_ok());
}

#[test]
fn complete_task_input_validation() {
    let mut l = initialized_ledger();
    l.register_agent(42, String::from("alice"), 0).unwrap();
    assert_eq!(
        l.complete_task(42, "t".repeat(101), 10, 0),
        Err(ReputationError::TaskIdTooLong)
    );
    assert_eq!(
        l.complete_task(42, String::from("task-1"), 0, 0),
        Err(ReputationError::InvalidReputationAmount)
    );
    assert_eq!(
        l.complete_task(99, String::from("task-1"), 10, 0),
        Err(ReputationError::AgentNotRegistered)
    );
}

#[test]
fn complete_task_requires_initialization() {
    let mut l = Ledger::new();
    assert_eq!(
        l.complete_task(42, String::from("task-1"), 10, 0),
        Err(ReputationError::NotInitialized)
    );
}

#[test]
fn complete_task_rejects_inactive_agents() {
    let mut l = initialized_ledger();
    l.register_agent(42, String::from("alice"), 0).unwrap();
    // Score 0 decays to 0 < 10, marking the agent inactive.
    l.apply_decay(42, DAY).unwrap();
    assert_eq!(
        l.complete_task(42, String::from("task-1"), 10, DAY + 1),
        Err(ReputationError::AgentInactive)
    );
}

#[test]
fn decay_applies_compound_reduction() {
    let mut l = initialized_ledger();
    l.register_agent(42, String::from("alice"), 0).unwrap();
    l.complete_task(42, String::from("task-1"), 1000, 0).unwrap();
    // Two whole days at 1000 bps: 1000 -> 900 -> 810.
    l.apply_decay(42, 2 * DAY).unwrap();
    assert_eq!(l.get_reputation(42), Ok(810));
}

#[test]
fn decay_has_a_daily_cooldown() {
    let mut l = initialized_ledger();
    l.register_agent(42, String::from("alice"), 0).unwrap();
    l.complete_task(42, String::from("task-1"), 1000, 0).unwrap();
    assert_eq!(
        l.apply_decay(42, DAY - 1),
        Err(ReputationError::DecayCooldown)
    );
    assert_eq!(l.get_reputation(42), Ok(1000));
}

#[test]
fn decay_below_floor_deactivates() {
    let mut l = initialized_ledger();
    l.register_agent(42, String::from("alice"), 0).unwrap();
    l.complete_task(42, String::from("task-1"), 11, 0).unwrap();
    // One day at 1000 bps: 11 - floor(11*1000/10000) = 11 - 1 = 10, still active.
    l.apply_decay(42, DAY).unwrap();
    assert_eq!(l.get_reputation(42), Ok(10));
    assert!(l.agents.iter().find(|p| p.owner == 42).unwrap().is_active);
    // Decay is measured from the last activity, so two whole days now apply
    // to the current score of 10: 10 -> 9 -> 9 (the second day's reduction
    // floors to 0), and 9 < 10 marks the profile inactive.
    l.apply_decay(42, 2 * DAY).unwrap();
    assert_eq!(l.get_reputation(42), Ok(9));
    assert!(!l.agents.iter().find(|p| p.owner == 42).unwrap().is_active);
}

#[test]
fn get_reputation_requires_a_profile() {
    let l = Ledger::new();
    assert_eq!(
        l.get_reputation(42),
        Err(ReputationError::AgentNotRegistered)
    );
}

fn ledger_with_voucher() -> Ledger {
    let mut l = initialized_ledger();
    l.register_agent(1000, String::from("voucher"), 0).unwrap();
    l.register_agent(2000, String::from("target"), 0).unwrap();
    // Meet the vouching threshold of 10.
    l.complete_task(1000, String::from("bootstrap"), 100, 0).unwrap();
    l
}

#[test]
fn self_vouch_always_fails() {
    let mut l = ledger_with_voucher();
    assert_eq!(
        l.vouch_for(1000, 1000, 5, 0),
        Err(ReputationError::SelfVouchNotAllowed)
    );
    assert_eq!(
        l.vouch_against(1000, 1000, 5, 0),
        Err(ReputationError::SelfVouchNotAllowed)
    );
    // Even with no reputation, no registration and no configuration the
    // self-vouch is what gets reported.
    let mut empty = Ledger::new();
    assert_eq!(
        empty.vouch_for(7, 7, 0, 0),
        Err(ReputationError::SelfVouchNotAllowed)
    );
}

#[test]
fn vouch_for_requires_reputation_threshold() {
    let mut l = initialized_ledger();
    l.register_agent(1000, String::from("voucher"), 0).unwrap();
    l.register_agent(2000, String::from("target"), 0).unwrap();
    assert_eq!(
        l.vouch_for(1000, 2000, 5, 0),
        Err(ReputationError::InsufficientReputation)
    );
}

#[test]
fn vouch_for_stakes_into_escrow() {
    let mut l = ledger_with_voucher();
    let instr = l.vouch_for(1000, 2000, 40, 50).unwrap();
    assert_eq!(
        instr,
        TokenInstruction::Transfer {
            mint: MINT,
            from: TokenParty::Agent { owner: 1000 },
            to: TokenParty::VouchEscrow { voucher: 1000, vouched_for: 2000 },
            amount: 40,
            authority: TokenParty::Agent { owner: 1000 },
        }
    );
    assert_eq!(profile_field(&l, 1000, |p| p.staked_amount), 40);
    assert_eq!(profile_field(&l, 2000, |p| p.positive_vouches), 1);
    // Only one outstanding vouch per ordered pair.
    assert_eq!(
        l.vouch_for(1000, 2000, 40, 60),
        Err(ReputationError::VouchAlreadyExists)
    );
}

#[test]
fn vouch_against_records_challenge_without_tokens() {
    let mut l = ledger_with_voucher();
    l.vouch_against(1000, 2000, 15, 50).unwrap();
    assert_eq!(profile_field(&l, 2000, |p| p.negative_vouches), 1);
    // The challenge weight is recorded but never staked.
    assert_eq!(profile_field(&l, 1000, |p| p.staked_amount), 0);
    assert_eq!(
        l.vouch_against(1000, 2000, 15, 60),
        Err(ReputationError::VouchAlreadyExists)
    );
}

#[test]
fn withdraw_respects_lockup_then_releases_escrow() {
    let mut l = ledger_with_voucher();
    l.vouch_for(1000, 2000, 40, 50).unwrap();
    // Immediately: the one-day lockup has not elapsed.
    assert_eq!(
        l.withdraw_vouch(1000, 2000, 51),
        Err(ReputationError::LockupNotExpired)
    );
    assert_eq!(profile_field(&l, 1000, |p| p.staked_amount), 40);
    // After the lockup: the full stake comes back from this vouch's escrow,
    // signed with the capability scoped to that escrow alone.
    let release = l.withdraw_vouch(1000, 2000, 50 + DAY).unwrap();
    assert_eq!(
        release,
        Some(TokenInstruction::Transfer {
            mint: MINT,
            from: TokenParty::VouchEscrow { voucher: 1000, vouched_for: 2000 },
            to: TokenParty::Agent { owner: 1000 },
            amount: 40,
            authority: TokenParty::VouchEscrow { voucher: 1000, vouched_for: 2000 },
        })
    );
    assert_eq!(profile_field(&l, 1000, |p| p.staked_amount), 0);
    // The record's address is reclaimed: the same pair can vouch again.
    assert!(l.vouch_for(1000, 2000, 10, 50 + 2 * DAY).is_ok());
}

#[test]
fn withdraw_negative_vouch_moves_no_tokens() {
    let mut l = ledger_with_voucher();
    l.vouch_against(1000, 2000, 15, 0).unwrap();
    let release = l.withdraw_vouch(1000, 2000, DAY).unwrap();
    assert_eq!(release, None);
}

#[test]
fn withdraw_requires_an_outstanding_vouch() {
    let mut l = ledger_with_voucher();
    assert_eq!(
        l.withdraw_vouch(1000, 2000, DAY),
        Err(ReputationError::VouchNotFound)
    );
}

#[test]
fn empty_name_and_edge_length_task_id_are_accepted() {
    let mut l = initialized_ledger();
    assert!(l.register_agent(42, String::new(), 0).is_ok());
    assert!(l.complete_task(42, "t".repeat(100), 10, 0).is_ok());
}

#[test]
fn zero_amount_positive_vouch_releases_nothing() {
    let mut l = ledger_with_voucher();
    l.vouch_for(1000, 2000, 0, 0).unwrap();
    assert_eq!(profile_field(&l, 1000, |p| p.staked_amount), 0);
    // A positive vouch with no stake has nothing to release.
    let release = l.withdraw_vouch(1000, 2000, DAY).unwrap();
    assert_eq!(release, None);
}

#[test]
fn reputation_saturates_instead_of_overflowing() {
    let mut l = initialized_ledger();
    l.register_agent(42, String::from("alice"), 0).unwrap();
    l.complete_task(42, String::from("task-1"), u64::MAX, 0).unwrap();
    l.complete_task(42, String::from("task-2"), u64::MAX, 1).unwrap();
    assert_eq!(l.get_reputation(42), Ok(u64::MAX));
}
