//! The ledger state machine: a keyed record store plus the transition logic
//! for initialization, registration, task completion, vouching, withdrawal
//! and time-decay.
//!
//! Each public operation is atomic: it either applies completely, or returns
//! an error and leaves the ledger exactly as it was. Operations that also
//! require the external token ledger to move funds return the
//! [`TokenInstruction`] the host must perform as part of the same atomic
//! unit; if the host's token call fails, the host discards the new ledger
//! state, which yields the all-or-nothing behaviour.

use vstd::prelude::*;

use crate::address::agent_address;
use crate::address::task_address;
use crate::address::vouch_address;
use crate::errors::ReputationError;
use crate::state::AgentProfile;
use crate::state::ProtocolConfig;
use crate::state::TaskRecord;
use crate::state::VouchRecord;
use crate::state::calculate_decay;
use crate::state::sat_add_u64;
use crate::state::sat_sub_i64;
use crate::state::sat_sub_u64;
use crate::state::spec_decay;

verus! {

/// One party of a token movement on the external token ledger.
#[derive(Clone, Copy, Debug, PartialEq, Eq, Structural)]
pub enum TokenParty {
    /// An agent's own token account.
    Agent { owner: u64 },
    /// The escrow account owned by the vouch record for this ordered pair.
    VouchEscrow { voucher: u64, vouched_for: u64 },
    /// The protocol-owned minting capability.
    MintAuthority,
}

/// A call the host must make on the external token ledger, atomically with
/// the ledger mutation that produced it. The `authority` names the
/// capability the call is signed with: always one scoped to the specific
/// source of funds, never a blanket authority.
#[derive(Clone, Copy, Debug, PartialEq, Eq, Structural)]
pub enum TokenInstruction {
    /// Mint `amount` fresh units of `mint` to `destination`.
    MintTo { mint: u64, destination: u64, amount: u64, authority: TokenParty },
    /// Transfer `amount` units of `mint` between two token accounts.
    Transfer { mint: u64, from: TokenParty, to: TokenParty, amount: u64, authority: TokenParty },
}

/// The reputation ledger: the singleton configuration plus one keyed
/// collection per record family. Each collection is keyed by exactly the key
/// material of the family's address tuple (see [`crate::address`]), so
/// "at most one record per key" is "at most one record per address".
pub struct Ledger {
    /// The singleton configuration record, absent until `initialize`.
    pub config: Option<ProtocolConfig>,
    /// Agent profiles, keyed by owner identity.
    pub agents: Vec<AgentProfile>,
    /// Outstanding vouch records, keyed by the ordered (voucher, target) pair.
    pub vouches: Vec<VouchRecord>,
    /// Task completion records, keyed by (task identifier, agent identity).
    pub tasks: Vec<TaskRecord>,
}

impl Ledger {
    /// A profile exists for `owner`.
    pub open spec fn has_agent(self, owner: u64) -> bool {
        exists|i: int| 0 <= i < self.agents@.len() && self.agents@[i].owner == owner
    }

    /// The profile registered for `owner`. Meaningful only when
    /// `has_agent(owner)` holds on a well-formed ledger.
    pub open spec fn agent_of(self, owner: u64) -> AgentProfile {
        self.agents@[choose|i: int|
            0 <= i < self.agents@.len() && self.agents@[i].owner == owner]
    }

    /// An outstanding vouch record exists for the ordered pair.
    pub open spec fn has_vouch(self, voucher: u64, vouched_for: u64) -> bool {
        exists|i: int|
            0 <= i < self.vouches@.len() && self.vouches@[i].voucher == voucher
                && self.vouches@[i].vouched_for == vouched_for
    }

    /// The outstanding vouch record for the ordered pair. Meaningful only
    /// when `has_vouch` holds on a well-formed ledger.
    pub open spec fn vouch_of(self, voucher: u64, vouched_for: u64) -> VouchRecord {
        self.vouches@[choose|i: int|
            0 <= i < self.vouches@.len() && self.vouches@[i].voucher == voucher
                && self.vouches@[i].vouched_for == vouched_for]
    }

    /// A task record exists for the (task identifier, agent) pair.
    pub open spec fn has_task(self, task_id: Seq<char>, agent: u64) -> bool {
        exists|i: int|
            0 <= i < self.tasks@.len() && self.tasks@[i].task_id@ == task_id
                && self.tasks@[i].agent == agent
    }

    /// The task record for the (task identifier, agent) pair. Meaningful
    /// only when `has_task` holds on a well-formed ledger.
    pub open spec fn task_of(self, task_id: Seq<char>, agent: u64) -> TaskRecord {
        self.tasks@[choose|i: int|
            0 <= i < self.tasks@.len() && self.tasks@[i].task_id@ == task_id
                && self.tasks@[i].agent == agent]
    }

    /// The protocol configuration. Meaningful only when `config is Some`.
    pub open spec fn spec_config(self) -> ProtocolConfig {
        match self.config {
            Some(c) => c,
            None => arbitrary(),
        }
    }

    /// Well-formedness: every record family is keyed uniquely (no two
    /// records share an address), and the bounded strings respect their
    /// bounds. Every operation preserves this invariant.
    pub open spec fn wf(self) -> bool {
        &&& forall|i: int, j: int|
            0 <= i < j < self.agents@.len() ==> self.agents@[i].owner != self.agents@[j].owner
        &&& forall|i: int, j: int|
            0 <= i < j < self.vouches@.len() ==> !(self.vouches@[i].voucher
                == self.vouches@[j].voucher && self.vouches@[i].vouched_for
                == self.vouches@[j].vouched_for)
        &&& forall|i: int, j: int|
            0 <= i < j < self.tasks@.len() ==> !(self.tasks@[i].task_id@
                == self.tasks@[j].task_id@ && self.tasks@[i].agent == self.tasks@[j].agent)
        &&& forall|i: int| 0 <= i < self.agents@.len() ==> (#[trigger] self.agents@[i]).name@.len()
            <= 50
        &&& forall|i: int| 0 <= i < self.tasks@.len() ==> (#[trigger] self.tasks@[i]).task_id@.len()
            <= 100
    }

    /// An empty, uninitialized ledger.
    pub fn new() -> (l: Ledger)
        ensures
            l.wf(),
            l.config is None,
            l.agents@ =~= Seq::<AgentProfile>::empty(),
            l.vouches@ =~= Seq::<VouchRecord>::empty(),
            l.tasks@ =~= Seq::<TaskRecord>::empty(),
    {
        Ledger { config: None, agents: Vec::new(), vouches: Vec::new(), tasks: Vec::new() }
    }

    /// On a well-formed ledger, any index whose profile belongs to `owner`
    /// is the profile `agent_of(owner)` denotes.
    pub proof fn lemma_agent_at(self, owner: u64, i: int)
        requires
            self.wf(),
            0 <= i < self.agents@.len(),
            self.agents@[i].owner == owner,
        ensures
            self.has_agent(owner),
            self.agent_of(owner) == self.agents@[i],
    {
        assert(self.has_agent(owner));
        let j: int = choose|j: int| 0 <= j < self.agents@.len() && self.agents@[j].owner == owner;
        if i < j {
            assert(self.agents@[i].owner != self.agents@[j].owner);
        } else if j < i {
            assert(self.agents@[j].owner != self.agents@[i].owner);
        }
    }

    /// Same, for vouch records and their ordered pair.
    pub proof fn lemma_vouch_at(self, voucher: u64, vouched_for: u64, i: int)
        requires
            self.wf(),
            0 <= i < self.vouches@.len(),
            self.vouches@[i].voucher == voucher,
            self.vouches@[i].vouched_for == vouched_for,
        ensures
            self.has_vouch(voucher, vouched_for),
            self.vouch_of(voucher, vouched_for) == self.vouches@[i],
    {
        assert(self.has_vouch(voucher, vouched_for));
        let j: int = choose|j: int|
            0 <= j < self.vouches@.len() && self.vouches@[j].voucher == voucher
                && self.vouches@[j].vouched_for == vouched_for;
        if i < j {
            assert(!(self.vouches@[i].voucher == self.vouches@[j].voucher
                && self.vouches@[i].vouched_for == self.vouches@[j].vouched_for));
        } else if j < i {
            assert(!(self.vouches@[j].voucher == self.vouches@[i].voucher
                && self.vouches@[j].vouched_for == self.vouches@[i].vouched_for));
        }
    }

    /// Same, for task records and their (task identifier, agent) pair.
    pub proof fn lemma_task_at(self, task_id: Seq<char>, agent: u64, i: int)
        requires
            self.wf(),
            0 <= i < self.tasks@.len(),
            self.tasks@[i].task_id@ == task_id,
            self.tasks@[i].agent == agent,
        ensures
            self.has_task(task_id, agent),
            self.task_of(task_id, agent) == self.tasks@[i],
    {
        assert(self.has_task(task_id, agent));
        let j: int = choose|j: int|
            0 <= j < self.tasks@.len() && self.tasks@[j].task_id@ == task_id
                && self.tasks@[j].agent == agent;
        if i < j {
            assert(!(self.tasks@[i].task_id@ == self.tasks@[j].task_id@ && self.tasks@[i].agent
                == self.tasks@[j].agent));
        } else if j < i {
            assert(!(self.tasks@[j].task_id@ == self.tasks@[i].task_id@ && self.tasks@[j].agent
                == self.tasks@[i].agent));
        }
    }

    /// On a well-formed ledger no two records occupy the same storage
    /// address: distinct profiles, vouch records and task records each
    /// derive distinct addresses from their keys, which is what lets a
    /// creation collide (and be rejected) exactly when its key is taken.
    pub proof fn lemma_no_address_collision(self)
        requires
            self.wf(),
        ensures
            forall|i: int, j: int|
                0 <= i < j < self.agents@.len() ==> agent_address(self.agents@[i].owner)
                    != agent_address(self.agents@[j].owner),
            forall|i: int, j: int|
                0 <= i < j < self.vouches@.len() ==> vouch_address(
                    self.vouches@[i].voucher,
                    self.vouches@[i].vouched_for,
                ) != vouch_address(self.vouches@[j].voucher, self.vouches@[j].vouched_for),
            forall|i: int, j: int|
                0 <= i < j < self.tasks@.len() ==> task_address(
                    self.tasks@[i].task_id@,
                    self.tasks@[i].agent,
                ) != task_address(self.tasks@[j].task_id@, self.tasks@[j].agent),
    {
    }

    /// Linear scan for the profile registered to `owner`.
    fn find_agent(&self, owner: u64) -> (r: Option<usize>)
        ensures
            match r {
                Some(i) => 0 <= i < self.agents@.len() && self.agents@[i as int].owner == owner,
                None => !self.has_agent(owner),
            },
    {
        let mut i: usize = 0;
        while i < self.agents.len()
            invariant
                0 <= i <= self.agents@.len(),
                forall|j: int| 0 <= j < i ==> self.agents@[j].owner != owner,
            decreases self.agents@.len() - i,
        {
            if self.agents[i].owner == owner {
                return Some(i);
            }
            i = i + 1;
        }
        None
    }

    /// Linear scan for the outstanding vouch record of the ordered pair.
    fn find_vouch(&self, voucher: u64, vouched_for: u64) -> (r: Option<usize>)
        ensures
            match r {
                Some(i) => 0 <= i < self.vouches@.len() && self.vouches@[i as int].voucher
                    == voucher && self.vouches@[i as int].vouched_for == vouched_for,
                None => !self.has_vouch(voucher, vouched_for),
            },
    {
        let mut i: usize = 0;
        while i < self.vouches.len()
            invariant
                0 <= i <= self.vouches@.len(),
                forall|j: int|
                    0 <= j < i ==> !(self.vouches@[j].voucher == voucher
                        && self.vouches@[j].vouched_for == vouched_for),
            decreases self.vouches@.len() - i,
        {
            if self.vouches[i].voucher == voucher && self.vouches[i].vouched_for == vouched_for {
                return Some(i);
            }
            i = i + 1;
        }
        None
    }

    /// Linear scan for the task record of the (task identifier, agent) pair.
    fn find_task(&self, task_id: &String, agent: u64) -> (r: Option<usize>)
        ensures
            match r {
                Some(i) => 0 <= i < self.tasks@.len() && self.tasks@[i as int].task_id@ == task_id@
                    && self.tasks@[i as int].agent == agent,
                None => !self.has_task(task_id@, agent),
            },
    {
        let mut i: usize = 0;
        while i < self.tasks.len()
            invariant
                0 <= i <= self.tasks@.len(),
                forall|j: int|
                    0 <= j < i ==> !(self.tasks@[j].task_id@ == task_id@ && self.tasks@[j].agent
                        == agent),
            decreases self.tasks@.len() - i,
        {
            if self.tasks[i].task_id == *task_id && self.tasks[i].agent == agent {
                return Some(i);
            }
            i = i + 1;
        }
        None
    }

    /// Creates the singleton protocol configuration. Fails if the protocol
    /// is already initialized; the configuration is never closed afterwards.
    pub fn initialize(
        &mut self,
        authority: u64,
        reputation_mint: u64,
        min_reputation_for_vouching: u64,
        decay_rate_per_day: u64,
        vouch_lockup_period: i64,
    ) -> (r: Result<(), ReputationError>)
        requires
            old(self).wf(),
        ensures
            final(self).wf(),
            old(self).config is Some ==> r == Err::<(), ReputationError>(
                ReputationError::AlreadyInitialized,
            ) && *final(self) == *old(self),
            old(self).config is None ==> {
                &&& r is Ok
                &&& final(self).config == Some(
                    ProtocolConfig {
                        authority,
                        reputation_mint,
                        min_reputation_for_vouching,
                        decay_rate_per_day,
                        vouch_lockup_period,
                    },
                )
                &&& final(self).agents == old(self).agents
                &&& final(self).vouches == old(self).vouches
                &&& final(self).tasks == old(self).tasks
            },
    {
        if self.config.is_some() {
            return Err(ReputationError::AlreadyInitialized);
        }
        self.config = Some(
            ProtocolConfig {
                authority,
                reputation_mint,
                min_reputation_for_vouching,
                decay_rate_per_day,
                vouch_lockup_period,
            },
        );
        Ok(())
    }

    /// Registers a new agent: creates the one profile `owner`'s identity can
    /// ever have, with zeroed counters, active status and `now` as its first
    /// activity. Fails with `NameTooLong` past 50 units and with
    /// `AgentAlreadyRegistered` on any second registration for the same
    /// identity.
    pub fn register_agent(&mut self, owner: u64, name: String, now: i64) -> (r: Result<
        (),
        ReputationError,
    >)
        requires
            old(self).wf(),
        ensures
            final(self).wf(),
            name@.len() > 50 ==> r == Err::<(), ReputationError>(ReputationError::NameTooLong)
                && *final(self) == *old(self),
            name@.len() <= 50 && old(self).has_agent(owner) ==> r == Err::<(), ReputationError>(
                ReputationError::AgentAlreadyRegistered,
            ) && *final(self) == *old(self),
            name@.len() <= 50 && !old(self).has_agent(owner) ==> {
                &&& r is Ok
                &&& final(self).agents@ == old(self).agents@.push(fresh_profile(owner, name, now))
                &&& final(self).has_agent(owner)
                &&& final(self).agent_of(owner) == fresh_profile(owner, name, now)
                &&& forall|o: u64|
                    #[trigger] final(self).has_agent(o) <==> (old(self).has_agent(o) || o == owner)
                &&& forall|o: u64|
                    o != owner && old(self).has_agent(o) ==> #[trigger] final(self).agent_of(o)
                        == old(self).agent_of(o)
                &&& final(self).config == old(self).config
                &&& final(self).vouches == old(self).vouches
                &&& final(self).tasks == old(self).tasks
            },
    {
        if name.as_str().unicode_len() > 50 {
            return Err(ReputationError::NameTooLong);
        }
        match self.find_agent(owner) {
            Some(_) => Err(ReputationError::AgentAlreadyRegistered),
            None => {
                let profile: AgentProfile = AgentProfile {
                    owner,
                    name,
                    reputation_score: 0,
                    total_tasks_completed: 0,
                    last_activity_timestamp: now,
                    is_active: true,
                    positive_vouches: 0,
                    negative_vouches: 0,
                    staked_amount: 0,
                };
                self.agents.push(profile);
                proof {
                    let n: int = self.agents@.len() - 1;
                    assert forall|i: int, j: int|
                        0 <= i < j < self.agents@.len() implies self.agents@[i].owner
                        != self.agents@[j].owner by {
                        if j == n && self.agents@[i].owner == owner {
                            assert(old(self).has_agent(owner));
                        }
                    }
                    self.lemma_agent_at(owner, n);
                    assert forall|o: u64| #[trigger]
                        self.has_agent(o) <==> (old(self).has_agent(o) || o == owner) by {
                        if old(self).has_agent(o) {
                            let k: int = choose|k: int|
                                0 <= k < old(self).agents@.len() && old(self).agents@[k].owner
                                    == o;
                            assert(self.agents@[k].owner == o);
                        }
                        if self.has_agent(o) && o != owner {
                            let k: int = choose|k: int|
                                0 <= k < self.agents@.len() && self.agents@[k].owner == o;
                            assert(old(self).agents@[k].owner == o);
                        }
                    }
                    assert forall|o: u64|
                        o != owner && old(self).has_agent(o) implies #[trigger] self.agent_of(o)
                        == old(self).agent_of(o) by {
                        let k: int = choose|k: int|
                            0 <= k < old(self).agents@.len() && old(self).agents@[k].owner == o;
                        old(self).lemma_agent_at(o, k);
                        self.lemma_agent_at(o, k);
                    }
                }
                Ok(())
            },
        }
    }

    /// Read-only projection of a profile's reputation: returns the score
    /// unmodified, or `AgentNotRegistered` if no profile exists.
    pub fn get_reputation(&self, agent: u64) -> (r: Result<u64, ReputationError>)
        requires
            self.wf(),
        ensures
            !self.has_agent(agent) ==> r == Err::<u64, ReputationError>(
                ReputationError::AgentNotRegistered,
            ),
            self.has_agent(agent) ==> r == Ok::<u64, ReputationError>(
                self.agent_of(agent).reputation_score,
            ),
    {
        match self.find_agent(agent) {
            None => Err(ReputationError::AgentNotRegistered),
            Some(i) => {
                proof {
                    self.lemma_agent_at(agent, i as int);
                }
                Ok(self.agents[i].reputation_score)
            },
        }
    }

    /// Validates and records a task completion: saturating-adds the earned
    /// reputation, bumps the task counter, stamps the activity time, creates
    /// the audit-trail task record, and returns the mint instruction the
    /// host must perform atomically with this mutation. A (task identifier,
    /// agent) pair is accepted at most once, which makes the operation
    /// idempotent per pair.
    pub fn complete_task(
        &mut self,
        agent: u64,
        task_id: String,
        reputation_amount: u64,
        now: i64,
    ) -> (r: Result<TokenInstruction, ReputationError>)
        requires
            old(self).wf(),
        ensures
            final(self).wf(),
            task_id@.len() > 100 ==> r == Err::<TokenInstruction, ReputationError>(
                ReputationError::TaskIdTooLong,
            ) && *final(self) == *old(self),
            task_id@.len() <= 100 && reputation_amount == 0 ==> r == Err::<
                TokenInstruction,
                ReputationError,
            >(ReputationError::InvalidReputationAmount) && *final(self) == *old(self),
            task_id@.len() <= 100 && reputation_amount > 0 && old(self).config is None ==> r
                == Err::<TokenInstruction, ReputationError>(ReputationError::NotInitialized)
                && *final(self) == *old(self),
            task_id@.len() <= 100 && reputation_amount > 0 && old(self).config is Some && !old(self).has_agent(agent) ==> r == Err::<TokenInstruction, ReputationError>(
                ReputationError::AgentNotRegistered,
            ) && *final(self) == *old(self),
            task_id@.len() <= 100 && reputation_amount > 0 && old(self).config is Some && old(self).has_agent(agent) && !old(self).agent_of(agent).is_active ==> r == Err::<
                TokenInstruction,
                ReputationError,
            >(ReputationError::AgentInactive) && *final(self) == *old(self),
            task_id@.len() <= 100 && reputation_amount > 0 && old(self).config is Some && old(self).has_agent(agent) && old(self).agent_of(agent).is_active && old(self).has_task(
                task_id@,
                agent,
            ) ==> r == Err::<TokenInstruction, ReputationError>(ReputationError::TaskAlreadyRecorded)
                && *final(self) == *old(self),
            task_id@.len() <= 100 && reputation_amount > 0 && old(self).config is Some && old(self).has_agent(agent) && old(self).agent_of(agent).is_active && !old(self).has_task(
                task_id@,
                agent,
            ) ==> {
                &&& r == Ok::<TokenInstruction, ReputationError>(
                    TokenInstruction::MintTo {
                        mint: old(self).spec_config().reputation_mint,
                        destination: agent,
                        amount: reputation_amount,
                        authority: TokenParty::MintAuthority,
                    },
                )
                &&& final(self).tasks@ == old(self).tasks@.push(
                    TaskRecord {
                        agent,
                        task_id,
                        reputation_earned: reputation_amount,
                        completed_at: now,
                    },
                )
                &&& final(self).has_task(task_id@, agent)
                &&& final(self).task_of(task_id@, agent) == (TaskRecord {
                    agent,
                    task_id,
                    reputation_earned: reputation_amount,
                    completed_at: now,
                })
                &&& exists|i: int|
                    0 <= i < old(self).agents@.len() && old(self).agents@[i].owner == agent && final(self).agents@ == old(self).agents@.update(
                        i,
                        completed_profile(old(self).agents@[i], reputation_amount, now),
                    )
                &&& final(self).has_agent(agent)
                &&& final(self).agent_of(agent) == completed_profile(
                    old(self).agent_of(agent),
                    reputation_amount,
                    now,
                )
                &&& forall|o: u64| #[trigger] final(self).has_agent(o) == old(self).has_agent(o)
                &&& forall|o: u64|
                    o != agent && old(self).has_agent(o) ==> #[trigger] final(self).agent_of(o)
                        == old(self).agent_of(o)
                &&& forall|t: Seq<char>, a: u64|
                    !(t == task_id@ && a == agent) ==> #[trigger] final(self).has_task(t, a)
                        == old(self).has_task(t, a)
                &&& forall|t: Seq<char>, a: u64|
                    !(t == task_id@ && a == agent) && old(self).has_task(t, a) ==> #[trigger] final(self).task_of(t, a) == old(self).task_of(t, a)
                &&& final(self).config == old(self).config
                &&& final(self).vouches == old(self).vouches
            },
    {
        if task_id.as_str().unicode_len() > 100 {
            return Err(ReputationError::TaskIdTooLong);
        }
        if reputation_amount == 0 {
            return Err(ReputationError::InvalidReputationAmount);
        }
        let mint: u64 = match &self.config {
            None => {
                return Err(ReputationError::NotInitialized);
            },
            Some(c) => c.reputation_mint,
        };
        let idx: usize = match self.find_agent(agent) {
            None => {
                return Err(ReputationError::AgentNotRegistered);
            },
            Some(i) => i,
        };
        proof {
            self.lemma_agent_at(agent, idx as int);
        }
        if !self.agents[idx].is_active {
            return Err(ReputationError::AgentInactive);
        }
        if self.find_task(&task_id, agent).is_some() {
            return Err(ReputationError::TaskAlreadyRecorded);
        }
        let old_score: u64 = self.agents[idx].reputation_score;
        let new_score: u64 = if reputation_amount > u64::MAX - old_score {
            u64::MAX
        } else {
            old_score + reputation_amount
        };
        let old_total: u64 = self.agents[idx].total_tasks_completed;
        let new_total: u64 = if old_total == u64::MAX {
            u64::MAX
        } else {
            old_total + 1
        };
        self.agents[idx].reputation_score = new_score;
        self.agents[idx].total_tasks_completed = new_total;
        self.agents[idx].last_activity_timestamp = now;
        let record: TaskRecord = TaskRecord {
            agent,
            task_id,
            reputation_earned: reputation_amount,
            completed_at: now,
        };
        self.tasks.push(record);
        proof {
            let n: int = self.tasks@.len() - 1;
            assert forall|i: int, j: int| 0 <= i < j < self.tasks@.len() implies !(
            (#[trigger] self.tasks@[i]).task_id@ == (#[trigger] self.tasks@[j]).task_id@
                && self.tasks@[i].agent == self.tasks@[j].agent) by {
                if j == n && self.tasks@[i].task_id@ == self.tasks@[j].task_id@
                    && self.tasks@[i].agent == agent {
                    assert(old(self).has_task(self.tasks@[j].task_id@, agent));
                }
            }
            self.lemma_task_at(self.tasks@[n].task_id@, agent, n);
            self.lemma_agent_at(agent, idx as int);
            assert forall|o: u64| #[trigger] self.has_agent(o) == old(self).has_agent(o) by {
                if old(self).has_agent(o) {
                    let k: int = choose|k: int|
                        0 <= k < old(self).agents@.len() && old(self).agents@[k].owner == o;
                    assert(self.agents@[k].owner == o);
                }
                if self.has_agent(o) {
                    let k: int = choose|k: int|
                        0 <= k < self.agents@.len() && self.agents@[k].owner == o;
                    assert(old(self).agents@[k].owner == o);
                }
            }
            assert forall|o: u64|
                o != agent && old(self).has_agent(o) implies #[trigger] self.agent_of(o) == old(self).agent_of(o) by {
                let k: int = choose|k: int|
                    0 <= k < old(self).agents@.len() && old(self).agents@[k].owner == o;
                old(self).lemma_agent_at(o, k);
                self.lemma_agent_at(o, k);
            }
            assert forall|t: Seq<char>, a: u64|
                !(t == self.tasks@[n].task_id@ && a == agent) implies #[trigger] self.has_task(t, a)
                == old(self).has_task(t, a) by {
                if old(self).has_task(t, a) {
                    let k: int = choose|k: int|
                        0 <= k < old(self).tasks@.len() && old(self).tasks@[k].task_id@ == t && old(self).tasks@[k].agent == a;
                    assert(self.tasks@[k].task_id@ == t && self.tasks@[k].agent == a);
                }
                if self.has_task(t, a) {
                    let k: int = choose|k: int|
                        0 <= k < self.tasks@.len() && self.tasks@[k].task_id@ == t
                            && self.tasks@[k].agent == a;
                    assert(k < n);
                    assert(old(self).tasks@[k].task_id@ == t && old(self).tasks@[k].agent == a);
                }
            }
            assert forall|t: Seq<char>, a: u64|
                !(t == self.tasks@[n].task_id@ && a == agent) && old(self).has_task(
                    t,
                    a,
                ) implies #[trigger] self.task_of(t, a) == old(self).task_of(t, a) by {
                let k: int = choose|k: int|
                    0 <= k < old(self).tasks@.len() && old(self).tasks@[k].task_id@ == t && old(self).tasks@[k].agent == a;
                old(self).lemma_task_at(t, a, k);
                self.lemma_task_at(t, a, k);
            }
        }
        Ok(
            TokenInstruction::MintTo {
                mint,
                destination: agent,
                amount: reputation_amount,
                authority: TokenParty::MintAuthority,
            },
        )
    }

    /// Applies compound time-decay to an agent's reputation: one decay step
    /// per whole inactive day, computed day by day on the already-reduced
    /// balance. Permissionless maintenance: callable by anyone, but at most
    /// once per whole elapsed day (`DecayCooldown` otherwise). An agent whose
    /// decayed score falls below 10 is marked inactive.
    pub fn apply_decay(&mut self, agent: u64, now: i64) -> (r: Result<(), ReputationError>)
        requires
            old(self).wf(),
        ensures
            final(self).wf(),
            old(self).config is None ==> r == Err::<(), ReputationError>(
                ReputationError::NotInitialized,
            ) && *final(self) == *old(self),
            old(self).config is Some && !old(self).has_agent(agent) ==> r == Err::<
                (),
                ReputationError,
            >(ReputationError::AgentNotRegistered) && *final(self) == *old(self),
            old(self).config is Some && old(self).has_agent(agent) && sat_sub_i64(
                now,
                old(self).agent_of(agent).last_activity_timestamp,
            ) < 86400 ==> r == Err::<(), ReputationError>(ReputationError::DecayCooldown) && *final(self) == *old(self),
            old(self).config is Some && old(self).has_agent(agent) && sat_sub_i64(
                now,
                old(self).agent_of(agent).last_activity_timestamp,
            ) >= 86400 ==> {
                &&& r is Ok
                &&& exists|i: int|
                    0 <= i < old(self).agents@.len() && old(self).agents@[i].owner == agent && final(self).agents@ == old(self).agents@.update(
                        i,
                        decayed_profile(
                            old(self).agents@[i],
                            sat_sub_i64(now, old(self).agents@[i].last_activity_timestamp) as int
                                / 86400,
                            old(self).spec_config().decay_rate_per_day,
                        ),
                    )
                &&& final(self).has_agent(agent)
                &&& final(self).agent_of(agent) == decayed_profile(
                    old(self).agent_of(agent),
                    sat_sub_i64(now, old(self).agent_of(agent).last_activity_timestamp) as int
                        / 86400,
                    old(self).spec_config().decay_rate_per_day,
                )
                &&& forall|o: u64| #[trigger] final(self).has_agent(o) == old(self).has_agent(o)
                &&& forall|o: u64|
                    o != agent && old(self).has_agent(o) ==> #[trigger] final(self).agent_of(o)
                        == old(self).agent_of(o)
                &&& final(self).config == old(self).config
                &&& final(self).vouches == old(self).vouches
                &&& final(self).tasks == old(self).tasks
            },
    {
        let rate: u64 = match &self.config {
            None => {
                return Err(ReputationError::NotInitialized);
            },
            Some(c) => c.decay_rate_per_day,
        };
        let idx: usize = match self.find_agent(agent) {
            None => {
                return Err(ReputationError::AgentNotRegistered);
            },
            Some(i) => i,
        };
        proof {
            self.lemma_agent_at(agent, idx as int);
        }
        let last: i64 = self.agents[idx].last_activity_timestamp;
        let diff_wide: i128 = now as i128 - last as i128;
        let diff: i64 = if diff_wide > i64::MAX as i128 {
            i64::MAX
        } else if diff_wide < i64::MIN as i128 {
            i64::MIN
        } else {
            diff_wide as i64
        };
        assert(diff == sat_sub_i64(now, last));
        if diff < 86400 {
            return Err(ReputationError::DecayCooldown);
        }
        let days: i64 = ((diff as u64) / 86400) as i64;
        assert(days as int == sat_sub_i64(now, last) as int / 86400);
        let old_score: u64 = self.agents[idx].reputation_score;
        let new_score: u64 = calculate_decay(old_score, days, rate);
        self.agents[idx].reputation_score = new_score;
        if new_score < 10 {
            self.agents[idx].is_active = false;
        }
        proof {
            self.lemma_agent_at(agent, idx as int);
            assert forall|o: u64| #[trigger] self.has_agent(o) == old(self).has_agent(o) by {
                if old(self).has_agent(o) {
                    let k: int = choose|k: int|
                        0 <= k < old(self).agents@.len() && old(self).agents@[k].owner == o;
                    assert(self.agents@[k].owner == o);
                }
                if self.has_agent(o) {
                    let k: int = choose|k: int|
                        0 <= k < self.agents@.len() && self.agents@[k].owner == o;
                    assert(old(self).agents@[k].owner == o);
                }
            }
            assert forall|o: u64|
                o != agent && old(self).has_agent(o) implies #[trigger] self.agent_of(o) == old(self).agent_of(o) by {
                let k: int = choose|k: int|
                    0 <= k < old(self).agents@.len() && old(self).agents@[k].owner == o;
                old(self).lemma_agent_at(o, k);
                self.lemma_agent_at(o, k);
            }
        }
        Ok(())
    }

    /// Stakes a positive vouch: creates the one outstanding vouch record the
    /// (voucher, target) pair can have, increments the target's positive
    /// vouch counter, adds the stake to the voucher's staked total, and
    /// returns the escrow deposit the host must perform atomically — a
    /// transfer of `amount` from the voucher into the escrow account derived
    /// from this vouch record's own address.
    pub fn vouch_for(&mut self, voucher: u64, vouched_for: u64, amount: u64, now: i64) -> (r:
        Result<TokenInstruction, ReputationError>)
        requires
            old(self).wf(),
        ensures
            final(self).wf(),
            voucher == vouched_for ==> r == Err::<TokenInstruction, ReputationError>(
                ReputationError::SelfVouchNotAllowed,
            ) && *final(self) == *old(self),
            voucher != vouched_for && old(self).config is None ==> r == Err::<
                TokenInstruction,
                ReputationError,
            >(ReputationError::NotInitialized) && *final(self) == *old(self),
            voucher != vouched_for && old(self).config is Some && (!old(self).has_agent(voucher)
                || !old(self).has_agent(vouched_for)) ==> r == Err::<
                TokenInstruction,
                ReputationError,
            >(ReputationError::AgentNotRegistered) && *final(self) == *old(self),
            voucher != vouched_for && old(self).config is Some && old(self).has_agent(voucher)
                && old(self).has_agent(vouched_for) && old(self).agent_of(voucher).reputation_score
                < old(self).spec_config().min_reputation_for_vouching ==> r == Err::<
                TokenInstruction,
                ReputationError,
            >(ReputationError::InsufficientReputation) && *final(self) == *old(self),
            voucher != vouched_for && old(self).config is Some && old(self).has_agent(voucher)
                && old(self).has_agent(vouched_for) && old(self).agent_of(voucher).reputation_score
                >= old(self).spec_config().min_reputation_for_vouching && old(self).has_vouch(
                voucher,
                vouched_for,
            ) ==> r == Err::<TokenInstruction, ReputationError>(ReputationError::VouchAlreadyExists)
                && *final(self) == *old(self),
            voucher != vouched_for && old(self).config is Some && old(self).has_agent(voucher)
                && old(self).has_agent(vouched_for) && old(self).agent_of(voucher).reputation_score
                >= old(self).spec_config().min_reputation_for_vouching && !old(self).has_vouch(
                voucher,
                vouched_for,
            ) ==> {
                &&& r == Ok::<TokenInstruction, ReputationError>(
                    TokenInstruction::Transfer {
                        mint: old(self).spec_config().reputation_mint,
                        from: TokenParty::Agent { owner: voucher },
                        to: TokenParty::VouchEscrow { voucher, vouched_for },
                        amount,
                        authority: TokenParty::Agent { owner: voucher },
                    },
                )
                &&& final(self).vouches@ == old(self).vouches@.push(
                    VouchRecord { voucher, vouched_for, amount, is_positive: true, created_at: now },
                )
                &&& final(self).has_vouch(voucher, vouched_for)
                &&& final(self).vouch_of(voucher, vouched_for) == (VouchRecord {
                    voucher,
                    vouched_for,
                    amount,
                    is_positive: true,
                    created_at: now,
                })
                &&& exists|i: int, j: int|
                    0 <= i < old(self).agents@.len() && 0 <= j < old(self).agents@.len() && i != j
                        && old(self).agents@[i].owner == voucher && old(self).agents@[j].owner
                        == vouched_for && final(self).agents@ == old(self).agents@.update(
                        i,
                        staked_profile(old(self).agents@[i], amount),
                    ).update(j, vouched_profile(old(self).agents@[j], true))
                &&& final(self).has_agent(voucher)
                &&& final(self).has_agent(vouched_for)
                &&& final(self).agent_of(voucher) == staked_profile(
                    old(self).agent_of(voucher),
                    amount,
                )
                &&& final(self).agent_of(vouched_for) == vouched_profile(
                    old(self).agent_of(vouched_for),
                    true,
                )
                &&& forall|o: u64| #[trigger] final(self).has_agent(o) == old(self).has_agent(o)
                &&& forall|o: u64|
                    o != voucher && o != vouched_for && old(self).has_agent(o) ==> #[trigger] final(self).agent_of(o) == old(self).agent_of(o)
                &&& forall|v: u64, t: u64|
                    !(v == voucher && t == vouched_for) ==> #[trigger] final(self).has_vouch(v, t)
                        == old(self).has_vouch(v, t)
                &&& forall|v: u64, t: u64|
                    !(v == voucher && t == vouched_for) && old(self).has_vouch(v, t)
                        ==> #[trigger] final(self).vouch_of(v, t) == old(self).vouch_of(v, t)
                &&& final(self).config == old(self).config
                &&& final(self).tasks == old(self).tasks
            },
    {
        if voucher == vouched_for {
            return Err(ReputationError::SelfVouchNotAllowed);
        }
        let (mint, min_rep): (u64, u64) = match &self.config {
            None => {
                return Err(ReputationError::NotInitialized);
            },
            Some(c) => (c.reputation_mint, c.min_reputation_for_vouching),
        };
        let vi: usize = match self.find_agent(voucher) {
            None => {
                return Err(ReputationError::AgentNotRegistered);
            },
            Some(i) => i,
        };
        let ti: usize = match self.find_agent(vouched_for) {
            None => {
                return Err(ReputationError::AgentNotRegistered);
            },
            Some(i) => i,
        };
        proof {
            self.lemma_agent_at(voucher, vi as int);
            self.lemma_agent_at(vouched_for, ti as int);
        }
        if self.agents[vi].reputation_score < min_rep {
            return Err(ReputationError::InsufficientReputation);
        }
        if self.find_vouch(voucher, vouched_for).is_some() {
            return Err(ReputationError::VouchAlreadyExists);
        }
        let old_staked: u64 = self.agents[vi].staked_amount;
        let new_staked: u64 = if amount > u64::MAX - old_staked {
            u64::MAX
        } else {
            old_staked + amount
        };
        self.agents[vi].staked_amount = new_staked;
        let old_pos: u64 = self.agents[ti].positive_vouches;
        let new_pos: u64 = if old_pos == u64::MAX {
            u64::MAX
        } else {
            old_pos + 1
        };
        self.agents[ti].positive_vouches = new_pos;
        let record: VouchRecord = VouchRecord { voucher, vouched_for, amount, is_positive: true, created_at: now };
        self.vouches.push(record);
        proof {
            let n: int = self.vouches@.len() - 1;
            assert forall|i: int, j: int| 0 <= i < j < self.vouches@.len() implies !(
            (#[trigger] self.vouches@[i]).voucher == (#[trigger] self.vouches@[j]).voucher
                && self.vouches@[i].vouched_for == self.vouches@[j].vouched_for) by {
                if j == n && self.vouches@[i].voucher == voucher && self.vouches@[i].vouched_for
                    == vouched_for {
                    assert(old(self).has_vouch(voucher, vouched_for));
                }
            }
            self.lemma_vouch_at(voucher, vouched_for, n);
            assert(vi != ti);
            assert(self.agents@ =~= old(self).agents@.update(
                vi as int,
                staked_profile(old(self).agents@[vi as int], amount),
            ).update(ti as int, vouched_profile(old(self).agents@[ti as int], true)));
            self.lemma_agent_at(voucher, vi as int);
            self.lemma_agent_at(vouched_for, ti as int);
            assert forall|o: u64| #[trigger] self.has_agent(o) == old(self).has_agent(o) by {
                if old(self).has_agent(o) {
                    let k: int = choose|k: int|
                        0 <= k < old(self).agents@.len() && old(self).agents@[k].owner == o;
                    assert(self.agents@[k].owner == o);
                }
                if self.has_agent(o) {
                    let k: int = choose|k: int|
                        0 <= k < self.agents@.len() && self.agents@[k].owner == o;
                    assert(old(self).agents@[k].owner == o);
                }
            }
            assert forall|o: u64|
                o != voucher && o != vouched_for && old(self).has_agent(o) implies #[trigger]
            self.agent_of(o) == old(self).agent_of(o) by {
                let k: int = choose|k: int|
                    0 <= k < old(self).agents@.len() && old(self).agents@[k].owner == o;
                old(self).lemma_agent_at(o, k);
                self.lemma_agent_at(o, k);
            }
            assert forall|v: u64, t: u64|
                !(v == voucher && t == vouched_for) implies #[trigger] self.has_vouch(v, t) == old(self).has_vouch(v, t) by {
                if old(self).has_vouch(v, t) {
                    let k: int = choose|k: int|
                        0 <= k < old(self).vouches@.len() && old(self).vouches@[k].voucher == v
                            && old(self).vouches@[k].vouched_for == t;
                    assert(self.vouches@[k].voucher == v && self.vouches@[k].vouched_for == t);
                }
                if self.has_vouch(v, t) {
                    let k: int = choose|k: int|
                        0 <= k < self.vouches@.len() && self.vouches@[k].voucher == v
                            && self.vouches@[k].vouched_for == t;
                    assert(k < n);
                    assert(old(self).vouches@[k].voucher == v && old(self).vouches@[k].vouched_for
                        == t);
                }
            }
            assert forall|v: u64, t: u64|
                !(v == voucher && t == vouched_for) && old(self).has_vouch(v, t) implies #[trigger]
            self.vouch_of(v, t) == old(self).vouch_of(v, t) by {
                let k: int = choose|k: int|
                    0 <= k < old(self).vouches@.len() && old(self).vouches@[k].voucher == v && old(self).vouches@[k].vouched_for == t;
                old(self).lemma_vouch_at(v, t, k);
                self.lemma_vouch_at(v, t, k);
            }
        }
        Ok(
            TokenInstruction::Transfer {
                mint,
                from: TokenParty::Agent { owner: voucher },
                to: TokenParty::VouchEscrow { voucher, vouched_for },
                amount,
                authority: TokenParty::Agent { owner: voucher },
            },
        )
    }

    /// Records a challenge against an agent: creates the vouch record with
    /// negative polarity and increments the target's negative vouch counter.
    /// The declared `amount` is recorded as challenge weight only — no
    /// tokens move, and resolution happens outside this ledger.
    pub fn vouch_against(&mut self, voucher: u64, vouched_against: u64, amount: u64, now: i64) -> (r:
        Result<(), ReputationError>)
        requires
            old(self).wf(),
        ensures
            final(self).wf(),
            voucher == vouched_against ==> r == Err::<(), ReputationError>(
                ReputationError::SelfVouchNotAllowed,
            ) && *final(self) == *old(self),
            voucher != vouched_against && old(self).config is None ==> r == Err::<
                (),
                ReputationError,
            >(ReputationError::NotInitialized) && *final(self) == *old(self),
            voucher != vouched_against && old(self).config is Some && (!old(self).has_agent(voucher)
                || !old(self).has_agent(vouched_against)) ==> r == Err::<(), ReputationError>(
                ReputationError::AgentNotRegistered,
            ) && *final(self) == *old(self),
            voucher != vouched_against && old(self).config is Some && old(self).has_agent(voucher)
                && old(self).has_agent(vouched_against) && old(self).agent_of(
                voucher,
            ).reputation_score < old(self).spec_config().min_reputation_for_vouching ==> r == Err::<
                (),
                ReputationError,
            >(ReputationError::InsufficientReputation) && *final(self) == *old(self),
            voucher != vouched_against && old(self).config is Some && old(self).has_agent(voucher)
                && old(self).has_agent(vouched_against) && old(self).agent_of(
                voucher,
            ).reputation_score >= old(self).spec_config().min_reputation_for_vouching && old(self).has_vouch(voucher, vouched_against) ==> r == Err::<(), ReputationError>(
                ReputationError::VouchAlreadyExists,
            ) && *final(self) == *old(self),
            voucher != vouched_against && old(self).config is Some && old(self).has_agent(voucher)
                && old(self).has_agent(vouched_against) && old(self).agent_of(
                voucher,
            ).reputation_score >= old(self).spec_config().min_reputation_for_vouching && !old(self).has_vouch(voucher, vouched_against) ==> {
                &&& r is Ok
                &&& final(self).vouches@ == old(self).vouches@.push(
                    VouchRecord {
                        voucher,
                        vouched_for: vouched_against,
                        amount,
                        is_positive: false,
                        created_at: now,
                    },
                )
                &&& final(self).has_vouch(voucher, vouched_against)
                &&& final(self).vouch_of(voucher, vouched_against) == (VouchRecord {
                    voucher,
                    vouched_for: vouched_against,
                    amount,
                    is_positive: false,
                    created_at: now,
                })
                &&& exists|j: int|
                    0 <= j < old(self).agents@.len() && old(self).agents@[j].owner
                        == vouched_against && final(self).agents@ == old(self).agents@.update(
                        j,
                        vouched_profile(old(self).agents@[j], false),
                    )
                &&& final(self).has_agent(voucher)
                &&& final(self).has_agent(vouched_against)
                &&& final(self).agent_of(vouched_against) == vouched_profile(
                    old(self).agent_of(vouched_against),
                    false,
                )
                &&& final(self).agent_of(voucher) == old(self).agent_of(voucher)
                &&& forall|o: u64| #[trigger] final(self).has_agent(o) == old(self).has_agent(o)
                &&& forall|o: u64|
                    o != vouched_against && old(self).has_agent(o) ==> #[trigger] final(self).agent_of(o) == old(self).agent_of(o)
                &&& forall|v: u64, t: u64|
                    !(v == voucher && t == vouched_against) ==> #[trigger] final(self).has_vouch(
                        v,
                        t,
                    ) == old(self).has_vouch(v, t)
                &&& forall|v: u64, t: u64|
                    !(v == voucher && t == vouched_against) && old(self).has_vouch(v, t)
                        ==> #[trigger] final(self).vouch_of(v, t) == old(self).vouch_of(v, t)
                &&& final(self).config == old(self).config
                &&& final(self).tasks == old(self).tasks
            },
    {
        if voucher == vouched_against {
            return Err(ReputationError::SelfVouchNotAllowed);
        }
        let min_rep: u64 = match &self.config {
            None => {
                return Err(ReputationError::NotInitialized);
            },
            Some(c) => c.min_reputation_for_vouching,
        };
        let vi: usize = match self.find_agent(voucher) {
            None => {
                return Err(ReputationError::AgentNotRegistered);
            },
            Some(i) => i,
        };
        let ti: usize = match self.find_agent(vouched_against) {
            None => {
                return Err(ReputationError::AgentNotRegistered);
            },
            Some(i) => i,
        };
        proof {
            self.lemma_agent_at(voucher, vi as int);
            self.lemma_agent_at(vouched_against, ti as int);
        }
        if self.agents[vi].reputation_score < min_rep {
            return Err(ReputationError::InsufficientReputation);
        }
        if self.find_vouch(voucher, vouched_against).is_some() {
            return Err(ReputationError::VouchAlreadyExists);
        }
        let old_neg: u64 = self.agents[ti].negative_vouches;
        let new_neg: u64 = if old_neg == u64::MAX {
            u64::MAX
        } else {
            old_neg + 1
        };
        self.agents[ti].negative_vouches = new_neg;
        let record: VouchRecord = VouchRecord {
            voucher,
            vouched_for: vouched_against,
            amount,
            is_positive: false,
            created_at: now,
        };
        self.vouches.push(record);
        proof {
            let n: int = self.vouches@.len() - 1;
            assert forall|i: int, j: int| 0 <= i < j < self.vouches@.len() implies !(
            (#[trigger] self.vouches@[i]).voucher == (#[trigger] self.vouches@[j]).voucher
                && self.vouches@[i].vouched_for == self.vouches@[j].vouched_for) by {
                if j == n && self.vouches@[i].voucher == voucher && self.vouches@[i].vouched_for
                    == vouched_against {
                    assert(old(self).has_vouch(voucher, vouched_against));
                }
            }
            self.lemma_vouch_at(voucher, vouched_against, n);
            self.lemma_agent_at(voucher, vi as int);
            self.lemma_agent_at(vouched_against, ti as int);
            assert forall|o: u64| #[trigger] self.has_agent(o) == old(self).has_agent(o) by {
                if old(self).has_agent(o) {
                    let k: int = choose|k: int|
                        0 <= k < old(self).agents@.len() && old(self).agents@[k].owner == o;
                    assert(self.agents@[k].owner == o);
                }
                if self.has_agent(o) {
                    let k: int = choose|k: int|
                        0 <= k < self.agents@.len() && self.agents@[k].owner == o;
                    assert(old(self).agents@[k].owner == o);
                }
            }
            assert forall|o: u64|
                o != vouched_against && old(self).has_agent(o) implies #[trigger] self.agent_of(o)
                == old(self).agent_of(o) by {
                let k: int = choose|k: int|
                    0 <= k < old(self).agents@.len() && old(self).agents@[k].owner == o;
                old(self).lemma_agent_at(o, k);
                self.lemma_agent_at(o, k);
            }
            assert forall|v: u64, t: u64|
                !(v == voucher && t == vouched_against) implies #[trigger] self.has_vouch(v, t)
                == old(self).has_vouch(v, t) by {
                if old(self).has_vouch(v, t) {
                    let k: int = choose|k: int|
                        0 <= k < old(self).vouches@.len() && old(self).vouches@[k].voucher == v
                            && old(self).vouches@[k].vouched_for == t;
                    assert(self.vouches@[k].voucher == v && self.vouches@[k].vouched_for == t);
                }
                if self.has_vouch(v, t) {
                    let k: int = choose|k: int|
                        0 <= k < self.vouches@.len() && self.vouches@[k].voucher == v
                            && self.vouches@[k].vouched_for == t;
                    assert(k < n);
                    assert(old(self).vouches@[k].voucher == v && old(self).vouches@[k].vouched_for
                        == t);
                }
            }
            assert forall|v: u64, t: u64|
                !(v == voucher && t == vouched_against) && old(self).has_vouch(
                    v,
                    t,
                ) implies #[trigger] self.vouch_of(v, t) == old(self).vouch_of(v, t) by {
                let k: int = choose|k: int|
                    0 <= k < old(self).vouches@.len() && old(self).vouches@[k].voucher == v && old(self).vouches@[k].vouched_for == t;
                old(self).lemma_vouch_at(v, t, k);
                self.lemma_vouch_at(v, t, k);
            }
        }
        Ok(())
    }

    /// Withdraws a vouch once the lockup has elapsed: closes the vouch
    /// record (freeing its address for a later vouch on the same pair),
    /// saturating-subtracts the recorded amount from the voucher's staked
    /// total, and — for a positive vouch with a non-zero stake — returns the
    /// escrow release the host must perform atomically: the full amount back
    /// from this vouch's escrow to the voucher, signed with the capability
    /// scoped to that escrow alone. Withdrawal is all-or-nothing.
    pub fn withdraw_vouch(&mut self, voucher: u64, vouched_for: u64, now: i64) -> (r: Result<
        Option<TokenInstruction>,
        ReputationError,
    >)
        requires
            old(self).wf(),
        ensures
            final(self).wf(),
            old(self).config is None ==> r == Err::<Option<TokenInstruction>, ReputationError>(
                ReputationError::NotInitialized,
            ) && *final(self) == *old(self),
            old(self).config is Some && !old(self).has_agent(voucher) ==> r == Err::<
                Option<TokenInstruction>,
                ReputationError,
            >(ReputationError::AgentNotRegistered) && *final(self) == *old(self),
            old(self).config is Some && old(self).has_agent(voucher) && !old(self).has_vouch(
                voucher,
                vouched_for,
            ) ==> r == Err::<Option<TokenInstruction>, ReputationError>(
                ReputationError::VouchNotFound,
            ) && *final(self) == *old(self),
            old(self).config is Some && old(self).has_agent(voucher) && old(self).has_vouch(
                voucher,
                vouched_for,
            ) && sat_sub_i64(now, old(self).vouch_of(voucher, vouched_for).created_at) < old(self).spec_config().vouch_lockup_period ==> r == Err::<
                Option<TokenInstruction>,
                ReputationError,
            >(ReputationError::LockupNotExpired) && *final(self) == *old(self),
            old(self).config is Some && old(self).has_agent(voucher) && old(self).has_vouch(
                voucher,
                vouched_for,
            ) && sat_sub_i64(now, old(self).vouch_of(voucher, vouched_for).created_at) >= old(self).spec_config().vouch_lockup_period ==> {
                &&& r == Ok::<Option<TokenInstruction>, ReputationError>(
                    release_instruction(
                        old(self).spec_config().reputation_mint,
                        old(self).vouch_of(voucher, vouched_for),
                    ),
                )
                &&& exists|i: int|
                    0 <= i < old(self).vouches@.len() && old(self).vouches@[i] == old(self).vouch_of(voucher, vouched_for) && final(self).vouches@ == old(self).vouches@.remove(i)
                &&& !final(self).has_vouch(voucher, vouched_for)
                &&& exists|k: int|
                    0 <= k < old(self).agents@.len() && old(self).agents@[k].owner == voucher
                        && final(self).agents@ == old(self).agents@.update(
                        k,
                        unstaked_profile(
                            old(self).agents@[k],
                            old(self).vouch_of(voucher, vouched_for).amount,
                        ),
                    )
                &&& final(self).has_agent(voucher)
                &&& final(self).agent_of(voucher) == unstaked_profile(
                    old(self).agent_of(voucher),
                    old(self).vouch_of(voucher, vouched_for).amount,
                )
                &&& forall|o: u64| #[trigger] final(self).has_agent(o) == old(self).has_agent(o)
                &&& forall|o: u64|
                    o != voucher && old(self).has_agent(o) ==> #[trigger] final(self).agent_of(o)
                        == old(self).agent_of(o)
                &&& forall|v: u64, t: u64|
                    !(v == voucher && t == vouched_for) ==> #[trigger] final(self).has_vouch(v, t)
                        == old(self).has_vouch(v, t)
                &&& forall|v: u64, t: u64|
                    !(v == voucher && t == vouched_for) && old(self).has_vouch(v, t)
                        ==> #[trigger] final(self).vouch_of(v, t) == old(self).vouch_of(v, t)
                &&& final(self).config == old(self).config
                &&& final(self).tasks == old(self).tasks
            },
    {
        let (mint, lockup): (u64, i64) = match &self.config {
            None => {
                return Err(ReputationError::NotInitialized);
            },
            Some(c) => (c.reputation_mint, c.vouch_lockup_period),
        };
        let vi: usize = match self.find_agent(voucher) {
            None => {
                return Err(ReputationError::AgentNotRegistered);
            },
            Some(i) => i,
        };
        let wi: usize = match self.find_vouch(voucher, vouched_for) {
            None => {
                return Err(ReputationError::VouchNotFound);
            },
            Some(i) => i,
        };
        proof {
            self.lemma_agent_at(voucher, vi as int);
            self.lemma_vouch_at(voucher, vouched_for, wi as int);
        }
        let record: VouchRecord = self.vouches[wi];
        let elapsed_wide: i128 = now as i128 - record.created_at as i128;
        let elapsed: i64 = if elapsed_wide > i64::MAX as i128 {
            i64::MAX
        } else if elapsed_wide < i64::MIN as i128 {
            i64::MIN
        } else {
            elapsed_wide as i64
        };
        assert(elapsed == sat_sub_i64(now, record.created_at));
        if elapsed < lockup {
            return Err(ReputationError::LockupNotExpired);
        }
        let old_staked: u64 = self.agents[vi].staked_amount;
        let new_staked: u64 = if record.amount > old_staked {
            0
        } else {
            old_staked - record.amount
        };
        self.agents[vi].staked_amount = new_staked;
        self.vouches.remove(wi);
        proof {
            let ghost old_vouches = old(self).vouches@;
            assert forall|m: int| 0 <= m < self.vouches@.len() implies !(
            (#[trigger] self.vouches@[m]).voucher == voucher && self.vouches@[m].vouched_for
                == vouched_for) by {
                if m < wi {
                    assert(self.vouches@[m] == old_vouches[m]);
                } else {
                    assert(self.vouches@[m] == old_vouches[m + 1]);
                }
            }
            assert forall|i: int, j: int| 0 <= i < j < self.vouches@.len() implies !(
            (#[trigger] self.vouches@[i]).voucher == (#[trigger] self.vouches@[j]).voucher
                && self.vouches@[i].vouched_for == self.vouches@[j].vouched_for) by {
                let oi: int = if i < wi {
                    i
                } else {
                    i + 1
                };
                let oj: int = if j < wi {
                    j
                } else {
                    j + 1
                };
                assert(self.vouches@[i] == old_vouches[oi]);
                assert(self.vouches@[j] == old_vouches[oj]);
            }
            self.lemma_agent_at(voucher, vi as int);
            assert forall|o: u64| #[trigger] self.has_agent(o) == old(self).has_agent(o) by {
                if old(self).has_agent(o) {
                    let k: int = choose|k: int|
                        0 <= k < old(self).agents@.len() && old(self).agents@[k].owner == o;
                    assert(self.agents@[k].owner == o);
                }
                if self.has_agent(o) {
                    let k: int = choose|k: int|
                        0 <= k < self.agents@.len() && self.agents@[k].owner == o;
                    assert(old(self).agents@[k].owner == o);
                }
            }
            assert forall|o: u64|
                o != voucher && old(self).has_agent(o) implies #[trigger] self.agent_of(o) == old(self).agent_of(o) by {
                let k: int = choose|k: int|
                    0 <= k < old(self).agents@.len() && old(self).agents@[k].owner == o;
                old(self).lemma_agent_at(o, k);
                self.lemma_agent_at(o, k);
            }
            assert forall|v: u64, t: u64|
                !(v == voucher && t == vouched_for) implies #[trigger] self.has_vouch(v, t) == old(self).has_vouch(v, t) by {
                if old(self).has_vouch(v, t) {
                    let k: int = choose|k: int|
                        0 <= k < old_vouches.len() && old_vouches[k].voucher == v
                            && old_vouches[k].vouched_for == t;
                    assert(k != wi);
                    if k < wi {
                        assert(self.vouches@[k] == old_vouches[k]);
                    } else {
                        assert(self.vouches@[k - 1] == old_vouches[k]);
                    }
                }
                if self.has_vouch(v, t) {
                    let m: int = choose|m: int|
                        0 <= m < self.vouches@.len() && self.vouches@[m].voucher == v
                            && self.vouches@[m].vouched_for == t;
                    if m < wi {
                        assert(self.vouches@[m] == old_vouches[m]);
                    } else {
                        assert(self.vouches@[m] == old_vouches[m + 1]);
                    }
                    assert(old(self).has_vouch(v, t));
                }
            }
            assert forall|v: u64, t: u64|
                !(v == voucher && t == vouched_for) && old(self).has_vouch(v, t) implies #[trigger]
            self.vouch_of(v, t) == old(self).vouch_of(v, t) by {
                let k: int = choose|k: int|
                    0 <= k < old_vouches.len() && old_vouches[k].voucher == v
                        && old_vouches[k].vouched_for == t;
                old(self).lemma_vouch_at(v, t, k);
                assert(k != wi);
                if k < wi {
                    assert(self.vouches@[k] == old_vouches[k]);
                    self.lemma_vouch_at(v, t, k);
                } else {
                    assert(self.vouches@[k - 1] == old_vouches[k]);
                    self.lemma_vouch_at(v, t, k - 1);
                }
            }
        }
        if record.amount > 0 && record.is_positive {
            Ok(
                Some(
                    TokenInstruction::Transfer {
                        mint,
                        from: TokenParty::VouchEscrow { voucher, vouched_for },
                        to: TokenParty::Agent { owner: voucher },
                        amount: record.amount,
                        authority: TokenParty::VouchEscrow { voucher, vouched_for },
                    },
                ),
            )
        } else {
            Ok(None)
        }
    }
}

/// The profile as a successful task completion leaves it: the earned
/// reputation saturating-added, the task counter saturating-incremented, and
/// the activity time stamped; everything else untouched.
pub open spec fn completed_profile(p: AgentProfile, reputation_amount: u64, now: i64) -> AgentProfile {
    AgentProfile {
        owner: p.owner,
        name: p.name,
        reputation_score: sat_add_u64(p.reputation_score, reputation_amount),
        total_tasks_completed: sat_add_u64(p.total_tasks_completed, 1),
        last_activity_timestamp: now,
        is_active: p.is_active,
        positive_vouches: p.positive_vouches,
        negative_vouches: p.negative_vouches,
        staked_amount: p.staked_amount,
    }
}

/// The profile as a successful decay application leaves it: the score
/// compound-decayed over the whole inactive days, the agent marked inactive
/// if the decayed score fell below 10; the activity time is not touched, so
/// later decay is still measured from the last genuine activity.
pub open spec fn decayed_profile(p: AgentProfile, days: int, rate: u64) -> AgentProfile {
    let decayed: u64 = spec_decay(p.reputation_score, days, rate);
    AgentProfile {
        owner: p.owner,
        name: p.name,
        reputation_score: decayed,
        total_tasks_completed: p.total_tasks_completed,
        last_activity_timestamp: p.last_activity_timestamp,
        is_active: if decayed < 10 {
            false
        } else {
            p.is_active
        },
        positive_vouches: p.positive_vouches,
        negative_vouches: p.negative_vouches,
        staked_amount: p.staked_amount,
    }
}

/// The voucher's profile after staking a positive vouch: the stake
/// saturating-added to the staked total, everything else untouched.
pub open spec fn staked_profile(p: AgentProfile, amount: u64) -> AgentProfile {
    AgentProfile {
        owner: p.owner,
        name: p.name,
        reputation_score: p.reputation_score,
        total_tasks_completed: p.total_tasks_completed,
        last_activity_timestamp: p.last_activity_timestamp,
        is_active: p.is_active,
        positive_vouches: p.positive_vouches,
        negative_vouches: p.negative_vouches,
        staked_amount: sat_add_u64(p.staked_amount, amount),
    }
}

/// The target's profile after receiving a vouch: the counter matching the
/// vouch's polarity saturating-incremented, everything else untouched.
pub open spec fn vouched_profile(p: AgentProfile, positive: bool) -> AgentProfile {
    AgentProfile {
        owner: p.owner,
        name: p.name,
        reputation_score: p.reputation_score,
        total_tasks_completed: p.total_tasks_completed,
        last_activity_timestamp: p.last_activity_timestamp,
        is_active: p.is_active,
        positive_vouches: if positive {
            sat_add_u64(p.positive_vouches, 1)
        } else {
            p.positive_vouches
        },
        negative_vouches: if positive {
            p.negative_vouches
        } else {
            sat_add_u64(p.negative_vouches, 1)
        },
        staked_amount: p.staked_amount,
    }
}

/// The voucher's profile after a withdrawal: the withdrawn vouch's amount
/// saturating-subtracted from the staked total, everything else untouched.
pub open spec fn unstaked_profile(p: AgentProfile, amount: u64) -> AgentProfile {
    AgentProfile {
        owner: p.owner,
        name: p.name,
        reputation_score: p.reputation_score,
        total_tasks_completed: p.total_tasks_completed,
        last_activity_timestamp: p.last_activity_timestamp,
        is_active: p.is_active,
        positive_vouches: p.positive_vouches,
        negative_vouches: p.negative_vouches,
        staked_amount: sat_sub_u64(p.staked_amount, amount),
    }
}

/// The escrow release a withdrawal owes: the full stake back to the
/// voucher for a positive vouch with a non-zero amount, nothing otherwise
/// (a negative vouch never escrowed tokens).
pub open spec fn release_instruction(mint: u64, v: VouchRecord) -> Option<TokenInstruction> {
    if v.is_positive && v.amount > 0 {
        Some(
            TokenInstruction::Transfer {
                mint,
                from: TokenParty::VouchEscrow { voucher: v.voucher, vouched_for: v.vouched_for },
                to: TokenParty::Agent { owner: v.voucher },
                amount: v.amount,
                authority: TokenParty::VouchEscrow {
                    voucher: v.voucher,
                    vouched_for: v.vouched_for,
                },
            },
        )
    } else {
        None
    }
}

/// A reputation score can never leave the unsigned range, whatever sequence
/// of task completions and decay applications a profile goes through: task
/// completion saturates at `u64::MAX` instead of overflowing, and a decay
/// application only ever reduces the score, never below zero.
pub proof fn lemma_reputation_score_in_range(p: AgentProfile, amount: u64, days: int, rate: u64, now: i64)
    ensures
        completed_profile(p, amount, now).reputation_score <= u64::MAX,
        decayed_profile(p, days, rate).reputation_score <= p.reputation_score,
{
    crate::state::lemma_decay_monotonic(p.reputation_score, days, rate);
}

/// The profile a successful registration creates: zeroed counters, active,
/// first activity stamped with the registration time.
pub open spec fn fresh_profile(owner: u64, name: String, now: i64) -> AgentProfile {
    AgentProfile {
        owner,
        name,
        reputation_score: 0,
        total_tasks_completed: 0,
        last_activity_timestamp: now,
        is_active: true,
        positive_vouches: 0,
        negative_vouches: 0,
        staked_amount: 0,
    }
}

} // verus!
