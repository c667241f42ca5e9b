//! The governance engine: the proposal state machine.
//!
//! A proposal is created `Open` by an authorized proposer, accumulates
//! balance-weighted votes while `Open`, is finalized exactly once to
//! `Accepted` (strictly more for-weight than against-weight) or
//! `Rejected` (a tie rejects), and an accepted proposal is executed
//! exactly once, moving its amount from a funding account to its
//! target. The stored quorum and deadline fields are informational
//! only: finalization does not consult them.

use vstd::prelude::*;

use crate::proposal::has_voted;
use crate::proposal::has_voter;
use crate::proposal::lemma_push_voter;
use crate::proposal::lemma_weight_sum_prefix;
use crate::proposal::lemma_weight_sum_step;
use crate::proposal::same_proposal_except_executed;
use crate::proposal::same_proposal_except_status;
use crate::proposal::same_proposal_except_votes;
use crate::proposal::weight_sum;
use crate::Contract;
use crate::Error;
use crate::Proposal;
use crate::ProposalStatus;
use crate::Role;

verus! {

/// `id` appears among the voters of `votes`.
fn has_voter_exec(votes: &Vec<(String, u128)>, id: &String) -> (r: bool)
    ensures
        r == has_voter(votes@, id@),
{
    let n = votes.len();
    for i in 0..n
        invariant
            n == votes@.len(),
            forall|k: int| 0 <= k < i ==> votes@[k].0@ != id@,
    {
        if votes[i].0 == *id {
            return true;
        }
    }
    false
}

/// The total weight of a vote list, or `None` when it exceeds the
/// unsigned 128-bit range.
fn sum_weights(votes: &Vec<(String, u128)>) -> (r: Option<u128>)
    ensures
        match r {
            Some(s) => s == weight_sum(votes@),
            None => weight_sum(votes@) > u128::MAX,
        },
{
    let mut acc: u128 = 0;
    let n = votes.len();
    for i in 0..n
        invariant
            n == votes@.len(),
            acc == weight_sum(votes@.subrange(0, i as int)),
    {
        proof {
            lemma_weight_sum_step(votes@, i as int);
        }
        acc = match acc.checked_add(votes[i].1) {
            Some(v) => v,
            None => {
                proof {
                    lemma_weight_sum_prefix(votes@, i as int + 1);
                }
                return None;
            },
        };
    }
    proof {
        assert(votes@.subrange(0, n as int) =~= votes@);
    }
    Some(acc)
}

impl Contract {
    /// Why a vote by `voter` on proposal `proposal_id` would be
    /// refused in this state, or `None` when it is owed to succeed.
    pub open spec fn vote_error(self, voter: Seq<char>, proposal_id: u64) -> Option<Error> {
        if !self.spec_authorized(voter, set![Role::Core, Role::Community, Role::Finance]) {
            Some(Error::UnauthorizedError)
        } else if proposal_id >= self.proposals@.len() {
            Some(Error::NotFoundError)
        } else if self.proposals@[proposal_id as int].status != ProposalStatus::Open {
            Some(Error::AlreadyFinalizedError)
        } else if has_voted(self.proposals@[proposal_id as int], voter) {
            Some(Error::DuplicateVoteError)
        } else {
            None
        }
    }

    /// Why finalizing proposal `proposal_id` on behalf of `caller`
    /// would be refused in this state, or `None` when it is owed to
    /// succeed.
    pub open spec fn finalize_error(self, caller: Seq<char>, proposal_id: u64) -> Option<Error> {
        if !self.spec_authorized(caller, set![Role::Core, Role::Finance]) {
            Some(Error::UnauthorizedError)
        } else if proposal_id >= self.proposals@.len() {
            Some(Error::NotFoundError)
        } else if self.proposals@[proposal_id as int].status != ProposalStatus::Open {
            Some(Error::AlreadyFinalizedError)
        } else if weight_sum(self.proposals@[proposal_id as int].votes_for@) > u128::MAX
            || weight_sum(self.proposals@[proposal_id as int].votes_against@) > u128::MAX {
            Some(Error::OverflowError)
        } else {
            None
        }
    }

    /// Why executing proposal `proposal_id` from `funding` on behalf
    /// of `caller` would be refused in this state, or `None` when it
    /// is owed to succeed.
    pub open spec fn execute_error(
        self,
        caller: Seq<char>,
        funding: Seq<char>,
        proposal_id: u64,
    ) -> Option<Error> {
        if !self.spec_authorized(caller, set![Role::Core, Role::Finance]) {
            Some(Error::UnauthorizedError)
        } else if proposal_id >= self.proposals@.len() {
            Some(Error::NotFoundError)
        } else if self.proposals@[proposal_id as int].status != ProposalStatus::Accepted {
            Some(Error::NotAcceptedError)
        } else if self.proposals@[proposal_id as int].executed {
            Some(Error::AlreadyExecutedError)
        } else if self.proposals@[proposal_id as int].amount is None
            || self.proposals@[proposal_id as int].target_account is None {
            Some(Error::MissingFieldError)
        } else {
            let a = self.proposals@[proposal_id as int].amount.unwrap();
            let t = self.proposals@[proposal_id as int].target_account.unwrap()@;
            if !self.spec_registered(funding) {
                Some(Error::NotFoundError)
            } else if self.spec_balance_of(funding) < a {
                Some(Error::InsufficientBalanceError)
            } else if funding == t || a == 0 {
                Some(Error::InvalidTransferError)
            } else {
                None
            }
        }
    }

    /// Creates a proposal. The proposer must hold the core or the
    /// community role (no balance is required). The proposal gets the
    /// next unused id — its position in the list — and starts `Open`
    /// with empty vote lists.
    ///
    /// Fails with `UnauthorizedError` otherwise.
    pub fn create_proposal(
        &mut self,
        proposer: &String,
        created_at: u64,
        title: String,
        description: String,
        link: Option<String>,
        tags: Vec<String>,
        amount: Option<u128>,
        target_account: Option<String>,
        category: Option<String>,
        deadline: Option<u64>,
        required_role: Option<Role>,
        quorum: Option<u128>,
    ) -> (r: Result<u64, Error>)
        requires
            old(self).wf(),
        ensures
            final(self).wf(),
            !old(self).spec_authorized(proposer@, set![Role::Core, Role::Community]) ==> r
                == Err::<u64, Error>(Error::UnauthorizedError) && *final(self) == *old(self),
            old(self).spec_authorized(proposer@, set![Role::Core, Role::Community]) ==> r
                == Ok::<u64, Error>(old(self).proposals_seq().len() as u64) && {
                let p = final(self).proposals_seq().last();
                &&& final(self).proposals_seq() == old(self).proposals_seq().push(p)
                &&& p.id == old(self).proposals_seq().len()
                &&& p.title == title
                &&& p.description == description
                &&& p.created_at == created_at
                &&& p.proposer == *proposer
                &&& !p.executed
                &&& p.votes_for@.len() == 0
                &&& p.votes_against@.len() == 0
                &&& p.status == ProposalStatus::Open
                &&& p.link == link
                &&& p.tags == tags
                &&& p.amount == amount
                &&& p.target_account == target_account
                &&& p.category == category
                &&& p.deadline == deadline
                &&& p.required_role == required_role
                &&& p.quorum == quorum
                &&& final(self).accounts@ == old(self).accounts@
                &&& final(self).spec_total_supply() == old(self).spec_total_supply()
                &&& final(self).spec_token_pool() == old(self).spec_token_pool()
                &&& final(self).team_seq() == old(self).team_seq()
            },
    {
        let authorized = match self.get_role(proposer) {
            Some(Role::Core) => true,
            Some(Role::Community) => true,
            _ => false,
        };
        if !authorized {
            return Err(Error::UnauthorizedError);
        }
        let id = self.proposals.len() as u64;
        let proposal = Proposal {
            id,
            title,
            description,
            created_at,
            proposer: proposer.clone(),
            executed: false,
            votes_for: Vec::new(),
            votes_against: Vec::new(),
            status: ProposalStatus::Open,
            link,
            tags,
            amount,
            target_account,
            category,
            deadline,
            required_role,
            quorum,
        };
        self.proposals.push(proposal);
        Ok(id)
    }

    /// The proposals in creation order.
    pub fn get_proposals(&self) -> (r: &Vec<Proposal>)
        ensures
            r@ == self.proposals_seq(),
    {
        &self.proposals
    }

    /// The proposal with id `proposal_id`, or `None` for an unknown
    /// id.
    pub fn get_proposal_by_id(&self, proposal_id: u64) -> (r: Option<&Proposal>)
        requires
            self.wf(),
        ensures
            match r {
                Some(p) => proposal_id < self.proposals_seq().len() && *p
                    == self.proposals_seq()[proposal_id as int],
                None => proposal_id >= self.proposals_seq().len(),
            },
    {
        if proposal_id < self.proposals.len() as u64 {
            Some(&self.proposals[proposal_id as usize])
        } else {
            None
        }
    }

    /// Casts a vote. The voter must hold the core, community or
    /// finance role; the proposal must exist and still be `Open`; one
    /// identity votes at most once per proposal. The vote is recorded
    /// with the voter's balance at this very moment as its weight,
    /// and that weight is never recomputed.
    ///
    /// Fails exactly as [`Contract::vote_error`] says.
    pub fn vote_on_proposal(&mut self, voter: &String, proposal_id: u64, support: bool) -> (r:
        Result<(), Error>)
        requires
            old(self).wf(),
        ensures
            final(self).wf(),
            match old(self).vote_error(voter@, proposal_id) {
                Some(e) => r == Err::<(), Error>(e) && *final(self) == *old(self),
                None => r is Ok && {
                    let p0 = old(self).proposals_seq()[proposal_id as int];
                    let p1 = final(self).proposals_seq()[proposal_id as int];
                    let weight = old(self).spec_balance_of(voter@);
                    &&& final(self).proposals_seq() == old(self).proposals_seq().update(
                        proposal_id as int,
                        p1,
                    )
                    &&& same_proposal_except_votes(p0, p1)
                    &&& support ==> p1.votes_for@ == p0.votes_for@.push((*voter, weight))
                        && p1.votes_against == p0.votes_against
                    &&& !support ==> p1.votes_against@ == p0.votes_against@.push((*voter, weight))
                        && p1.votes_for == p0.votes_for
                    &&& final(self).accounts@ == old(self).accounts@
                    &&& final(self).spec_total_supply() == old(self).spec_total_supply()
                    &&& final(self).spec_token_pool() == old(self).spec_token_pool()
                    &&& final(self).team_seq() == old(self).team_seq()
                },
            },
    {
        let authorized = match self.get_role(voter) {
            Some(Role::Core) => true,
            Some(Role::Community) => true,
            Some(Role::Finance) => true,
            _ => false,
        };
        if !authorized {
            return Err(Error::UnauthorizedError);
        }
        if proposal_id >= self.proposals.len() as u64 {
            return Err(Error::NotFoundError);
        }
        let pid = proposal_id as usize;
        if !matches!(self.proposals[pid].status, ProposalStatus::Open) {
            return Err(Error::AlreadyFinalizedError);
        }
        if has_voter_exec(&self.proposals[pid].votes_for, voter) || has_voter_exec(
            &self.proposals[pid].votes_against,
            voter,
        ) {
            return Err(Error::DuplicateVoteError);
        }
        let weight = self.ft_balance_of(voter);
        let pair = (voter.clone(), weight);
        let ghost proposals0 = self.proposals@;
        let ghost p0 = self.proposals@[pid as int];
        let p = &mut self.proposals[pid];
        if support {
            proof {
                lemma_push_voter(p.votes_for@, (*voter, weight));
            }
            p.votes_for.push(pair);
        } else {
            proof {
                lemma_push_voter(p.votes_against@, (*voter, weight));
            }
            p.votes_against.push(pair);
        }
        Ok(())
    }

    /// Finalizes an `Open` proposal: its status becomes `Accepted`
    /// when the summed for-weight strictly exceeds the summed
    /// against-weight, and `Rejected` otherwise — a tie rejects. The
    /// caller must hold the core or the finance role. The stored
    /// quorum is not consulted. A proposal is finalized at most once:
    /// a second call fails with `AlreadyFinalizedError`.
    ///
    /// Fails exactly as [`Contract::finalize_error`] says.
    pub fn finalize_proposal(&mut self, caller: &String, proposal_id: u64) -> (r: Result<
        (),
        Error,
    >)
        requires
            old(self).wf(),
        ensures
            final(self).wf(),
            match old(self).finalize_error(caller@, proposal_id) {
                Some(e) => r == Err::<(), Error>(e) && *final(self) == *old(self),
                None => r is Ok && {
                    let p0 = old(self).proposals_seq()[proposal_id as int];
                    let p1 = final(self).proposals_seq()[proposal_id as int];
                    &&& final(self).proposals_seq() == old(self).proposals_seq().update(
                        proposal_id as int,
                        p1,
                    )
                    &&& same_proposal_except_status(p0, p1)
                    &&& p1.status == (if weight_sum(p0.votes_for@) > weight_sum(p0.votes_against@) {
                        ProposalStatus::Accepted
                    } else {
                        ProposalStatus::Rejected
                    })
                    &&& final(self).accounts@ == old(self).accounts@
                    &&& final(self).spec_total_supply() == old(self).spec_total_supply()
                    &&& final(self).spec_token_pool() == old(self).spec_token_pool()
                    &&& final(self).team_seq() == old(self).team_seq()
                },
            },
    {
        let authorized = match self.get_role(caller) {
            Some(Role::Core) => true,
            Some(Role::Finance) => true,
            _ => false,
        };
        if !authorized {
            return Err(Error::UnauthorizedError);
        }
        if proposal_id >= self.proposals.len() as u64 {
            return Err(Error::NotFoundError);
        }
        let pid = proposal_id as usize;
        if !matches!(self.proposals[pid].status, ProposalStatus::Open) {
            return Err(Error::AlreadyFinalizedError);
        }
        let for_votes = match sum_weights(&self.proposals[pid].votes_for) {
            None => { return Err(Error::OverflowError) },
            Some(v) => v,
        };
        let against_votes = match sum_weights(&self.proposals[pid].votes_against) {
            None => { return Err(Error::OverflowError) },
            Some(v) => v,
        };
        let p = &mut self.proposals[pid];
        p.status = if for_votes > against_votes {
            ProposalStatus::Accepted
        } else {
            ProposalStatus::Rejected
        };
        Ok(())
    }

    /// Executes an accepted, not yet executed proposal: registers its
    /// target identity when unknown, transfers the proposal's amount
    /// from `funding_account` to the target, and marks the proposal
    /// executed. The caller must hold the core or the finance role.
    /// The executed flag guards against replay: a second call fails
    /// with `AlreadyExecutedError` and moves nothing.
    ///
    /// Fails exactly as [`Contract::execute_error`] says.
    pub fn execute_proposal(&mut self, caller: &String, funding_account: &String, proposal_id: u64)
        -> (r: Result<(), Error>)
        requires
            old(self).wf(),
        ensures
            final(self).wf(),
            match old(self).execute_error(caller@, funding_account@, proposal_id) {
                Some(e) => r == Err::<(), Error>(e) && *final(self) == *old(self),
                None => r is Ok && {
                    let p0 = old(self).proposals_seq()[proposal_id as int];
                    let p1 = final(self).proposals_seq()[proposal_id as int];
                    let a = p0.amount.unwrap();
                    let t = p0.target_account.unwrap()@;
                    &&& final(self).proposals_seq() == old(self).proposals_seq().update(
                        proposal_id as int,
                        p1,
                    )
                    &&& same_proposal_except_executed(p0, p1)
                    &&& p1.executed
                    &&& final(self).spec_balance_of(funding_account@) == old(self).spec_balance_of(
                        funding_account@,
                    ) - a
                    &&& final(self).spec_balance_of(t) == old(self).spec_balance_of(t) + a
                    &&& final(self).spec_registered(t)
                    &&& old(self).same_accounts_except(*final(self), set![funding_account@, t])
                    &&& final(self).spec_total_supply() == old(self).spec_total_supply()
                    &&& final(self).spec_token_pool() == old(self).spec_token_pool()
                    &&& final(self).team_seq() == old(self).team_seq()
                },
            },
    {
        let authorized = match self.get_role(caller) {
            Some(Role::Core) => true,
            Some(Role::Finance) => true,
            _ => false,
        };
        if !authorized {
            return Err(Error::UnauthorizedError);
        }
        if proposal_id >= self.proposals.len() as u64 {
            return Err(Error::NotFoundError);
        }
        let pid = proposal_id as usize;
        if !matches!(self.proposals[pid].status, ProposalStatus::Accepted) {
            return Err(Error::NotAcceptedError);
        }
        if self.proposals[pid].executed {
            return Err(Error::AlreadyExecutedError);
        }
        let amount = match &self.proposals[pid].amount {
            None => { return Err(Error::MissingFieldError) },
            Some(a) => *a,
        };
        let target = match &self.proposals[pid].target_account {
            None => { return Err(Error::MissingFieldError) },
            Some(t) => t.clone(),
        };
        match self.find_account(funding_account) {
            None => { return Err(Error::NotFoundError) },
            Some(i) => {
                proof {
                    crate::account::lemma_index_of(self.accounts@, i as int);
                }
                if self.accounts[i].balance < amount {
                    return Err(Error::InsufficientBalanceError);
                }
            },
        }
        if *funding_account == target || amount == 0 {
            return Err(Error::InvalidTransferError);
        }
        match self.find_account(&target) {
            None => {
                let res = self.register_account(&target);
                proof {
                    assert(res is Ok);
                }
            },
            Some(_) => {},
        }
        let ghost mid = *self;
        let res = self.transfer(funding_account, &target, amount);
        proof {
            assert(res is Ok);
        }
        let ghost settled = *self;
        let p = &mut self.proposals[pid];
        p.executed = true;
        proof {
            assert(self.accounts@ == settled.accounts@);
            assert forall|x: Seq<char>|
                !(set![funding_account@, target@].contains(x)) implies self.spec_registered(x)
                == old(self).spec_registered(x) && self.spec_balance_of(x) == old(
                self,
            ).spec_balance_of(x) && self.spec_role_of(x) == old(self).spec_role_of(x) by {
                assert(x != funding_account@ && x != target@);
                let e1: Set<Seq<char>> = set![target@];
                let e2: Set<Seq<char>> = set![funding_account@, target@];
                assert(!e1.contains(x) && !e2.contains(x));
                assert(old(self).same_accounts_except(mid, e1));
                assert(mid.same_accounts_except(settled, e2));
                assert(mid.spec_registered(x) == old(self).spec_registered(x));
                assert(mid.spec_balance_of(x) == old(self).spec_balance_of(x));
                assert(mid.spec_role_of(x) == old(self).spec_role_of(x));
                assert(settled.spec_registered(x) == mid.spec_registered(x));
                assert(settled.spec_balance_of(x) == mid.spec_balance_of(x));
                assert(settled.spec_role_of(x) == mid.spec_role_of(x));
            }
        }
        Ok(())
    }
}

} // verus!
