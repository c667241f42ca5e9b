//! A ledger-and-governance engine for a membership-weighted organization.
//!
//! Tracks fungible unit balances per registered account, lets members
//! propose and vote on actions weighted by their holdings, executes
//! accepted proposals by moving funds, and settles transfers to external
//! services through a two-phase notify/resolve protocol.
//!
//! The engine itself is pure state: every public operation takes the
//! caller's pre-authenticated identity as an argument and either
//! commits all of its changes or returns an [`Error`] leaving the
//! state exactly as it was. The host layer around it supplies
//! identities, timestamps and message transport.

use vstd::prelude::*;

pub mod account;
pub mod errors;
pub mod governance;
pub mod laws;
pub mod ledger;
pub mod membership;
pub mod proposal;
pub mod settlement;
pub mod storage;

pub use account::Account;
pub use account::Role;
pub use errors::Error;
pub use proposal::Proposal;
pub use proposal::ProposalStatus;
pub use storage::storage_balance_bounds;
pub use storage::storage_balance_of;
pub use storage::StorageBalance;
pub use storage::StorageBalanceBounds;

use crate::account::balance_of;
use crate::account::ids_unique;
use crate::account::is_registered;
use crate::account::lemma_push_entry;
use crate::account::lemma_sum_nonneg;
use crate::account::role_of;
use crate::account::sum_balances;
use crate::proposal::proposal_wf;

verus! {

/// How many units one attached unit of the host currency buys.
pub const PURCHASE_RATE: u128 = 5;

/// The whole engine state: the account registry, the fixed total
/// supply and its unsold remainder, the proposals, and the list of
/// team member identities.
///
/// Invariant surface (see [`Contract::wf`]): identities are unique,
/// the sum of all balances plus the unsold pool always equals the
/// total supply, proposal ids equal their positions and never change,
/// and no identity votes twice on one proposal.
pub struct Contract {
    pub accounts: Vec<Account>,
    pub total_supply: u128,
    pub token_pool: u128,
    pub proposals: Vec<Proposal>,
    pub team_accounts: Vec<String>,
}

impl Contract {
    /// The registry as a sequence of accounts.
    pub open spec fn accounts_seq(self) -> Seq<Account> {
        self.accounts@
    }

    /// The proposals in creation order.
    pub open spec fn proposals_seq(self) -> Seq<Proposal> {
        self.proposals@
    }

    /// The team member identities.
    pub open spec fn team_seq(self) -> Seq<String> {
        self.team_accounts@
    }

    /// The fixed total supply.
    pub open spec fn spec_total_supply(self) -> u128 {
        self.total_supply
    }

    /// The unsold remainder of the total supply.
    pub open spec fn spec_token_pool(self) -> u128 {
        self.token_pool
    }

    /// `id` has been registered.
    pub open spec fn spec_registered(self, id: Seq<char>) -> bool {
        is_registered(self.accounts@, id)
    }

    /// The balance of `id`, zero when unregistered.
    pub open spec fn spec_balance_of(self, id: Seq<char>) -> u128 {
        balance_of(self.accounts@, id)
    }

    /// The role of `id`; an unregistered identity counts as a visitor.
    pub open spec fn spec_role_of(self, id: Seq<char>) -> Role {
        role_of(self.accounts@, id)
    }

    /// `id` may act in one of the roles of `roles`: it is registered
    /// and its recorded role is among them.
    pub open spec fn spec_authorized(self, id: Seq<char>, roles: Set<Role>) -> bool {
        self.spec_registered(id) && roles.contains(self.spec_role_of(id))
    }

    /// Well-formedness: the single invariant surface that every
    /// operation preserves.
    ///
    /// - account identities are pairwise distinct;
    /// - conservation: the balances and the unsold pool sum to the
    ///   fixed total supply;
    /// - the proposal at position `i` carries id `i` (ids are assigned
    ///   in creation order and never reused);
    /// - every proposal is well formed: no identity appears twice
    ///   among its voters, and only an accepted proposal is executed;
    /// - the team list holds no identity twice.
    pub open spec fn wf(self) -> bool {
        &&& ids_unique(self.accounts@)
        &&& sum_balances(self.accounts@) + self.token_pool == self.total_supply
        &&& forall|i: int|
            0 <= i < self.proposals@.len() ==> (#[trigger] self.proposals@[i]).id == i
                && proposal_wf(self.proposals@[i])
        &&& forall|i: int, j: int|
            0 <= i < j < self.team_accounts@.len() ==> self.team_accounts@[i]@
                != self.team_accounts@[j]@
    }

    /// Creates the engine at genesis. The whole `total_supply` is
    /// minted at once: `pool` units stay in the unsold pool and the
    /// rest is credited to `owner_id`, who is registered with the
    /// core role. The total supply never changes afterwards.
    ///
    /// Fails with `ValidationError` when the pool exceeds the supply.
    pub fn new(owner_id: &String, total_supply: u128, pool: u128) -> (r: Result<Contract, Error>)
        ensures
            pool > total_supply ==> r == Err::<Contract, Error>(Error::ValidationError),
            pool <= total_supply ==> match r {
                Ok(c) => {
                    &&& c.wf()
                    &&& c.spec_total_supply() == total_supply
                    &&& c.spec_token_pool() == pool
                    &&& c.spec_registered(owner_id@)
                    &&& c.spec_balance_of(owner_id@) == total_supply - pool
                    &&& c.spec_role_of(owner_id@) == Role::Core
                    &&& forall|x: Seq<char>| x != owner_id@ ==> !c.spec_registered(x)
                    &&& c.proposals_seq().len() == 0
                    &&& c.team_seq().len() == 0
                },
                Err(_) => false,
            },
    {
        if pool > total_supply {
            return Err(Error::ValidationError);
        }
        let owner = Account { id: owner_id.clone(), balance: total_supply - pool, role: Role::Core };
        let mut accounts: Vec<Account> = Vec::new();
        proof {
            lemma_push_entry(accounts@, owner);
        }
        accounts.push(owner);
        Ok(
            Contract {
                accounts,
                total_supply,
                token_pool: pool,
                proposals: Vec::new(),
                team_accounts: Vec::new(),
            },
        )
    }

    /// The position of `id` in the registry, when it is registered.
    pub(crate) fn find_account(&self, id: &String) -> (r: Option<usize>)
        ensures
            match r {
                Some(i) => i < self.accounts@.len() && self.accounts@[i as int].id@ == id@,
                None => !self.spec_registered(id@),
            },
    {
        let n = self.accounts.len();
        for i in 0..n
            invariant
                n == self.accounts@.len(),
                forall|k: int| 0 <= k < i ==> self.accounts@[k].id@ != id@,
        {
            if self.accounts[i].id == *id {
                return Some(i);
            }
        }
        None
    }

    /// The fixed total supply.
    pub fn get_total_supply(&self) -> (r: u128)
        ensures
            r == self.spec_total_supply(),
    {
        self.total_supply
    }

    /// The fixed total supply, under its token-standard name.
    pub fn ft_total_supply(&self) -> (r: u128)
        ensures
            r == self.spec_total_supply(),
    {
        self.total_supply
    }

    /// How many units are still unsold.
    pub fn get_token_pool(&self) -> (r: u128)
        ensures
            r == self.spec_token_pool(),
    {
        self.token_pool
    }

    /// The balance of `account_id`; zero for an identity that was
    /// never registered (a balance query never fails).
    pub fn ft_balance_of(&self, account_id: &String) -> (r: u128)
        requires
            self.wf(),
        ensures
            r == self.spec_balance_of(account_id@),
    {
        match self.find_account(account_id) {
            Some(i) => {
                proof {
                    crate::account::lemma_index_of(self.accounts@, i as int);
                }
                self.accounts[i].balance
            },
            None => 0,
        }
    }

    /// The role of `account_id`, or `None` for an identity that was
    /// never registered.
    pub fn get_role(&self, account_id: &String) -> (r: Option<Role>)
        requires
            self.wf(),
        ensures
            match r {
                Some(role) => self.spec_registered(account_id@) && role == self.spec_role_of(
                    account_id@,
                ),
                None => !self.spec_registered(account_id@),
            },
    {
        match self.find_account(account_id) {
            Some(i) => {
                proof {
                    crate::account::lemma_index_of(self.accounts@, i as int);
                }
                Some(self.accounts[i].role)
            },
            None => None,
        }
    }

    /// Every registered identity with its balance, in registration
    /// order.
    pub fn get_all_balances(&self) -> (r: Vec<(String, u128)>)
        ensures
            r@.len() == self.accounts@.len(),
            forall|i: int|
                0 <= i < r@.len() ==> (#[trigger] r@[i]).0@ == self.accounts@[i].id@ && r@[i].1
                    == self.accounts@[i].balance,
    {
        let n = self.accounts.len();
        let mut out: Vec<(String, u128)> = Vec::new();
        for i in 0..n
            invariant
                n == self.accounts@.len(),
                out@.len() == i,
                forall|k: int|
                    0 <= k < i ==> (#[trigger] out@[k]).0@ == self.accounts@[k].id@ && out@[k].1
                        == self.accounts@[k].balance,
        {
            let a = &self.accounts[i];
            out.push((a.id.clone(), a.balance));
        }
        out
    }

    /// Every registered identity with its role, in registration
    /// order.
    pub fn get_all_roles(&self) -> (r: Vec<(String, Role)>)
        ensures
            r@.len() == self.accounts@.len(),
            forall|i: int|
                0 <= i < r@.len() ==> (#[trigger] r@[i]).0@ == self.accounts@[i].id@ && r@[i].1
                    == self.accounts@[i].role,
    {
        let n = self.accounts.len();
        let mut out: Vec<(String, Role)> = Vec::new();
        for i in 0..n
            invariant
                n == self.accounts@.len(),
                out@.len() == i,
                forall|k: int|
                    0 <= k < i ==> (#[trigger] out@[k]).0@ == self.accounts@[k].id@ && out@[k].1
                        == self.accounts@[k].role,
        {
            let a = &self.accounts[i];
            out.push((a.id.clone(), a.role));
        }
        out
    }
}

/// Conservation of value: in every well-formed state the balances of
/// all registered accounts and the unsold pool together account for
/// exactly the fixed total supply, and in particular no balance can
/// exceed it. Every operation of the engine preserves
/// well-formedness, so this holds at every observation point of any
/// sequence of successful operations.
pub proof fn lemma_conservation(c: Contract)
    requires
        c.wf(),
    ensures
        sum_balances(c.accounts_seq()) + c.spec_token_pool() == c.spec_total_supply(),
        forall|i: int|
            0 <= i < c.accounts_seq().len() ==> (#[trigger] c.accounts_seq()[i]).balance
                <= c.spec_total_supply(),
{
    assert forall|i: int|
        0 <= i < c.accounts_seq().len() implies (#[trigger] c.accounts_seq()[i]).balance
        <= c.spec_total_supply() by {
        crate::account::lemma_balance_le_sum(c.accounts_seq(), i);
        lemma_sum_nonneg(c.accounts_seq());
    }
}

} // verus!
