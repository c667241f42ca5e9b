//! The ledger: registration, pool-backed deposits and withdrawals,
//! and atomic transfers.
//!
//! Every unit in circulation was minted at genesis: a deposit moves
//! units from the unsold pool into an account and a withdrawal moves
//! them back, so each single operation conserves the total supply.
//! An operation either commits all of its changes or returns an error
//! and changes nothing.

use vstd::prelude::*;

use crate::account::Account;
use crate::account::lemma_balance_le_sum;
use crate::account::lemma_index_of;
use crate::account::lemma_push_entry;
use crate::account::lemma_two_balances_le_sum;
use crate::account::lemma_update_entry;
use crate::Contract;
use crate::Error;
use crate::Role;

verus! {

impl Contract {
    /// The registry outside `except` reads the same in `post` as in
    /// `self`: same registrations, same balances, same roles.
    pub open spec fn same_accounts_except(self, post: Contract, except: Set<Seq<char>>) -> bool {
        forall|x: Seq<char>|
            #![trigger post.spec_registered(x)]
            #![trigger post.spec_balance_of(x)]
            #![trigger post.spec_role_of(x)]
            !except.contains(x) ==> post.spec_registered(x) == self.spec_registered(x)
                && post.spec_balance_of(x) == self.spec_balance_of(x) && post.spec_role_of(x)
                == self.spec_role_of(x)
    }

    /// The governance side of the state reads the same in `post` as
    /// in `self`: same proposals, same team list.
    pub open spec fn same_governance(self, post: Contract) -> bool {
        post.proposals_seq() == self.proposals_seq() && post.team_seq() == self.team_seq()
    }

    /// Why a transfer of `amount` from `sender` to `receiver` would
    /// be refused in this state, or `None` when it is owed to
    /// succeed: a transfer needs two distinct registered parties, a
    /// positive amount, and enough balance on the sending side.
    pub open spec fn transfer_error(
        self,
        sender: Seq<char>,
        receiver: Seq<char>,
        amount: u128,
    ) -> Option<Error> {
        if sender == receiver || amount == 0 {
            Some(Error::InvalidTransferError)
        } else if !self.spec_registered(sender) {
            Some(Error::NotFoundError)
        } else if self.spec_balance_of(sender) < amount {
            Some(Error::InsufficientBalanceError)
        } else if !self.spec_registered(receiver) {
            Some(Error::NotFoundError)
        } else {
            None
        }
    }

    /// What a successful transfer does: it moves exactly `amount`
    /// from `sender` to `receiver` and touches nothing else — no
    /// other balance, no registration, no role, neither pool nor
    /// total supply, and no proposal.
    pub open spec fn transfer_effect(
        self,
        post: Contract,
        sender: Seq<char>,
        receiver: Seq<char>,
        amount: u128,
    ) -> bool {
        &&& post.spec_balance_of(sender) == self.spec_balance_of(sender) - amount
        &&& post.spec_balance_of(receiver) == self.spec_balance_of(receiver) + amount
        &&& forall|x: Seq<char>|
            #![trigger post.spec_registered(x)]
            #![trigger post.spec_role_of(x)]
            post.spec_registered(x) == self.spec_registered(x) && post.spec_role_of(x)
                == self.spec_role_of(x)
        &&& self.same_accounts_except(post, set![sender, receiver])
        &&& post.spec_total_supply() == self.spec_total_supply()
        &&& post.spec_token_pool() == self.spec_token_pool()
        &&& self.same_governance(post)
    }

    /// Registers a fresh identity with a zero balance and the visitor
    /// role. Identities persist: nothing ever removes one.
    ///
    /// Fails with `AlreadyRegisteredError` when the identity is
    /// already present.
    pub fn register_account(&mut self, account_id: &String) -> (r: Result<(), Error>)
        requires
            old(self).wf(),
        ensures
            final(self).wf(),
            old(self).spec_registered(account_id@) ==> r == Err::<(), Error>(
                Error::AlreadyRegisteredError,
            ) && *final(self) == *old(self),
            !old(self).spec_registered(account_id@) ==> r is Ok && {
                &&& final(self).spec_registered(account_id@)
                &&& final(self).spec_balance_of(account_id@) == 0
                &&& final(self).spec_role_of(account_id@) == Role::Visitor
                &&& old(self).same_accounts_except(*final(self), set![account_id@])
                &&& final(self).spec_total_supply() == old(self).spec_total_supply()
                &&& final(self).spec_token_pool() == old(self).spec_token_pool()
                &&& old(self).same_governance(*final(self))
            },
    {
        match self.find_account(account_id) {
            Some(_) => Err(Error::AlreadyRegisteredError),
            None => {
                let fresh = Account { id: account_id.clone(), balance: 0, role: Role::Visitor };
                proof {
                    lemma_push_entry(self.accounts@, fresh);
                }
                self.accounts.push(fresh);
                Ok(())
            },
        }
    }

    /// Moves `amount` units from the unsold pool into the balance of
    /// `account_id`.
    ///
    /// Fails with `NotFoundError` for an unregistered account and
    /// with `InsufficientBalanceError` when the pool holds less than
    /// `amount`; conservation rules out a balance overflow.
    pub fn deposit(&mut self, account_id: &String, amount: u128) -> (r: Result<(), Error>)
        requires
            old(self).wf(),
        ensures
            final(self).wf(),
            r is Err ==> *final(self) == *old(self),
            !old(self).spec_registered(account_id@) ==> r == Err::<(), Error>(Error::NotFoundError),
            old(self).spec_registered(account_id@) && old(self).spec_token_pool() < amount ==> r
                == Err::<(), Error>(Error::InsufficientBalanceError),
            old(self).spec_registered(account_id@) && old(self).spec_token_pool() >= amount ==> r
                is Ok && {
                &&& final(self).spec_balance_of(account_id@) == old(self).spec_balance_of(
                    account_id@,
                ) + amount
                &&& final(self).spec_token_pool() == old(self).spec_token_pool() - amount
                &&& forall|x: Seq<char>|
                    #![trigger final(self).spec_registered(x)]
                    #![trigger final(self).spec_role_of(x)]
                    final(self).spec_registered(x) == old(self).spec_registered(x)
                        && final(self).spec_role_of(x) == old(self).spec_role_of(x)
                &&& old(self).same_accounts_except(*final(self), set![account_id@])
                &&& final(self).spec_total_supply() == old(self).spec_total_supply()
                &&& old(self).same_governance(*final(self))
            },
    {
        let i = match self.find_account(account_id) {
            None => { return Err(Error::NotFoundError) },
            Some(i) => i,
        };
        if self.token_pool < amount {
            return Err(Error::InsufficientBalanceError);
        }
        let ghost s0 = self.accounts@;
        proof {
            lemma_index_of(s0, i as int);
            lemma_balance_le_sum(s0, i as int);
        }
        let a = &self.accounts[i];
        let updated = Account { id: a.id.clone(), balance: a.balance + amount, role: a.role };
        proof {
            lemma_update_entry(s0, i as int, updated);
        }
        self.accounts[i] = updated;
        self.token_pool = self.token_pool - amount;
        Ok(())
    }

    /// Moves `amount` units out of the balance of `account_id` back
    /// into the unsold pool.
    ///
    /// Fails with `NotFoundError` for an unregistered account and
    /// with `InsufficientBalanceError` when the balance is below
    /// `amount`.
    pub fn withdraw(&mut self, account_id: &String, amount: u128) -> (r: Result<(), Error>)
        requires
            old(self).wf(),
        ensures
            final(self).wf(),
            r is Err ==> *final(self) == *old(self),
            !old(self).spec_registered(account_id@) ==> r == Err::<(), Error>(Error::NotFoundError),
            old(self).spec_registered(account_id@) && old(self).spec_balance_of(account_id@)
                < amount ==> r == Err::<(), Error>(Error::InsufficientBalanceError),
            old(self).spec_registered(account_id@) && old(self).spec_balance_of(account_id@)
                >= amount ==> r is Ok && {
                &&& final(self).spec_balance_of(account_id@) == old(self).spec_balance_of(
                    account_id@,
                ) - amount
                &&& final(self).spec_token_pool() == old(self).spec_token_pool() + amount
                &&& forall|x: Seq<char>|
                    #![trigger final(self).spec_registered(x)]
                    #![trigger final(self).spec_role_of(x)]
                    final(self).spec_registered(x) == old(self).spec_registered(x)
                        && final(self).spec_role_of(x) == old(self).spec_role_of(x)
                &&& old(self).same_accounts_except(*final(self), set![account_id@])
                &&& final(self).spec_total_supply() == old(self).spec_total_supply()
                &&& old(self).same_governance(*final(self))
            },
    {
        let i = match self.find_account(account_id) {
            None => { return Err(Error::NotFoundError) },
            Some(i) => i,
        };
        let ghost s0 = self.accounts@;
        proof {
            lemma_index_of(s0, i as int);
            lemma_balance_le_sum(s0, i as int);
        }
        let a = &self.accounts[i];
        if a.balance < amount {
            return Err(Error::InsufficientBalanceError);
        }
        let updated = Account { id: a.id.clone(), balance: a.balance - amount, role: a.role };
        proof {
            lemma_update_entry(s0, i as int, updated);
        }
        self.accounts[i] = updated;
        self.token_pool = self.token_pool + amount;
        Ok(())
    }

    /// Transfers `amount` units from `sender_id` to `receiver_id` as
    /// one atomic unit: either both balance changes take effect or
    /// neither does.
    ///
    /// Fails with `InvalidTransferError` for a self-transfer or a
    /// zero amount, with `NotFoundError` when either party is
    /// unregistered, and with `InsufficientBalanceError` when the
    /// sender's balance is below `amount` — exactly as
    /// [`Contract::transfer_error`] says.
    pub fn transfer(&mut self, sender_id: &String, receiver_id: &String, amount: u128) -> (r:
        Result<(), Error>)
        requires
            old(self).wf(),
        ensures
            final(self).wf(),
            match old(self).transfer_error(sender_id@, receiver_id@, amount) {
                Some(e) => r == Err::<(), Error>(e) && *final(self) == *old(self),
                None => r is Ok && old(self).transfer_effect(
                    *final(self),
                    sender_id@,
                    receiver_id@,
                    amount,
                ),
            },
    {
        if *sender_id == *receiver_id || amount == 0 {
            return Err(Error::InvalidTransferError);
        }
        let si = match self.find_account(sender_id) {
            None => { return Err(Error::NotFoundError) },
            Some(i) => i,
        };
        proof {
            lemma_index_of(self.accounts@, si as int);
        }
        if self.accounts[si].balance < amount {
            return Err(Error::InsufficientBalanceError);
        }
        let ri = match self.find_account(receiver_id) {
            None => { return Err(Error::NotFoundError) },
            Some(i) => i,
        };
        let ghost s0 = self.accounts@;
        proof {
            lemma_index_of(s0, ri as int);
            lemma_two_balances_le_sum(s0, si as int, ri as int);
        }
        let sa = &self.accounts[si];
        let debited = Account { id: sa.id.clone(), balance: sa.balance - amount, role: sa.role };
        proof {
            lemma_update_entry(s0, si as int, debited);
        }
        self.accounts[si] = debited;
        let ghost s1 = self.accounts@;
        let ra = &self.accounts[ri];
        let credited = Account { id: ra.id.clone(), balance: ra.balance + amount, role: ra.role };
        proof {
            lemma_update_entry(s1, ri as int, credited);
        }
        self.accounts[ri] = credited;
        Ok(())
    }

    /// The transfer operation under its token-standard name: the
    /// caller-facing entry point moves `amount` from the caller
    /// `sender_id` to `receiver_id`. The host layer emits the
    /// transfer notification.
    pub fn ft_transfer(&mut self, sender_id: &String, receiver_id: &String, amount: u128) -> (r:
        Result<(), Error>)
        requires
            old(self).wf(),
        ensures
            final(self).wf(),
            match old(self).transfer_error(sender_id@, receiver_id@, amount) {
                Some(e) => r == Err::<(), Error>(e) && *final(self) == *old(self),
                None => r is Ok && old(self).transfer_effect(
                    *final(self),
                    sender_id@,
                    receiver_id@,
                    amount,
                ),
            },
    {
        self.transfer(sender_id, receiver_id, amount)
    }

    /// The synchronous leg of a transfer whose receiver is an
    /// external service: the full amount is debited from the sender
    /// and credited to the receiver up front, before the receiver's
    /// own logic has run. The host layer then notifies the receiver
    /// and schedules [`Contract::ft_resolve_transfer`] for when the
    /// receiver's answer arrives.
    pub fn ft_transfer_call(&mut self, sender_id: &String, receiver_id: &String, amount: u128) -> (
        r: Result<(), Error>)
        requires
            old(self).wf(),
        ensures
            final(self).wf(),
            match old(self).transfer_error(sender_id@, receiver_id@, amount) {
                Some(e) => r == Err::<(), Error>(e) && *final(self) == *old(self),
                None => r is Ok && old(self).transfer_effect(
                    *final(self),
                    sender_id@,
                    receiver_id@,
                    amount,
                ),
            },
    {
        self.transfer(sender_id, receiver_id, amount)
    }
}

} // verus!
