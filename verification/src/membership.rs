//! Membership operations: purchases from the unsold pool, role
//! assignment, team management, and dividend apportioning.

use vstd::prelude::*;

use crate::account::Account;
use crate::account::lemma_balance_le_sum;
use crate::account::lemma_index_of;
use crate::account::lemma_push_entry;
use crate::account::lemma_update_entry;
use crate::Contract;
use crate::Error;
use crate::PURCHASE_RATE;
use crate::Role;

verus! {

/// `id` appears in the team list `s`.
pub open spec fn has_team(s: Seq<String>, id: Seq<char>) -> bool {
    exists|i: int| 0 <= i < s.len() && s[i]@ == id
}

/// The team list `s` with every entry carrying `id` removed, order
/// kept.
pub open spec fn team_without(s: Seq<String>, id: Seq<char>) -> Seq<String>
    decreases s.len(),
{
    if s.len() == 0 {
        Seq::empty()
    } else {
        let rest = team_without(s.drop_last(), id);
        if s.last()@ == id {
            rest
        } else {
            rest.push(s.last())
        }
    }
}

/// `id` appears in the team list `s`.
fn has_team_exec(s: &Vec<String>, id: &String) -> (r: bool)
    ensures
        r == has_team(s@, id@),
{
    let n = s.len();
    for i in 0..n
        invariant
            n == s@.len(),
            forall|k: int| 0 <= k < i ==> s@[k]@ != id@,
    {
        if s[i] == *id {
            return true;
        }
    }
    false
}

/// Removing one identity from a duplicate-free team list keeps it
/// duplicate-free; every kept entry occurs in the original list and
/// does not carry the removed identity.
proof fn lemma_team_without(s: Seq<String>, id: Seq<char>)
    requires
        forall|i: int, j: int| 0 <= i < j < s.len() ==> s[i]@ != s[j]@,
    ensures
        forall|i: int, j: int|
            0 <= i < j < team_without(s, id).len() ==> team_without(s, id)[i]@ != team_without(
                s,
                id,
            )[j]@,
        forall|k: int|
            0 <= k < team_without(s, id).len() ==> has_team(
                s,
                (#[trigger] team_without(s, id)[k])@,
            ) && team_without(s, id)[k]@ != id,
    decreases s.len(),
{
    if s.len() > 0 {
        let t = s.drop_last();
        lemma_team_without(t, id);
        let rest = team_without(t, id);
        let out = team_without(s, id);
        assert forall|k: int| 0 <= k < out.len() implies has_team(s, (out[k])@) && out[k]@
            != id by {
            if s.last()@ != id && k == out.len() - 1 {
                assert(out[k] == s.last());
                assert(s[s.len() - 1]@ == out[k]@);
            } else {
                assert(out[k] == rest[k]);
                assert(has_team(t, (rest[k])@));
                let m = choose|m: int| 0 <= m < t.len() && t[m]@ == rest[k]@;
                assert(s[m]@ == out[k]@);
            }
        }
        assert forall|i: int, j: int| 0 <= i < j < out.len() implies out[i]@ != out[j]@ by {
            if s.last()@ != id && j == out.len() - 1 {
                assert(out[i] == rest[i]);
                assert(has_team(t, (rest[i])@));
                let m = choose|m: int| 0 <= m < t.len() && t[m]@ == rest[i]@;
                assert(s[m]@ != s[s.len() - 1]@);
                assert(out[j] == s.last());
            } else {
                assert(out[i] == rest[i] && out[j] == rest[j]);
            }
        }
    }
}

impl Contract {
    /// Why a purchase against `deposit` attached units of the host
    /// currency would be refused in this state, or `None` when it is
    /// owed to succeed: the deposit must be positive, the bought
    /// amount must be representable, and the unsold pool must still
    /// hold it.
    pub open spec fn buy_error(self, deposit: u128) -> Option<Error> {
        if deposit == 0 {
            Some(Error::ValidationError)
        } else if deposit * PURCHASE_RATE > u128::MAX {
            Some(Error::OverflowError)
        } else if self.spec_token_pool() < deposit * PURCHASE_RATE {
            Some(Error::InsufficientBalanceError)
        } else {
            None
        }
    }

    /// Sells `deposit * PURCHASE_RATE` units from the unsold pool to
    /// `buyer`, registering the buyer when unknown. A visitor (or a
    /// fresh account) is promoted to the community role on its first
    /// purchase — the only self-service role change there is; any
    /// other role is kept.
    ///
    /// Fails exactly as [`Contract::buy_error`] says.
    pub fn buy_tokens(&mut self, buyer: &String, deposit: u128) -> (r: Result<(), Error>)
        requires
            old(self).wf(),
        ensures
            final(self).wf(),
            match old(self).buy_error(deposit) {
                Some(e) => r == Err::<(), Error>(e) && *final(self) == *old(self),
                None => r is Ok && {
                    let tokens = deposit * PURCHASE_RATE;
                    &&& final(self).spec_registered(buyer@)
                    &&& final(self).spec_balance_of(buyer@) == old(self).spec_balance_of(buyer@)
                        + tokens
                    &&& final(self).spec_role_of(buyer@) == (if !old(self).spec_registered(buyer@)
                        || old(self).spec_role_of(buyer@) == Role::Visitor {
                        Role::Community
                    } else {
                        old(self).spec_role_of(buyer@)
                    })
                    &&& old(self).same_accounts_except(*final(self), set![buyer@])
                    &&& final(self).spec_token_pool() == old(self).spec_token_pool() - tokens
                    &&& final(self).spec_total_supply() == old(self).spec_total_supply()
                    &&& old(self).same_governance(*final(self))
                },
            },
    {
        if deposit == 0 {
            return Err(Error::ValidationError);
        }
        let tokens = match deposit.checked_mul(PURCHASE_RATE) {
            None => { return Err(Error::OverflowError) },
            Some(t) => t,
        };
        if self.token_pool < tokens {
            return Err(Error::InsufficientBalanceError);
        }
        let ghost s0 = self.accounts@;
        match self.find_account(buyer) {
            Some(i) => {
                proof {
                    lemma_index_of(s0, i as int);
                    lemma_balance_le_sum(s0, i as int);
                }
                let a = &self.accounts[i];
                let role = if matches!(a.role, Role::Visitor) {
                    Role::Community
                } else {
                    a.role
                };
                let updated = Account { id: a.id.clone(), balance: a.balance + tokens, role };
                proof {
                    lemma_update_entry(s0, i as int, updated);
                }
                self.accounts[i] = updated;
            },
            None => {
                let fresh = Account { id: buyer.clone(), balance: tokens, role: Role::Community };
                proof {
                    lemma_push_entry(s0, fresh);
                }
                self.accounts.push(fresh);
            },
        }
        self.token_pool = self.token_pool - tokens;
        Ok(())
    }

    /// Sets the role of `account_id`, registering it when unknown.
    /// Only a caller holding the core role may assign roles, and only
    /// the core, community and finance roles can be assigned.
    ///
    /// Fails with `UnauthorizedError` for any other caller and with
    /// `ValidationError` for the visitor role.
    pub fn assign_role(&mut self, caller: &String, account_id: &String, role: Role) -> (r: Result<
        (),
        Error,
    >)
        requires
            old(self).wf(),
        ensures
            final(self).wf(),
            !old(self).spec_authorized(caller@, set![Role::Core]) ==> r == Err::<(), Error>(
                Error::UnauthorizedError,
            ) && *final(self) == *old(self),
            old(self).spec_authorized(caller@, set![Role::Core]) && role == Role::Visitor ==> r
                == Err::<(), Error>(Error::ValidationError) && *final(self) == *old(self),
            old(self).spec_authorized(caller@, set![Role::Core]) && role != Role::Visitor ==> r
                is Ok && {
                &&& final(self).spec_registered(account_id@)
                &&& final(self).spec_role_of(account_id@) == role
                &&& final(self).spec_balance_of(account_id@) == old(self).spec_balance_of(
                    account_id@,
                )
                &&& old(self).same_accounts_except(*final(self), set![account_id@])
                &&& final(self).spec_token_pool() == old(self).spec_token_pool()
                &&& final(self).spec_total_supply() == old(self).spec_total_supply()
                &&& old(self).same_governance(*final(self))
            },
    {
        let authorized = match self.get_role(caller) {
            Some(Role::Core) => true,
            _ => false,
        };
        if !authorized {
            return Err(Error::UnauthorizedError);
        }
        if matches!(role, Role::Visitor) {
            return Err(Error::ValidationError);
        }
        let ghost s0 = self.accounts@;
        match self.find_account(account_id) {
            Some(i) => {
                proof {
                    lemma_index_of(s0, i as int);
                }
                let a = &self.accounts[i];
                let updated = Account { id: a.id.clone(), balance: a.balance, role };
                proof {
                    lemma_update_entry(s0, i as int, updated);
                }
                self.accounts[i] = updated;
            },
            None => {
                let fresh = Account { id: account_id.clone(), balance: 0, role };
                proof {
                    lemma_push_entry(s0, fresh);
                }
                self.accounts.push(fresh);
            },
        }
        Ok(())
    }

    /// Registers `account_id` as a fresh account with the core role
    /// and records it in the team list. Only a core caller may do
    /// this, and only for an identity not yet registered.
    ///
    /// Fails with `UnauthorizedError` for any other caller and with
    /// `AlreadyRegisteredError` for a known identity.
    pub fn add_team_member(&mut self, caller: &String, account_id: &String) -> (r: Result<
        (),
        Error,
    >)
        requires
            old(self).wf(),
        ensures
            final(self).wf(),
            !old(self).spec_authorized(caller@, set![Role::Core]) ==> r == Err::<(), Error>(
                Error::UnauthorizedError,
            ) && *final(self) == *old(self),
            old(self).spec_authorized(caller@, set![Role::Core]) && old(self).spec_registered(
                account_id@,
            ) ==> r == Err::<(), Error>(Error::AlreadyRegisteredError) && *final(self) == *old(
                self,
            ),
            old(self).spec_authorized(caller@, set![Role::Core]) && !old(self).spec_registered(
                account_id@,
            ) ==> r is Ok && {
                &&& final(self).spec_registered(account_id@)
                &&& final(self).spec_role_of(account_id@) == Role::Core
                &&& final(self).spec_balance_of(account_id@) == 0
                &&& old(self).same_accounts_except(*final(self), set![account_id@])
                &&& has_team(final(self).team_seq(), account_id@)
                &&& (if has_team(old(self).team_seq(), account_id@) {
                    final(self).team_seq() == old(self).team_seq()
                } else {
                    final(self).team_seq() == old(self).team_seq().push(*account_id)
                })
                &&& final(self).proposals_seq() == old(self).proposals_seq()
                &&& final(self).spec_token_pool() == old(self).spec_token_pool()
                &&& final(self).spec_total_supply() == old(self).spec_total_supply()
            },
    {
        let authorized = match self.get_role(caller) {
            Some(Role::Core) => true,
            _ => false,
        };
        if !authorized {
            return Err(Error::UnauthorizedError);
        }
        let ghost s0 = self.accounts@;
        match self.find_account(account_id) {
            Some(_) => { return Err(Error::AlreadyRegisteredError) },
            None => {
                let fresh = Account { id: account_id.clone(), balance: 0, role: Role::Core };
                proof {
                    lemma_push_entry(s0, fresh);
                }
                self.accounts.push(fresh);
            },
        }
        if !has_team_exec(&self.team_accounts, account_id) {
            let ghost t0 = self.team_accounts@;
            self.team_accounts.push(account_id.clone());
            proof {
                assert forall|i: int, j: int|
                    0 <= i < j < self.team_accounts@.len() implies self.team_accounts@[i]@
                    != self.team_accounts@[j]@ by {
                    if j == self.team_accounts@.len() - 1 {
                        assert(self.team_accounts@[i] == t0[i]);
                        if t0[i]@ == account_id@ {
                            assert(has_team(t0, account_id@));
                        }
                    }
                }
                assert(self.team_accounts@[self.team_accounts@.len() - 1]@ == account_id@);
            }
        }
        Ok(())
    }

    /// Removes every team-list entry carrying `account_id`, keeping
    /// the order of the rest. The account itself stays registered:
    /// identities persist. Only a core caller may do this.
    ///
    /// Fails with `UnauthorizedError` for any other caller.
    pub fn remove_team_member(&mut self, caller: &String, account_id: &String) -> (r: Result<
        (),
        Error,
    >)
        requires
            old(self).wf(),
        ensures
            final(self).wf(),
            !old(self).spec_authorized(caller@, set![Role::Core]) ==> r == Err::<(), Error>(
                Error::UnauthorizedError,
            ) && *final(self) == *old(self),
            old(self).spec_authorized(caller@, set![Role::Core]) ==> r is Ok && {
                &&& final(self).team_seq() == team_without(old(self).team_seq(), account_id@)
                &&& final(self).accounts@ == old(self).accounts@
                &&& final(self).proposals_seq() == old(self).proposals_seq()
                &&& final(self).spec_token_pool() == old(self).spec_token_pool()
                &&& final(self).spec_total_supply() == old(self).spec_total_supply()
            },
    {
        let authorized = match self.get_role(caller) {
            Some(Role::Core) => true,
            _ => false,
        };
        if !authorized {
            return Err(Error::UnauthorizedError);
        }
        let n = self.team_accounts.len();
        let mut kept: Vec<String> = Vec::new();
        for i in 0..n
            invariant
                n == self.team_accounts@.len(),
                kept@ == team_without(self.team_accounts@.subrange(0, i as int), account_id@),
        {
            proof {
                assert(self.team_accounts@.subrange(0, i as int + 1).drop_last()
                    =~= self.team_accounts@.subrange(0, i as int));
            }
            let entry = &self.team_accounts[i];
            if !(*entry == *account_id) {
                kept.push(entry.clone());
            }
        }
        proof {
            assert(self.team_accounts@.subrange(0, n as int) =~= self.team_accounts@);
            lemma_team_without(self.team_accounts@, account_id@);
        }
        self.team_accounts = kept;
        Ok(())
    }

    /// The team member identities, in the order they were added.
    pub fn get_team_accounts(&self) -> (r: &Vec<String>)
        ensures
            r@ == self.team_seq(),
    {
        &self.team_accounts
    }

    /// How a payout of `total_amount` host-currency units is
    /// apportioned as dividends: each account's share is its balance's
    /// part of the total supply, rounded down, and only positive
    /// shares are listed. The host layer pays the listed shares out.
    ///
    /// Fails with `ValidationError` when the total supply is zero and
    /// with `OverflowError` when a share computation would exceed the
    /// unsigned 128-bit range.
    pub fn dividend_shares(&self, total_amount: u128) -> (r: Result<Vec<(String, u128)>, Error>)
        requires
            self.wf(),
        ensures
            self.spec_total_supply() == 0 ==> r == Err::<Vec<(String, u128)>, Error>(
                Error::ValidationError,
            ),
            self.spec_total_supply() > 0 && (exists|i: int|
                0 <= i < self.accounts_seq().len() && (#[trigger] self.accounts_seq()[i]).balance
                    * total_amount > u128::MAX) ==> r == Err::<Vec<(String, u128)>, Error>(
                Error::OverflowError,
            ),
            self.spec_total_supply() > 0 && (forall|i: int|
                0 <= i < self.accounts_seq().len() ==> (#[trigger] self.accounts_seq()[i]).balance
                    * total_amount <= u128::MAX) ==> match r {
                Ok(shares) => shares@ == dividend_list(
                    self.accounts_seq(),
                    total_amount,
                    self.spec_total_supply(),
                ),
                Err(_) => false,
            },
    {
        if self.total_supply == 0 {
            return Err(Error::ValidationError);
        }
        let n = self.accounts.len();
        let mut out: Vec<(String, u128)> = Vec::new();
        for i in 0..n
            invariant
                self.wf(),
                self.total_supply > 0,
                n == self.accounts@.len(),
                forall|k: int|
                    0 <= k < i ==> (#[trigger] self.accounts@[k]).balance * total_amount
                        <= u128::MAX,
                out@ == dividend_list(
                    self.accounts@.subrange(0, i as int),
                    total_amount,
                    self.total_supply,
                ),
        {
            proof {
                assert(self.accounts@.subrange(0, i as int + 1).drop_last() =~= self.accounts@
                    .subrange(0, i as int));
            }
            let a = &self.accounts[i];
            let product = match a.balance.checked_mul(total_amount) {
                None => { return Err(Error::OverflowError) },
                Some(p) => p,
            };
            let share = product / self.total_supply;
            if share > 0 {
                out.push((a.id.clone(), share));
            }
        }
        proof {
            assert(self.accounts@.subrange(0, n as int) =~= self.accounts@);
        }
        Ok(out)
    }
}

/// The dividend apportioning of a payout `amount` over the accounts
/// `s` at total supply `total`: for each account, in registry order,
/// its balance's part of the payout rounded down, kept only when
/// positive.
pub open spec fn dividend_list(s: Seq<Account>, amount: u128, total: u128) -> Seq<(String, u128)>
    decreases s.len(),
{
    if s.len() == 0 {
        Seq::empty()
    } else {
        let rest = dividend_list(s.drop_last(), amount, total);
        let share = s.last().balance * amount / (total as int);
        if share > 0 {
            rest.push((s.last().id, share as u128))
        } else {
            rest
        }
    }
}

} // verus!
