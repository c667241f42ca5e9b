//! The engine's laws, stated on their own. Each follows from the
//! contracts and invariants of the operations, and is proved here so
//! that a reader sees it written down rather than implied.

use vstd::prelude::*;

use crate::account::sum_balances;
use crate::proposal::voters_unique;
use crate::Contract;
use crate::Error;
use crate::ProposalStatus;
use crate::Role;

verus! {

/// No self-transfer: a transfer from an account to itself is refused
/// with `InvalidTransferError`, whatever the amount and whatever the
/// state.
pub proof fn lemma_no_self_transfer(c: Contract, account: Seq<char>, amount: u128)
    ensures
        c.transfer_error(account, account, amount) == Some(Error::InvalidTransferError),
{
}

/// Vote exclusivity: in a well-formed state, no identity appears
/// twice in a proposal's for-list or against-list, nor in both lists
/// at once. Every operation preserves well-formedness, so this holds
/// of every reachable proposal.
pub proof fn lemma_vote_exclusivity(c: Contract, i: int)
    requires
        c.wf(),
        0 <= i < c.proposals_seq().len(),
    ensures
        voters_unique(c.proposals_seq()[i].votes_for@),
        voters_unique(c.proposals_seq()[i].votes_against@),
        forall|a: int, b: int|
            0 <= a < c.proposals_seq()[i].votes_for@.len() && 0 <= b
                < c.proposals_seq()[i].votes_against@.len() ==> c.proposals_seq()[i].votes_for@[a].0@
                != c.proposals_seq()[i].votes_against@[b].0@,
{
    assert(crate::proposal::proposal_wf(c.proposals_seq()[i]));
}

/// Finalization happens at most once: a proposal that has left the
/// `Open` state is never finalized again — the attempt is refused
/// with `AlreadyFinalizedError` (for an authorized caller; an
/// unauthorized one is refused earlier still).
pub proof fn lemma_finalize_once(c: Contract, caller: Seq<char>, proposal_id: u64)
    requires
        proposal_id < c.proposals_seq().len(),
        c.proposals_seq()[proposal_id as int].status != ProposalStatus::Open,
        c.spec_authorized(caller, set![Role::Core, Role::Finance]),
    ensures
        c.finalize_error(caller, proposal_id) == Some(Error::AlreadyFinalizedError),
{
}

/// Execution happens at most once: once a proposal is marked
/// executed, every further attempt is refused with
/// `AlreadyExecutedError` (for an authorized caller), and by the
/// contract of `execute_proposal` a refused attempt changes no
/// balance.
pub proof fn lemma_execute_once(
    c: Contract,
    caller: Seq<char>,
    funding: Seq<char>,
    proposal_id: u64,
)
    requires
        c.wf(),
        proposal_id < c.proposals_seq().len(),
        c.proposals_seq()[proposal_id as int].executed,
        c.spec_authorized(caller, set![Role::Core, Role::Finance]),
    ensures
        c.execute_error(caller, funding, proposal_id) == Some(Error::AlreadyExecutedError),
{
    assert(crate::proposal::proposal_wf(c.proposals_seq()[proposal_id as int]));
}

/// The refund bound of the settlement protocol: whatever the receiver
/// declares, the refund never exceeds the original amount and never
/// exceeds the receiver's balance at resolution time; and whenever a
/// resolution pays a refund, the used amount it reports and the
/// refund rebuild the original amount exactly.
pub proof fn lemma_refund_bound(
    c: Contract,
    receiver: Seq<char>,
    amount: u128,
    declared: Option<u128>,
)
    ensures
        c.spec_refund(receiver, amount, declared) <= amount,
        c.spec_refund(receiver, amount, declared) <= c.spec_balance_of(receiver),
        (amount - c.spec_refund(receiver, amount, declared)) + c.spec_refund(
            receiver,
            amount,
            declared,
        ) == amount,
{
}

/// Conservation across an operation: a successful transfer changes
/// neither the sum of all balances plus the unsold pool nor the total
/// supply — together with [`crate::lemma_conservation`] this is the
/// induction step showing that the conservation equation holds at
/// every observation point of any sequence of successful operations.
pub proof fn lemma_transfer_conserves(
    pre: Contract,
    post: Contract,
    sender: Seq<char>,
    receiver: Seq<char>,
    amount: u128,
)
    requires
        pre.wf(),
        post.wf(),
        pre.transfer_effect(post, sender, receiver, amount),
    ensures
        sum_balances(post.accounts_seq()) + post.spec_token_pool() == sum_balances(
            pre.accounts_seq(),
        ) + pre.spec_token_pool(),
        post.spec_total_supply() == pre.spec_total_supply(),
{
}

} // verus!
