//! Proposals: governance actions subject to voting before execution.
//!
//! A proposal is created `Open`, accumulates weighted votes while it
//! stays `Open`, is finalized exactly once to `Accepted` or
//! `Rejected`, and an accepted one may later be executed exactly
//! once. The vote weight is the voter's balance captured at the
//! moment the vote is cast; it is never recomputed.

use vstd::prelude::*;

use crate::account::Role;

verus! {

/// Where a proposal stands in its lifecycle. An executed proposal
/// keeps the `Accepted` status; its `executed` flag marks the
/// terminal state.
#[derive(Clone, Copy, Debug, PartialEq, Eq, Structural)]
pub enum ProposalStatus {
    Open,
    Accepted,
    Rejected,
}

/// A governance action: its descriptive fields, its optional fund
/// movement (amount and target), and the votes cast so far as ordered
/// (voter identity, weight) lists.
pub struct Proposal {
    pub id: u64,
    pub title: String,
    pub description: String,
    pub created_at: u64,
    pub proposer: String,
    pub executed: bool,
    pub votes_for: Vec<(String, u128)>,
    pub votes_against: Vec<(String, u128)>,
    pub status: ProposalStatus,
    pub link: Option<String>,
    pub tags: Vec<String>,
    pub amount: Option<u128>,
    pub target_account: Option<String>,
    pub category: Option<String>,
    pub deadline: Option<u64>,
    pub required_role: Option<Role>,
    pub quorum: Option<u128>,
}

/// `id` appears among the voters of `votes`.
pub open spec fn has_voter(votes: Seq<(String, u128)>, id: Seq<char>) -> bool {
    exists|i: int| 0 <= i < votes.len() && votes[i].0@ == id
}

/// `id` has already voted on `p`, on either side.
pub open spec fn has_voted(p: Proposal, id: Seq<char>) -> bool {
    has_voter(p.votes_for@, id) || has_voter(p.votes_against@, id)
}

/// The voters of `votes` are pairwise distinct.
pub open spec fn voters_unique(votes: Seq<(String, u128)>) -> bool {
    forall|i: int, j: int| 0 <= i < j < votes.len() ==> votes[i].0@ != votes[j].0@
}

/// No identity appears twice in either vote list, nor in both: each
/// identity votes at most once for the lifetime of the proposal.
pub open spec fn votes_exclusive(p: Proposal) -> bool {
    voters_unique(p.votes_for@) && voters_unique(p.votes_against@) && (forall|i: int, j: int|
        0 <= i < p.votes_for@.len() && 0 <= j < p.votes_against@.len()
            ==> p.votes_for@[i].0@ != p.votes_against@[j].0@)
}

/// The total weight of a vote list, as an unbounded integer.
pub open spec fn weight_sum(votes: Seq<(String, u128)>) -> int
    decreases votes.len(),
{
    if votes.len() == 0 {
        0
    } else {
        weight_sum(votes.drop_last()) + votes.last().1
    }
}

/// A proposal is well formed when its vote lists are exclusive and
/// only an accepted proposal can be marked executed.
pub open spec fn proposal_wf(p: Proposal) -> bool {
    votes_exclusive(p) && (p.executed ==> p.status == ProposalStatus::Accepted)
}

/// `p1` agrees with `p0` on every field but the two vote lists.
pub open spec fn same_proposal_except_votes(p0: Proposal, p1: Proposal) -> bool {
    &&& p1.id == p0.id
    &&& p1.title == p0.title
    &&& p1.description == p0.description
    &&& p1.created_at == p0.created_at
    &&& p1.proposer == p0.proposer
    &&& p1.executed == p0.executed
    &&& p1.status == p0.status
    &&& p1.link == p0.link
    &&& p1.tags == p0.tags
    &&& p1.amount == p0.amount
    &&& p1.target_account == p0.target_account
    &&& p1.category == p0.category
    &&& p1.deadline == p0.deadline
    &&& p1.required_role == p0.required_role
    &&& p1.quorum == p0.quorum
}

/// `p1` agrees with `p0` on every field but `status`.
pub open spec fn same_proposal_except_status(p0: Proposal, p1: Proposal) -> bool {
    &&& p1.id == p0.id
    &&& p1.title == p0.title
    &&& p1.description == p0.description
    &&& p1.created_at == p0.created_at
    &&& p1.proposer == p0.proposer
    &&& p1.executed == p0.executed
    &&& p1.votes_for == p0.votes_for
    &&& p1.votes_against == p0.votes_against
    &&& p1.link == p0.link
    &&& p1.tags == p0.tags
    &&& p1.amount == p0.amount
    &&& p1.target_account == p0.target_account
    &&& p1.category == p0.category
    &&& p1.deadline == p0.deadline
    &&& p1.required_role == p0.required_role
    &&& p1.quorum == p0.quorum
}

/// `p1` agrees with `p0` on every field but `executed`.
pub open spec fn same_proposal_except_executed(p0: Proposal, p1: Proposal) -> bool {
    &&& p1.id == p0.id
    &&& p1.title == p0.title
    &&& p1.description == p0.description
    &&& p1.created_at == p0.created_at
    &&& p1.proposer == p0.proposer
    &&& p1.status == p0.status
    &&& p1.votes_for == p0.votes_for
    &&& p1.votes_against == p0.votes_against
    &&& p1.link == p0.link
    &&& p1.tags == p0.tags
    &&& p1.amount == p0.amount
    &&& p1.target_account == p0.target_account
    &&& p1.category == p0.category
    &&& p1.deadline == p0.deadline
    &&& p1.required_role == p0.required_role
    &&& p1.quorum == p0.quorum
}

/// A prefix of a vote list never outweighs the whole list.
pub proof fn lemma_weight_sum_prefix(votes: Seq<(String, u128)>, n: int)
    requires
        0 <= n <= votes.len(),
    ensures
        weight_sum(votes.subrange(0, n)) <= weight_sum(votes),
    decreases votes.len() - n,
{
    if n == votes.len() {
        assert(votes.subrange(0, n) =~= votes);
    } else {
        lemma_weight_sum_step(votes, n);
        lemma_weight_sum_prefix(votes, n + 1);
    }
}

/// Extending a prefix by one vote adds that vote's weight.
pub proof fn lemma_weight_sum_step(votes: Seq<(String, u128)>, n: int)
    requires
        0 <= n < votes.len(),
    ensures
        weight_sum(votes.subrange(0, n + 1)) == weight_sum(votes.subrange(0, n)) + votes[n].1,
{
    assert(votes.subrange(0, n + 1).drop_last() =~= votes.subrange(0, n));
    assert(votes.subrange(0, n + 1).last() == votes[n]);
}

/// Appending a vote with a fresh voter keeps the lists exclusive.
pub proof fn lemma_push_voter(votes: Seq<(String, u128)>, v: (String, u128))
    requires
        voters_unique(votes),
        !has_voter(votes, v.0@),
    ensures
        voters_unique(votes.push(v)),
        has_voter(votes.push(v), v.0@),
        forall|x: Seq<char>| x != v.0@ ==> has_voter(votes.push(v), x) == has_voter(votes, x),
        weight_sum(votes.push(v)) == weight_sum(votes) + v.1,
{
    let s2 = votes.push(v);
    assert forall|i: int, j: int| 0 <= i < j < s2.len() implies s2[i].0@ != s2[j].0@ by {
        if j < votes.len() {
        } else {
            assert(s2[i] == votes[i]);
            if votes[i].0@ == v.0@ {
                assert(has_voter(votes, v.0@));
            }
        }
    }
    assert(s2[votes.len() as int] == v);
    assert forall|x: Seq<char>| x != v.0@ implies has_voter(s2, x) == has_voter(votes, x) by {
        if has_voter(s2, x) {
            let k = choose|k: int| 0 <= k < s2.len() && s2[k].0@ == x;
            assert(k < votes.len());
            assert(votes[k].0@ == x);
        }
        if has_voter(votes, x) {
            let k = choose|k: int| 0 <= k < votes.len() && votes[k].0@ == x;
            assert(s2[k].0@ == x);
        }
    }
    assert(s2.drop_last() =~= votes);
}

} // verus!
