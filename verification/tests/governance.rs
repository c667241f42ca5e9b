//! The governance engine: proposal creation, weighted voting,
//! finalization and execution.

use dao_core::Contract;
use dao_core::Error;
use dao_core::ProposalStatus;
use dao_core::Role;

fn new_proposal(c: &mut Contract, proposer: &String, amount: Option<u128>, target: Option<&str>) -> u64 {
    c.create_proposal(
        proposer,
        7,
        "a title".to_string(),
        "a description".to_string(),
        None,
        vec![],
        amount,
        target.map(|t| t.to_string()),
        None,
        None,
        None,
        None,
    )
    .unwrap()
}

#[test]
fn create_requires_core_or_community() {
    let owner = "owner.test".to_string();
    let visitor = "visitor.test".to_string();
    let ghost = "nobody.test".to_string();
    let mut c = Contract::new(&owner, 1_000, 0).unwrap();
    c.register_account(&visitor).unwrap();
    let denied = c.create_proposal(
        &visitor,
        1,
        "t".to_string(),
        "d".to_string(),
        None,
        vec![],
        None,
        None,
        None,
        None,
        None,
        None,
    );
    assert_eq!(denied.unwrap_err(), Error::UnauthorizedError);
    let denied = c.create_proposal(
        &ghost,
        1,
        "t".to_string(),
        "d".to_string(),
        None,
        vec![],
        None,
        None,
        None,
        None,
        None,
        None,
    );
    assert_eq!(denied.unwrap_err(), Error::UnauthorizedError);
    let id = new_proposal(&mut c, &owner, None, None);
    assert_eq!(id, 0);
    let p = c.get_proposal_by_id(0).unwrap();
    assert_eq!(p.status, ProposalStatus::Open);
    assert!(!p.executed);
    assert!(p.votes_for.is_empty() && p.votes_against.is_empty());
    assert_eq!(p.proposer, "owner.test");
    assert_eq!(new_proposal(&mut c, &owner, None, None), 1);
    assert_eq!(c.get_proposals().len(), 2);
    assert!(c.get_proposal_by_id(2).is_none());
}

#[test]
fn vote_weight_is_snapshot_at_cast_time() {
    let owner = "owner.test".to_string();
    let carol = "carol.test".to_string();
    let mut c = Contract::new(&owner, 1_000, 0).unwrap();
    c.register_account(&carol).unwrap();
    c.assign_role(&owner, &carol, Role::Community).unwrap();
    c.transfer(&owner, &carol, 300).unwrap();
    let id = new_proposal(&mut c, &owner, None, None);
    c.vote_on_proposal(&carol, id, true).unwrap();
    // Draining the balance after voting leaves the recorded weight as it was.
    c.transfer(&carol, &owner, 300).unwrap();
    let p = c.get_proposal_by_id(id).unwrap();
    assert_eq!(p.votes_for, vec![("carol.test".to_string(), 300u128)]);
}

#[test]
fn vote_errors() {
    let owner = "owner.test".to_string();
    let carol = "carol.test".to_string();
    let visitor = "visitor.test".to_string();
    let mut c = Contract::new(&owner, 1_000, 0).unwrap();
    c.register_account(&carol).unwrap();
    c.register_account(&visitor).unwrap();
    c.assign_role(&owner, &carol, Role::Community).unwrap();
    let id = new_proposal(&mut c, &owner, None, None);
    assert_eq!(c.vote_on_proposal(&visitor, id, true).unwrap_err(), Error::UnauthorizedError);
    assert_eq!(c.vote_on_proposal(&carol, 9, true).unwrap_err(), Error::NotFoundError);
    c.vote_on_proposal(&carol, id, true).unwrap();
    assert_eq!(c.vote_on_proposal(&carol, id, false).unwrap_err(), Error::DuplicateVoteError);
    assert_eq!(c.vote_on_proposal(&carol, id, true).unwrap_err(), Error::DuplicateVoteError);
    c.finalize_proposal(&owner, id).unwrap();
    assert_eq!(c.vote_on_proposal(&owner, id, true).unwrap_err(), Error::AlreadyFinalizedError);
}

#[test]
fn finalize_accepts_iff_for_exceeds_against() {
    let owner = "owner.test".to_string();
    let carol = "carol.test".to_string();
    let dave = "dave.test".to_string();
    let mut c = Contract::new(&owner, 1_000, 0).unwrap();
    for (who, balance) in [(&carol, 30u128), (&dave, 30u128)] {
        c.register_account(who).unwrap();
        c.assign_role(&owner, who, Role::Community).unwrap();
        c.transfer(&owner, who, balance).unwrap();
    }
    // A tie rejects.
    let id = new_proposal(&mut c, &owner, None, None);
    c.vote_on_proposal(&carol, id, true).unwrap();
    c.vote_on_proposal(&dave, id, false).unwrap();
    c.finalize_proposal(&owner, id).unwrap();
    assert_eq!(c.get_proposal_by_id(id).unwrap().status, ProposalStatus::Rejected);
    // Strictly more for-weight accepts.
    let id2 = new_proposal(&mut c, &owner, None, None);
    c.transfer(&dave, &carol, 10).unwrap();
    c.vote_on_proposal(&carol, id2, true).unwrap();
    c.vote_on_proposal(&dave, id2, false).unwrap();
    c.finalize_proposal(&owner, id2).unwrap();
    assert_eq!(c.get_proposal_by_id(id2).unwrap().status, ProposalStatus::Accepted);
    // Finalization is guarded: a second call fails.
    assert_eq!(c.finalize_proposal(&owner, id2).unwrap_err(), Error::AlreadyFinalizedError);
    // Only core or finance may finalize.
    let id3 = new_proposal(&mut c, &owner, None, None);
    assert_eq!(c.finalize_proposal(&carol, id3).unwrap_err(), Error::UnauthorizedError);
    assert_eq!(c.finalize_proposal(&owner, 9).unwrap_err(), Error::NotFoundError);
}

#[test]
fn finalize_overflows_on_huge_snapshot_weights() {
    // Weights are snapshots: the same units can be counted twice when
    // they move between votes, so the for-sum can exceed the range.
    let owner = "owner.test".to_string();
    let carol = "carol.test".to_string();
    let mut c = Contract::new(&owner, u128::MAX, 0).unwrap();
    c.register_account(&carol).unwrap();
    c.assign_role(&owner, &carol, Role::Community).unwrap();
    let id = new_proposal(&mut c, &owner, None, None);
    c.vote_on_proposal(&owner, id, true).unwrap();
    c.transfer(&owner, &carol, u128::MAX).unwrap();
    c.vote_on_proposal(&carol, id, true).unwrap();
    assert_eq!(c.finalize_proposal(&owner, id).unwrap_err(), Error::OverflowError);
    assert_eq!(c.get_proposal_by_id(id).unwrap().status, ProposalStatus::Open);
}

#[test]
fn execute_moves_funds_once() {
    let owner = "owner.test".to_string();
    let carol = "carol.test".to_string();
    let mut c = Contract::new(&owner, 1_000, 0).unwrap();
    c.register_account(&carol).unwrap();
    c.assign_role(&owner, &carol, Role::Community).unwrap();
    c.transfer(&owner, &carol, 10).unwrap();
    let id = new_proposal(&mut c, &owner, Some(75), Some("grantee.test"));
    c.vote_on_proposal(&carol, id, true).unwrap();
    c.finalize_proposal(&owner, id).unwrap();
    c.execute_proposal(&owner, &owner, id).unwrap();
    let grantee = "grantee.test".to_string();
    assert_eq!(c.ft_balance_of(&grantee), 75);
    assert_eq!(c.ft_balance_of(&owner), 1_000 - 10 - 75);
    assert!(c.get_proposal_by_id(id).unwrap().executed);
    // Execute-once: the second call fails and balances stay put.
    assert_eq!(c.execute_proposal(&owner, &owner, id).unwrap_err(), Error::AlreadyExecutedError);
    assert_eq!(c.ft_balance_of(&grantee), 75);
    assert_eq!(c.ft_balance_of(&owner), 1_000 - 10 - 75);
}

#[test]
fn execute_errors() {
    let owner = "owner.test".to_string();
    let carol = "carol.test".to_string();
    let mut c = Contract::new(&owner, 1_000, 0).unwrap();
    c.register_account(&carol).unwrap();
    c.assign_role(&owner, &carol, Role::Community).unwrap();
    c.transfer(&owner, &carol, 10).unwrap();
    // Not yet accepted.
    let open_id = new_proposal(&mut c, &owner, Some(10), Some("grantee.test"));
    assert_eq!(c.execute_proposal(&owner, &owner, open_id).unwrap_err(), Error::NotAcceptedError);
    assert_eq!(c.execute_proposal(&carol, &owner, open_id).unwrap_err(), Error::UnauthorizedError);
    assert_eq!(c.execute_proposal(&owner, &owner, 9).unwrap_err(), Error::NotFoundError);
    // Accepted but missing fields.
    let bare_id = new_proposal(&mut c, &owner, None, None);
    c.vote_on_proposal(&carol, bare_id, true).unwrap();
    c.finalize_proposal(&owner, bare_id).unwrap();
    assert_eq!(c.execute_proposal(&owner, &owner, bare_id).unwrap_err(), Error::MissingFieldError);
    // Accepted but the funding account cannot cover the amount.
    let rich_id = new_proposal(&mut c, &owner, Some(10_000), Some("grantee.test"));
    c.vote_on_proposal(&carol, rich_id, true).unwrap();
    c.finalize_proposal(&owner, rich_id).unwrap();
    assert_eq!(
        c.execute_proposal(&owner, &owner, rich_id).unwrap_err(),
        Error::InsufficientBalanceError
    );
    // A rejected proposal cannot be executed.
    let no_id = new_proposal(&mut c, &owner, Some(10), Some("grantee.test"));
    c.vote_on_proposal(&carol, no_id, false).unwrap();
    c.finalize_proposal(&owner, no_id).unwrap();
    assert_eq!(c.execute_proposal(&owner, &owner, no_id).unwrap_err(), Error::NotAcceptedError);
}

#[test]
fn governance_end_to_end_scenario() {
    // Genesis mints 1,000,000 units to the owner, with a side pool of
    // 40 unsold units to fund the two voters.
    let owner = "owner.test".to_string();
    let alice = "alice.test".to_string();
    let carol = "carol.test".to_string();
    let dave = "dave.test".to_string();
    let bob = "bob.test".to_string();
    let mut c = Contract::new(&owner, 1_000_040, 40).unwrap();
    assert_eq!(c.ft_balance_of(&owner), 1_000_000);
    // The owner registers Alice and sends her 100 units.
    c.register_account(&alice).unwrap();
    c.transfer(&owner, &alice, 100).unwrap();
    assert_eq!(c.ft_balance_of(&alice), 100);
    assert_eq!(c.ft_balance_of(&owner), 999_900);
    // Alice (community) proposes moving 50 units to Bob.
    c.assign_role(&owner, &alice, Role::Community).unwrap();
    let id = c
        .create_proposal(
            &alice,
            42,
            "fund bob".to_string(),
            "move 50 units to bob".to_string(),
            None,
            vec![],
            Some(50),
            Some("bob.test".to_string()),
            None,
            None,
            None,
            None,
        )
        .unwrap();
    // Carol (community, balance 30) votes for; Dave (community,
    // balance 10) votes against.
    for (who, balance) in [(&carol, 30u128), (&dave, 10u128)] {
        c.register_account(who).unwrap();
        c.assign_role(&owner, who, Role::Community).unwrap();
        c.deposit(who, balance).unwrap();
    }
    c.vote_on_proposal(&carol, id, true).unwrap();
    c.vote_on_proposal(&dave, id, false).unwrap();
    // 30 > 10: accepted.
    c.finalize_proposal(&owner, id).unwrap();
    assert_eq!(c.get_proposal_by_id(id).unwrap().status, ProposalStatus::Accepted);
    // Execution funds Bob from the owner's account.
    c.execute_proposal(&owner, &owner, id).unwrap();
    assert_eq!(c.ft_balance_of(&owner), 999_850);
    assert_eq!(c.ft_balance_of(&bob), 50);
    assert!(c.get_proposal_by_id(id).unwrap().executed);
    // A second execution fails and changes no balance.
    assert_eq!(c.execute_proposal(&owner, &owner, id).unwrap_err(), Error::AlreadyExecutedError);
    assert_eq!(c.ft_balance_of(&owner), 999_850);
    assert_eq!(c.ft_balance_of(&bob), 50);
    assert_eq!(c.ft_balance_of(&alice), 100);
}
