//! The ledger: genesis, registration, pool-backed deposits and
//! withdrawals, atomic transfers, and the conservation equation.

use dao_core::Contract;
use dao_core::Error;
use dao_core::Role;

fn conserved(c: &Contract) -> bool {
    let balances: u128 = c.get_all_balances().iter().map(|(_, b)| *b).sum();
    balances + c.get_token_pool() == c.get_total_supply()
}

#[test]
fn genesis_mints_to_owner() {
    let owner = "owner.test".to_string();
    let c = Contract::new(&owner, 1_000_000, 0).unwrap();
    assert_eq!(c.get_total_supply(), 1_000_000);
    assert_eq!(c.get_token_pool(), 0);
    assert_eq!(c.ft_balance_of(&owner), 1_000_000);
    assert_eq!(c.get_role(&owner), Some(Role::Core));
    assert!(conserved(&c));
}

#[test]
fn genesis_splits_pool() {
    let owner = "owner.test".to_string();
    let c = Contract::new(&owner, 1_000, 600).unwrap();
    assert_eq!(c.ft_balance_of(&owner), 400);
    assert_eq!(c.get_token_pool(), 600);
    assert!(conserved(&c));
}

#[test]
fn genesis_rejects_oversized_pool() {
    let owner = "owner.test".to_string();
    assert!(matches!(Contract::new(&owner, 100, 101), Err(Error::ValidationError)));
}

#[test]
fn genesis_at_the_top_of_the_range() {
    let owner = "owner.test".to_string();
    let alice = "alice.test".to_string();
    let mut c = Contract::new(&owner, u128::MAX, 0).unwrap();
    assert_eq!(c.ft_balance_of(&owner), u128::MAX);
    c.register_account(&alice).unwrap();
    // The full supply can move without overflowing anything.
    c.transfer(&owner, &alice, u128::MAX).unwrap();
    assert_eq!(c.ft_balance_of(&owner), 0);
    assert_eq!(c.ft_balance_of(&alice), u128::MAX);
    assert!(conserved(&c));
}

#[test]
fn register_then_duplicate_register() {
    let owner = "owner.test".to_string();
    let alice = "alice.test".to_string();
    let mut c = Contract::new(&owner, 1_000, 0).unwrap();
    assert!(c.register_account(&alice).is_ok());
    assert_eq!(c.ft_balance_of(&alice), 0);
    assert_eq!(c.get_role(&alice), Some(Role::Visitor));
    assert_eq!(c.register_account(&alice).unwrap_err(), Error::AlreadyRegisteredError);
    assert_eq!(c.register_account(&owner).unwrap_err(), Error::AlreadyRegisteredError);
}

#[test]
fn deposit_draws_from_pool() {
    let owner = "owner.test".to_string();
    let alice = "alice.test".to_string();
    let mut c = Contract::new(&owner, 1_000, 300).unwrap();
    c.register_account(&alice).unwrap();
    assert!(c.deposit(&alice, 120).is_ok());
    assert_eq!(c.ft_balance_of(&alice), 120);
    assert_eq!(c.get_token_pool(), 180);
    assert!(conserved(&c));
}

#[test]
fn deposit_errors() {
    let owner = "owner.test".to_string();
    let ghost = "nobody.test".to_string();
    let mut c = Contract::new(&owner, 1_000, 50).unwrap();
    assert_eq!(c.deposit(&ghost, 10).unwrap_err(), Error::NotFoundError);
    assert_eq!(c.deposit(&owner, 51).unwrap_err(), Error::InsufficientBalanceError);
    assert_eq!(c.ft_balance_of(&owner), 950);
    assert_eq!(c.get_token_pool(), 50);
}

#[test]
fn withdraw_returns_to_pool() {
    let owner = "owner.test".to_string();
    let mut c = Contract::new(&owner, 1_000, 0).unwrap();
    assert!(c.withdraw(&owner, 400).is_ok());
    assert_eq!(c.ft_balance_of(&owner), 600);
    assert_eq!(c.get_token_pool(), 400);
    assert!(conserved(&c));
    assert_eq!(c.withdraw(&owner, 601).unwrap_err(), Error::InsufficientBalanceError);
    let ghost = "nobody.test".to_string();
    assert_eq!(c.withdraw(&ghost, 1).unwrap_err(), Error::NotFoundError);
}

#[test]
fn transfer_moves_funds_atomically() {
    let owner = "owner.test".to_string();
    let alice = "alice.test".to_string();
    let mut c = Contract::new(&owner, 1_000, 0).unwrap();
    c.register_account(&alice).unwrap();
    assert!(c.transfer(&owner, &alice, 250).is_ok());
    assert_eq!(c.ft_balance_of(&owner), 750);
    assert_eq!(c.ft_balance_of(&alice), 250);
    assert!(conserved(&c));
}

#[test]
fn self_transfer_always_fails() {
    let owner = "owner.test".to_string();
    let mut c = Contract::new(&owner, 1_000, 0).unwrap();
    for amount in [0u128, 1, 999, u128::MAX] {
        assert_eq!(c.transfer(&owner, &owner, amount).unwrap_err(), Error::InvalidTransferError);
    }
    assert_eq!(c.ft_balance_of(&owner), 1_000);
}

#[test]
fn transfer_errors_leave_state_unchanged() {
    let owner = "owner.test".to_string();
    let alice = "alice.test".to_string();
    let ghost = "nobody.test".to_string();
    let mut c = Contract::new(&owner, 1_000, 0).unwrap();
    c.register_account(&alice).unwrap();
    assert_eq!(c.transfer(&owner, &alice, 0).unwrap_err(), Error::InvalidTransferError);
    assert_eq!(c.transfer(&ghost, &alice, 5).unwrap_err(), Error::NotFoundError);
    assert_eq!(c.transfer(&owner, &ghost, 5).unwrap_err(), Error::NotFoundError);
    assert_eq!(c.transfer(&alice, &owner, 1).unwrap_err(), Error::InsufficientBalanceError);
    assert_eq!(c.ft_balance_of(&owner), 1_000);
    assert_eq!(c.ft_balance_of(&alice), 0);
    assert!(conserved(&c));
}

#[test]
fn conservation_across_operation_sequence() {
    let owner = "owner.test".to_string();
    let alice = "alice.test".to_string();
    let bob = "bob.test".to_string();
    let mut c = Contract::new(&owner, 10_000, 2_000).unwrap();
    assert!(conserved(&c));
    c.register_account(&alice).unwrap();
    assert!(conserved(&c));
    c.register_account(&bob).unwrap();
    assert!(conserved(&c));
    c.deposit(&alice, 700).unwrap();
    assert!(conserved(&c));
    c.transfer(&owner, &bob, 1_234).unwrap();
    assert!(conserved(&c));
    c.withdraw(&bob, 34).unwrap();
    assert!(conserved(&c));
    c.transfer(&alice, &bob, 700).unwrap();
    assert!(conserved(&c));
    assert_eq!(c.ft_balance_of(&owner), 8_000 - 1_234);
    assert_eq!(c.ft_balance_of(&alice), 0);
    assert_eq!(c.ft_balance_of(&bob), 1_900);
    assert_eq!(c.get_token_pool(), 2_000 - 700 + 34);
}

#[test]
fn balance_of_unregistered_is_zero_not_error() {
    let owner = "owner.test".to_string();
    let ghost = "nobody.test".to_string();
    let c = Contract::new(&owner, 1_000, 0).unwrap();
    assert_eq!(c.ft_balance_of(&ghost), 0);
    assert_eq!(c.get_role(&ghost), None);
    assert_eq!(c.ft_total_supply(), 1_000);
}

#[test]
fn ft_transfer_matches_transfer() {
    let owner = "owner.test".to_string();
    let alice = "alice.test".to_string();
    let mut c = Contract::new(&owner, 500, 0).unwrap();
    c.register_account(&alice).unwrap();
    assert!(c.ft_transfer(&owner, &alice, 99).is_ok());
    assert_eq!(c.ft_balance_of(&alice), 99);
    assert_eq!(c.ft_transfer(&alice, &alice, 1).unwrap_err(), Error::InvalidTransferError);
}
