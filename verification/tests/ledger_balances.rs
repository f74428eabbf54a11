use blueshift_escrow::address::Address;
use blueshift_escrow::ledger::{Ledger, TransferError};

fn party(tag: u8) -> Address {
    Address { bytes: [tag; 32] }
}

#[test]
fn a_new_ledger_holds_nothing() {
    let ledger = Ledger::new();
    assert_eq!(ledger.balance_of(&party(1), &party(10)), 0);
}

#[test]
fn credit_adds_and_debit_takes() {
    let (owner, mint) = (party(1), party(10));
    let mut ledger = Ledger::new();
    assert_eq!(ledger.credit(&owner, &mint, 30), Ok(()));
    assert_eq!(ledger.credit(&owner, &mint, 12), Ok(()));
    assert_eq!(ledger.balance_of(&owner, &mint), 42);
    assert_eq!(ledger.debit(&owner, &mint, 40), Ok(()));
    assert_eq!(ledger.balance_of(&owner, &mint), 2);
    assert_eq!(ledger.debit(&owner, &mint, 2), Ok(()));
    assert_eq!(ledger.balance_of(&owner, &mint), 0);
}

#[test]
fn balances_are_kept_by_owner_and_asset() {
    let mut ledger = Ledger::new();
    ledger.credit(&party(1), &party(10), 1).unwrap();
    ledger.credit(&party(1), &party(11), 2).unwrap();
    ledger.credit(&party(2), &party(10), 3).unwrap();
    assert_eq!(ledger.balance_of(&party(1), &party(10)), 1);
    assert_eq!(ledger.balance_of(&party(1), &party(11)), 2);
    assert_eq!(ledger.balance_of(&party(2), &party(10)), 3);
    assert_eq!(ledger.balance_of(&party(2), &party(11)), 0);
    assert_eq!(ledger.balance_of(&party(10), &party(1)), 0);
}

#[test]
fn a_debit_beyond_the_balance_is_refused() {
    let (owner, mint) = (party(1), party(10));
    let mut ledger = Ledger::new();
    assert_eq!(ledger.debit(&owner, &mint, 1), Err(TransferError::InsufficientFunds));
    ledger.credit(&owner, &mint, 5).unwrap();
    assert_eq!(ledger.debit(&owner, &mint, 6), Err(TransferError::InsufficientFunds));
    assert_eq!(ledger.balance_of(&owner, &mint), 5);
    assert_eq!(ledger.debit(&owner, &mint, 0), Ok(()));
    assert_eq!(ledger.balance_of(&owner, &mint), 5);
}

#[test]
fn a_credit_beyond_the_largest_balance_is_refused() {
    let (owner, mint) = (party(1), party(10));
    let mut ledger = Ledger::new();
    ledger.credit(&owner, &mint, u64::MAX - 1).unwrap();
    assert_eq!(ledger.credit(&owner, &mint, 2), Err(TransferError::Overflow));
    assert_eq!(ledger.balance_of(&owner, &mint), u64::MAX - 1);
    assert_eq!(ledger.credit(&owner, &mint, 1), Ok(()));
    assert_eq!(ledger.balance_of(&owner, &mint), u64::MAX);
}

#[test]
fn a_transfer_moves_between_two_balances() {
    let (from, to, mint) = (party(1), party(2), party(10));
    let mut ledger = Ledger::new();
    ledger.credit(&from, &mint, 10).unwrap();
    ledger.credit(&to, &mint, 1).unwrap();
    assert_eq!(ledger.transfer(&from, &to, &mint, 4), Ok(()));
    assert_eq!(ledger.balance_of(&from, &mint), 6);
    assert_eq!(ledger.balance_of(&to, &mint), 5);
    assert_eq!(ledger.transfer(&from, &to, &mint, 7), Err(TransferError::InsufficientFunds));
    assert_eq!(ledger.balance_of(&from, &mint), 6);
    assert_eq!(ledger.balance_of(&to, &mint), 5);
}

#[test]
fn a_refused_transfer_moves_nothing() {
    let (from, to, mint) = (party(1), party(2), party(10));
    let mut ledger = Ledger::new();
    ledger.credit(&from, &mint, 10).unwrap();
    ledger.credit(&to, &mint, u64::MAX - 3).unwrap();
    assert_eq!(ledger.transfer(&from, &to, &mint, 4), Err(TransferError::Overflow));
    assert_eq!(ledger.balance_of(&from, &mint), 10);
    assert_eq!(ledger.balance_of(&to, &mint), u64::MAX - 3);
    assert_eq!(ledger.transfer(&from, &to, &mint, 3), Ok(()));
    assert_eq!(ledger.balance_of(&from, &mint), 7);
    assert_eq!(ledger.balance_of(&to, &mint), u64::MAX);
}

#[test]
fn a_party_may_pay_itself_what_it_holds() {
    let (owner, mint) = (party(1), party(10));
    let mut ledger = Ledger::new();
    ledger.credit(&owner, &mint, u64::MAX).unwrap();
    assert_eq!(ledger.transfer(&owner, &owner, &mint, u64::MAX), Ok(()));
    assert_eq!(ledger.balance_of(&owner, &mint), u64::MAX);
    let poor = party(2);
    assert_eq!(ledger.transfer(&poor, &poor, &mint, 1), Err(TransferError::InsufficientFunds));
}

#[test]
fn a_copy_is_a_ledger_of_its_own() {
    let (owner, mint) = (party(1), party(10));
    let mut ledger = Ledger::new();
    ledger.credit(&owner, &mint, 9).unwrap();
    let mut twin = ledger.copy();
    assert_eq!(twin.balance_of(&owner, &mint), 9);
    twin.debit(&owner, &mint, 4).unwrap();
    assert_eq!(twin.balance_of(&owner, &mint), 5);
    assert_eq!(ledger.balance_of(&owner, &mint), 9);
}
