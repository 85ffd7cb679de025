//! Behavioural tests of the ledger: the construction and transfer
//! scenarios, the error condition, and the conservation of the supply.

use erc20::AccountId;
use erc20::Erc20;
use erc20::Transfered;

#[test]
fn construction_assigns_whole_supply_to_owner() {
    let owner = AccountId(1);
    let (ledger, genesis) = Erc20::new(1000, owner);
    assert_eq!(ledger.total_supply(), 1000);
    assert_eq!(ledger.balance_of(owner), 1000);
    assert_eq!(
        genesis,
        Transfered { from: None, to: Some(owner), amount: 1000 }
    );
}

#[test]
fn transfer_moves_amount_and_reports_it() {
    let a = AccountId(1);
    let b = AccountId(2);
    let (mut ledger, _) = Erc20::new(1000, a);
    let note = ledger.transfer(a, b, 300);
    assert_eq!(
        note,
        Some(Transfered { from: Some(a), to: Some(b), amount: 300 })
    );
    assert_eq!(ledger.balance_of(a), 700);
    assert_eq!(ledger.balance_of(b), 300);
}

#[test]
fn insufficient_funds_fails_and_mutates_nothing() {
    let a = AccountId(1);
    let b = AccountId(2);
    let c = AccountId(3);
    let (mut ledger, _) = Erc20::new(1000, a);
    ledger.transfer(a, b, 300);
    let note = ledger.transfer(b, c, 500);
    assert_eq!(note, None);
    assert_eq!(ledger.balance_of(b), 300);
    assert_eq!(ledger.balance_of(c), 0);
    assert_eq!(ledger.balance_of(a), 700);
    assert_eq!(ledger.total_supply(), 1000);
}

#[test]
fn self_transfer_succeeds_and_leaves_balance_unchanged() {
    let a = AccountId(1);
    let b = AccountId(2);
    let (mut ledger, _) = Erc20::new(1000, a);
    ledger.transfer(a, b, 300);
    let note = ledger.transfer(a, a, 50);
    assert_eq!(
        note,
        Some(Transfered { from: Some(a), to: Some(a), amount: 50 })
    );
    assert_eq!(ledger.balance_of(a), 700);
}

#[test]
fn zero_amount_transfer_succeeds_with_notification() {
    let a = AccountId(1);
    let b = AccountId(2);
    let (mut ledger, _) = Erc20::new(1000, a);
    let note = ledger.transfer(a, b, 0);
    assert_eq!(
        note,
        Some(Transfered { from: Some(a), to: Some(b), amount: 0 })
    );
    assert_eq!(ledger.balance_of(a), 1000);
    assert_eq!(ledger.balance_of(b), 0);
}

#[test]
fn absent_account_holds_zero_and_can_send_nothing() {
    let owner = AccountId(1);
    let stranger = AccountId(9);
    let other = AccountId(2);
    let (mut ledger, _) = Erc20::new(1000, owner);
    assert_eq!(ledger.balance_of(stranger), 0);
    assert_eq!(ledger.transfer(stranger, other, 1), None);
    let note = ledger.transfer(stranger, other, 0);
    assert_eq!(
        note,
        Some(Transfered { from: Some(stranger), to: Some(other), amount: 0 })
    );
    assert_eq!(ledger.balance_of(other), 0);
}

#[test]
fn full_balance_can_be_sent_away() {
    let a = AccountId(1);
    let b = AccountId(2);
    let (mut ledger, _) = Erc20::new(1000, a);
    let note = ledger.transfer(a, b, 1000);
    assert!(note.is_some());
    assert_eq!(ledger.balance_of(a), 0);
    assert_eq!(ledger.balance_of(b), 1000);
    assert_eq!(ledger.transfer(a, b, 1), None);
}

#[test]
fn largest_supply_moves_without_overflow() {
    let a = AccountId(1);
    let b = AccountId(2);
    let (mut ledger, _) = Erc20::new(u128::MAX, a);
    assert!(ledger.transfer(a, b, u128::MAX).is_some());
    assert_eq!(ledger.balance_of(a), 0);
    assert_eq!(ledger.balance_of(b), u128::MAX);
    assert!(ledger.transfer(b, a, 1).is_some());
    assert_eq!(ledger.balance_of(a), 1);
    assert_eq!(ledger.balance_of(b), u128::MAX - 1);
    assert_eq!(ledger.total_supply(), u128::MAX);
}

#[test]
fn zero_supply_is_a_valid_degenerate_state() {
    let a = AccountId(1);
    let b = AccountId(2);
    let (mut ledger, genesis) = Erc20::new(0, a);
    assert_eq!(ledger.total_supply(), 0);
    assert_eq!(ledger.balance_of(a), 0);
    assert_eq!(genesis, Transfered { from: None, to: Some(a), amount: 0 });
    assert_eq!(ledger.transfer(a, b, 1), None);
    assert!(ledger.transfer(a, b, 0).is_some());
}

#[test]
fn queries_are_idempotent() {
    let a = AccountId(1);
    let b = AccountId(2);
    let (mut ledger, _) = Erc20::new(1000, a);
    ledger.transfer(a, b, 400);
    assert_eq!(ledger.balance_of(a), ledger.balance_of(a));
    assert_eq!(ledger.balance_of(b), ledger.balance_of(b));
    assert_eq!(ledger.total_supply(), ledger.total_supply());
    let first: u128 = ledger.balance_of(a);
    let second: u128 = ledger.balance_of(a);
    assert_eq!(first, 600);
    assert_eq!(second, 600);
}

#[test]
fn supply_is_conserved_across_transfer_sequences() {
    let accounts = [
        AccountId(1),
        AccountId(2),
        AccountId(3),
        AccountId(4),
    ];
    let (mut ledger, _) = Erc20::new(1000, accounts[0]);
    let moves = [
        (0usize, 1usize, 250u128),
        (0, 2, 100),
        (1, 3, 50),
        (2, 2, 100),
        (3, 0, 25),
        (1, 2, 9999),
    ];
    for (from, to, amount) in moves {
        ledger.transfer(accounts[from], accounts[to], amount);
        let mut sum: u128 = 0;
        for account in accounts {
            sum += ledger.balance_of(account);
        }
        assert_eq!(sum, ledger.total_supply());
    }
}
