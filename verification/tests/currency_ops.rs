//! Tests of approvals and delegated transfers over a single funded account,
//! the degenerate single-asset use of the ledger: one token is minted to
//! fund the owner, and every call then names that token.

use token_ledger::Error;
use token_ledger::Event;
use token_ledger::Ledger;

const TOKEN: u64 = 1;

fn funded_ledger(owner: u64, amount: u64) -> Ledger {
    let mut ledger = Ledger::new(32, 8);
    let minted = ledger.mint(owner, "CURRENCY".as_bytes().to_vec(), "CUR".as_bytes().to_vec(), amount);
    assert!(minted.is_ok());
    ledger
}

#[test]
fn can_approve_spender() {
    let alice: u64 = 1;
    let bob: u64 = 2;
    let amount_approved: u64 = 100;
    let mut ledger = funded_ledger(alice, amount_approved);

    let approved_amount = ledger.allowance(TOKEN, alice, bob);
    assert_eq!(approved_amount, 0);

    let approved = ledger.approve(alice, bob, TOKEN, amount_approved);
    assert_eq!(
        approved,
        Ok(Event::Approved { token_id: TOKEN, owner: alice, spender: bob, amount: amount_approved })
    );

    let approved_amount = ledger.allowance(TOKEN, alice, bob);
    assert_eq!(approved_amount, amount_approved);
}

#[test]
fn tests_can_transfer_from() {
    let alice: u64 = 1;
    let bob: u64 = 2;
    let amount_total: u64 = 100;
    let amount_transfer: u64 = 80;
    let mut ledger = funded_ledger(alice, amount_total);
    assert_eq!(ledger.balance_of(TOKEN, alice), amount_total);

    let approved = ledger.approve(alice, bob, TOKEN, amount_transfer);
    assert!(approved.is_ok());

    let moved = ledger.transfer_from(bob, TOKEN, alice, bob, amount_transfer);

    assert_eq!(
        moved,
        Ok(Event::TransferredFrom {
            spender: bob,
            from: alice,
            to: bob,
            amount: amount_transfer
        })
    );

    assert_eq!(ledger.balance_of(TOKEN, alice), amount_total - amount_transfer);

    assert_eq!(ledger.balance_of(TOKEN, bob), amount_transfer);
}

#[test]
fn cannot_transfer_from_when_not_approved() {
    let alice: u64 = 1;
    let bob: u64 = 2;
    let amount_total: u64 = 100;
    let amount_transfer: u64 = 80;
    let mut ledger = funded_ledger(alice, amount_total);
    assert_eq!(ledger.balance_of(TOKEN, alice), amount_total);

    let moved = ledger.transfer_from(bob, TOKEN, alice, bob, amount_transfer);
    assert_eq!(moved, Err(Error::NotApproved));

    assert_eq!(ledger.balance_of(TOKEN, alice), amount_total);
    assert_eq!(ledger.balance_of(TOKEN, bob), 0);
}

#[test]
fn approved_amount_is_reduced_when_transferred() {
    let alice: u64 = 1;
    let bob: u64 = 2;
    let amount_total: u64 = 100;
    let amount_transfer: u64 = 80;
    let mut ledger = funded_ledger(alice, amount_total);
    assert_eq!(ledger.balance_of(TOKEN, alice), amount_total);

    let approved = ledger.approve(alice, bob, TOKEN, amount_transfer);
    assert!(approved.is_ok());

    let approved_amount = ledger.allowance(TOKEN, alice, bob);
    assert_eq!(approved_amount, amount_transfer);

    let moved = ledger.transfer_from(bob, TOKEN, alice, bob, amount_transfer);
    assert!(moved.is_ok());

    let approved_amount = ledger.allowance(TOKEN, alice, bob);
    assert_eq!(approved_amount, 0);
}

#[test]
fn can_transfer_currency() {
    let alice: u64 = 1;
    let bob: u64 = 2;
    let starting_balance: u64 = 100;
    let transfer_amount: u64 = 50;
    let mut ledger = funded_ledger(alice, starting_balance);

    let balance_alice = ledger.balance_of(TOKEN, alice);
    let balance_bob = ledger.balance_of(TOKEN, bob);
    assert_eq!(balance_alice, starting_balance);
    assert_eq!(balance_bob, 0);

    let transferred = ledger.transfer(alice, bob, TOKEN, transfer_amount);

    let balance_alice = ledger.balance_of(TOKEN, alice);
    let balance_bob = ledger.balance_of(TOKEN, bob);
    assert_eq!(balance_alice, starting_balance - transfer_amount);
    assert_eq!(balance_bob, transfer_amount);

    assert_eq!(
        transferred,
        Ok(Event::Transferred { from: alice, to: bob, amount: transfer_amount })
    );
}
