//! Tests of the stated properties of the ledger: conservation of supply,
//! atomic rejection, overwrite semantics of approvals, the error taxonomy,
//! and the end-to-end scenarios.

use token_ledger::AllowanceStore;
use token_ledger::BalanceStore;
use token_ledger::DbWeight;
use token_ledger::Error;
use token_ledger::Event;
use token_ledger::Ledger;
use token_ledger::SubstrateWeight;
use token_ledger::TokenRegistry;

const ALICE: u64 = 1;
const BOB: u64 = 2;
const DAVE: u64 = 3;

fn new_ledger() -> Ledger {
    Ledger::new(32, 8)
}

fn mint_my_token(ledger: &mut Ledger, minter: u64, supply: u64) -> Result<Event, Error> {
    ledger.mint(minter, "MY_TOKEN".as_bytes().to_vec(), "MTKN".as_bytes().to_vec(), supply)
}

/// The sum of the balances of `token` over `accounts`, which must cover
/// every account ever credited in these tests.
fn sum_of(ledger: &Ledger, token: u64, accounts: &[u64]) -> u64 {
    let mut total: u64 = 0;
    for a in accounts {
        total += ledger.balance_of(token, *a);
    }
    total
}

#[test]
fn supply_is_conserved_after_every_operation() {
    let mut ledger = new_ledger();
    let accounts: [u64; 3] = [ALICE, BOB, DAVE];

    assert!(mint_my_token(&mut ledger, ALICE, 1000).is_ok());
    assert_eq!(sum_of(&ledger, 1, &accounts), 1000);

    assert!(ledger.transfer(ALICE, BOB, 1, 400).is_ok());
    assert_eq!(sum_of(&ledger, 1, &accounts), 1000);

    assert!(ledger.transfer(BOB, DAVE, 1, 5000).is_err());
    assert_eq!(sum_of(&ledger, 1, &accounts), 1000);

    assert!(ledger.approve(ALICE, BOB, 1, 300).is_ok());
    assert_eq!(sum_of(&ledger, 1, &accounts), 1000);

    assert!(ledger.transfer_from(BOB, 1, ALICE, DAVE, 250).is_ok());
    assert_eq!(sum_of(&ledger, 1, &accounts), 1000);

    assert!(ledger.transfer(DAVE, DAVE, 1, 250).is_ok());
    assert_eq!(sum_of(&ledger, 1, &accounts), 1000);
}

#[test]
fn failed_transfer_changes_no_balance() {
    let mut ledger = new_ledger();
    assert!(mint_my_token(&mut ledger, ALICE, 100).is_ok());

    let res = ledger.transfer(ALICE, BOB, 1, 101);
    assert_eq!(res, Err(Error::InsufficientBalance));
    assert_eq!(ledger.balance_of(1, ALICE), 100);
    assert_eq!(ledger.balance_of(1, BOB), 0);
}

#[test]
fn approve_overwrites_instead_of_adding() {
    let mut ledger = new_ledger();
    assert!(mint_my_token(&mut ledger, ALICE, 100).is_ok());

    assert!(ledger.approve(ALICE, BOB, 1, 5).is_ok());
    assert_eq!(ledger.allowance(1, ALICE, BOB), 5);

    assert!(ledger.approve(ALICE, BOB, 1, 2).is_ok());
    assert_eq!(ledger.allowance(1, ALICE, BOB), 2);

    assert!(ledger.approve(ALICE, BOB, 1, 0).is_ok());
    assert_eq!(ledger.allowance(1, ALICE, BOB), 0);
}

#[test]
fn transfer_from_distinguishes_its_errors() {
    let mut ledger = new_ledger();
    assert!(mint_my_token(&mut ledger, ALICE, 1000).is_ok());

    let res = ledger.transfer_from(BOB, 1, ALICE, DAVE, 10);
    assert_eq!(res, Err(Error::NotApproved));

    assert!(ledger.approve(ALICE, BOB, 1, 10).is_ok());

    let res = ledger.transfer_from(BOB, 1, ALICE, DAVE, 15);
    assert_eq!(res, Err(Error::InsufficientBalance));
    assert_eq!(ledger.allowance(1, ALICE, BOB), 10);

    let res = ledger.transfer_from(BOB, 1, ALICE, DAVE, 10);
    assert!(res.is_ok());
    assert_eq!(ledger.allowance(1, ALICE, BOB), 0);
    assert_eq!(ledger.balance_of(1, ALICE), 990);
    assert_eq!(ledger.balance_of(1, DAVE), 10);
}

#[test]
fn insufficient_allowance_with_sufficient_balance_keeps_everything() {
    let mut ledger = new_ledger();
    assert!(mint_my_token(&mut ledger, ALICE, 1000).is_ok());
    assert!(ledger.approve(ALICE, BOB, 1, 10).is_ok());

    let res = ledger.transfer_from(BOB, 1, ALICE, DAVE, 500);
    assert_eq!(res, Err(Error::InsufficientBalance));
    assert_eq!(ledger.allowance(1, ALICE, BOB), 10);
    assert_eq!(ledger.balance_of(1, ALICE), 1000);
    assert_eq!(ledger.balance_of(1, DAVE), 0);
}

#[test]
fn zero_supply_mint_fails_and_ids_increase() {
    let mut ledger = new_ledger();

    let res = mint_my_token(&mut ledger, ALICE, 0);
    assert_eq!(res, Err(Error::NoneValue));
    assert_eq!(ledger.last_token_id(), 0);

    assert_eq!(
        mint_my_token(&mut ledger, ALICE, 10),
        Ok(Event::TokenMinted { token_id: 1, who: ALICE })
    );
    assert_eq!(
        mint_my_token(&mut ledger, BOB, 20),
        Ok(Event::TokenMinted { token_id: 2, who: BOB })
    );
    assert_eq!(
        mint_my_token(&mut ledger, ALICE, 30),
        Ok(Event::TokenMinted { token_id: 3, who: ALICE })
    );
    assert_eq!(ledger.last_token_id(), 3);

    assert_eq!(ledger.balance_of(1, ALICE), 10);
    assert_eq!(ledger.balance_of(2, BOB), 20);
    assert_eq!(ledger.balance_of(3, ALICE), 30);
}

#[test]
fn over_long_metadata_is_rejected() {
    let mut ledger = Ledger::new(8, 4);

    let res = ledger.mint(ALICE, "TOO_LONG_NAME".as_bytes().to_vec(), "MTKN".as_bytes().to_vec(), 10);
    assert_eq!(res, Err(Error::LengthExceeded));

    let res = ledger.mint(ALICE, "MY_TOKEN".as_bytes().to_vec(), "LONG_SYMBOL".as_bytes().to_vec(), 10);
    assert_eq!(res, Err(Error::LengthExceeded));

    assert_eq!(ledger.last_token_id(), 0);
    assert!(ledger.tokens(1).is_none());

    let res = ledger.mint(ALICE, "MY_TOKEN".as_bytes().to_vec(), "MTKN".as_bytes().to_vec(), 10);
    assert_eq!(res, Ok(Event::TokenMinted { token_id: 1, who: ALICE }));
}

#[test]
fn scenario_mint_then_transfer() {
    let mut ledger = new_ledger();

    assert_eq!(
        mint_my_token(&mut ledger, ALICE, 1000),
        Ok(Event::TokenMinted { token_id: 1, who: ALICE })
    );
    assert_eq!(ledger.balance_of(1, ALICE), 1000);

    assert_eq!(
        ledger.transfer(ALICE, BOB, 1, 500),
        Ok(Event::Transferred { from: ALICE, to: BOB, amount: 500 })
    );
    assert_eq!(ledger.balance_of(1, ALICE), 500);
    assert_eq!(ledger.balance_of(1, BOB), 500);
}

#[test]
fn scenario_approve_then_transfer_from() {
    let mut ledger = new_ledger();

    assert!(mint_my_token(&mut ledger, ALICE, 1000).is_ok());
    assert!(ledger.approve(ALICE, BOB, 1, 100).is_ok());
    assert_eq!(
        ledger.transfer_from(BOB, 1, ALICE, DAVE, 100),
        Ok(Event::TransferredFrom { spender: BOB, from: ALICE, to: DAVE, amount: 100 })
    );
    assert_eq!(ledger.balance_of(1, ALICE), 900);
    assert_eq!(ledger.balance_of(1, DAVE), 100);
    assert_eq!(ledger.allowance(1, ALICE, BOB), 0);
}

#[test]
fn scenario_approve_unminted_token() {
    let mut ledger = new_ledger();

    let res = ledger.approve(ALICE, BOB, 99, 100);
    assert_eq!(res, Err(Error::NoneToken));
    assert_eq!(ledger.allowance(99, ALICE, BOB), 0);
}

#[test]
fn balance_store_detects_overflow() {
    let mut store = BalanceStore::new();

    assert!(store.credit(1, ALICE, u64::MAX).is_ok());
    assert_eq!(store.get(1, ALICE), u64::MAX);

    let res = store.credit(1, ALICE, 1);
    assert_eq!(res, Err(Error::TokenBalanceOverflow));
    assert_eq!(store.get(1, ALICE), u64::MAX);

    assert!(store.credit(2, ALICE, 1).is_ok());
    assert_eq!(store.get(2, ALICE), 1);
}

#[test]
fn balance_store_debits_exactly() {
    let mut store = BalanceStore::new();

    assert_eq!(store.debit(1, ALICE, 1), Err(Error::InsufficientBalance));
    assert_eq!(store.debit(1, ALICE, 0), Ok(()));

    assert!(store.credit(1, ALICE, 10).is_ok());
    assert_eq!(store.debit(1, ALICE, 4), Ok(()));
    assert_eq!(store.get(1, ALICE), 6);
    assert_eq!(store.debit(1, ALICE, 7), Err(Error::InsufficientBalance));
    assert_eq!(store.get(1, ALICE), 6);
}

#[test]
fn allowance_store_overwrites_and_decreases() {
    let mut store = AllowanceStore::new();

    assert_eq!(store.get(1, ALICE, BOB), 0);
    store.set(1, ALICE, BOB, 7);
    assert_eq!(store.get(1, ALICE, BOB), 7);
    store.set(1, ALICE, BOB, 3);
    assert_eq!(store.get(1, ALICE, BOB), 3);

    assert_eq!(store.decrease(1, ALICE, BOB, 4), Err(Error::InsufficientBalance));
    assert_eq!(store.get(1, ALICE, BOB), 3);
    assert_eq!(store.decrease(1, ALICE, BOB, 3), Ok(()));
    assert_eq!(store.get(1, ALICE, BOB), 0);
}

#[test]
fn registry_allocates_and_validates() {
    let mut registry = TokenRegistry::new(8, 4);

    let res = registry.allocate_token("MY_TOKEN".as_bytes().to_vec(), "MTKN".as_bytes().to_vec(), 0);
    assert_eq!(res, Err(Error::NoneValue));

    let res = registry.allocate_token("MY_TOKEN".as_bytes().to_vec(), "MTKN".as_bytes().to_vec(), 5);
    assert_eq!(res, Ok(1));
    assert_eq!(registry.last_token_id(), 1);

    let details = registry.get(1).unwrap();
    assert_eq!(details.name, "MY_TOKEN".as_bytes().to_vec());
    assert_eq!(details.symbol, "MTKN".as_bytes().to_vec());
    assert_eq!(details.supply, 5);

    assert!(registry.get(2).is_none());
}

#[test]
fn weights_follow_the_db_configuration() {
    let table = SubstrateWeight::new(DbWeight { read: 25_000_000, write: 100_000_000 });

    assert_eq!(table.transfer().ref_time, 9_000_000 + 25_000_000 + 100_000_000);
    assert_eq!(table.transfer().proof_size, 0);
    assert_eq!(table.transfer_from().ref_time, 9_000_000 + 25_000_000 + 100_000_000);
    assert_eq!(table.approve().ref_time, 9_000_000 + 100_000_000);

    let saturated = SubstrateWeight::new(DbWeight { read: u64::MAX, write: u64::MAX });
    assert_eq!(saturated.transfer().ref_time, u64::MAX);
    assert_eq!(saturated.approve().ref_time, u64::MAX);
}

#[test]
fn transfer_on_unminted_token_fails_naturally() {
    let mut ledger = new_ledger();

    let res = ledger.transfer(ALICE, BOB, 7, 1);
    assert_eq!(res, Err(Error::InsufficientBalance));
    assert_eq!(ledger.balance_of(7, ALICE), 0);
    assert_eq!(ledger.balance_of(7, BOB), 0);

    let res = ledger.transfer(ALICE, BOB, 7, 0);
    assert_eq!(res, Ok(Event::Transferred { from: ALICE, to: BOB, amount: 0 }));
}
