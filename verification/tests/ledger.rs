use ledger::account::model::Amount;
use ledger::account::model::ClientId;
use ledger::account::model::Error;
use ledger::account::model::Transaction;
use ledger::account::model::Tx;
use ledger::account::service::AccountStorage;

/// Mirrors the producer-side decimal conversion: scale by ten
/// thousand, keep only zero or positive-normal values, truncate.
fn amount_from_f64(value: f64) -> Result<Amount, Error> {
    let tmp = value * 10000.0;
    let class = tmp.classify();
    if class == std::num::FpCategory::Zero || class == std::num::FpCategory::Normal && tmp > 0.0 {
        Ok(Amount::from_raw(tmp as u64))
    } else {
        Err(Error::Arithmetic)
    }
}

#[test]
fn test_amount_from() {
    let twelve_3 = amount_from_f64(12.3).unwrap();
    assert_eq!(twelve_3.raw(), 123000);

    assert!(amount_from_f64((-1.0f64).sqrt()).is_err());
    assert!(amount_from_f64(f64::MAX).is_err());
}

#[test]
fn test_amount_arithmetic() {
    assert_eq!(
        amount_from_f64(99.34).and_then(|a| amount_from_f64(53.44).and_then(|b| a.add(b))),
        amount_from_f64(152.78),
    );

    assert_eq!(
        amount_from_f64(41.1).and_then(|a| amount_from_f64(11.9).and_then(|b| a.sub(b))),
        amount_from_f64(29.2),
    );

    assert!(amount_from_f64(u64::MAX as f64)
        .and_then(|a| amount_from_f64(41.1).and_then(|b| a.add(b)))
        .is_err());

    assert!(amount_from_f64(11.9)
        .and_then(|a| amount_from_f64(41.1).and_then(|b| a.sub(b)))
        .is_err());
}

#[test]
fn amount_zero_add_sub_round_trip() {
    let zero = Amount::new();
    let amt = amount_from_f64(99.34).unwrap();
    let added = zero.add(amt).unwrap();
    let subbed = added.sub(amt).unwrap();
    assert_eq!(subbed, zero);
    assert_eq!(subbed.raw(), 0);
}

#[test]
fn amount_add_overflow_is_arithmetic_error() {
    let max = Amount::from_raw(u64::MAX);
    let small = amount_from_f64(41.1).unwrap();
    assert_eq!(max.add(small), Err(Error::Arithmetic));
}

#[test]
fn amount_sub_underflow_is_arithmetic_error() {
    let a = amount_from_f64(11.9).unwrap();
    let b = amount_from_f64(41.1).unwrap();
    assert_eq!(a.sub(b), Err(Error::Arithmetic));
}

#[test]
fn from_decimal_rejects_invalid_values() {
    assert!(amount_from_f64(-1.0).is_err());
    assert!(amount_from_f64(f64::NAN).is_err());
    assert!(amount_from_f64(f64::INFINITY).is_err());
}

#[test]
fn amount_renders_with_four_fractional_digits() {
    assert_eq!(Amount::from_raw(123000).to_decimal_string(), "12.3000");
    assert_eq!(Amount::from_raw(0).to_decimal_string(), "0.0000");
    assert_eq!(Amount::from_raw(12).to_decimal_string(), "0.0012");
    assert_eq!(Amount::from_raw(10001).to_decimal_string(), "1.0001");
}

#[test]
fn deposit_then_full_withdrawal_returns_available_to_zero() {
    let mut account = ledger::account::model::Account::new(ClientId::from(7));
    let amt = amount_from_f64(2.5).unwrap();
    account.apply(Transaction::Deposit(Tx::from(1), amt)).unwrap();
    assert_eq!(account.available.raw(), 25000);
    account.apply(Transaction::Withdrawal(Tx::from(2), amt)).unwrap();
    assert_eq!(account.available.raw(), 0);
    assert_eq!(account.held.raw(), 0);
}

#[test]
fn deposit_then_dispute_moves_full_amount_to_held() {
    let mut account = ledger::account::model::Account::new(ClientId::from(7));
    let amt = amount_from_f64(2.5).unwrap();
    account.apply(Transaction::Deposit(Tx::from(1), amt)).unwrap();
    account.apply(Transaction::Dispute(Tx::from(1))).unwrap();
    assert_eq!(account.available.raw(), 0);
    assert_eq!(account.held.raw(), 25000);
    assert!(!account.locked);
}

#[test]
fn dispute_on_unknown_tx_is_a_noop() {
    let mut account = ledger::account::model::Account::new(ClientId::from(3));
    let amt = amount_from_f64(1.5).unwrap();
    account.apply(Transaction::Deposit(Tx::from(1), amt)).unwrap();
    let r = account.apply(Transaction::Dispute(Tx::from(99)));
    assert_eq!(r, Ok(()));
    assert_eq!(account.available.raw(), 15000);
    assert_eq!(account.held.raw(), 0);
    assert!(!account.locked);
}

#[test]
fn resolve_on_non_disputed_or_unknown_tx_is_a_noop() {
    let mut account = ledger::account::model::Account::new(ClientId::from(3));
    let amt = amount_from_f64(1.5).unwrap();
    account.apply(Transaction::Deposit(Tx::from(1), amt)).unwrap();

    let r = account.apply(Transaction::Resolve(Tx::from(1)));
    assert_eq!(r, Ok(()));
    assert_eq!(account.available.raw(), 15000);
    assert_eq!(account.held.raw(), 0);

    let r = account.apply(Transaction::Resolve(Tx::from(99)));
    assert_eq!(r, Ok(()));
    assert_eq!(account.available.raw(), 15000);
    assert_eq!(account.held.raw(), 0);
}

#[test]
fn resolve_returns_held_funds_to_available() {
    let mut account = ledger::account::model::Account::new(ClientId::from(3));
    let amt = amount_from_f64(1.5).unwrap();
    account.apply(Transaction::Deposit(Tx::from(1), amt)).unwrap();
    account.apply(Transaction::Dispute(Tx::from(1))).unwrap();
    account.apply(Transaction::Resolve(Tx::from(1))).unwrap();
    assert_eq!(account.available.raw(), 15000);
    assert_eq!(account.held.raw(), 0);
    assert!(!account.locked);
}

#[test]
fn chargeback_on_disputed_deposit_locks_and_reduces_held() {
    let mut account = ledger::account::model::Account::new(ClientId::from(4));
    let amt = amount_from_f64(3.25).unwrap();
    account.apply(Transaction::Deposit(Tx::from(8), amt)).unwrap();
    account.apply(Transaction::Dispute(Tx::from(8))).unwrap();
    assert_eq!(account.held.raw(), 32500);
    account.apply(Transaction::Chargeback(Tx::from(8))).unwrap();
    assert_eq!(account.held.raw(), 0);
    assert_eq!(account.available.raw(), 0);
    assert!(account.locked);
}

#[test]
fn chargeback_on_non_disputed_tx_is_a_noop_and_leaves_unlocked() {
    let mut account = ledger::account::model::Account::new(ClientId::from(4));
    let amt = amount_from_f64(3.25).unwrap();
    account.apply(Transaction::Deposit(Tx::from(8), amt)).unwrap();
    let r = account.apply(Transaction::Chargeback(Tx::from(8)));
    assert_eq!(r, Ok(()));
    assert_eq!(account.available.raw(), 32500);
    assert_eq!(account.held.raw(), 0);
    assert!(!account.locked);
}

#[test]
fn end_to_end_dispute_then_chargeback() {
    let mut storage = AccountStorage::new();
    let client = ClientId::from(1);
    let one = amount_from_f64(1.0).unwrap();
    let two = amount_from_f64(2.0).unwrap();

    storage.apply_transaction(&client, Transaction::Deposit(Tx::from(1), one)).unwrap();
    storage.apply_transaction(&client, Transaction::Deposit(Tx::from(2), two)).unwrap();
    storage.apply_transaction(&client, Transaction::Dispute(Tx::from(1))).unwrap();

    let account = find_account(&storage, 1);
    assert_eq!(account.available.raw(), 20000);
    assert_eq!(account.held.raw(), 10000);
    assert!(!account.locked);

    storage.apply_transaction(&client, Transaction::Chargeback(Tx::from(1))).unwrap();

    let account = find_account(&storage, 1);
    assert_eq!(account.available.raw(), 20000);
    assert_eq!(account.held.raw(), 0);
    assert!(account.locked);
}

#[test]
fn end_to_end_withdrawal_with_insufficient_funds() {
    let mut storage = AccountStorage::new();
    let client = ClientId::from(2);
    let five = amount_from_f64(5.0).unwrap();
    let three = amount_from_f64(3.0).unwrap();

    storage.apply_transaction(&client, Transaction::Deposit(Tx::from(3), five)).unwrap();
    storage.apply_transaction(&client, Transaction::Withdrawal(Tx::from(4), three)).unwrap();
    assert_eq!(find_account(&storage, 2).available.raw(), 20000);

    let r = storage.apply_transaction(&client, Transaction::Withdrawal(Tx::from(5), three));
    assert_eq!(r, Err(Error::InsufficientFunds));
    assert_eq!(find_account(&storage, 2).available.raw(), 20000);
}

#[test]
fn iter_yields_each_account_exactly_once() {
    let mut storage = AccountStorage::new();
    let a = ClientId::from(10);
    let b = ClientId::from(20);
    let amt = amount_from_f64(1.0).unwrap();
    storage.apply_transaction(&a, Transaction::Deposit(Tx::from(1), amt)).unwrap();
    storage.apply_transaction(&b, Transaction::Deposit(Tx::from(2), amt)).unwrap();
    storage.apply_transaction(&b, Transaction::Deposit(Tx::from(3), amt)).unwrap();

    let mut seen: Vec<(u16, u64)> = Vec::new();
    let mut it = storage.iter();
    while let Some((client_id, account)) = it.next() {
        seen.push((client_id.as_u16(), account.available.raw()));
    }
    seen.sort();
    assert_eq!(seen, vec![(10, 10000), (20, 20000)]);
}

#[test]
fn deposit_overflow_is_arithmetic_error_and_leaves_account_unchanged() {
    let mut account = ledger::account::model::Account::new(ClientId::from(5));
    account
        .apply(Transaction::Deposit(Tx::from(1), Amount::from_raw(u64::MAX)))
        .unwrap();
    let r = account.apply(Transaction::Deposit(Tx::from(2), Amount::from_raw(1)));
    assert_eq!(r, Err(Error::Arithmetic));
    assert_eq!(account.available.raw(), u64::MAX);
    assert_eq!(account.held.raw(), 0);
}

#[test]
fn dispute_with_insufficient_available_funds_fails_and_changes_nothing() {
    let mut account = ledger::account::model::Account::new(ClientId::from(6));
    let five = amount_from_f64(5.0).unwrap();
    let three = amount_from_f64(3.0).unwrap();
    account.apply(Transaction::Deposit(Tx::from(1), five)).unwrap();
    account.apply(Transaction::Withdrawal(Tx::from(2), three)).unwrap();
    let r = account.apply(Transaction::Dispute(Tx::from(1)));
    assert_eq!(r, Err(Error::InsufficientFunds));
    assert_eq!(account.available.raw(), 20000);
    assert_eq!(account.held.raw(), 0);
    assert!(!account.locked);
}

#[test]
fn dispute_of_already_disputed_deposit_is_a_noop() {
    let mut account = ledger::account::model::Account::new(ClientId::from(6));
    let five = amount_from_f64(5.0).unwrap();
    account.apply(Transaction::Deposit(Tx::from(1), five)).unwrap();
    account.apply(Transaction::Dispute(Tx::from(1))).unwrap();
    let r = account.apply(Transaction::Dispute(Tx::from(1)));
    assert_eq!(r, Ok(()));
    assert_eq!(account.available.raw(), 0);
    assert_eq!(account.held.raw(), 50000);
}

fn find_account(storage: &AccountStorage, id: u16) -> ledger::account::model::Account {
    let mut it = storage.iter();
    while let Some((client_id, account)) = it.next() {
        if client_id.as_u16() == id {
            return account;
        }
    }
    panic!("no account for client {}", id);
}
