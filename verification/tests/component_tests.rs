use erc20::AccountId;
use erc20::AllowanceRegistry;
use erc20::Error;
use erc20::Ledger;

fn account(byte: u8) -> AccountId {
    AccountId::from([byte; 32])
}

#[test]
fn ledger_credit_and_debit() {
    let a = account(1);
    let b = account(2);
    let mut ledger = Ledger::new(a, 100);

    assert_eq!(ledger.credit(b, 7), Ok(()));
    assert_eq!(ledger.balance_of(b), 7);
    assert_eq!(ledger.debit(b, 5), Ok(()));
    assert_eq!(ledger.balance_of(b), 2);
    assert_eq!(ledger.total_supply(), 100);
}

#[test]
fn ledger_debit_never_overdraws() {
    let a = account(1);
    let mut ledger = Ledger::new(a, 100);

    assert_eq!(ledger.debit(a, 101), Err(Error::InsufficientBalance));
    assert_eq!(ledger.balance_of(a), 100);
    assert_eq!(ledger.debit(account(2), 1), Err(Error::InsufficientBalance));
}

#[test]
fn ledger_credit_overflow_is_refused() {
    let a = account(1);
    let mut ledger = Ledger::new(a, u128::MAX);

    assert_eq!(ledger.credit(a, 1), Err(Error::Overflow));
    assert_eq!(ledger.balance_of(a), u128::MAX);
    assert_eq!(ledger.credit(account(2), u128::MAX), Ok(()));
}

#[test]
fn registry_set_and_consume() {
    let a = account(1);
    let b = account(2);
    let mut registry = AllowanceRegistry::new();

    assert_eq!(registry.allowance_of(a, b), 0);
    registry.set_allowance(a, b, 50);
    assert_eq!(registry.allowance_of(a, b), 50);
    // The pair is ordered: the reverse direction stays untouched.
    assert_eq!(registry.allowance_of(b, a), 0);
    assert_eq!(registry.consume_allowance(a, b, 20), Ok(()));
    assert_eq!(registry.allowance_of(a, b), 30);
}

#[test]
fn registry_consume_beyond_grant_is_refused() {
    let a = account(1);
    let b = account(2);
    let mut registry = AllowanceRegistry::new();

    registry.set_allowance(a, b, 10);
    assert_eq!(registry.consume_allowance(a, b, 11), Err(Error::InsufficientAllowance));
    assert_eq!(registry.allowance_of(a, b), 10);
}
