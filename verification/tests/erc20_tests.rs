use erc20::AccountId;
use erc20::Erc20;
use erc20::Error;
use erc20::Event;
use erc20::Transfer;

fn account(byte: u8) -> AccountId {
    AccountId::from([byte; 32])
}

fn assert_transfer_event(
    event: &Event,
    expected_from: Option<AccountId>,
    expected_to: Option<AccountId>,
    expected_value: u128,
) {
    if let Event::Transfer(Transfer { from, to, value }) = event {
        assert_eq!(*from, expected_from, "encountered invalid Transfer.from");
        assert_eq!(*to, expected_to, "encountered invalid Transfer.to");
        assert_eq!(*value, expected_value, "encountered invalid Transfer.value");
    } else {
        panic!("encountered unexpected event kind: expected a Transfer event");
    }
}

#[test]
fn new_works() {
    let erc20 = Erc20::new(AccountId::from([0x01; 32]), 100);

    let emitted_events = erc20.events();
    assert_eq!(1, emitted_events.len());

    assert_transfer_event(
        &emitted_events[0],
        None,
        Some(AccountId::from([0x01; 32])),
        100,
    )
}

#[test]
fn total_supply_works() {
    let erc20 = Erc20::new(AccountId::from([0x01; 32]), 100);
    let emitted_events = erc20.events();
    assert_transfer_event(
        &emitted_events[0],
        None,
        Some(AccountId::from([0x01; 32])),
        100,
    );
    assert_eq!(erc20.total_supply(), 100);
}

#[test]
fn balance_of_works() {
    let a = account(1);
    let erc20 = Erc20::new(a, 100);
    assert_eq!(erc20.balance_of(a), 100);
    assert_eq!(erc20.balance_of(account(2)), 0);
}

#[test]
fn transfer_works() {
    let a = account(1);
    let b = account(2);
    let mut erc20 = Erc20::new(a, 100);

    assert_eq!(erc20.transfer(a, b, 10), Ok(()));
    assert_eq!(erc20.balance_of(a), 90);
    assert_eq!(erc20.balance_of(b), 10);
    assert_eq!(erc20.events().len(), 2);
    assert_transfer_event(&erc20.events()[1], Some(a), Some(b), 10);
}

#[test]
fn transfer_insufficient_balance_changes_nothing() {
    let a = account(1);
    let b = account(2);
    let mut erc20 = Erc20::new(a, 100);

    assert_eq!(erc20.transfer(a, b, 101), Err(Error::InsufficientBalance));
    assert_eq!(erc20.balance_of(a), 100);
    assert_eq!(erc20.balance_of(b), 0);
    assert_eq!(erc20.events().len(), 1);
}

#[test]
fn self_transfer_keeps_balance_and_emits() {
    let a = account(1);
    let mut erc20 = Erc20::new(a, 100);

    assert_eq!(erc20.transfer(a, a, 60), Ok(()));
    assert_eq!(erc20.balance_of(a), 100);
    assert_eq!(erc20.events().len(), 2);
    assert_transfer_event(&erc20.events()[1], Some(a), Some(a), 60);
}

#[test]
fn approve_overwrites_instead_of_accumulating() {
    let a = account(1);
    let b = account(2);
    let mut erc20 = Erc20::new(a, 100);

    assert_eq!(erc20.approve(a, b, 50), Ok(()));
    assert_eq!(erc20.allowances(a, b), 50);
    assert_eq!(erc20.approve(a, b, 30), Ok(()));
    assert_eq!(erc20.allowances(a, b), 30);
}

#[test]
fn approve_may_exceed_balance() {
    let a = account(1);
    let b = account(2);
    let mut erc20 = Erc20::new(a, 100);

    assert_eq!(erc20.approve(a, b, 1000), Ok(()));
    assert_eq!(erc20.allowances(a, b), 1000);
}

#[test]
fn transfer_from_scenario() {
    let a = account(1);
    let b = account(2);
    let c = account(3);
    let mut erc20 = Erc20::new(a, 100);
    assert_eq!(erc20.balance_of(a), 100);
    assert_eq!(erc20.events().len(), 1);
    assert_transfer_event(&erc20.events()[0], None, Some(a), 100);

    assert_eq!(erc20.approve(a, b, 40), Ok(()));
    assert_eq!(erc20.allowances(a, b), 40);

    assert_eq!(erc20.transfer_from(b, a, c, 40), Ok(()));
    assert_eq!(erc20.balance_of(a), 60);
    assert_eq!(erc20.balance_of(c), 40);
    assert_eq!(erc20.allowances(a, b), 0);
    assert_transfer_event(&erc20.events()[2], Some(a), Some(c), 40);

    assert_eq!(erc20.transfer_from(b, a, c, 1), Err(Error::InsufficientAllowance));
    assert_eq!(erc20.balance_of(a), 60);
    assert_eq!(erc20.balance_of(c), 40);
    assert_eq!(erc20.balance_of(b), 0);
}

#[test]
fn transfer_from_insufficient_allowance_checked_first() {
    let a = account(1);
    let b = account(2);
    let c = account(3);
    let mut erc20 = Erc20::new(a, 100);

    // No allowance at all: even a covered amount is refused.
    assert_eq!(erc20.transfer_from(b, a, c, 10), Err(Error::InsufficientAllowance));
    assert_eq!(erc20.balance_of(a), 100);
    assert_eq!(erc20.balance_of(c), 0);
    assert_eq!(erc20.events().len(), 1);
}

#[test]
fn transfer_from_insufficient_balance_keeps_allowance() {
    let a = account(1);
    let b = account(2);
    let c = account(3);
    let mut erc20 = Erc20::new(a, 10);

    assert_eq!(erc20.approve(a, b, 40), Ok(()));
    assert_eq!(erc20.transfer_from(b, a, c, 20), Err(Error::InsufficientBalance));
    assert_eq!(erc20.allowances(a, b), 40);
    assert_eq!(erc20.balance_of(a), 10);
    assert_eq!(erc20.balance_of(c), 0);
    assert_eq!(erc20.events().len(), 2);
}

#[test]
fn conservation_across_operations() {
    let a = account(1);
    let b = account(2);
    let c = account(3);
    let mut erc20 = Erc20::new(a, 100);

    assert_eq!(erc20.transfer(a, b, 30), Ok(()));
    assert_eq!(erc20.approve(b, c, 25), Ok(()));
    assert_eq!(erc20.transfer_from(c, b, c, 20), Ok(()));
    assert_eq!(erc20.transfer(c, a, 5), Ok(()));

    let sum = erc20.balance_of(a) + erc20.balance_of(b) + erc20.balance_of(c);
    assert_eq!(sum, erc20.total_supply());
    assert_eq!(sum, 100);
}

#[test]
fn account_equality_is_by_bytes() {
    assert_eq!(account(1), AccountId::from([0x01; 32]));
    assert_ne!(account(1), account(2));
    let mut bytes = [0x01; 32];
    bytes[31] = 0x02;
    assert_ne!(account(1), AccountId::from(bytes));
}
