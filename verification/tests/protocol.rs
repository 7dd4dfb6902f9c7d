use storage_ledger::Contract;
use storage_ledger::StorageError;
use storage_ledger::WrappedAccountStorageBalance;

fn fresh(usage_after: u64, price_per_byte: u128) -> Contract {
    Contract::new(false, 0, usage_after, price_per_byte).unwrap()
}

fn balance(total: u128, available: u128) -> WrappedAccountStorageBalance {
    WrappedAccountStorageBalance { total, available }
}

#[test]
fn init_measures_footprint() {
    let c = fresh(64, 10);
    assert_eq!(c.storage_minimum_balance(), 640);
}

#[test]
fn init_footprint_is_usage_delta() {
    let c = Contract::new(false, 100, 164, 10).unwrap();
    assert_eq!(c.storage_minimum_balance(), 640);
}

#[test]
fn init_second_run_fails() {
    let r = Contract::new(true, 0, 64, 10);
    assert_eq!(r.err(), Some(StorageError::AlreadyInitialized));
}

#[test]
fn init_usage_underflow() {
    let r = Contract::new(false, 10, 5, 1);
    assert_eq!(r.err(), Some(StorageError::ArithmeticUnderflow));
}

#[test]
fn init_minimum_balance_overflow() {
    let r = Contract::new(false, 0, 2, u128::MAX);
    assert_eq!(r.err(), Some(StorageError::ArithmeticOverflow));
}

#[test]
fn deposit_zero_rejected() {
    let mut c = fresh(100, 1);
    let r = c.storage_deposit(None, "alice".to_string(), 0);
    assert_eq!(r, Err(StorageError::InvalidDeposit));
    assert_eq!(c.storage_balance_of(&"alice".to_string()), balance(0, 0));
}

#[test]
fn deposit_under_minimum_rejected() {
    let mut c = fresh(100, 1);
    let r = c.storage_deposit(None, "alice".to_string(), 99);
    assert_eq!(r, Err(StorageError::InsufficientRegistrationAmount));
    assert_eq!(c.storage_balance_of(&"alice".to_string()), balance(0, 0));
}

#[test]
fn deposit_exact_minimum_locks_everything() {
    let mut c = fresh(100, 1);
    let r = c.storage_deposit(None, "alice".to_string(), 100);
    assert_eq!(r, Ok(balance(100, 0)));
}

#[test]
fn deposit_registers_and_locks_minimum() {
    let mut c = fresh(100, 1);
    let r = c.storage_deposit(None, "alice".to_string(), 500);
    assert_eq!(r, Ok(balance(500, 400)));
    assert_eq!(c.storage_balance_of(&"alice".to_string()), balance(500, 400));
}

#[test]
fn deposit_adds_to_existing_account() {
    let mut c = fresh(100, 1);
    c.storage_deposit(None, "alice".to_string(), 500).unwrap();
    let r = c.storage_deposit(None, "alice".to_string(), 50);
    assert_eq!(r, Ok(balance(550, 450)));
}

#[test]
fn deposit_overflow_rejected() {
    let mut c = fresh(0, 1);
    c.storage_deposit(None, "alice".to_string(), u128::MAX).unwrap();
    let r = c.storage_deposit(None, "alice".to_string(), 1);
    assert_eq!(r, Err(StorageError::ArithmeticOverflow));
    assert_eq!(
        c.storage_balance_of(&"alice".to_string()),
        balance(u128::MAX, u128::MAX)
    );
}

#[test]
fn deposit_to_named_account() {
    let mut c = fresh(100, 1);
    let r = c.storage_deposit(Some("bob".to_string()), "alice".to_string(), 250);
    assert_eq!(r, Ok(balance(250, 150)));
    assert_eq!(c.storage_balance_of(&"bob".to_string()), balance(250, 150));
    assert_eq!(c.storage_balance_of(&"alice".to_string()), balance(0, 0));
}

#[test]
fn withdraw_requires_unit_attachment() {
    let mut c = fresh(100, 1);
    c.storage_deposit(None, "alice".to_string(), 500).unwrap();
    let none = c.storage_withdraw(10, "alice".to_string(), 0);
    assert_eq!(none, Err(StorageError::MissingExactUnitAttachment));
    let two = c.storage_withdraw(10, "alice".to_string(), 2);
    assert_eq!(two, Err(StorageError::MissingExactUnitAttachment));
    assert_eq!(c.storage_balance_of(&"alice".to_string()), balance(500, 400));
}

#[test]
fn withdraw_unregistered_rejected() {
    let mut c = fresh(100, 1);
    let r = c.storage_withdraw(10, "alice".to_string(), 1);
    assert_eq!(r, Err(StorageError::NotRegistered));
}

#[test]
fn withdraw_above_available_rejected() {
    let mut c = fresh(100, 1);
    c.storage_deposit(None, "alice".to_string(), 500).unwrap();
    let r = c.storage_withdraw(401, "alice".to_string(), 1);
    assert_eq!(r, Err(StorageError::InsufficientAvailableBalance));
    assert_eq!(c.storage_balance_of(&"alice".to_string()), balance(500, 400));
}

#[test]
fn withdraw_debits_and_owes_transfer() {
    let mut c = fresh(100, 1);
    c.storage_deposit(None, "alice".to_string(), 500).unwrap();
    let (b, transfer) = c.storage_withdraw(400, "alice".to_string(), 1).unwrap();
    assert_eq!(b, balance(100, 0));
    assert_eq!(transfer, 401);
    assert_eq!(c.storage_balance_of(&"alice".to_string()), balance(100, 0));
}

#[test]
fn withdraw_transfer_overflow_rejected() {
    let mut c = fresh(0, 1);
    c.storage_deposit(None, "alice".to_string(), u128::MAX).unwrap();
    let r = c.storage_withdraw(u128::MAX, "alice".to_string(), 1);
    assert_eq!(r, Err(StorageError::ArithmeticOverflow));
    assert_eq!(
        c.storage_balance_of(&"alice".to_string()),
        balance(u128::MAX, u128::MAX)
    );
}

#[test]
fn round_trip_with_zero_minimum() {
    let mut c = fresh(0, 10);
    assert_eq!(c.storage_minimum_balance(), 0);
    let after_deposit = c.storage_deposit(None, "alice".to_string(), 42).unwrap();
    assert_eq!(after_deposit, balance(42, 42));
    let (b, transfer) = c.storage_withdraw(42, "alice".to_string(), 1).unwrap();
    assert_eq!(b, balance(0, 0));
    assert_eq!(transfer, 43);
    assert_eq!(c.storage_balance_of(&"alice".to_string()), balance(0, 0));
}

#[test]
fn balance_of_unregistered_is_zero() {
    let c = fresh(100, 1);
    assert_eq!(c.storage_balance_of(&"nobody".to_string()), balance(0, 0));
}

#[test]
fn balance_of_is_idempotent() {
    let mut c = fresh(100, 1);
    c.storage_deposit(None, "alice".to_string(), 500).unwrap();
    let first = c.storage_balance_of(&"alice".to_string());
    let second = c.storage_balance_of(&"alice".to_string());
    assert_eq!(first, second);
}

#[test]
fn minimum_balance_constant_across_calls() {
    let mut c = fresh(100, 1);
    let before = c.storage_minimum_balance();
    c.storage_deposit(None, "alice".to_string(), 500).unwrap();
    assert_eq!(c.storage_minimum_balance(), before);
    c.storage_withdraw(50, "alice".to_string(), 1).unwrap();
    assert_eq!(c.storage_minimum_balance(), before);
    c.settle_content_write(&"alice".to_string(), 100, 120, 7).unwrap();
    assert_eq!(c.storage_minimum_balance(), before);
}

#[test]
fn wrap_copies_the_fields() {
    let b = storage_ledger::AccountStorageBalance { total: 7, available: 3 };
    assert_eq!(b.wrap(), balance(7, 3));
}
