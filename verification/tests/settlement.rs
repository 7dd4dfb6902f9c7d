use storage_ledger::Contract;
use storage_ledger::StorageError;
use storage_ledger::WrappedAccountStorageBalance;

fn fresh(usage_after: u64, price_per_byte: u128) -> Contract {
    Contract::new(false, 0, usage_after, price_per_byte).unwrap()
}

fn balance(total: u128, available: u128) -> WrappedAccountStorageBalance {
    WrappedAccountStorageBalance { total, available }
}

#[test]
fn cost_prices_bytes() {
    let c = fresh(100, 3);
    assert_eq!(c.cost(5), Ok(15));
    assert_eq!(c.cost(0), Ok(0));
}

#[test]
fn cost_overflow_rejected() {
    let c = fresh(1, u128::MAX);
    assert_eq!(c.cost(2), Err(StorageError::ArithmeticOverflow));
}

#[test]
fn settle_unregistered_rejected() {
    let mut c = fresh(100, 1);
    let r = c.settle_content_write(&"alice".to_string(), 100, 150, 9);
    assert_eq!(r, Err(StorageError::NotRegistered));
}

#[test]
fn settle_debits_usage_increase() {
    let mut c = fresh(100, 1);
    c.storage_deposit(None, "alice".to_string(), 500).unwrap();
    let r = c.settle_content_write(&"alice".to_string(), 200, 250, 9);
    assert_eq!(r, Ok(9));
    assert_eq!(c.storage_balance_of(&"alice".to_string()), balance(500, 350));
}

#[test]
fn settle_credits_usage_decrease() {
    let mut c = fresh(100, 1);
    c.storage_deposit(None, "alice".to_string(), 500).unwrap();
    c.settle_content_write(&"alice".to_string(), 200, 250, 9).unwrap();
    let r = c.settle_content_write(&"alice".to_string(), 250, 220, 9);
    assert_eq!(r, Ok(9));
    assert_eq!(c.storage_balance_of(&"alice".to_string()), balance(500, 380));
}

#[test]
fn settle_no_usage_change() {
    let mut c = fresh(100, 1);
    c.storage_deposit(None, "alice".to_string(), 500).unwrap();
    let r = c.settle_content_write(&"alice".to_string(), 200, 200, 9);
    assert_eq!(r, Ok(9));
    assert_eq!(c.storage_balance_of(&"alice".to_string()), balance(500, 400));
}

#[test]
fn settle_insufficient_available_rejected() {
    let mut c = fresh(100, 1);
    c.storage_deposit(None, "alice".to_string(), 500).unwrap();
    let r = c.settle_content_write(&"alice".to_string(), 200, 601, 9);
    assert_eq!(r, Err(StorageError::InsufficientAvailableBalance));
    assert_eq!(c.storage_balance_of(&"alice".to_string()), balance(500, 400));
}

#[test]
fn settle_cost_overflow_rejected() {
    let mut c = fresh(0, u128::MAX / 2);
    c.storage_deposit(None, "alice".to_string(), 500).unwrap();
    let r = c.settle_content_write(&"alice".to_string(), 0, 3, 9);
    assert_eq!(r, Err(StorageError::ArithmeticOverflow));
    assert_eq!(c.storage_balance_of(&"alice".to_string()), balance(500, 500));
}

#[test]
fn settle_refund_above_total_rejected() {
    let mut c = fresh(0, 1);
    c.storage_deposit(None, "alice".to_string(), 100).unwrap();
    let r = c.settle_content_write(&"alice".to_string(), 50, 49, 9);
    assert_eq!(r, Err(StorageError::ArithmeticOverflow));
    assert_eq!(c.storage_balance_of(&"alice".to_string()), balance(100, 100));
}

#[test]
fn settle_returns_call_price_unchanged() {
    let mut c = fresh(100, 1);
    c.storage_deposit(None, "alice".to_string(), 500).unwrap();
    let price: u128 = 10u128.pow(24);
    let r = c.settle_content_write(&"alice".to_string(), 200, 210, price);
    assert_eq!(r, Ok(price));
}

#[test]
fn scenario_register_settle_withdraw() {
    let mut c = fresh(100, 1);
    assert_eq!(c.storage_minimum_balance(), 100);
    let registered = c.storage_deposit(None, "a".to_string(), 500).unwrap();
    assert_eq!(registered, balance(500, 400));
    c.settle_content_write(&"a".to_string(), 1000, 1050, 9).unwrap();
    assert_eq!(c.storage_balance_of(&"a".to_string()), balance(500, 350));
    let (b, transferred) = c.storage_withdraw(350, "a".to_string(), 1).unwrap();
    assert_eq!(b, balance(150, 0));
    assert_eq!(transferred, 351);
}
