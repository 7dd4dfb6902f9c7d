use vstd::prelude::*;

use crate::balance::AccountStorageBalance;
use crate::balance::WrappedAccountStorageBalance;
use crate::contract::Contract;
use crate::contract::ContractView;
use crate::error::StorageError;

verus! {

/// Law: in every state satisfying the ledger invariant, every registered
/// account keeps `available <= total`. Both sides are unsigned, so both are
/// non-negative. Every operation of the contract preserves the invariant
/// (each one's contract ends in a well-formed state), so this holds at all
/// times.
pub proof fn lemma_available_le_total(v: ContractView, account_id: Seq<char>)
    requires
        v.inv(),
        v.accounts.contains_key(account_id),
    ensures
        v.accounts[account_id].available <= v.accounts[account_id].total,
{
}

/// Law: the minimum balance is constant once initialization has run. No
/// operation changes the registration footprint or the byte price, so the
/// minimum balance — the footprint priced by the oracle — is the same before
/// and after any deposit, withdrawal or content settlement.
pub proof fn lemma_minimum_balance_constant(
    v: ContractView,
    account_id: Seq<char>,
    caller: Seq<char>,
    attached_deposit: u128,
    amount: u128,
    usage_before: u64,
    usage_after: u64,
    call_price: u128,
)
    ensures
        v.spec_deposit(account_id, attached_deposit).0.spec_minimum_balance()
            == v.spec_minimum_balance(),
        v.spec_withdraw(caller, attached_deposit, amount).0.spec_minimum_balance()
            == v.spec_minimum_balance(),
        Contract::spec_settle(
            v,
            account_id,
            usage_before,
            usage_after,
            call_price,
        ).0.spec_minimum_balance() == v.spec_minimum_balance(),
{
}

/// Law: a second run of the initialization routine fails with
/// `AlreadyInitialized`, whatever the measurements, and yields no state.
pub proof fn lemma_initialize_once(usage_before: u64, usage_after: u64, price_per_byte: u128)
    ensures
        Contract::spec_new(true, usage_before, usage_after, price_per_byte) == Err::<
            ContractView,
            StorageError,
        >(StorageError::AlreadyInitialized),
{
}

/// Law: depositing `x` to an unregistered account and then withdrawing `x`
/// returns the record to `{total: 0, available: 0}` and owes the caller
/// exactly `x` plus the returned attachment.
///
/// This round trip holds when the minimum balance is zero. With a positive
/// minimum the registration cost stays locked in `total`, so withdrawing the
/// full deposit is refused for insufficient available balance; see
/// `lemma_deposit_withdraw_available` for the round trip that remains.
pub proof fn lemma_deposit_withdraw_round_trip(v: ContractView, account_id: Seq<char>, x: u128)
    requires
        v.inv(),
        !v.accounts.contains_key(account_id),
        v.spec_minimum_balance() == 0,
        0 < x < u128::MAX,
    ensures
        ({
            let (v1, r1) = v.spec_deposit(account_id, x);
            let (v2, r2) = v1.spec_withdraw(account_id, 1, x);
            &&& r1 == Ok::<WrappedAccountStorageBalance, StorageError>(
                WrappedAccountStorageBalance { total: x, available: x },
            )
            &&& r2 == Ok::<(WrappedAccountStorageBalance, u128), StorageError>(
                (WrappedAccountStorageBalance { total: 0, available: 0 }, (x + 1) as u128),
            )
            &&& v2.accounts[account_id] == (AccountStorageBalance { total: 0, available: 0 })
        }),
{
}

/// Law: depositing `x` to an unregistered account and then withdrawing all
/// of the available balance, `x` minus the minimum balance, leaves exactly
/// the minimum locked: `{total: minimum, available: 0}`.
pub proof fn lemma_deposit_withdraw_available(v: ContractView, account_id: Seq<char>, x: u128)
    requires
        v.inv(),
        !v.accounts.contains_key(account_id),
        x > 0,
        v.spec_minimum_balance() <= x as int,
        x as int - v.spec_minimum_balance() < u128::MAX as int,
    ensures
        ({
            let m = v.spec_minimum_balance();
            let (v1, r1) = v.spec_deposit(account_id, x);
            let (v2, r2) = v1.spec_withdraw(account_id, 1, (x as int - m) as u128);
            &&& r1 == Ok::<WrappedAccountStorageBalance, StorageError>(
                WrappedAccountStorageBalance { total: x, available: (x as int - m) as u128 },
            )
            &&& r2 == Ok::<(WrappedAccountStorageBalance, u128), StorageError>(
                (
                    WrappedAccountStorageBalance { total: m as u128, available: 0 },
                    (x as int - m + 1) as u128,
                ),
            )
            &&& v2.accounts[account_id] == (AccountStorageBalance {
                total: m as u128,
                available: 0,
            })
        }),
{
}

/// Law: a first deposit strictly under the minimum balance is refused with
/// `InsufficientRegistrationAmount` and changes nothing; a first deposit of
/// exactly the minimum succeeds with every unit locked: `available == 0`.
pub proof fn lemma_deposit_registration_boundary(
    v: ContractView,
    account_id: Seq<char>,
    attached_deposit: u128,
)
    requires
        v.inv(),
        !v.accounts.contains_key(account_id),
        attached_deposit > 0,
    ensures
        (attached_deposit as int) < v.spec_minimum_balance() ==> v.spec_deposit(
            account_id,
            attached_deposit,
        ) == (v, Err::<WrappedAccountStorageBalance, StorageError>(
            StorageError::InsufficientRegistrationAmount,
        )),
        (attached_deposit as int) == v.spec_minimum_balance() ==> v.spec_deposit(
            account_id,
            attached_deposit,
        ).1 == Ok::<WrappedAccountStorageBalance, StorageError>(
            WrappedAccountStorageBalance { total: attached_deposit, available: 0 },
        ),
{
}

/// Law: withdrawing more than the available balance is refused with
/// `InsufficientAvailableBalance` and leaves the ledger exactly as it was.
pub proof fn lemma_withdraw_insufficient(v: ContractView, caller: Seq<char>, amount: u128)
    requires
        v.accounts.contains_key(caller),
        amount > v.accounts[caller].available,
    ensures
        v.spec_withdraw(caller, 1, amount) == (v, Err::<
            (WrappedAccountStorageBalance, u128),
            StorageError,
        >(StorageError::InsufficientAvailableBalance)),
{
}

/// Law: an account never deposited to reads as `{total: 0, available: 0}`,
/// and the read itself never fails.
pub proof fn lemma_balance_of_unregistered(v: ContractView, account_id: Seq<char>)
    requires
        !v.accounts.contains_key(account_id),
    ensures
        v.spec_balance_of(account_id) == (WrappedAccountStorageBalance { total: 0, available: 0 }),
{
}

} // verus!
