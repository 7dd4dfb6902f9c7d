use vstd::prelude::*;

use crate::balance::AccountStorageBalance;
use crate::balance::WrappedAccountStorageBalance;
use crate::contract::Contract;
use crate::contract::ContractView;
use crate::contract::lemma_inv_insert;
use crate::contract::lemma_view_parts;
use crate::error::StorageError;

verus! {

/// The account a deposit is credited to: the named one, or the caller where
/// none is named.
pub open spec fn spec_resolve_account(account_id: Option<String>, predecessor: String) -> Seq<
    char,
> {
    match account_id {
        Some(a) => a@,
        None => predecessor@,
    }
}

impl ContractView {
    /// What `storage_deposit` does to the state: a credit of the attached
    /// amount to both sides of an existing record, or the creation of a new
    /// record whose minimum balance is locked at once; with the errors that
    /// refuse an empty deposit, an overflowing credit, and a first deposit
    /// under the minimum.
    pub open spec fn spec_deposit(self, account_id: Seq<char>, attached_deposit: u128) -> (
        ContractView,
        Result<WrappedAccountStorageBalance, StorageError>,
    ) {
        if attached_deposit == 0 {
            (self, Err(StorageError::InvalidDeposit))
        } else if self.accounts.contains_key(account_id) {
            let b = self.accounts[account_id];
            if b.total + attached_deposit > u128::MAX as int {
                (self, Err(StorageError::ArithmeticOverflow))
            } else {
                let nb = AccountStorageBalance {
                    total: (b.total + attached_deposit) as u128,
                    available: (b.available + attached_deposit) as u128,
                };
                (self.with_accounts(self.accounts.insert(account_id, nb)), Ok(nb.spec_wrap()))
            }
        } else if (attached_deposit as int) < self.spec_minimum_balance() {
            (self, Err(StorageError::InsufficientRegistrationAmount))
        } else {
            let nb = AccountStorageBalance {
                total: attached_deposit,
                available: (attached_deposit - self.spec_minimum_balance()) as u128,
            };
            (self.with_accounts(self.accounts.insert(account_id, nb)), Ok(nb.spec_wrap()))
        }
    }

    /// What `storage_withdraw` does to the state: a debit of the amount from
    /// both sides of the caller's record, together with the currency owed
    /// back to the caller (the amount plus the returned attachment); with the
    /// errors that refuse a wrong attachment, an unregistered caller, an
    /// amount above the available balance, and a transfer that would leave
    /// the currency range.
    pub open spec fn spec_withdraw(self, caller: Seq<char>, attached_deposit: u128, amount: u128) -> (
        ContractView,
        Result<(WrappedAccountStorageBalance, u128), StorageError>,
    ) {
        if attached_deposit != 1 {
            (self, Err(StorageError::MissingExactUnitAttachment))
        } else if !self.accounts.contains_key(caller) {
            (self, Err(StorageError::NotRegistered))
        } else {
            let b = self.accounts[caller];
            if amount > b.available {
                (self, Err(StorageError::InsufficientAvailableBalance))
            } else if amount == u128::MAX {
                (self, Err(StorageError::ArithmeticOverflow))
            } else {
                let nb = AccountStorageBalance {
                    total: (b.total - amount) as u128,
                    available: (b.available - amount) as u128,
                };
                (
                    self.with_accounts(self.accounts.insert(caller, nb)),
                    Ok((nb.spec_wrap(), (amount + 1) as u128)),
                )
            }
        }
    }

    /// What `storage_balance_of` returns: the account's balance pair, or the
    /// zero pair for an account without a ledger entry.
    pub open spec fn spec_balance_of(self, account_id: Seq<char>) -> WrappedAccountStorageBalance {
        if self.accounts.contains_key(account_id) {
            self.accounts[account_id].spec_wrap()
        } else {
            WrappedAccountStorageBalance { total: 0, available: 0 }
        }
    }
}

impl Contract {
    /// Credits `attached_deposit` to the named account, or to the caller
    /// where none is named. A first deposit registers the account: it must
    /// cover the minimum balance, which stays locked behind the registration
    /// footprint, and only the rest becomes available.
    pub fn storage_deposit(
        &mut self,
        account_id: Option<String>,
        predecessor_account_id: String,
        attached_deposit: u128,
    ) -> (r: Result<WrappedAccountStorageBalance, StorageError>)
        requires
            old(self).wf(),
        ensures
            final(self).wf(),
            (final(self)@, r) == old(self)@.spec_deposit(
                spec_resolve_account(account_id, predecessor_account_id),
                attached_deposit,
            ),
    {
        if attached_deposit == 0 {
            return Err(StorageError::InvalidDeposit);
        }
        let id: String = match account_id {
            Some(a) => a,
            None => predecessor_account_id,
        };
        proof {
            lemma_view_parts(self);
        }
        let new_balances: AccountStorageBalance = match self.accounts.get(&id) {
            Some(b) => {
                match b.total.checked_add(attached_deposit) {
                    None => {
                        return Err(StorageError::ArithmeticOverflow);
                    },
                    Some(t) => AccountStorageBalance {
                        total: t,
                        available: b.available + attached_deposit,
                    },
                }
            },
            None => {
                let min = self.storage_minimum_balance();
                if attached_deposit < min {
                    return Err(StorageError::InsufficientRegistrationAmount);
                }
                AccountStorageBalance {
                    total: attached_deposit,
                    available: attached_deposit - min,
                }
            },
        };
        proof {
            lemma_inv_insert(self@, id@, new_balances);
        }
        self.accounts.insert(&id, new_balances);
        proof {
            lemma_view_parts(self);
        }
        Ok(new_balances.wrap())
    }

    /// Debits `amount` from the caller's record and reports the currency the
    /// host must transfer back: the amount plus the one attached minimal
    /// unit. The caller must attach exactly one minimal currency unit as an
    /// explicit-intent signal. The transfer is the host's last action, after
    /// the ledger write commits.
    pub fn storage_withdraw(
        &mut self,
        amount: u128,
        predecessor_account_id: String,
        attached_deposit: u128,
    ) -> (r: Result<(WrappedAccountStorageBalance, u128), StorageError>)
        requires
            old(self).wf(),
        ensures
            final(self).wf(),
            (final(self)@, r) == old(self)@.spec_withdraw(
                predecessor_account_id@,
                attached_deposit,
                amount,
            ),
    {
        if attached_deposit != 1 {
            return Err(StorageError::MissingExactUnitAttachment);
        }
        proof {
            lemma_view_parts(self);
        }
        match self.accounts.get(&predecessor_account_id) {
            None => Err(StorageError::NotRegistered),
            Some(b) => {
                if amount > b.available {
                    Err(StorageError::InsufficientAvailableBalance)
                } else if amount == u128::MAX {
                    Err(StorageError::ArithmeticOverflow)
                } else {
                    let nb = AccountStorageBalance {
                        total: b.total - amount,
                        available: b.available - amount,
                    };
                    proof {
                        lemma_inv_insert(self@, predecessor_account_id@, nb);
                    }
                    self.accounts.insert(&predecessor_account_id, nb);
                    proof {
                        lemma_view_parts(self);
                    }
                    Ok((nb.wrap(), amount + 1))
                }
            },
        }
    }

    /// The minimum balance owed by every registrant: the registration
    /// footprint priced by the oracle. Constant once initialization has run;
    /// no operation changes the footprint or the price.
    pub fn storage_minimum_balance(&self) -> (r: u128)
        requires
            self.wf(),
        ensures
            r as int == self@.spec_minimum_balance(),
    {
        proof {
            lemma_view_parts(self);
        }
        (self.account_storage_usage as u128) * self.storage_price_per_byte
    }

    /// The account's balance pair, or the zero pair where the account was
    /// never deposited to. Never fails, and reads nothing but the state.
    pub fn storage_balance_of(&self, account_id: &String) -> (r: WrappedAccountStorageBalance)
        requires
            self.wf(),
        ensures
            r == self@.spec_balance_of(account_id@),
    {
        proof {
            lemma_view_parts(self);
        }
        match self.accounts.get(account_id) {
            Some(b) => b.wrap(),
            None => WrappedAccountStorageBalance { total: 0, available: 0 },
        }
    }
}

} // verus!
