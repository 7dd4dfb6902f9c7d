use vstd::prelude::*;

use crate::balance::AccountStorageBalance;
use crate::balance::balance_wf;
use crate::error::StorageError;
use crate::ledger::AccountLedger;

verus! {

/// The storage ledger's whole state: the per-account records, the storage
/// footprint of one account registration, and the storage price per byte.
///
/// The price is supplied at initialization rather than fixed here: the
/// mainnet price per byte dropped from 10^20 (genesis) to 10^19 at protocol
/// version 42, so the authoritative value belongs to the deployment.
pub struct Contract {
    /// Account id -> account balance record.
    pub(crate) accounts: AccountLedger,
    /// The storage size in bytes for one account record.
    pub(crate) account_storage_usage: u64,
    /// Currency units charged per byte of storage.
    pub(crate) storage_price_per_byte: u128,
}

/// The mathematical state of the contract: the ledger as a map from account
/// id characters to balance records, plus the two registration constants.
pub struct ContractView {
    pub accounts: Map<Seq<char>, AccountStorageBalance>,
    pub account_storage_usage: u64,
    pub storage_price_per_byte: u128,
}

impl ContractView {
    /// The ledger invariant: every record keeps `available <= total`, and the
    /// registration cost fits in the 128-bit currency range.
    pub open spec fn inv(self) -> bool {
        &&& forall|k: Seq<char>| #[trigger]
            self.accounts.contains_key(k) ==> balance_wf(self.accounts[k])
        &&& self.account_storage_usage as int * self.storage_price_per_byte as int
            <= u128::MAX as int
    }

    /// The minimum balance owed by every registrant: the registration
    /// footprint priced by the oracle.
    pub open spec fn spec_minimum_balance(self) -> int {
        self.account_storage_usage as int * self.storage_price_per_byte as int
    }

    /// The oracle's price of `bytes` bytes of storage.
    pub open spec fn spec_cost(self, bytes: u64) -> int {
        bytes as int * self.storage_price_per_byte as int
    }

    /// The same state with the ledger replaced.
    pub open spec fn with_accounts(self, accounts: Map<Seq<char>, AccountStorageBalance>) -> ContractView {
        ContractView {
            accounts,
            account_storage_usage: self.account_storage_usage,
            storage_price_per_byte: self.storage_price_per_byte,
        }
    }
}

/// Storing a well-formed record keeps the ledger invariant.
pub(crate) proof fn lemma_inv_insert(v: ContractView, id: Seq<char>, nb: AccountStorageBalance)
    requires
        v.inv(),
        balance_wf(nb),
    ensures
        v.with_accounts(v.accounts.insert(id, nb)).inv(),
{
    let v2 = v.with_accounts(v.accounts.insert(id, nb));
    assert forall|k: Seq<char>| #[trigger]
        v2.accounts.contains_key(k) implies balance_wf(v2.accounts[k]) by {
        if k != id {
            assert(v.accounts.contains_key(k));
        }
    }
}

/// Makes the closed view and representation-invariant definitions available
/// to the crate's other modules.
pub(crate) proof fn lemma_view_parts(c: &Contract)
    ensures
        c@.accounts == c.accounts@,
        c@.account_storage_usage == c.account_storage_usage,
        c@.storage_price_per_byte == c.storage_price_per_byte,
        c.ledger_wf() <==> c.accounts.wf(),
{
}

impl View for Contract {
    type V = ContractView;

    closed spec fn view(&self) -> ContractView {
        ContractView {
            accounts: self.accounts@,
            account_storage_usage: self.account_storage_usage,
            storage_price_per_byte: self.storage_price_per_byte,
        }
    }
}

impl Contract {
    /// A contract value is well formed when its ledger representation holds
    /// no duplicate accounts and its state satisfies the ledger invariant.
    pub open spec fn wf(&self) -> bool {
        &&& self.ledger_wf()
        &&& self@.inv()
    }

    /// The representation invariant of the underlying account store.
    pub closed spec fn ledger_wf(&self) -> bool {
        self.accounts.wf()
    }

    /// What initialization yields: a fresh state whose registration footprint
    /// is the difference of the two storage-usage readings, or the error that
    /// refuses it.
    pub open spec fn spec_new(
        state_exists: bool,
        usage_before: u64,
        usage_after: u64,
        price_per_byte: u128,
    ) -> Result<ContractView, StorageError> {
        if state_exists {
            Err(StorageError::AlreadyInitialized)
        } else if usage_after < usage_before {
            Err(StorageError::ArithmeticUnderflow)
        } else if (usage_after - usage_before) * price_per_byte as int > u128::MAX as int {
            Err(StorageError::ArithmeticOverflow)
        } else {
            Ok(
                ContractView {
                    accounts: Map::empty(),
                    account_storage_usage: (usage_after - usage_before) as u64,
                    storage_price_per_byte: price_per_byte,
                },
            )
        }
    }

    /// Initializes the ledger. The measuring cycle itself belongs to the host:
    /// it writes one synthetic, maximally sized account record to its store,
    /// reads the storage-usage counter before and after, removes the record
    /// again, and hands the two readings in here together with whether
    /// contract state already exists. A second initialization finds existing
    /// state and fails with `AlreadyInitialized`, changing nothing.
    pub fn new(
        state_exists: bool,
        usage_before: u64,
        usage_after: u64,
        price_per_byte: u128,
    ) -> (r: Result<Contract, StorageError>)
        ensures
            (r matches Ok(c) ==> c.wf() && Self::spec_new(
                state_exists,
                usage_before,
                usage_after,
                price_per_byte,
            ) == Ok::<ContractView, StorageError>(c@)),
            (r matches Err(e) ==> Self::spec_new(
                state_exists,
                usage_before,
                usage_after,
                price_per_byte,
            ) == Err::<ContractView, StorageError>(e)),
    {
        if state_exists {
            return Err(StorageError::AlreadyInitialized);
        }
        if usage_after < usage_before {
            return Err(StorageError::ArithmeticUnderflow);
        }
        let footprint: u64 = usage_after - usage_before;
        match (footprint as u128).checked_mul(price_per_byte) {
            None => Err(StorageError::ArithmeticOverflow),
            Some(_) => {
                let c = Contract {
                    accounts: AccountLedger::new(),
                    account_storage_usage: footprint,
                    storage_price_per_byte: price_per_byte,
                };
                Ok(c)
            },
        }
    }

    /// The resource price oracle: the cost of `bytes` bytes of storage at
    /// this contract's byte price, or `ArithmeticOverflow` where the product
    /// leaves the 128-bit currency range.
    pub fn cost(&self, bytes: u64) -> (r: Result<u128, StorageError>)
        ensures
            r == if self@.spec_cost(bytes) <= u128::MAX as int {
                Ok::<u128, StorageError>(self@.spec_cost(bytes) as u128)
            } else {
                Err::<u128, StorageError>(StorageError::ArithmeticOverflow)
            },
    {
        match (bytes as u128).checked_mul(self.storage_price_per_byte) {
            Some(c) => Ok(c),
            None => Err(StorageError::ArithmeticOverflow),
        }
    }

    /// What the content-settlement hook does to the state: a debit of the
    /// priced usage increase from `available`, a credit of the priced usage
    /// decrease to it, or no change when usage stood still; with the errors
    /// that refuse an unregistered account, an unpayable debit, and a credit
    /// that the record cannot absorb.
    pub open spec fn spec_settle(
        v: ContractView,
        account_id: Seq<char>,
        usage_before: u64,
        usage_after: u64,
        call_price: u128,
    ) -> (ContractView, Result<u128, StorageError>) {
        if !v.accounts.contains_key(account_id) {
            (v, Err(StorageError::NotRegistered))
        } else {
            let b = v.accounts[account_id];
            if usage_after > usage_before {
                let cost = v.spec_cost((usage_after - usage_before) as u64);
                if cost > u128::MAX as int {
                    (v, Err(StorageError::ArithmeticOverflow))
                } else if cost > b.available as int {
                    (v, Err(StorageError::InsufficientAvailableBalance))
                } else {
                    let nb = AccountStorageBalance {
                        total: b.total,
                        available: (b.available - cost) as u128,
                    };
                    (v.with_accounts(v.accounts.insert(account_id, nb)), Ok(call_price))
                }
            } else if usage_after < usage_before {
                let refund = v.spec_cost((usage_before - usage_after) as u64);
                if b.available + refund > b.total as int {
                    (v, Err(StorageError::ArithmeticOverflow))
                } else {
                    let nb = AccountStorageBalance {
                        total: b.total,
                        available: (b.available + refund) as u128,
                    };
                    (v.with_accounts(v.accounts.insert(account_id, nb)), Ok(call_price))
                }
            } else {
                (v, Ok(call_price))
            }
        }
    }

    /// Settles the storage-byte side of a content write for `account_id`:
    /// the host records its storage-usage counter before and after the write
    /// and hands both readings in. A usage increase is priced by the oracle
    /// and debited from the account's available balance; a decrease is priced
    /// and credited back, refused where the credit would push `available`
    /// above `total`. Returns the call's own pre-validated price unchanged.
    ///
    /// The write has already happened in the host's store by the time the
    /// hook runs: a failed settlement reports an error but does not undo the
    /// write.
    pub fn settle_content_write(
        &mut self,
        account_id: &String,
        usage_before: u64,
        usage_after: u64,
        call_price: u128,
    ) -> (r: Result<u128, StorageError>)
        requires
            old(self).wf(),
        ensures
            final(self).wf(),
            (final(self)@, r) == Self::spec_settle(
                old(self)@,
                account_id@,
                usage_before,
                usage_after,
                call_price,
            ),
    {
        match self.accounts.get(account_id) {
            None => Err(StorageError::NotRegistered),
            Some(b) => {
                if usage_after > usage_before {
                    match self.cost(usage_after - usage_before) {
                        Err(e) => Err(e),
                        Ok(cost) => {
                            if cost > b.available {
                                Err(StorageError::InsufficientAvailableBalance)
                            } else {
                                let nb = AccountStorageBalance {
                                    total: b.total,
                                    available: b.available - cost,
                                };
                                proof {
                                    lemma_inv_insert(self@, account_id@, nb);
                                }
                                self.accounts.insert(account_id, nb);
                                Ok(call_price)
                            }
                        },
                    }
                } else if usage_after < usage_before {
                    match self.cost(usage_before - usage_after) {
                        Err(e) => Err(e),
                        Ok(refund) => {
                            if refund > b.total - b.available {
                                Err(StorageError::ArithmeticOverflow)
                            } else {
                                let nb = AccountStorageBalance {
                                    total: b.total,
                                    available: b.available + refund,
                                };
                                proof {
                                    lemma_inv_insert(self@, account_id@, nb);
                                }
                                self.accounts.insert(account_id, nb);
                                Ok(call_price)
                            }
                        },
                    }
                } else {
                    Ok(call_price)
                }
            },
        }
    }
}

} // verus!
