//! A per-account storage-rent accounting ledger.
//!
//! The ledger tracks, for every registered account, how much currency has been
//! deposited to pay for on-record storage (`total`) and how much of that is not
//! currently backing stored bytes (`available`). The settlement protocol
//! (deposit, withdraw, balance queries) and the byte-delta settlement hook are
//! pure state transitions here: the host environment reads the attached
//! currency, the caller identity and the storage-usage counters, hands them in
//! as plain values, and enacts the returned actions (such as the outbound
//! transfer after a withdrawal).

pub mod balance;
pub mod contract;
pub mod error;
pub mod laws;
pub mod ledger;
pub mod storage_manager;

pub use balance::AccountStorageBalance;
pub use balance::WrappedAccountStorageBalance;
pub use contract::Contract;
pub use contract::ContractView;
pub use error::StorageError;
pub use ledger::AccountLedger;
