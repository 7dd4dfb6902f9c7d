use vstd::prelude::*;

verus! {

/// Failure modes of the storage ledger.
///
/// Every operation that can fail reports one of these and leaves the ledger
/// exactly as it was before the call.
#[derive(Clone, Copy, PartialEq, Eq, Structural, Debug)]
pub enum StorageError {
    /// The initialization routine ran while contract state already exists.
    AlreadyInitialized,
    /// A deposit call attached no currency.
    InvalidDeposit,
    /// A first deposit for an account attached less than the minimum balance.
    InsufficientRegistrationAmount,
    /// A debit or withdrawal asked for more than the account's available balance.
    InsufficientAvailableBalance,
    /// The account has no ledger entry.
    NotRegistered,
    /// A withdrawal call did not attach exactly one minimal currency unit.
    MissingExactUnitAttachment,
    /// A computation would exceed the 128-bit currency range, or a storage
    /// refund would push `available` above `total`.
    ArithmeticOverflow,
    /// A subtraction of storage-usage counters would go below zero.
    ArithmeticUnderflow,
    /// The outbound currency transfer after a withdrawal could not be enacted.
    /// Never produced by the ledger itself: the host adapter reports it when
    /// the transfer it must schedule after the ledger commit fails.
    TransferFailed,
}

} // verus!
