use vstd::prelude::*;

verus! {

/// The ledger record of one registered account.
///
/// `total` is the cumulative currency ever deposited for storage minus any
/// withdrawn; `available` is the portion of `total` not currently backing
/// stored bytes. A well-formed record keeps `available <= total`.
#[derive(Clone, Copy, PartialEq, Eq, Structural, Debug)]
pub struct AccountStorageBalance {
    pub total: u128,
    pub available: u128,
}

/// The balance pair as handed back to callers of the settlement protocol.
#[derive(Clone, Copy, PartialEq, Eq, Structural, Debug)]
pub struct WrappedAccountStorageBalance {
    pub total: u128,
    pub available: u128,
}

/// A balance record is well formed when the spendable portion does not exceed
/// the cumulative deposit.
pub open spec fn balance_wf(b: AccountStorageBalance) -> bool {
    b.available <= b.total
}

impl AccountStorageBalance {
    /// The caller-facing copy of this record.
    pub fn wrap(&self) -> (r: WrappedAccountStorageBalance)
        ensures
            r == self.spec_wrap(),
    {
        WrappedAccountStorageBalance { total: self.total, available: self.available }
    }

    /// What `wrap` returns: the same pair, field for field.
    pub open spec fn spec_wrap(&self) -> WrappedAccountStorageBalance {
        WrappedAccountStorageBalance { total: self.total, available: self.available }
    }
}

} // verus!
