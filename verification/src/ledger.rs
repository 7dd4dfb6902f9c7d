use vstd::prelude::*;

use crate::balance::AccountStorageBalance;

verus! {

/// The account ledger: the keyed store of per-account balance records.
///
/// Held as a vector of (account id, record) pairs whose ids are pairwise
/// distinct, and viewed as a map from the id's characters to the record.
pub struct AccountLedger {
    entries: Vec<(String, AccountStorageBalance)>,
}

impl AccountLedger {
    /// The map denoted by a sequence of entries; a later entry overrides an
    /// earlier one with the same id (a well-formed ledger has none).
    pub closed spec fn map_of(s: Seq<(String, AccountStorageBalance)>) -> Map<
        Seq<char>,
        AccountStorageBalance,
    >
        decreases s.len(),
    {
        if s.len() == 0 {
            Map::empty()
        } else {
            Self::map_of(s.drop_last()).insert(s.last().0@, s.last().1)
        }
    }

    /// Entry ids are pairwise distinct.
    pub closed spec fn wf(&self) -> bool {
        forall|i: int, j: int|
            0 <= i < j < self.entries@.len() ==> self.entries@[i].0@ != self.entries@[j].0@
    }

    /// The empty ledger.
    pub fn new() -> (r: AccountLedger)
        ensures
            r.wf(),
            r@ == Map::<Seq<char>, AccountStorageBalance>::empty(),
    {
        AccountLedger { entries: Vec::new() }
    }

    /// The record stored under `account_id`, if the account is registered.
    pub fn get(&self, account_id: &String) -> (r: Option<AccountStorageBalance>)
        requires
            self.wf(),
        ensures
            r == if self@.contains_key(account_id@) {
                Some(self@[account_id@])
            } else {
                None::<AccountStorageBalance>
            },
    {
        let n: usize = self.entries.len();
        let mut i: usize = 0;
        while i < n
            invariant
                self.wf(),
                n == self.entries@.len(),
                i <= n,
                forall|j: int| 0 <= j < i ==> self.entries@[j].0@ != account_id@,
            decreases n - i,
        {
            let entry: &(String, AccountStorageBalance) = &self.entries[i];
            if entry.0 == *account_id {
                proof {
                    assert(self.entries@[i as int].0@ == account_id@);
                    assert forall|j: int|
                        i < j < self.entries@.len() implies self.entries@[j].0@
                        != account_id@ by {
                        assert(self.entries@[i as int].0@ != self.entries@[j].0@);
                    }
                    Self::lemma_map_of_index(self.entries@, account_id@, i as int);
                }
                return Some(entry.1);
            }
            i += 1;
        }
        proof {
            Self::lemma_map_of_absent(self.entries@, account_id@);
        }
        None
    }

    /// Stores `balance` under `account_id`, replacing the record of an already
    /// registered account.
    pub fn insert(&mut self, account_id: &String, balance: AccountStorageBalance)
        requires
            old(self).wf(),
        ensures
            final(self).wf(),
            final(self)@ == old(self)@.insert(account_id@, balance),
    {
        let n: usize = self.entries.len();
        let mut i: usize = 0;
        while i < n
            invariant
                *self == *old(self),
                old(self).wf(),
                n == self.entries@.len(),
                i <= n,
                forall|j: int| 0 <= j < i ==> self.entries@[j].0@ != account_id@,
            decreases n - i,
        {
            let found: bool = self.entries[i].0 == *account_id;
            if found {
                let ghost s = self.entries@;
                proof {
                    assert forall|p: int, q: int| 0 <= p < q < s.len() implies s[p].0@
                        != s[q].0@ by {
                        assert(old(self).entries@[p].0@ != old(self).entries@[q].0@);
                    }
                }
                self.entries[i].1 = balance;
                proof {
                    let e = (s[i as int].0, balance);
                    assert(self.entries@ =~= s.update(i as int, e));
                    Self::lemma_map_of_update(s, i as int, e);
                    assert forall|p: int, q: int|
                        0 <= p < q < self.entries@.len() implies self.entries@[p].0@
                        != self.entries@[q].0@ by {
                        assert(self.entries@[p].0 == s[p].0);
                        assert(self.entries@[q].0 == s[q].0);
                    }
                }
                return ;
            }
            i += 1;
        }
        let ghost s = self.entries@;
        proof {
            assert forall|p: int, q: int| 0 <= p < q < s.len() implies s[p].0@ != s[q].0@ by {
                assert(old(self).entries@[p].0@ != old(self).entries@[q].0@);
            }
        }
        self.entries.push((account_id.clone(), balance));
        proof {
            assert(self.entries@.drop_last() =~= s);
            assert(self.entries@.last().0@ == account_id@);
            Self::lemma_map_of_absent(s, account_id@);
            assert forall|p: int, q: int|
                0 <= p < q < self.entries@.len() implies self.entries@[p].0@
                != self.entries@[q].0@ by {
                if q < s.len() {
                    assert(self.entries@[p].0 == s[p].0);
                    assert(self.entries@[q].0 == s[q].0);
                } else {
                    assert(self.entries@[p].0 == s[p].0);
                    assert(self.entries@[q].0@ == account_id@);
                }
            }
        }
    }

    proof fn lemma_map_of_index(s: Seq<(String, AccountStorageBalance)>, k: Seq<char>, i: int)
        requires
            0 <= i < s.len(),
            s[i].0@ == k,
            forall|j: int| i < j < s.len() ==> s[j].0@ != k,
        ensures
            Self::map_of(s).contains_key(k),
            Self::map_of(s)[k] == s[i].1,
        decreases s.len(),
    {
        if i == s.len() - 1 {
            assert(s.last() == s[i]);
        } else {
            assert(s.drop_last()[i] == s[i]);
            Self::lemma_map_of_index(s.drop_last(), k, i);
        }
    }

    proof fn lemma_map_of_absent(s: Seq<(String, AccountStorageBalance)>, k: Seq<char>)
        requires
            forall|j: int| 0 <= j < s.len() ==> s[j].0@ != k,
        ensures
            !Self::map_of(s).contains_key(k),
        decreases s.len(),
    {
        if s.len() > 0 {
            assert(s.last() == s[s.len() - 1]);
            Self::lemma_map_of_absent(s.drop_last(), k);
        }
    }

    proof fn lemma_map_of_update(
        s: Seq<(String, AccountStorageBalance)>,
        i: int,
        e: (String, AccountStorageBalance),
    )
        requires
            0 <= i < s.len(),
            forall|p: int, q: int| 0 <= p < q < s.len() ==> s[p].0@ != s[q].0@,
            e.0@ == s[i].0@,
        ensures
            Self::map_of(s.update(i, e)) == Self::map_of(s).insert(e.0@, e.1),
        decreases s.len(),
    {
        let s2 = s.update(i, e);
        if i == s.len() - 1 {
            assert(s2.drop_last() =~= s.drop_last());
            assert(s2.last() == e);
            assert(Self::map_of(s2) =~= Self::map_of(s).insert(e.0@, e.1));
        } else {
            assert(s2.drop_last() =~= s.drop_last().update(i, e));
            Self::lemma_map_of_update(s.drop_last(), i, e);
            assert(s2.last() == s.last());
            assert(s.last() == s[s.len() - 1]);
            assert(s.last().0@ != e.0@);
            assert(Self::map_of(s2) =~= Self::map_of(s).insert(e.0@, e.1));
        }
    }
}

impl View for AccountLedger {
    type V = Map<Seq<char>, AccountStorageBalance>;

    closed spec fn view(&self) -> Map<Seq<char>, AccountStorageBalance> {
        Self::map_of(self.entries@)
    }
}

} // verus!
