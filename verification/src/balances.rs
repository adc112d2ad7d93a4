//! `BalanceLedger`: per-account, per-token balances, with mint/burn
//! bookkeeping so that every token id's total supply is tracked separately
//! from ordinary transfer volume.

use vstd::prelude::*;
use vstd::pervasive::VecAdditionalExecFns;

use crate::Psp37Error;
use crate::store::{
    amount_of, copy_entries, entries_map, lemma_entries_map_absent, lemma_entries_map_index,
    lemma_entries_map_update, unique_keys,
};

verus! {

/// Sum of the amounts stored for token `id` across all accounts.
pub open spec fn sum_for_id(s: Seq<((u128, u128), u128)>, id: u128) -> int
    decreases s.len(),
{
    if s.len() == 0 {
        0
    } else {
        sum_for_id(s.drop_last(), id) + if s.last().0.1 == id {
            s.last().1 as int
        } else {
            0
        }
    }
}

/// Overwriting one entry's amount moves that token's sum by the difference
/// and leaves every other token's sum alone.
pub proof fn lemma_sum_update(s: Seq<((u128, u128), u128)>, i: int, v: u128, id: u128)
    requires
        0 <= i < s.len(),
    ensures
        sum_for_id(s.update(i, (s[i].0, v)), id) == sum_for_id(s, id) + if s[i].0.1 == id {
            v as int - s[i].1 as int
        } else {
            0
        },
    decreases s.len(),
{
    let t = s.update(i, (s[i].0, v));
    if i == s.len() - 1 {
        assert(t.drop_last() =~= s.drop_last());
    } else {
        assert(t.drop_last() =~= s.drop_last().update(i, (s[i].0, v)));
        lemma_sum_update(s.drop_last(), i, v, id);
    }
}

/// Per-account, per-token balance records, keyed by (account, token id),
/// beside one total-supply record per token id.
pub struct BalanceLedger {
    entries: Vec<((u128, u128), u128)>,
    supplies: Vec<(u128, u128)>,
}

impl BalanceLedger {
    /// Both record lists hold at most one entry per key.
    pub closed spec fn wf(&self) -> bool {
        unique_keys(self.entries@) && unique_keys(self.supplies@)
    }

    /// The balance records, as stored.
    pub closed spec fn balance_entries(&self) -> Seq<((u128, u128), u128)> {
        self.entries@
    }

    /// The supply records, as stored.
    pub closed spec fn supply_entries(&self) -> Seq<(u128, u128)> {
        self.supplies@
    }

    /// The balance records as a map from (account, token id) to amount.
    pub closed spec fn bal_map(&self) -> Map<(u128, u128), u128> {
        entries_map(self.entries@)
    }

    /// The supply records as a map from token id to total supply.
    pub closed spec fn supply_map(&self) -> Map<u128, u128> {
        entries_map(self.supplies@)
    }

    /// The balance of `account` for token `id`; zero where no record exists.
    pub open spec fn balance_of(&self, account: u128, id: u128) -> u128 {
        amount_of(self.bal_map(), (account, id))
    }

    /// The total supply recorded for token `id`; zero where no record exists.
    pub open spec fn total_supply(&self, id: u128) -> u128 {
        amount_of(self.supply_map(), id)
    }

    /// Sum of all accounts' balances for token `id`.
    pub closed spec fn id_sum(&self, id: u128) -> int {
        sum_for_id(self.entries@, id)
    }

    /// An empty ledger: no balance and no supply anywhere.
    pub fn new() -> (r: BalanceLedger)
        ensures
            r.wf(),
            forall|a: u128, id: u128| #[trigger] r.balance_of(a, id) == 0,
            forall|id: u128| #[trigger] r.total_supply(id) == 0,
            forall|id: u128| #[trigger] r.id_sum(id) == 0,
            r.balance_entries().len() == 0,
            r.supply_entries().len() == 0,
    {
        BalanceLedger { entries: Vec::new(), supplies: Vec::new() }
    }

    /// An exact copy of every record, for snapshot-and-restore.
    pub fn snapshot(&self) -> (r: BalanceLedger)
        ensures
            r.balance_entries() == self.balance_entries(),
            r.supply_entries() == self.supply_entries(),
            r.wf() == self.wf(),
            r.bal_map() == self.bal_map(),
            r.supply_map() == self.supply_map(),
            forall|id: u128| #[trigger] r.id_sum(id) == self.id_sum(id),
    {
        BalanceLedger { entries: copy_entries(&self.entries), supplies: copy_entries(&self.supplies) }
    }

    /// Index of the balance record for (account, id), if one exists.
    #[verifier::loop_isolation(false)]
    fn find_entry(&self, account: u128, id: u128) -> (r: Option<usize>)
        ensures
            match r {
                Some(i) => i < self.entries@.len() && self.entries@[i as int].0 == (account, id),
                None => forall|j: int|
                    0 <= j < self.entries@.len() ==> (#[trigger] self.entries@[j]).0 != (account, id),
            },
    {
        let mut i: usize = 0;
        while i < self.entries.len()
            invariant
                i <= self.entries@.len(),
                forall|j: int| 0 <= j < i ==> (#[trigger] self.entries@[j]).0 != (account, id),
            decreases self.entries@.len() - i,
        {
            let ((ea, et), _) = self.entries[i];
            if ea == account && et == id {
                return Some(i);
            }
            i = i + 1;
        }
        None
    }

    /// Index of the supply record for `id`, if one exists.
    #[verifier::loop_isolation(false)]
    fn find_supply(&self, id: u128) -> (r: Option<usize>)
        ensures
            match r {
                Some(i) => i < self.supplies@.len() && self.supplies@[i as int].0 == id,
                None => forall|j: int|
                    0 <= j < self.supplies@.len() ==> (#[trigger] self.supplies@[j]).0 != id,
            },
    {
        let mut i: usize = 0;
        while i < self.supplies.len()
            invariant
                i <= self.supplies@.len(),
                forall|j: int| 0 <= j < i ==> (#[trigger] self.supplies@[j]).0 != id,
            decreases self.supplies@.len() - i,
        {
            let (sid, _) = self.supplies[i];
            if sid == id {
                return Some(i);
            }
            i = i + 1;
        }
        None
    }

    /// The stored balance of `account` for token `id`.
    pub fn get_balance(&self, account: u128, id: u128) -> (r: u128)
        requires
            self.wf(),
        ensures
            r == self.balance_of(account, id),
    {
        match self.find_entry(account, id) {
            Some(i) => {
                proof {
                    lemma_entries_map_index(self.entries@, i as int);
                }
                self.entries[i].1
            },
            None => {
                proof {
                    lemma_entries_map_absent(self.entries@, (account, id));
                }
                0
            },
        }
    }

    /// The stored total supply of token `id`.
    pub fn get_total_supply(&self, id: u128) -> (r: u128)
        requires
            self.wf(),
        ensures
            r == self.total_supply(id),
    {
        match self.find_supply(id) {
            Some(i) => {
                proof {
                    lemma_entries_map_index(self.supplies@, i as int);
                }
                self.supplies[i].1
            },
            None => {
                proof {
                    lemma_entries_map_absent(self.supplies@, id);
                }
                0
            },
        }
    }

    /// Writes `amount` as the balance record for (account, id), creating the
    /// record where none exists.
    fn set_balance_entry(&mut self, account: u128, id: u128, amount: u128)
        requires
            old(self).wf(),
        ensures
            final(self).wf(),
            final(self).bal_map() == old(self).bal_map().insert((account, id), amount),
            final(self).supply_entries() == old(self).supply_entries(),
            forall|t: u128| #[trigger]
                final(self).id_sum(t) == old(self).id_sum(t) + if t == id {
                    amount as int - old(self).balance_of(account, id) as int
                } else {
                    0
                },
    {
        match self.find_entry(account, id) {
            Some(i) => {
                proof {
                    lemma_entries_map_index(self.entries@, i as int);
                    lemma_entries_map_update(self.entries@, i as int, amount);
                    assert forall|t: u128| #[trigger] sum_for_id(
                        self.entries@.update(i as int, ((account, id), amount)),
                        t,
                    ) == sum_for_id(self.entries@, t) + (if t == id {
                        amount as int - self.entries@[i as int].1 as int
                    } else {
                        0int
                    }) by {
                        lemma_sum_update(self.entries@, i as int, amount, t);
                    }
                    assert(self.entries@.update(i as int, (self.entries@[i as int].0, amount)) =~= self.entries@.update(
                        i as int,
                        ((account, id), amount),
                    ));
                }
                self.entries.set(i, ((account, id), amount));
                proof {
                    assert(unique_keys(self.entries@)) by {
                        assert(forall|j: int|
                            0 <= j < self.entries@.len() ==> (#[trigger] self.entries@[j]).0 == old(self).entries@[j].0);
                    }
                }
            },
            None => {
                proof {
                    lemma_entries_map_absent(self.entries@, (account, id));
                }
                self.entries.push(((account, id), amount));
                proof {
                    assert(self.entries@.drop_last() =~= old(self).entries@);
                }
            },
        }
    }

    /// Writes `amount` as the supply record for `id`, creating the record
    /// where none exists.
    fn set_supply_entry(&mut self, id: u128, amount: u128)
        requires
            old(self).wf(),
        ensures
            final(self).wf(),
            final(self).supply_map() == old(self).supply_map().insert(id, amount),
            final(self).balance_entries() == old(self).balance_entries(),
            final(self).bal_map() == old(self).bal_map(),
            forall|t: u128| #[trigger] final(self).id_sum(t) == old(self).id_sum(t),
    {
        match self.find_supply(id) {
            Some(i) => {
                proof {
                    lemma_entries_map_update(self.supplies@, i as int, amount);
                    assert(self.supplies@.update(i as int, (self.supplies@[i as int].0, amount)) =~= self.supplies@.update(
                        i as int,
                        (id, amount),
                    ));
                }
                self.supplies.set(i, (id, amount));
                proof {
                    assert(unique_keys(self.supplies@)) by {
                        assert(forall|j: int|
                            0 <= j < self.supplies@.len() ==> (#[trigger] self.supplies@[j]).0 == old(self).supplies@[j].0);
                    }
                }
            },
            None => {
                proof {
                    lemma_entries_map_absent(self.supplies@, id);
                }
                self.supplies.push((id, amount));
                proof {
                    assert(self.supplies@.drop_last() =~= old(self).supplies@);
                }
            },
        }
    }

    /// Adds `amount` to the balance of (account, id). With `mint` set the
    /// operation is supply-changing and the token's total supply grows by the
    /// same amount; a plain transfer leg leaves the supply records untouched.
    pub fn increase_balance(&mut self, account: u128, id: u128, amount: u128, mint: bool)
        requires
            old(self).wf(),
            old(self).balance_of(account, id) + amount <= u128::MAX,
            mint ==> old(self).total_supply(id) + amount <= u128::MAX,
        ensures
            final(self).wf(),
            final(self).bal_map() == old(self).bal_map().insert(
                (account, id),
                (old(self).balance_of(account, id) + amount) as u128,
            ),
            mint ==> final(self).supply_map() == old(self).supply_map().insert(
                id,
                (old(self).total_supply(id) + amount) as u128,
            ),
            !mint ==> final(self).supply_entries() == old(self).supply_entries(),
            forall|t: u128| #[trigger]
                final(self).id_sum(t) == old(self).id_sum(t) + if t == id {
                    amount as int
                } else {
                    0
                },
    {
        let b = self.get_balance(account, id);
        self.set_balance_entry(account, id, b + amount);
        if mint {
            let s = self.get_total_supply(id);
            self.set_supply_entry(id, s + amount);
        }
    }

    /// Subtracts `amount` from the balance of (account, id), failing with
    /// `InsufficientBalance` — and changing nothing — where the stored
    /// balance is smaller. With `burn` set the token's total supply shrinks
    /// by the same amount; a plain transfer leg leaves the supply records
    /// untouched.
    pub fn decrease_balance(&mut self, account: u128, id: u128, amount: u128, burn: bool) -> (r: Result<
        (),
        Psp37Error,
    >)
        requires
            old(self).wf(),
            burn ==> amount <= old(self).total_supply(id),
        ensures
            final(self).wf(),
            match r {
                Ok(()) => {
                    &&& old(self).balance_of(account, id) >= amount
                    &&& final(self).bal_map() == old(self).bal_map().insert(
                        (account, id),
                        (old(self).balance_of(account, id) - amount) as u128,
                    )
                    &&& burn ==> final(self).supply_map() == old(self).supply_map().insert(
                        id,
                        (old(self).total_supply(id) - amount) as u128,
                    )
                    &&& !burn ==> final(self).supply_entries() == old(self).supply_entries()
                    &&& forall|t: u128| #[trigger]
                        final(self).id_sum(t) == old(self).id_sum(t) - if t == id {
                            amount as int
                        } else {
                            0
                        }
                },
                Err(e) => {
                    &&& e == Psp37Error::InsufficientBalance
                    &&& old(self).balance_of(account, id) < amount
                    &&& final(self).balance_entries() == old(self).balance_entries()
                    &&& final(self).supply_entries() == old(self).supply_entries()
                },
            },
    {
        let b = self.get_balance(account, id);
        if b < amount {
            return Err(Psp37Error::InsufficientBalance);
        }
        self.set_balance_entry(account, id, b - amount);
        if burn {
            let s = self.get_total_supply(id);
            self.set_supply_entry(id, s - amount);
        }
        Ok(())
    }
}

} // verus!
