//! `AllowanceLedger`: per-(owner, operator, optional token id) approved spend
//! amounts. A record keyed with `None` is a blanket approval covering every
//! token id for that (owner, operator) pair; it is an independent record,
//! kept beside any id-specific approvals for the same pair.
//!
//! Resolution policy: a leg consults the blanket record whenever one exists
//! for the (owner, operator) pair, and the id-specific record otherwise. The
//! consulted record is the one read for authorization and the one debited. A
//! record holding `UNLIMITED_ALLOWANCE` grants any amount and is never
//! decremented.

use vstd::prelude::*;
use vstd::pervasive::VecAdditionalExecFns;

use crate::{Psp37Error, UNLIMITED_ALLOWANCE};
use crate::store::{
    amount_of, copy_entries, entries_map, lemma_entries_map_absent, lemma_entries_map_index,
    lemma_entries_map_update, unique_keys,
};

verus! {

/// Key of one allowance record: `token` is `None` for a blanket approval and
/// `Some(id)` for an id-specific one.
#[derive(Clone, Copy, Debug)]
pub struct AllowanceKey {
    pub owner: u128,
    pub operator: u128,
    pub token: Option<u128>,
}

/// The record a leg on token `id` consults: the blanket record of the
/// (owner, operator) pair where one exists, the id-specific record otherwise.
pub open spec fn spec_consulted_key(
    m: Map<AllowanceKey, u128>,
    owner: u128,
    operator: u128,
    id: u128,
) -> AllowanceKey {
    let blanket = AllowanceKey { owner, operator, token: None };
    if m.dom().contains(blanket) {
        blanket
    } else {
        AllowanceKey { owner, operator, token: Some(id) }
    }
}

/// The amount the consulted record holds; zero where no record exists.
pub open spec fn spec_effective_allowance(
    m: Map<AllowanceKey, u128>,
    owner: u128,
    operator: u128,
    id: u128,
) -> u128 {
    amount_of(m, spec_consulted_key(m, owner, operator, id))
}

/// What an allowance debit does: nothing when the consulted record holds the
/// unlimited sentinel, failure when it holds less than `amount`, and an
/// atomic subtraction otherwise.
pub open spec fn spec_decrease_allowance(
    m: Map<AllowanceKey, u128>,
    owner: u128,
    operator: u128,
    id: u128,
    amount: u128,
) -> Result<Map<AllowanceKey, u128>, Psp37Error> {
    let k = spec_consulted_key(m, owner, operator, id);
    let cur = amount_of(m, k);
    if cur == UNLIMITED_ALLOWANCE {
        Ok(m)
    } else if cur < amount {
        Err(Psp37Error::InsufficientAllowance)
    } else {
        Ok(m.insert(k, (cur - amount) as u128))
    }
}

/// Approved spend amounts, one record per (owner, operator, optional id) key.
pub struct AllowanceLedger {
    entries: Vec<(AllowanceKey, u128)>,
}

impl AllowanceLedger {
    /// The record list holds at most one entry per key.
    pub closed spec fn wf(&self) -> bool {
        unique_keys(self.entries@)
    }

    /// The allowance records, as stored.
    pub closed spec fn allowance_entries(&self) -> Seq<(AllowanceKey, u128)> {
        self.entries@
    }

    /// The allowance records as a map from key to approved amount.
    pub closed spec fn amap(&self) -> Map<AllowanceKey, u128> {
        entries_map(self.entries@)
    }

    /// The stored amount under `key`; zero where no record exists.
    pub open spec fn allowance_of(&self, key: AllowanceKey) -> u128 {
        amount_of(self.amap(), key)
    }

    /// An empty ledger: no approval anywhere.
    pub fn new() -> (r: AllowanceLedger)
        ensures
            r.wf(),
            forall|k: AllowanceKey| #[trigger] r.allowance_of(k) == 0,
            r.allowance_entries().len() == 0,
            r.amap() == Map::<AllowanceKey, u128>::empty(),
    {
        let r = AllowanceLedger { entries: Vec::new() };
        proof {
            assert(forall|k: AllowanceKey| !(#[trigger] r.amap().dom().contains(k)));
        }
        r
    }

    /// An exact copy of every record, for snapshot-and-restore.
    pub fn snapshot(&self) -> (r: AllowanceLedger)
        ensures
            r.allowance_entries() == self.allowance_entries(),
            r.wf() == self.wf(),
            r.amap() == self.amap(),
    {
        AllowanceLedger { entries: copy_entries(&self.entries) }
    }

    /// Index of the record for (owner, operator, token), if one exists.
    #[verifier::loop_isolation(false)]
    fn find(&self, owner: u128, operator: u128, token: Option<u128>) -> (r: Option<usize>)
        ensures
            match r {
                Some(i) => i < self.entries@.len() && self.entries@[i as int].0 == (AllowanceKey {
                    owner,
                    operator,
                    token,
                }),
                None => forall|j: int|
                    0 <= j < self.entries@.len() ==> (#[trigger] self.entries@[j]).0 != (AllowanceKey {
                        owner,
                        operator,
                        token,
                    }),
            },
    {
        let mut i: usize = 0;
        while i < self.entries.len()
            invariant
                i <= self.entries@.len(),
                forall|j: int|
                    0 <= j < i ==> (#[trigger] self.entries@[j]).0 != (AllowanceKey {
                        owner,
                        operator,
                        token,
                    }),
            decreases self.entries@.len() - i,
        {
            let (k, _) = self.entries[i];
            let token_matches = match (k.token, token) {
                (Option::None, Option::None) => true,
                (Option::Some(a), Option::Some(b)) => a == b,
                _ => false,
            };
            if k.owner == owner && k.operator == operator && token_matches {
                return Some(i);
            }
            i = i + 1;
        }
        None
    }

    /// The stored amount for exactly the given key — id-specific and blanket
    /// records are independent; the caller names which one it reads.
    pub fn get_allowance(&self, owner: u128, operator: u128, token: Option<u128>) -> (r: u128)
        requires
            self.wf(),
        ensures
            r == self.allowance_of(AllowanceKey { owner, operator, token }),
    {
        match self.find(owner, operator, token) {
            Some(i) => {
                proof {
                    lemma_entries_map_index(self.entries@, i as int);
                }
                self.entries[i].1
            },
            None => {
                proof {
                    lemma_entries_map_absent(self.entries@, AllowanceKey { owner, operator, token });
                }
                0
            },
        }
    }

    /// The amount the consulted record grants a leg on token `id`.
    pub fn effective_allowance(&self, owner: u128, operator: u128, id: u128) -> (r: u128)
        requires
            self.wf(),
        ensures
            r == spec_effective_allowance(self.amap(), owner, operator, id),
    {
        match self.find(owner, operator, None) {
            Some(i) => {
                proof {
                    lemma_entries_map_index(self.entries@, i as int);
                }
                self.entries[i].1
            },
            None => {
                proof {
                    lemma_entries_map_absent(
                        self.entries@,
                        AllowanceKey { owner, operator, token: None },
                    );
                }
                self.get_allowance(owner, operator, Some(id))
            },
        }
    }

    /// Writes `amount` as the record for (owner, operator, token), creating
    /// the record where none exists. Approvals are granted outside the batch
    /// engine; this is the operation they come through.
    pub fn set_allowance(&mut self, owner: u128, operator: u128, token: Option<u128>, amount: u128)
        requires
            old(self).wf(),
        ensures
            final(self).wf(),
            final(self).amap() == old(self).amap().insert(
                AllowanceKey { owner, operator, token },
                amount,
            ),
    {
        match self.find(owner, operator, token) {
            Some(i) => {
                proof {
                    lemma_entries_map_update(self.entries@, i as int, amount);
                    assert(self.entries@.update(i as int, (self.entries@[i as int].0, amount))
                        =~= self.entries@.update(
                        i as int,
                        (AllowanceKey { owner, operator, token }, amount),
                    ));
                }
                self.entries.set(i, (AllowanceKey { owner, operator, token }, amount));
                proof {
                    assert(unique_keys(self.entries@)) by {
                        assert(forall|j: int|
                            0 <= j < self.entries@.len() ==> (#[trigger] self.entries@[j]).0 == old(
                                self,
                            ).entries@[j].0);
                    }
                }
            },
            None => {
                proof {
                    lemma_entries_map_absent(self.entries@, AllowanceKey { owner, operator, token });
                }
                self.entries.push((AllowanceKey { owner, operator, token }, amount));
                proof {
                    assert(self.entries@.drop_last() =~= old(self).entries@);
                }
            },
        }
    }

    /// Debits the consulted record for a leg on token `id` by `amount`,
    /// failing with `InsufficientAllowance` — and changing nothing — where it
    /// holds less. A record holding `UNLIMITED_ALLOWANCE` is left untouched.
    pub fn decrease_allowance(&mut self, owner: u128, operator: u128, id: u128, amount: u128) -> (r:
        Result<(), Psp37Error>)
        requires
            old(self).wf(),
        ensures
            final(self).wf(),
            match r {
                Ok(()) => spec_decrease_allowance(old(self).amap(), owner, operator, id, amount)
                    == Ok::<Map<AllowanceKey, u128>, Psp37Error>(final(self).amap()),
                Err(e) => spec_decrease_allowance(old(self).amap(), owner, operator, id, amount)
                    == Err::<Map<AllowanceKey, u128>, Psp37Error>(e) && final(self).allowance_entries()
                    == old(self).allowance_entries(),
            },
    {
        let token: Option<u128> = match self.find(owner, operator, None) {
            Some(i) => {
                proof {
                    lemma_entries_map_index(self.entries@, i as int);
                }
                None
            },
            None => {
                proof {
                    lemma_entries_map_absent(
                        self.entries@,
                        AllowanceKey { owner, operator, token: None },
                    );
                }
                Some(id)
            },
        };
        proof {
            assert(AllowanceKey { owner, operator, token } == spec_consulted_key(
                self.amap(),
                owner,
                operator,
                id,
            ));
        }
        let cur = self.get_allowance(owner, operator, token);
        if cur == UNLIMITED_ALLOWANCE {
            return Ok(());
        }
        if cur < amount {
            return Err(Psp37Error::InsufficientAllowance);
        }
        self.set_allowance(owner, operator, token, cur - amount);
        Ok(())
    }
}

} // verus!
