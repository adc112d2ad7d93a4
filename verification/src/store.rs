//! The association-list model shared by the ledgers: a `Vec` of key/value
//! entries with pairwise-distinct keys, read as a `Map` whose domain is the
//! set of existing records. An absent record reads as amount zero, while a
//! stored zero is a valid resting state, so the domain stays meaningful.

use vstd::prelude::*;

verus! {

/// All keys in an entry list are pairwise distinct.
pub open spec fn unique_keys<K>(s: Seq<(K, u128)>) -> bool {
    forall|i: int, j: int| 0 <= i < j < s.len() ==> (#[trigger] s[i]).0 != (#[trigger] s[j]).0
}

/// The map an entry list denotes. Built back to front, so a later entry would
/// win; under `unique_keys` no key is ever shadowed.
pub open spec fn entries_map<K>(s: Seq<(K, u128)>) -> Map<K, u128>
    decreases s.len(),
{
    if s.len() == 0 {
        Map::empty()
    } else {
        entries_map(s.drop_last()).insert(s.last().0, s.last().1)
    }
}

/// The stored amount under a key, or zero where no record exists.
pub open spec fn amount_of<K>(m: Map<K, u128>, k: K) -> u128 {
    if m.dom().contains(k) {
        m[k]
    } else {
        0
    }
}

/// Each entry of a duplicate-free list is a record of the denoted map.
pub proof fn lemma_entries_map_index<K>(s: Seq<(K, u128)>, i: int)
    requires
        unique_keys(s),
        0 <= i < s.len(),
    ensures
        entries_map(s).dom().contains(s[i].0),
        entries_map(s)[s[i].0] == s[i].1,
    decreases s.len(),
{
    if i < s.len() - 1 {
        assert(unique_keys(s.drop_last()));
        lemma_entries_map_index(s.drop_last(), i);
        assert(s[i].0 != s.last().0);
    }
}

/// A key matching no entry is outside the denoted map's domain.
pub proof fn lemma_entries_map_absent<K>(s: Seq<(K, u128)>, k: K)
    requires
        forall|i: int| 0 <= i < s.len() ==> (#[trigger] s[i]).0 != k,
    ensures
        !entries_map(s).dom().contains(k),
    decreases s.len(),
{
    if s.len() > 0 {
        lemma_entries_map_absent(s.drop_last(), k);
    }
}

/// Overwriting one entry's amount denotes an insert at that entry's key.
pub proof fn lemma_entries_map_update<K>(s: Seq<(K, u128)>, i: int, v: u128)
    requires
        unique_keys(s),
        0 <= i < s.len(),
    ensures
        entries_map(s.update(i, (s[i].0, v))) == entries_map(s).insert(s[i].0, v),
    decreases s.len(),
{
    let t = s.update(i, (s[i].0, v));
    if i == s.len() - 1 {
        assert(t.drop_last() =~= s.drop_last());
        assert(entries_map(s).insert(s[i].0, v) =~= entries_map(s.drop_last()).insert(s[i].0, v));
    } else {
        assert(t.drop_last() =~= s.drop_last().update(i, (s[i].0, v)));
        assert(unique_keys(s.drop_last()));
        lemma_entries_map_update(s.drop_last(), i, v);
        assert(s[i].0 != s.last().0);
        assert(entries_map(s.drop_last()).insert(s[i].0, v).insert(s.last().0, s.last().1) =~= entries_map(
            s.drop_last(),
        ).insert(s.last().0, s.last().1).insert(s[i].0, v));
    }
}

/// An element-wise copy; the ledgers use it to snapshot their records before
/// a batch so that a failing batch can restore them exactly.
#[verifier::loop_isolation(false)]
pub fn copy_entries<T: Copy>(v: &Vec<T>) -> (r: Vec<T>)
    ensures
        r@ == v@,
{
    let mut r: Vec<T> = Vec::new();
    let mut i: usize = 0;
    while i < v.len()
        invariant
            i <= v.len(),
            r@ == v@.take(i as int),
        decreases v.len() - i,
    {
        r.push(v[i]);
        i = i + 1;
        proof {
            assert(v@.take(i as int) =~= v@.take(i as int - 1).push(v@[i as int - 1]));
        }
    }
    proof {
        assert(v@.take(v@.len() as int) =~= v@);
    }
    r
}

} // verus!
