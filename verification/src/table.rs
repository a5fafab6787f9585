//! Keyed balances with an implicit zero.
//!
//! A [`Table`] stands for a mapping from keys to balances in which a key that
//! was never written holds zero. It keeps one entry per written key; an entry
//! stays once it is there, whatever its balance becomes. [`total_of`] is the sum
//! of what such a mapping holds.
use vstd::prelude::*;
use vstd::set_lib::lemma_set_subset_finite;

verus! {

/// An amount of an asset, or a number of liquidity shares.
pub type Balance = u128;

/// A value that can key a [`Table`].
pub trait Key: Copy {
    /// Whether `self` and `other` are the same key.
    fn same(&self, other: &Self) -> (same: bool)
        ensures
            same == (*self == *other),
    ;
}

impl Key for u64 {
    fn same(&self, other: &Self) -> (same: bool) {
        *self == *other
    }
}

impl Key for u32 {
    fn same(&self, other: &Self) -> (same: bool) {
        *self == *other
    }
}

/// The sum of the balances that `balances` holds under the keys in `keys`.
pub open spec fn sum_over<K>(keys: Set<K>, balances: Map<K, Balance>) -> nat
    decreases keys.len(),
    when keys.finite()
{
    if keys.is_empty() {
        0
    } else {
        let key = keys.choose();
        balances[key] as nat + sum_over(keys.remove(key), balances)
    }
}

/// Any key of the set can be taken out of the sum first.
pub proof fn lemma_sum_over_remove<K>(keys: Set<K>, balances: Map<K, Balance>, key: K)
    requires
        keys.finite(),
        keys.contains(key),
    ensures
        sum_over(keys, balances) == balances[key] + sum_over(keys.remove(key), balances),
    decreases keys.len(),
{
    let first = keys.choose();
    if first != key {
        let rest = keys.remove(first);
        lemma_sum_over_remove(rest, balances, key);
        lemma_sum_over_remove(keys.remove(key), balances, first);
        assert(rest.remove(key) =~= keys.remove(key).remove(first));
    }
}

/// The sum depends only on the balances under the keys of the set.
pub proof fn lemma_sum_over_agree<K>(keys: Set<K>, left: Map<K, Balance>, right: Map<K, Balance>)
    requires
        keys.finite(),
        forall|key: K| keys.contains(key) ==> left[key] == right[key],
    ensures
        sum_over(keys, left) == sum_over(keys, right),
    decreases keys.len(),
{
    if !keys.is_empty() {
        lemma_sum_over_agree(keys.remove(keys.choose()), left, right);
    }
}

/// No balance under a key of the set exceeds the sum.
pub proof fn lemma_sum_over_bounds<K>(keys: Set<K>, balances: Map<K, Balance>, key: K)
    requires
        keys.finite(),
        keys.contains(key),
    ensures
        balances[key] <= sum_over(keys, balances),
{
    lemma_sum_over_remove(keys, balances, key);
}

/// Writing `value` under `key` moves the sum by the difference to what the key
/// held before, where a key outside the set held nothing.
pub proof fn lemma_sum_over_insert<K>(
    keys: Set<K>,
    balances: Map<K, Balance>,
    key: K,
    value: Balance,
)
    requires
        keys.finite(),
        !keys.contains(key) ==> balances[key] == 0,
    ensures
        sum_over(keys.insert(key), balances.insert(key, value)) + balances[key] == sum_over(
            keys,
            balances,
        ) + value,
{
    let rest = keys.remove(key);
    lemma_sum_over_remove(keys.insert(key), balances.insert(key, value), key);
    assert(keys.insert(key).remove(key) =~= rest);
    lemma_sum_over_agree(rest, balances.insert(key, value), balances);
    if keys.contains(key) {
        lemma_sum_over_remove(keys, balances, key);
    } else {
        assert(rest =~= keys);
    }
}

/// The keys under which `balances` holds something.
pub open spec fn support<K>(balances: Map<K, Balance>) -> Set<K> {
    Set::new(|key: K| balances[key] != 0)
}

/// The sum of all that `balances` holds. It is meant for a map that holds
/// something under finitely many keys only.
pub open spec fn total_of<K>(balances: Map<K, Balance>) -> nat {
    sum_over(support(balances), balances)
}

/// Keys that hold nothing add nothing: the sum over any finite set that covers
/// the support is the total.
pub proof fn lemma_sum_over_support<K>(keys: Set<K>, balances: Map<K, Balance>)
    requires
        keys.finite(),
        forall|key: K| balances[key] != 0 ==> keys.contains(key),
    ensures
        support(balances).finite(),
        sum_over(keys, balances) == total_of(balances),
    decreases keys.len(),
{
    let held = support(balances);
    assert(held.subset_of(keys));
    lemma_set_subset_finite(keys, held);
    if !keys.is_empty() {
        let key = keys.choose();
        let rest = keys.remove(key);
        if balances[key] != 0 {
            let cleared = balances.insert(key, 0);
            lemma_sum_over_support(rest, cleared);
            lemma_sum_over_agree(rest, cleared, balances);
            assert(support(cleared) =~= held.remove(key));
            lemma_sum_over_agree(held.remove(key), cleared, balances);
            lemma_sum_over_remove(held, balances, key);
        } else {
            lemma_sum_over_support(rest, balances);
        }
    } else {
        assert(held =~= Set::<K>::empty());
    }
}

/// Writing `value` under `key` moves the total by the difference to what the key
/// held before.
pub proof fn lemma_total_of_insert<K>(balances: Map<K, Balance>, key: K, value: Balance)
    requires
        support(balances).finite(),
    ensures
        support(balances.insert(key, value)).finite(),
        total_of(balances.insert(key, value)) + balances[key] == total_of(balances) + value,
{
    let held = support(balances);
    let written = balances.insert(key, value);
    lemma_sum_over_insert(held, balances, key, value);
    lemma_sum_over_support(held.insert(key), written);
}

/// Nothing that the map holds exceeds the total.
pub proof fn lemma_total_of_bounds<K>(balances: Map<K, Balance>, key: K)
    requires
        support(balances).finite(),
    ensures
        balances[key] <= total_of(balances),
{
    if balances[key] != 0 {
        lemma_sum_over_bounds(support(balances), balances, key);
    }
}

/// A map that holds nothing has a total of zero, and the other way round.
pub proof fn lemma_total_of_nothing<K>(balances: Map<K, Balance>)
    requires
        support(balances).finite(),
    ensures
        total_of(balances) == 0 <==> forall|key: K| balances[key] == 0,
{
    if total_of(balances) == 0 {
        assert forall|key: K| balances[key] == 0 by {
            lemma_total_of_bounds(balances, key);
        }
    }
    if forall|key: K| balances[key] == 0 {
        assert(support(balances) =~= Set::<K>::empty());
    }
}

/// A mapping from keys to balances, zero where nothing was written.
pub struct Table<K: Key> {
    entries: Vec<(K, Balance)>,
}

impl<K: Key> View for Table<K> {
    type V = Map<K, Balance>;

    /// The balance under every key; zero under a key that was never written.
    closed spec fn view(&self) -> Map<K, Balance> {
        Map::total(|key: K| self.balance_at(key))
    }
}

impl<K: Key> Table<K> {
    /// Whether the entry at `index` is that of `key`.
    spec fn holds(&self, key: K, index: int) -> bool {
        0 <= index < self.entries@.len() && self.entries@[index].0 == key
    }

    /// What the entry of `key` holds; zero if there is none.
    spec fn balance_at(&self, key: K) -> Balance {
        if exists|index: int| self.holds(key, index) {
            self.entries@[choose|index: int| self.holds(key, index)].1
        } else {
            0
        }
    }

    /// The keys that have an entry.
    spec fn keys(&self) -> Set<K> {
        Set::new(|key: K| exists|index: int| self.holds(key, index))
    }

    /// No key has two entries.
    pub closed spec fn inv(&self) -> bool {
        &&& self.keys().finite()
        &&& forall|i: int, j: int|
            0 <= i < j < self.entries@.len() ==> self.entries@[i].0 != self.entries@[j].0
    }

    /// The table holds a balance, maybe zero, under every key, and something
    /// under finitely many.
    pub proof fn lemma_view(&self)
        requires
            self.inv(),
        ensures
            forall|key: K| self@.dom().contains(key),
            support(self@).finite(),
    {
        lemma_sum_over_support(self.keys(), self@);
    }

    /// The table in which nothing was written.
    pub fn new() -> (table: Self)
        ensures
            table.inv(),
            table@ == Map::total(|key: K| 0u128),
    {
        let table = Table { entries: Vec::new() };
        proof {
            assert(table.keys() =~= Set::<K>::empty());
            assert(table@ =~= Map::total(|key: K| 0u128));
        }
        table
    }

    /// Where the entry of `key` is, if it has one.
    fn position(&self, key: &K) -> (found: Option<usize>)
        requires
            self.inv(),
        ensures
            match found {
                Some(index) => self.holds(*key, index as int),
                None => !self.keys().contains(*key),
            },
    {
        let mut index: usize = 0;
        while index < self.entries.len()
            invariant
                index <= self.entries@.len(),
                forall|before: int| 0 <= before < index ==> self.entries@[before].0 != *key,
            decreases self.entries@.len() - index,
        {
            if self.entries[index].0.same(key) {
                return Some(index);
            }
            index += 1;
        }
        None
    }

    /// The balance under `key`.
    pub fn get(&self, key: &K) -> (balance: Balance)
        requires
            self.inv(),
        ensures
            balance == self@[*key],
    {
        match self.position(key) {
            Some(index) => self.entries[index].1,
            None => 0,
        }
    }

    /// Writes `value` under `key`.
    pub fn set(&mut self, key: K, value: Balance)
        requires
            old(self).inv(),
        ensures
            final(self).inv(),
            final(self)@ == old(self)@.insert(key, value),
    {
        let ghost before = *self;
        let ghost slot: int;
        match self.position(&key) {
            Some(index) => {
                self.entries[index] = (key, value);
                proof {
                    slot = index as int;
                }
            },
            None => {
                self.entries.push((key, value));
                proof {
                    slot = before.entries@.len() as int;
                    assert forall|at: int| 0 <= at < slot implies before.entries@[at].0 != key by {
                        if before.entries@[at].0 == key {
                            assert(before.holds(key, at));
                        }
                    }
                }
            },
        }
        proof {
            before.lemma_written(*self, key, value, slot);
        }
    }

    /// What writing one entry, at `slot`, does to the keys and the balances.
    proof fn lemma_written(&self, after: Self, key: K, value: Balance, slot: int)
        requires
            self.inv(),
            0 <= slot <= self.entries@.len(),
            slot < self.entries@.len() ==> self.entries@[slot].0 == key && after.entries@
                == self.entries@.update(slot, (key, value)),
            slot == self.entries@.len() ==> after.entries@ == self.entries@.push((key, value)),
            forall|at: int|
                0 <= at < self.entries@.len() && at != slot ==> self.entries@[at].0 != key,
        ensures
            after.inv(),
            after@ == self@.insert(key, value),
    {
        assert(after.holds(key, slot));
        assert forall|other: K, at: int| after.holds(other, at) implies at == slot && other == key
            || at != slot && self.holds(other, at) by {}
        assert forall|other: K, at: int| self.holds(other, at) implies after.holds(other, at) by {}
        assert(after.keys() =~= self.keys().insert(key)) by {
            assert forall|other: K| after.keys().contains(other) == self.keys().insert(
                key,
            ).contains(other) by {
                if after.keys().contains(other) {
                    let at = choose|at: int| after.holds(other, at);
                    assert(at == slot && other == key || self.holds(other, at));
                }
                if self.keys().contains(other) {
                    let at = choose|at: int| self.holds(other, at);
                    assert(after.holds(other, at));
                }
            }
        }
        assert(after@ =~= self@.insert(key, value)) by {
            assert forall|other: K| after.balance_at(other) == (if other == key {
                value
            } else {
                self.balance_at(other)
            }) by {
                if exists|at: int| after.holds(other, at) {
                    let at = choose|at: int| after.holds(other, at);
                    if other != key {
                        assert(self.holds(other, at));
                        let was = choose|was: int| self.holds(other, was);
                        assert(was == at);
                    } else {
                        assert(at == slot);
                    }
                } else {
                    assert(other != key);
                    if exists|was: int| self.holds(other, was) {
                        let was = choose|was: int| self.holds(other, was);
                        assert(after.holds(other, was));
                    }
                }
            }
        }
    }
}

} // verus!
