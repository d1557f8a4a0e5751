//! A table keyed by addresses.

use crate::address::Address;
use vstd::prelude::*;

verus! {

spec fn has_key<V>(entries: Seq<(Address, V)>, key: Address) -> bool {
    exists|i: int| 0 <= i < entries.len() && #[trigger] entries[i].0 == key
}

spec fn value_of<V>(entries: Seq<(Address, V)>, key: Address) -> V {
    entries[choose|i: int| 0 <= i < entries.len() && #[trigger] entries[i].0 == key].1
}

spec fn keys_differ<V>(entries: Seq<(Address, V)>) -> bool {
    forall|i: int, j: int|
        0 <= i < j < entries.len() ==> #[trigger] entries[i].0 != #[trigger] entries[j].0
}

spec fn table_of<V>(entries: Seq<(Address, V)>) -> Map<Address, V> {
    Map::new(|key: Address| has_key(entries, key), |key: Address| value_of(entries, key))
}

proof fn lemma_entry<V>(entries: Seq<(Address, V)>, i: int)
    requires
        keys_differ(entries),
        0 <= i < entries.len(),
    ensures
        table_of(entries).contains_key(entries[i].0),
        table_of(entries)[entries[i].0] == entries[i].1,
{
    let key = entries[i].0;
    let k = choose|k: int| 0 <= k < entries.len() && #[trigger] entries[k].0 == key;
    assert(k == i) by {
        if k < i {
            assert(entries[k].0 != entries[i].0);
        } else if i < k {
            assert(entries[i].0 != entries[k].0);
        }
    }
}

/// A table from addresses to values.
pub struct AddressTable<V> {
    entries: Vec<(Address, V)>,
}

impl<V> View for AddressTable<V> {
    type V = Map<Address, V>;

    closed spec fn view(&self) -> Map<Address, V> {
        table_of(self.entries@)
    }
}

impl<V> AddressTable<V> {
    #[verifier::type_invariant]
    spec fn keys_are_unique(self) -> bool {
        keys_differ(self.entries@)
    }

    /// Returns a table without entries.
    pub fn new() -> (r: Self)
        ensures
            r@ == Map::<Address, V>::empty(),
    {
        let r = AddressTable { entries: Vec::new() };
        assert(r@ =~= Map::<Address, V>::empty());
        r
    }

    /// The place of a key, or the number of entries if there is none.
    fn place(entries: &Vec<(Address, V)>, key: Address) -> (r: usize)
        ensures
            r <= entries@.len(),
            r < entries@.len() ==> entries@[r as int].0 == key,
            r == entries@.len() ==> !has_key(entries@, key),
    {
        let mut i: usize = 0;
        while i < entries.len()
            invariant
                i <= entries@.len(),
                forall|j: int| 0 <= j < i ==> (#[trigger] entries@[j]).0 != key,
            decreases entries@.len() - i,
        {
            if entries[i].0 == key {
                return i;
            }
            i += 1;
        }
        i
    }

    /// Returns the value under a key.
    pub fn get(&self, key: Address) -> (r: Option<&V>)
        ensures
            r == if self@.contains_key(key) {
                Some(&self@[key])
            } else {
                None
            },
    {
        proof {
            use_type_invariant(self);
        }
        let i: usize = Self::place(&self.entries, key);
        if i < self.entries.len() {
            proof {
                lemma_entry(self.entries@, i as int);
            }
            Some(&self.entries[i].1)
        } else {
            None
        }
    }

    /// Takes the value under a key out of the table.
    pub fn take(&mut self, key: Address) -> (r: Option<V>)
        ensures
            final(self)@ == old(self)@.remove(key),
            r == if old(self)@.contains_key(key) {
                Some(old(self)@[key])
            } else {
                None
            },
    {
        proof {
            use_type_invariant(&*self);
        }
        let ghost before = self.entries@;
        let mut entries: Vec<(Address, V)> = Vec::new();
        std::mem::swap(&mut entries, &mut self.entries);
        let i: usize = Self::place(&entries, key);
        if i < entries.len() {
            let entry = entries.remove(i);
            proof {
                let after = entries@;
                lemma_entry(before, i as int);
                assert(keys_differ(after));
                assert forall|other: Address|
                    #[trigger] table_of(after).contains_key(other) == table_of(before).remove(
                        key,
                    ).contains_key(other) by {
                    if has_key(after, other) {
                        let k = choose|k: int|
                            0 <= k < after.len() && #[trigger] after[k].0 == other;
                        if k < i {
                            assert(before[k].0 == other);
                        } else {
                            assert(before[k + 1].0 == other);
                        }
                    }
                    if has_key(before, other) && other != key {
                        let k = choose|k: int|
                            0 <= k < before.len() && #[trigger] before[k].0 == other;
                        if k < i {
                            assert(after[k].0 == other);
                        } else {
                            assert(after[k - 1].0 == other);
                        }
                    }
                }
                assert forall|other: Address| table_of(after).contains_key(other) implies #[trigger] table_of(
                    after,
                )[other] == table_of(before)[other] by {
                    let k = choose|k: int| 0 <= k < after.len() && #[trigger] after[k].0 == other;
                    lemma_entry(after, k);
                    if k < i {
                        lemma_entry(before, k);
                    } else {
                        lemma_entry(before, k + 1);
                    }
                }
                assert(table_of(after) =~= table_of(before).remove(key));
            }
            self.entries = entries;
            Some(entry.1)
        } else {
            self.entries = entries;
            assert(table_of(before).remove(key) =~= table_of(before));
            None
        }
    }

    /// Puts a value under a key, in place of the one that was there.
    pub fn set(&mut self, key: Address, value: V)
        ensures
            final(self)@ == old(self)@.insert(key, value),
    {
        let _former = self.take(key);
        proof {
            use_type_invariant(&*self);
        }
        let ghost before = self.entries@;
        let mut entries: Vec<(Address, V)> = Vec::new();
        std::mem::swap(&mut entries, &mut self.entries);
        entries.push((key, value));
        proof {
            let after = entries@;
            assert(!table_of(before).contains_key(key));
            assert forall|i: int, j: int| 0 <= i < j < after.len() implies #[trigger] after[i].0
                != #[trigger] after[j].0 by {
                if j == before.len() {
                    assert(has_key(before, before[i].0));
                }
            }
            assert forall|other: Address|
                #[trigger] table_of(after).contains_key(other) == table_of(before).insert(
                    key,
                    value,
                ).contains_key(other) by {
                if has_key(before, other) {
                    let k = choose|k: int|
                        0 <= k < before.len() && #[trigger] before[k].0 == other;
                    assert(after[k].0 == other);
                }
                assert(after[before.len() as int].0 == key);
            }
            assert forall|other: Address| table_of(after).contains_key(other) implies #[trigger] table_of(
                after,
            )[other] == table_of(before).insert(key, value)[other] by {
                let k = choose|k: int| 0 <= k < after.len() && #[trigger] after[k].0 == other;
                lemma_entry(after, k);
                if k < before.len() {
                    lemma_entry(before, k);
                }
            }
            assert(table_of(after) =~= table_of(before).insert(key, value));
        }
        self.entries = entries;
    }

    /// Takes the values under some keys out of the table.
    pub fn remove_all(&mut self, keys: &Vec<Address>)
        ensures
            final(self)@ == old(self)@.remove_keys(keys@.to_set()),
    {
        let mut i: usize = 0;
        assert(old(self)@.remove_keys(keys@.take(0).to_set()) =~= old(self)@);
        while i < keys.len()
            invariant
                i <= keys@.len(),
                self@ == old(self)@.remove_keys(keys@.take(i as int).to_set()),
            decreases keys@.len() - i,
        {
            let _value = self.take(keys[i]);
            proof {
                let fewer = keys@.take(i as int);
                let more = keys@.take(i + 1);
                assert(more =~= fewer.push(keys@[i as int]));
                assert forall|key: Address| #[trigger] more.to_set().contains(key) == (
                fewer.to_set().contains(key) || key == keys@[i as int]) by {
                    if fewer.contains(key) {
                        let k = fewer.index_of(key);
                        assert(more[k] == key);
                    }
                    assert(more[i as int] == keys@[i as int]);
                }
                assert(self@ =~= old(self)@.remove_keys(more.to_set()));
            }
            i += 1;
        }
        assert(keys@.take(i as int) =~= keys@);
    }
}

} // verus!
