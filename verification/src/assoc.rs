//! A finite map with strings for keys, kept as a list of entries in which
//! no key occurs twice.

use vstd::prelude::*;

verus! {

/// The map that a sequence of distinct keys and the sequence of their values stand for.
pub open spec fn paired<V>(keys: Seq<Seq<char>>, values: Seq<V>) -> Map<Seq<char>, V> {
    Map::new(|k: Seq<char>| keys.contains(k), |k: Seq<char>| values[keys.index_of(k)])
}

/// Where no key occurs twice, each key leads to the value at its index.
pub proof fn lemma_paired_at<V>(keys: Seq<Seq<char>>, values: Seq<V>, i: int)
    requires
        keys.no_duplicates(),
        0 <= i < keys.len(),
    ensures
        paired(keys, values).contains_key(keys[i]),
        paired(keys, values)[keys[i]] == values[i],
{
    assert(keys.contains(keys[i]));
    let j = keys.index_of(keys[i]);
    assert(0 <= j < keys.len() && keys[j] == keys[i]);
}

/// One more entry under a new key is one more pair in the map.
pub proof fn lemma_paired_push<V>(keys: Seq<Seq<char>>, values: Seq<V>, k: Seq<char>, v: V)
    requires
        keys.no_duplicates(),
        keys.len() == values.len(),
        !keys.contains(k),
    ensures
        keys.push(k).no_duplicates(),
        paired(keys.push(k), values.push(v)) == paired(keys, values).insert(k, v),
{
    let keys2 = keys.push(k);
    let values2 = values.push(v);
    assert forall|a: Seq<char>| #[trigger] paired(keys2, values2).contains_key(a) implies paired(
        keys,
        values,
    ).insert(k, v).contains_key(a) by {
        let j = choose|j: int| 0 <= j < keys2.len() && keys2[j] == a;
        if j < keys.len() {
            assert(keys[j] == a);
        }
    }
    assert forall|a: Seq<char>| #[trigger] paired(keys, values).insert(k, v).contains_key(a) implies paired(
        keys2,
        values2,
    ).contains_key(a) && paired(keys2, values2)[a] == paired(keys, values).insert(k, v)[a] by {
        if a == k {
            assert(keys2[keys.len() as int] == k);
            lemma_paired_at(keys2, values2, keys.len() as int);
        } else {
            let j = choose|j: int| 0 <= j < keys.len() && keys[j] == a;
            assert(keys2[j] == a);
            lemma_paired_at(keys2, values2, j);
            lemma_paired_at(keys, values, j);
        }
    }
    assert(paired(keys2, values2) =~= paired(keys, values).insert(k, v));
}

/// Another value at an index is another value under the key at that index.
pub proof fn lemma_paired_update<V>(keys: Seq<Seq<char>>, values: Seq<V>, i: int, v: V)
    requires
        keys.no_duplicates(),
        keys.len() == values.len(),
        0 <= i < keys.len(),
    ensures
        paired(keys, values.update(i, v)) == paired(keys, values).insert(keys[i], v),
{
    let values2 = values.update(i, v);
    assert forall|a: Seq<char>| #[trigger] paired(keys, values).insert(keys[i], v).contains_key(a) implies paired(
        keys,
        values2,
    ).contains_key(a) && paired(keys, values2)[a] == paired(keys, values).insert(keys[i], v)[a] by {
        let j = choose|j: int| 0 <= j < keys.len() && keys[j] == a;
        lemma_paired_at(keys, values2, j);
        lemma_paired_at(keys, values, j);
    }
    assert(paired(keys, values2) =~= paired(keys, values).insert(keys[i], v));
}

/// Without the entry at an index the map is without the key at that index.
pub proof fn lemma_paired_remove<V>(keys: Seq<Seq<char>>, values: Seq<V>, i: int)
    requires
        keys.no_duplicates(),
        keys.len() == values.len(),
        0 <= i < keys.len(),
    ensures
        keys.remove(i).no_duplicates(),
        paired(keys.remove(i), values.remove(i)) == paired(keys, values).remove(keys[i]),
{
    let keys2 = keys.remove(i);
    let values2 = values.remove(i);
    assert forall|a: Seq<char>| #[trigger] paired(keys2, values2).contains_key(a) implies paired(
        keys,
        values,
    ).remove(keys[i]).contains_key(a) && paired(keys2, values2)[a] == paired(keys, values).remove(
        keys[i],
    )[a] by {
        let j = choose|j: int| 0 <= j < keys2.len() && keys2[j] == a;
        let j0 = if j < i { j } else { j + 1 };
        assert(keys[j0] == a);
        lemma_paired_at(keys2, values2, j);
        lemma_paired_at(keys, values, j0);
    }
    assert forall|a: Seq<char>| #[trigger] paired(keys, values).remove(keys[i]).contains_key(a) implies paired(
        keys2,
        values2,
    ).contains_key(a) by {
        let j0 = choose|j: int| 0 <= j < keys.len() && keys[j] == a;
        let j = if j0 < i { j0 } else { j0 - 1 };
        assert(keys2[j] == a);
    }
    assert(paired(keys2, values2) =~= paired(keys, values).remove(keys[i]));
}

/// A key with its value.
struct Entry<V> {
    key: String,
    value: V,
}

/// A finite map from strings to `V`, kept as a list in which no key occurs twice.
pub struct StringMap<V> {
    entries: Vec<Entry<V>>,
}

impl<V> StringMap<V> {
    /// No key occurs twice.
    pub open spec fn wf(&self) -> bool {
        self.keys().no_duplicates()
    }

    /// The keys, in the order in which the entries are held.
    pub closed spec fn keys(&self) -> Seq<Seq<char>> {
        Seq::new(self.entries@.len(), |i: int| self.entries@[i].key@)
    }

    /// The values, each at the index of its key.
    pub closed spec fn values(&self) -> Seq<V> {
        Seq::new(self.entries@.len(), |i: int| self.entries@[i].value)
    }

    /// The map that the entries stand for.
    pub open spec fn view(&self) -> Map<Seq<char>, V> {
        paired(self.keys(), self.values())
    }

    /// The map holds what the list holds: each key with the value at its
    /// index, and no other key.
    pub proof fn lemma_entries(&self)
        requires
            self.wf(),
        ensures
            self.keys().len() == self.values().len(),
            forall|i: int|
                0 <= i < self.keys().len() ==> self@.contains_key(#[trigger] self.keys()[i])
                    && self@[self.keys()[i]] == self.values()[i],
            forall|k: Seq<char>| #[trigger]
                self@.contains_key(k) ==> 0 <= self.keys().index_of(k) < self.keys().len()
                    && self.keys()[self.keys().index_of(k)] == k,
    {
        assert forall|i: int| 0 <= i < self.keys().len() implies self@.contains_key(
            #[trigger] self.keys()[i],
        ) && self@[self.keys()[i]] == self.values()[i] by {
            lemma_paired_at(self.keys(), self.values(), i);
        }
    }

    /// The empty map.
    pub fn new() -> (m: Self)
        ensures
            m.keys() == Seq::<Seq<char>>::empty(),
            m.values() == Seq::<V>::empty(),
            m@ == Map::<Seq<char>, V>::empty(),
            m.wf(),
    {
        let m = StringMap { entries: Vec::new() };
        assert(m.keys() =~= Seq::<Seq<char>>::empty());
        assert(m.values() =~= Seq::<V>::empty());
        assert(m@ =~= Map::<Seq<char>, V>::empty());
        m
    }

    /// The number of entries.
    pub fn len(&self) -> (n: usize)
        ensures
            n == self.keys().len(),
            n == self.values().len(),
    {
        self.entries.len()
    }

    /// The key of the entry at index `i`.
    pub fn key_at(&self, i: usize) -> (k: &String)
        requires
            i < self.keys().len(),
        ensures
            k@ == self.keys()[i as int],
    {
        &self.entries[i].key
    }

    /// The value of the entry at index `i`.
    pub fn value_at(&self, i: usize) -> (v: &V)
        requires
            i < self.keys().len(),
        ensures
            *v == self.values()[i as int],
    {
        &self.entries[i].value
    }

    /// The value of the entry at index `i`, to be changed in place.
    pub fn value_at_mut(&mut self, i: usize) -> (v: &mut V)
        requires
            i < old(self).keys().len(),
        ensures
            *v == old(self).values()[i as int],
            final(self).keys() == old(self).keys(),
            final(self).values() == old(self).values().update(i as int, *final(v)),
            old(self).wf() ==> final(self)@ == old(self)@.insert(
                old(self).keys()[i as int],
                *final(v),
            ),
    {
        proof {
            if self.wf() {
                assert forall|v: V| #[trigger]
                    paired(self.keys(), self.values().update(i as int, v)) == paired(
                        self.keys(),
                        self.values(),
                    ).insert(self.keys()[i as int], v) by {
                    lemma_paired_update(self.keys(), self.values(), i as int, v);
                }
            }
        }
        &mut self.entries[i].value
    }

    /// The index of the entry under `key`, if there is one.
    pub fn position(&self, key: &String) -> (r: Option<usize>)
        ensures
            match r {
                Some(i) => i < self.keys().len() && self.keys()[i as int] == key@,
                None => !self.keys().contains(key@),
            },
    {
        let mut i: usize = 0;
        while i < self.entries.len()
            invariant
                i <= self.entries@.len(),
                forall|j: int| 0 <= j < i ==> self.keys()[j] != key@,
            decreases self.entries@.len() - i,
        {
            if self.entries[i].key == *key {
                return Some(i);
            }
            i = i + 1;
        }
        None
    }

    /// Whether there is an entry under `key`.
    pub fn contains_key(&self, key: &String) -> (found: bool)
        ensures
            found == self@.contains_key(key@),
    {
        self.position(key).is_some()
    }

    /// The value under `key`, if there is one, to be changed in place.
    pub fn get_mut(&mut self, key: &String) -> (r: Option<&mut V>)
        requires
            old(self).wf(),
        ensures
            final(self).wf(),
            match r {
                Some(v) => old(self)@.contains_key(key@) && *v == old(self)@[key@] && final(self)@
                    == old(self)@.insert(key@, *final(v)),
                None => !old(self)@.contains_key(key@) && *final(self) == *old(self),
            },
    {
        match self.position(key) {
            Some(i) => {
                proof {
                    lemma_paired_at(self.keys(), self.values(), i as int);
                    assert forall|v: V| #[trigger]
                        paired(self.keys(), self.values().update(i as int, v)) == paired(
                            self.keys(),
                            self.values(),
                        ).insert(key@, v) by {
                        lemma_paired_update(self.keys(), self.values(), i as int, v);
                    }
                }
                Some(self.value_at_mut(i))
            },
            None => None,
        }
    }

    /// Puts `value` under `key` and gives back the value that was there.
    pub fn insert(&mut self, key: String, value: V) -> (prev: Option<V>)
        requires
            old(self).wf(),
        ensures
            final(self).wf(),
            final(self)@ == old(self)@.insert(key@, value),
            prev == if old(self)@.contains_key(key@) { Some(old(self)@[key@]) } else { None::<V> },
    {
        match self.position(&key) {
            Some(i) => {
                proof {
                    lemma_paired_update(self.keys(), self.values(), i as int, value);
                    lemma_paired_at(self.keys(), self.values(), i as int);
                }
                let mut prev = value;
                core::mem::swap(&mut self.entries[i].value, &mut prev);
                assert(self.keys() =~= old(self).keys());
                assert(self.values() =~= old(self).values().update(i as int, value));
                Some(prev)
            },
            None => {
                proof {
                    lemma_paired_push(self.keys(), self.values(), key@, value);
                }
                self.entries.push(Entry { key, value });
                assert(self.keys() =~= old(self).keys().push(key@));
                assert(self.values() =~= old(self).values().push(value));
                None
            },
        }
    }

    /// Takes out the entry under `key` and gives back its value.
    pub fn remove(&mut self, key: &String) -> (prev: Option<V>)
        requires
            old(self).wf(),
        ensures
            final(self).wf(),
            final(self)@ == old(self)@.remove(key@),
            prev == if old(self)@.contains_key(key@) { Some(old(self)@[key@]) } else { None::<V> },
    {
        match self.position(key) {
            Some(i) => {
                proof {
                    lemma_paired_remove(self.keys(), self.values(), i as int);
                    lemma_paired_at(self.keys(), self.values(), i as int);
                }
                let e = self.entries.remove(i);
                assert(self.keys() =~= old(self).keys().remove(i as int));
                assert(self.values() =~= old(self).values().remove(i as int));
                Some(e.value)
            },
            None => {
                assert(self@ =~= old(self)@.remove(key@));
                None
            },
        }
    }
}

} // verus!
