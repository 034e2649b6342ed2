//! Storage tables: finite maps that keep the order in which keys came in.

use vstd::prelude::*;

verus! {

/// A type whose values can be told apart, so that they can key a [`Table`].
pub trait Key: Sized {
    /// Whether two keys are equal.
    fn same(&self, other: &Self) -> (b: bool)
        ensures
            b == (*self == *other),
    ;

    /// A copy of the key.
    fn copied(&self) -> (key: Self)
        ensures
            key == *self,
    ;
}

/// A finite map from keys to values.
///
/// A key that is inserted for the first time goes to the end of the order in
/// which the table is walked; replacing its value keeps its place.
#[derive(Debug, PartialEq, Eq)]
pub struct Table<K: Key, V: Copy> {
    entries: Vec<(K, V)>,
}

/// Whether no key occurs twice among `entries`.
spec fn distinct_keys<K, V>(entries: Seq<(K, V)>) -> bool {
    forall|i: int, j: int|
        0 <= i < j < entries.len() ==> (#[trigger] entries[i]).0 != (#[trigger] entries[j]).0
}

/// The keys of `entries`, in order.
spec fn keys_of<K, V>(entries: Seq<(K, V)>) -> Seq<K> {
    Seq::new(entries.len(), |i: int| entries[i].0)
}

/// The map that `entries` spell out.
spec fn map_of<K, V>(entries: Seq<(K, V)>) -> Map<K, V> {
    Map::new(
        |k: K| exists|i: int| 0 <= i < entries.len() && (#[trigger] entries[i]).0 == k,
        |k: K| entries[choose|i: int| 0 <= i < entries.len() && (#[trigger] entries[i]).0 == k].1,
    )
}

impl<K: Key, V: Copy> View for Table<K, V> {
    type V = Map<K, V>;

    closed spec fn view(&self) -> Map<K, V> {
        map_of(self.entries@)
    }
}

impl<K: Key, V: Copy> Table<K, V> {
    /// No key has two entries.
    #[verifier::type_invariant]
    pub closed spec fn inv(self) -> bool {
        distinct_keys(self.entries@)
    }

    /// The keys in the order in which the table is walked.
    pub closed spec fn keys(&self) -> Seq<K> {
        keys_of(self.entries@)
    }

    /// An empty table.
    pub fn new() -> (table: Self)
        ensures
            table@ == Map::<K, V>::empty(),
            table.keys() == Seq::<K>::empty(),
    {
        let table = Table { entries: Vec::new() };
        assert(table@ =~= Map::<K, V>::empty());
        table
    }

    /// The position of `key`, if it has an entry.
    fn position(&self, key: &K) -> (at: Option<usize>)
        ensures
            match at {
                Some(i) => i < self.entries@.len() && self.entries@[i as int].0 == *key,
                None => forall|i: int|
                    0 <= i < self.entries@.len() ==> (#[trigger] self.entries@[i]).0 != *key,
            },
    {
        let mut i: usize = 0;
        while i < self.entries.len()
            invariant
                i <= self.entries@.len(),
                forall|j: int| 0 <= j < i ==> (#[trigger] self.entries@[j]).0 != *key,
            decreases self.entries@.len() - i,
        {
            if self.entries[i].0.same(key) {
                return Some(i);
            }
            i += 1;
        }
        None
    }

    /// The number of entries.
    pub fn len(&self) -> (n: usize)
        ensures
            n == self.keys().len(),
    {
        self.entries.len()
    }

    /// The key at a position of the walk.
    pub fn key_at(&self, i: usize) -> (key: K)
        requires
            i < self.keys().len(),
        ensures
            key == self.keys()[i as int],
    {
        self.entries[i].0.copied()
    }

    /// The value stored under `key`.
    pub fn get(&self, key: &K) -> (value: Option<V>)
        ensures
            value == (if self@.contains_key(*key) { Some(self@[*key]) } else { None }),
    {
        proof { use_type_invariant(self); }
        match self.position(key) {
            Some(i) => {
                proof { lemma_lookup(self.entries@, i as int); }
                Some(self.entries[i].1)
            },
            None => None,
        }
    }

    /// Whether `key` has an entry.
    pub fn contains_key(&self, key: &K) -> (b: bool)
        ensures
            b == self@.contains_key(*key),
    {
        match self.position(key) {
            Some(i) => true,
            None => false,
        }
    }

    /// Stores `value` under `key`, in place of what was there.
    pub fn insert(&mut self, key: K, value: V)
        ensures
            final(self)@ == old(self)@.insert(key, value),
            final(self).keys() == (if old(self)@.contains_key(key) {
                old(self).keys()
            } else {
                old(self).keys().push(key)
            }),
    {
        proof { use_type_invariant(&*self); }
        let at = self.position(&key);
        let ghost before = self.entries@;
        let mut entries: Vec<(K, V)> = Vec::new();
        std::mem::swap(&mut entries, &mut self.entries);
        match at {
            Some(i) => {
                proof { lemma_update(before, i as int, value); }
                entries.set(i, (key, value));
            },
            None => {
                proof { lemma_push(before, key, value); }
                entries.push((key, value));
            },
        }
        self.entries = entries;
    }

    /// Takes out the entry under `key`, if there is one. The others keep their order.
    pub fn remove(&mut self, key: &K)
        ensures
            final(self)@ == old(self)@.remove(*key),
            final(self).keys() == old(self).keys().remove_value(*key),
    {
        proof { use_type_invariant(&*self); }
        let at = self.position(key);
        let ghost before = self.entries@;
        let mut entries: Vec<(K, V)> = Vec::new();
        std::mem::swap(&mut entries, &mut self.entries);
        match at {
            Some(i) => {
                proof { lemma_remove(before, i as int); }
                entries.remove(i);
            },
            None => {
                proof { lemma_absent(before, *key); }
            },
        }
        self.entries = entries;
    }
}

impl<K: Key, V: Copy> Clone for Table<K, V> {
    fn clone(&self) -> (table: Self)
        ensures
            table@ == self@,
            table.keys() == self.keys(),
    {
        proof { use_type_invariant(self); }
        let mut entries: Vec<(K, V)> = Vec::new();
        let mut i: usize = 0;
        while i < self.entries.len()
            invariant
                i <= self.entries@.len(),
                entries@ == self.entries@.take(i as int),
            decreases self.entries@.len() - i,
        {
            entries.push((self.entries[i].0.copied(), self.entries[i].1));
            assert(self.entries@.take(i + 1) =~= self.entries@.take(i as int).push(
                self.entries@[i as int],
            ));
            i += 1;
        }
        assert(entries@ =~= self.entries@);
        Table { entries }
    }
}

/// What a table's invariant says to its users: the walk visits each key of the
/// map once, so the map is finite.
pub proof fn lemma_table<K: Key, V: Copy>(table: Table<K, V>)
    requires
        table.inv(),
    ensures
        table.keys().no_duplicates(),
        table@.dom().finite(),
        forall|k: K| table@.contains_key(k) <==> #[trigger] table.keys().contains(k),
{
    let entries = table.entries@;
    let keys = table.keys();
    assert forall|k: K| table@.contains_key(k) <==> #[trigger] keys.contains(k) by {
        if table@.contains_key(k) {
            let i = choose|i: int| 0 <= i < entries.len() && (#[trigger] entries[i]).0 == k;
            assert(keys[i] == k);
        }
        if keys.contains(k) {
            let i = choose|i: int| 0 <= i < keys.len() && keys[i] == k;
            assert(entries[i].0 == k);
        }
    }
    assert(table@.dom() =~= keys.to_set());
    vstd::seq_lib::seq_to_set_is_finite(keys);
}

proof fn lemma_lookup<K, V>(entries: Seq<(K, V)>, i: int)
    requires
        distinct_keys(entries),
        0 <= i < entries.len(),
    ensures
        map_of(entries).contains_key(entries[i].0),
        map_of(entries)[entries[i].0] == entries[i].1,
{
    let k = entries[i].0;
    let j = choose|j: int| 0 <= j < entries.len() && (#[trigger] entries[j]).0 == k;
    assert(j == i);
}

proof fn lemma_update<K, V>(entries: Seq<(K, V)>, i: int, value: V)
    requires
        distinct_keys(entries),
        0 <= i < entries.len(),
    ensures
        distinct_keys(entries.update(i, (entries[i].0, value))),
        map_of(entries.update(i, (entries[i].0, value))) == map_of(entries).insert(
            entries[i].0,
            value,
        ),
        map_of(entries).contains_key(entries[i].0),
        keys_of(entries.update(i, (entries[i].0, value))) == keys_of(entries),
{
    let after = entries.update(i, (entries[i].0, value));
    assert(distinct_keys(after));
    lemma_lookup(entries, i);
    assert forall|k: K| map_of(after).contains_key(k) <==> map_of(entries).contains_key(k) by {
        if map_of(after).contains_key(k) {
            let j = choose|j: int| 0 <= j < after.len() && (#[trigger] after[j]).0 == k;
            assert(entries[j].0 == k);
        }
        if map_of(entries).contains_key(k) {
            let j = choose|j: int| 0 <= j < entries.len() && (#[trigger] entries[j]).0 == k;
            assert(after[j].0 == k);
        }
    }
    assert forall|k: K| map_of(after).contains_key(k) implies map_of(after)[k] == map_of(
        entries,
    ).insert(entries[i].0, value)[k] by {
        let j = choose|j: int| 0 <= j < after.len() && (#[trigger] after[j]).0 == k;
        lemma_lookup(after, j);
        assert(entries[j].0 == k);
        lemma_lookup(entries, j);
    }
    assert(map_of(after) =~= map_of(entries).insert(entries[i].0, value));
    assert(keys_of(after) =~= keys_of(entries));
}

proof fn lemma_push<K, V>(entries: Seq<(K, V)>, key: K, value: V)
    requires
        distinct_keys(entries),
        forall|i: int| 0 <= i < entries.len() ==> (#[trigger] entries[i]).0 != key,
    ensures
        distinct_keys(entries.push((key, value))),
        map_of(entries.push((key, value))) == map_of(entries).insert(key, value),
        !map_of(entries).contains_key(key),
        keys_of(entries.push((key, value))) == keys_of(entries).push(key),
{
    let after = entries.push((key, value));
    assert(distinct_keys(after));
    assert forall|k: K| map_of(after).contains_key(k) <==> (k == key || map_of(
        entries,
    ).contains_key(k)) by {
        if map_of(after).contains_key(k) && k != key {
            let j = choose|j: int| 0 <= j < after.len() && (#[trigger] after[j]).0 == k;
            assert(entries[j].0 == k);
        }
        if map_of(entries).contains_key(k) {
            let j = choose|j: int| 0 <= j < entries.len() && (#[trigger] entries[j]).0 == k;
            assert(after[j].0 == k);
        }
        assert(after[entries.len() as int].0 == key);
    }
    assert forall|k: K| map_of(after).contains_key(k) implies map_of(after)[k] == map_of(
        entries,
    ).insert(key, value)[k] by {
        let j = choose|j: int| 0 <= j < after.len() && (#[trigger] after[j]).0 == k;
        lemma_lookup(after, j);
        if k != key {
            assert(entries[j].0 == k);
            lemma_lookup(entries, j);
        } else if j < entries.len() {
            assert(entries[j].0 == key);
        }
    }
    assert(map_of(after) =~= map_of(entries).insert(key, value));
    assert(keys_of(after) =~= keys_of(entries).push(key));
}

proof fn lemma_remove<K, V>(entries: Seq<(K, V)>, i: int)
    requires
        distinct_keys(entries),
        0 <= i < entries.len(),
    ensures
        distinct_keys(entries.remove(i)),
        map_of(entries.remove(i)) == map_of(entries).remove(entries[i].0),
        keys_of(entries.remove(i)) == keys_of(entries).remove_value(entries[i].0),
{
    let after = entries.remove(i);
    let key = entries[i].0;
    assert forall|j: int| 0 <= j < after.len() implies #[trigger] after[j] == entries[if j < i {
        j
    } else {
        j + 1
    }] by {}
    assert(distinct_keys(after));
    assert forall|k: K| map_of(after).contains_key(k) <==> (k != key && map_of(
        entries,
    ).contains_key(k)) by {
        if map_of(after).contains_key(k) {
            let j = choose|j: int| 0 <= j < after.len() && (#[trigger] after[j]).0 == k;
            assert(entries[if j < i { j } else { j + 1 }].0 == k);
        }
        if k != key && map_of(entries).contains_key(k) {
            let j = choose|j: int| 0 <= j < entries.len() && (#[trigger] entries[j]).0 == k;
            assert(after[if j < i { j } else { j - 1 }].0 == k);
        }
    }
    assert forall|k: K| map_of(after).contains_key(k) implies map_of(after)[k] == map_of(
        entries,
    ).remove(key)[k] by {
        let j = choose|j: int| 0 <= j < after.len() && (#[trigger] after[j]).0 == k;
        lemma_lookup(after, j);
        lemma_lookup(entries, if j < i { j } else { j + 1 });
    }
    assert(map_of(after) =~= map_of(entries).remove(key));
    let keys = keys_of(entries);
    keys.index_of_first_ensures(key);
    assert(keys[i] == key);
    let at = keys.index_of_first(key).unwrap();
    assert(entries[at].0 == key);
    assert(at == i);
    assert(keys_of(after) =~= keys.remove(i));
}

proof fn lemma_absent<K, V>(entries: Seq<(K, V)>, key: K)
    requires
        forall|i: int| 0 <= i < entries.len() ==> (#[trigger] entries[i]).0 != key,
    ensures
        map_of(entries).remove(key) == map_of(entries),
        keys_of(entries).remove_value(key) == keys_of(entries),
{
    assert(map_of(entries).remove(key) =~= map_of(entries));
    keys_of(entries).index_of_first_ensures(key);
}

} // verus!
