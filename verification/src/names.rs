//! Values kept under distinct names, in the order in which the names came.

use vstd::prelude::*;

verus! {

/// Whether `key` stands in the list.
pub open spec fn holds<K, V>(list: Seq<(K, V)>, key: K) -> bool {
    exists|i: int| 0 <= i < list.len() && (#[trigger] list[i]).0 == key
}

/// Where `key` stands in the list.
pub open spec fn position<K, V>(list: Seq<(K, V)>, key: K) -> int {
    choose|i: int| 0 <= i < list.len() && (#[trigger] list[i]).0 == key
}

/// The value that stands under `key`.
pub open spec fn lookup<K, V>(list: Seq<(K, V)>, key: K) -> Option<V> {
    if holds(list, key) {
        Some(list[position(list, key)].1)
    } else {
        None
    }
}

/// Whether no key stands in the list twice.
pub open spec fn distinct<K, V>(list: Seq<(K, V)>) -> bool {
    forall|i: int, j: int|
        0 <= i < j < list.len() ==> (#[trigger] list[i]).0 != (#[trigger] list[j]).0
}

/// The list with `value` under `key`: in place of the old value, or at the end.
pub open spec fn put<K, V>(list: Seq<(K, V)>, key: K, value: V) -> Seq<(K, V)> {
    if holds(list, key) {
        list.update(position(list, key), (key, value))
    } else {
        list.push((key, value))
    }
}

/// The list without `key`; the order of the others is kept.
pub open spec fn without<K, V>(list: Seq<(K, V)>, key: K) -> Seq<(K, V)> {
    if holds(list, key) {
        list.remove(position(list, key))
    } else {
        list
    }
}

/// In a list without repetition a key stands at one position only.
pub proof fn lemma_position<K, V>(list: Seq<(K, V)>, key: K, i: int)
    requires
        distinct(list),
        0 <= i < list.len(),
        list[i].0 == key,
    ensures
        holds(list, key),
        position(list, key) == i,
        lookup(list, key) == Some(list[i].1),
{
    let p = position(list, key);
    assert(holds(list, key));
    if p < i {
        assert(list[p].0 != list[i].0);
    } else if i < p {
        assert(list[i].0 != list[p].0);
    }
}

/// Putting a value under a key changes that key alone, and repeats none.
pub proof fn law_put<K, V>(list: Seq<(K, V)>, key: K, value: V, other: K)
    requires
        distinct(list),
    ensures
        distinct(put(list, key, value)),
        lookup(put(list, key, value), key) == Some(value),
        other != key ==> lookup(put(list, key, value), other) == lookup(list, other),
{
    let new = put(list, key, value);
    if holds(list, key) {
        let p = position(list, key);
        assert forall|i: int, j: int| 0 <= i < j < new.len() implies (#[trigger] new[i]).0 != (
        #[trigger] new[j]).0 by {
            assert(list[i].0 != list[j].0);
            assert(new[i].0 == list[i].0);
            assert(new[j].0 == list[j].0);
        }
        lemma_position(new, key, p);
    } else {
        assert forall|i: int, j: int| 0 <= i < j < new.len() implies (#[trigger] new[i]).0 != (
        #[trigger] new[j]).0 by {
            assert(new[i] == list[i]);
            if j < list.len() {
                assert(new[j] == list[j]);
            }
        }
        lemma_position(new, key, list.len() as int);
    }
    if other != key {
        if holds(list, other) {
            let q = position(list, other);
            assert(new[q] == list[q]);
            lemma_position(new, other, q);
        } else if holds(new, other) {
            let q = position(new, other);
            if q < list.len() {
                assert(list[q].0 == other);
            }
        }
    }
}

/// Removing a key removes that key alone, and repeats none.
pub proof fn law_without<K, V>(list: Seq<(K, V)>, key: K, other: K)
    requires
        distinct(list),
    ensures
        distinct(without(list, key)),
        !holds(without(list, key), key),
        other != key ==> lookup(without(list, key), other) == lookup(list, other),
{
    let new = without(list, key);
    if holds(list, key) {
        let p = position(list, key);
        assert forall|i: int| 0 <= i < new.len() implies #[trigger] new[i] == list[if i < p {
            i
        } else {
            i + 1
        }] by {}
        assert forall|i: int, j: int| 0 <= i < j < new.len() implies (#[trigger] new[i]).0 != (
        #[trigger] new[j]).0 by {
            let a = if i < p {
                i
            } else {
                i + 1
            };
            let b = if j < p {
                j
            } else {
                j + 1
            };
            assert(list[a].0 != list[b].0);
        }
        if holds(new, key) {
            let q = position(new, key);
            let a = if q < p {
                q
            } else {
                q + 1
            };
            assert(list[a].0 == key);
            lemma_position(list, key, a);
        }
        if other != key {
            if holds(list, other) {
                let q = position(list, other);
                let a = if q < p {
                    q
                } else {
                    q - 1
                };
                assert(new[a] == list[q]);
                lemma_position(new, other, a);
            } else if holds(new, other) {
                let q = position(new, other);
                let a = if q < p {
                    q
                } else {
                    q + 1
                };
                assert(list[a].0 == other);
            }
        }
    }
}

/// A value under each of a set of names.
pub struct NameMap<V> {
    entries: Vec<(String, V)>,
}

/// The content of an entry.
pub open spec fn entry<V>(e: (String, V)) -> (Seq<char>, V) {
    (e.0@, e.1)
}

impl<V> View for NameMap<V> {
    type V = Seq<(Seq<char>, V)>;

    closed spec fn view(&self) -> Seq<(Seq<char>, V)> {
        self.entries@.map_values(|e: (String, V)| entry(e))
    }
}

impl<V> NameMap<V> {
    #[verifier::type_invariant]
    pub open spec fn names_are_distinct(self) -> bool {
        distinct(self@)
    }
}

impl<V: Copy> NameMap<V> {
    /// No names.
    pub fn new() -> (map: NameMap<V>)
        ensures
            map@ == Seq::<(Seq<char>, V)>::empty(),
    {
        let map: NameMap<V> = NameMap { entries: Vec::new() };
        assert(map@ =~= Seq::<(Seq<char>, V)>::empty());
        map
    }

    /// The number of names.
    pub fn len(&self) -> (n: usize)
        ensures
            n == self@.len(),
            distinct(self@),
    {
        proof {
            use_type_invariant(self);
        }
        self.entries.len()
    }

    /// The name at a position.
    pub fn name(&self, i: usize) -> (name: &String)
        requires
            i < self@.len(),
        ensures
            name@ == self@[i as int].0,
    {
        &self.entries[i].0
    }

    /// The value at a position.
    pub fn value(&self, i: usize) -> (value: V)
        requires
            i < self@.len(),
        ensures
            value == self@[i as int].1,
    {
        self.entries[i].1
    }

    /// Where a name stands.
    pub fn index_of(&self, name: &String) -> (index: Option<usize>)
        ensures
            match index {
                Some(i) => {
                    &&& i < self@.len()
                    &&& holds(self@, name@)
                    &&& position(self@, name@) == i
                },
                None => !holds(self@, name@),
            },
            distinct(self@),
    {
        proof {
            use_type_invariant(self);
        }
        let n: usize = self.entries.len();
        for i in 0..n
            invariant
                n == self@.len(),
                n == self.entries@.len(),
                distinct(self@),
                forall|j: int| 0 <= j < i ==> (#[trigger] self@[j]).0 != name@,
        {
            assert(self@[i as int] == entry(self.entries@[i as int]));
            if self.entries[i].0 == *name {
                proof {
                    lemma_position(self@, name@, i as int);
                }
                return Some(i);
            }
        }
        None
    }

    /// Whether a name is there.
    pub fn contains(&self, name: &String) -> (found: bool)
        ensures
            found == holds(self@, name@),
            distinct(self@),
    {
        self.index_of(name).is_some()
    }

    /// The value under a name.
    pub fn get(&self, name: &String) -> (value: Option<V>)
        ensures
            value == lookup(self@, name@),
            distinct(self@),
    {
        match self.index_of(name) {
            Some(i) => Some(self.value(i)),
            None => None,
        }
    }

    /// Puts a value under a name.
    pub fn insert(&mut self, name: String, value: V)
        ensures
            final(self)@ == put(old(self)@, name@, value),
            distinct(old(self)@),
            distinct(final(self)@),
    {
        let ghost before = self@;
        let index: Option<usize> = self.index_of(&name);
        proof {
            law_put(before, name@, value, name@);
        }
        let mut entries: Vec<(String, V)> = Vec::new();
        std::mem::swap(&mut entries, &mut self.entries);
        let ghost e = entries@;
        let ghost key = name@;
        match index {
            Some(i) => {
                entries.set(i, (name, value));
                assert(entries@.map_values(|e: (String, V)| entry(e)) =~= before.update(
                    i as int,
                    (key, value),
                ));
            },
            None => {
                entries.push((name, value));
                assert(entries@.map_values(|e: (String, V)| entry(e)) =~= before.push((key, value)));
            },
        }
        self.entries = entries;
    }

    /// Removes a name.
    pub fn remove(&mut self, name: &String)
        ensures
            final(self)@ == without(old(self)@, name@),
            distinct(old(self)@),
            distinct(final(self)@),
    {
        let ghost before = self@;
        proof {
            use_type_invariant(&*self);
            law_without(before, name@, name@);
        }
        match self.index_of(name) {
            Some(i) => {
                let mut entries: Vec<(String, V)> = Vec::new();
                std::mem::swap(&mut entries, &mut self.entries);
                entries.remove(i);
                assert(entries@.map_values(|e: (String, V)| entry(e)) =~= before.remove(i as int));
                self.entries = entries;
            },
            None => {},
        }
    }

    /// Removes every name.
    pub fn clear(&mut self)
        ensures
            final(self)@ == Seq::<(Seq<char>, V)>::empty(),
    {
        let entries: Vec<(String, V)> = Vec::new();
        assert(entries@.map_values(|e: (String, V)| entry(e)) =~= Seq::empty());
        self.entries = entries;
    }
}

} // verus!
