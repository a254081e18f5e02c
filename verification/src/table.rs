//! A table of values under distinct names, in the order in which the names came in.

use vstd::prelude::*;

use crate::text::{same_text, texts};

verus! {

/// Values under distinct names.
///
/// The view is the map from names to values; [`NameTable::names`] is the order in which the names
/// were first inserted.
pub struct NameTable<V> {
    entries: Vec<(String, V)>,
}

spec fn names_of<V>(entries: Seq<(String, V)>) -> Seq<Seq<char>> {
    entries.map_values(|e: (String, V)| e.0@)
}

spec fn map_of<V>(entries: Seq<(String, V)>) -> Map<Seq<char>, V> {
    Map::new(
        |name: Seq<char>| names_of(entries).contains(name),
        |name: Seq<char>| entries[names_of(entries).index_of(name)].1,
    )
}

impl<V> View for NameTable<V> {
    type V = Map<Seq<char>, V>;

    closed spec fn view(&self) -> Map<Seq<char>, V> {
        map_of(self.entries@)
    }
}

/// In a table without repeated names, each entry is what the map holds under its name.
proof fn lemma_entry<V>(entries: Seq<(String, V)>, i: int)
    requires
        names_of(entries).no_duplicates(),
        0 <= i < entries.len(),
    ensures
        map_of(entries).contains_key(entries[i].0@),
        map_of(entries)[entries[i].0@] == entries[i].1,
{
    let names = names_of(entries);
    assert(names[i] == entries[i].0@);
    let j = names.index_of(entries[i].0@);
    assert(names[j] == names[i]);
}

impl<V> NameTable<V> {
    /// The names, in the order in which they were first inserted.
    pub closed spec fn names(&self) -> Seq<Seq<char>> {
        names_of(self.entries@)
    }

    /// No name occurs twice.
    pub closed spec fn wf(&self) -> bool {
        self.names().no_duplicates()
    }

    /// The names are those of the map, each once.
    pub proof fn names_are_the_keys(&self)
        requires
            self.wf(),
        ensures
            self.names().no_duplicates(),
            self.names().to_set() == self@.dom(),
            forall|name: Seq<char>|
                self.names().contains(name) <==> #[trigger] self@.contains_key(name),
    {
        assert(self.names().to_set() =~= self@.dom());
    }

    /// A table without entries.
    pub fn new() -> (table: Self)
        ensures
            table.wf(),
            table@ == Map::<Seq<char>, V>::empty(),
            table.names() == Seq::<Seq<char>>::empty(),
    {
        let table = NameTable { entries: Vec::new() };
        assert(table.names() =~= Seq::<Seq<char>>::empty());
        assert(table@ =~= Map::<Seq<char>, V>::empty());
        table
    }

    /// The number of entries.
    pub fn len(&self) -> (n: usize)
        ensures
            n == self.names().len(),
    {
        self.entries.len()
    }

    /// The name at position `i`.
    pub fn name_at(&self, i: usize) -> (name: &String)
        requires
            i < self.names().len(),
        ensures
            name@ == self.names()[i as int],
    {
        &self.entries[i].0
    }

    /// The value under the name at position `i`.
    pub fn value_at(&self, i: usize) -> (value: &V)
        requires
            self.wf(),
            i < self.names().len(),
        ensures
            self@.contains_key(self.names()[i as int]),
            *value == self@[self.names()[i as int]],
    {
        proof {
            lemma_entry(self.entries@, i as int);
        }
        &self.entries[i].1
    }

    /// The names, in their order.
    pub fn name_list(&self) -> (list: Vec<String>)
        ensures
            texts(list@) == self.names(),
    {
        let mut list: Vec<String> = Vec::new();
        let mut i: usize = 0;
        while i < self.entries.len()
            invariant
                i <= self.entries.len(),
                texts(list@) == self.names().take(i as int),
            decreases self.entries.len() - i,
        {
            let ghost before = texts(list@);
            list.push(self.entries[i].0.clone());
            i = i + 1;
            proof {
                assert(texts(list@) =~= before.push(self.names()[i - 1]));
                assert(self.names().take(i as int) =~= self.names().take(i - 1).push(
                    self.names()[i - 1],
                ));
            }
        }
        assert(self.names().take(i as int) =~= self.names());
        list
    }

    /// The position of a name, where the table holds it.
    fn position(&self, name: &str) -> (at: Option<usize>)
        ensures
            at is Some <==> self.names().contains(name@),
            at matches Some(i) ==> i < self.names().len() && self.names()[i as int] == name@,
    {
        let mut i: usize = 0;
        while i < self.entries.len()
            invariant
                i <= self.entries.len(),
                forall|j: int| 0 <= j < i ==> self.names()[j] != name@,
            decreases self.entries.len() - i,
        {
            if same_text(self.entries[i].0.as_str(), name) {
                assert(self.names()[i as int] == name@);
                return Some(i);
            }
            i = i + 1;
        }
        None
    }

    /// Whether the table holds a name.
    pub fn contains(&self, name: &str) -> (found: bool)
        requires
            self.wf(),
        ensures
            found == self@.contains_key(name@),
    {
        self.position(name).is_some()
    }

    /// The value under a name.
    pub fn get(&self, name: &str) -> (value: Option<&V>)
        requires
            self.wf(),
        ensures
            value is Some <==> self@.contains_key(name@),
            value matches Some(v) ==> *v == self@[name@],
    {
        match self.position(name) {
            Some(i) => {
                proof {
                    lemma_entry(self.entries@, i as int);
                }
                Some(&self.entries[i].1)
            },
            None => None,
        }
    }

    /// Puts `value` under `name`, in place of what was there.
    pub fn insert(&mut self, name: String, value: V)
        requires
            old(self).wf(),
        ensures
            final(self).wf(),
            final(self)@ == old(self)@.insert(name@, value),
            final(self).names() == if old(self)@.contains_key(name@) {
                old(self).names()
            } else {
                old(self).names().push(name@)
            },
    {
        let ghost before = self.entries@;
        match self.position(name.as_str()) {
            Some(i) => {
                self.entries[i] = (name, value);
                proof {
                    let after = self.entries@;
                    assert(names_of(after) =~= names_of(before));
                    assert forall|key: Seq<char>| map_of(after).contains_key(key) implies map_of(
                        after,
                    )[key] == map_of(before).insert(name@, value)[key] by {
                        let j = names_of(after).index_of(key);
                        assert(names_of(after)[j] == key);
                        assert(names_of(after)[i as int] == name@);
                    }
                    assert(names_of(before).contains(name@));
                    assert(map_of(after) =~= map_of(before).insert(name@, value));
                }
            },
            None => {
                self.entries.push((name, value));
                proof {
                    let after = self.entries@;
                    assert(names_of(after) =~= names_of(before).push(name@));
                    assert forall|j: int, k: int|
                        0 <= j < k < after.len() implies names_of(after)[j] != names_of(
                        after,
                    )[k] by {
                        if k == before.len() {
                            assert(names_of(before).contains(names_of(before)[j]));
                        }
                    }
                    assert(names_of(after).no_duplicates());
                    lemma_entry(after, before.len() as int);
                    assert forall|key: Seq<char>| map_of(after).contains_key(key) <==> map_of(
                        before,
                    ).insert(name@, value).contains_key(key) by {
                        if map_of(before).contains_key(key) {
                            let j = names_of(before).index_of(key);
                            assert(names_of(after)[j] == key);
                        }
                    }
                    assert forall|key: Seq<char>| map_of(after).contains_key(key) implies map_of(
                        after,
                    )[key] == map_of(before).insert(name@, value)[key] by {
                        if key != name@ {
                            let j = names_of(after).index_of(key);
                            assert(names_of(after)[j] == key);
                            assert(j < before.len());
                            assert(names_of(before)[j] == key);
                            lemma_entry(after, j);
                            lemma_entry(before, j);
                        }
                    }
                    assert(map_of(after) =~= map_of(before).insert(name@, value));
                }
            },
        }
    }

    /// Takes the entry at position `i` out of the table; the others keep their order.
    pub fn remove_at(&mut self, i: usize)
        requires
            old(self).wf(),
            i < old(self).names().len(),
        ensures
            final(self).wf(),
            final(self)@ == old(self)@.remove(old(self).names()[i as int]),
            final(self).names() == old(self).names().remove(i as int),
    {
        let ghost before = self.entries@;
        let _ = self.entries.remove(i);
        proof {
            let after = self.entries@;
            let name = names_of(before)[i as int];
            assert(names_of(after) =~= names_of(before).remove(i as int));
            assert forall|key: Seq<char>| map_of(after).contains_key(key) implies map_of(
                before,
            ).remove(name).contains_key(key) && map_of(after)[key] == map_of(before)[key] by {
                let j = names_of(after).index_of(key);
                assert(names_of(after)[j] == key);
                let k = if j < i {
                    j
                } else {
                    j + 1
                };
                assert(names_of(before)[k] == key);
                lemma_entry(before, k);
                lemma_entry(after, j);
            }
            assert forall|key: Seq<char>|
                map_of(before).remove(name).contains_key(key) implies map_of(after).contains_key(
                key,
            ) by {
                let k = names_of(before).index_of(key);
                assert(names_of(before)[k] == key);
                let j = if k < i {
                    k
                } else {
                    k - 1
                };
                assert(names_of(after)[j] == key);
            }
            assert(map_of(after) =~= map_of(before).remove(name));
        }
    }

    /// Takes the entry under a name out of the table; the others keep their order.
    pub fn remove(&mut self, name: &str)
        requires
            old(self).wf(),
        ensures
            final(self).wf(),
            final(self)@ == old(self)@.remove(name@),
            final(self).names() == old(self).names().remove_value(name@),
    {
        match self.position(name) {
            Some(i) => {
                proof {
                    self.names().index_of_first_ensures(name@);
                }
                self.remove_at(i);
            },
            None => {
                proof {
                    self.names().index_of_first_ensures(name@);
                    assert(self@.remove(name@) =~= self@);
                }
            },
        }
    }
}

} // verus!
