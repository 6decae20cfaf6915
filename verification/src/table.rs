use vstd::prelude::*;

verus! {

/// Whether `key` is the text of the name of one of the entries.
pub open spec fn named<V>(entries: Seq<(String, V)>, key: Seq<char>) -> bool {
    exists|i: int| 0 <= i < entries.len() && (#[trigger] entries[i]).0@ == key
}

/// A position at which `key` stands among the entries.
pub open spec fn index_of<V>(entries: Seq<(String, V)>, key: Seq<char>) -> int {
    choose|i: int| 0 <= i < entries.len() && (#[trigger] entries[i]).0@ == key
}

/// No two entries have the same name.
pub open spec fn distinct<V>(entries: Seq<(String, V)>) -> bool {
    forall|i: int, j: int|
        0 <= i < entries.len() && 0 <= j < entries.len() && (#[trigger] entries[i]).0@ == (
        #[trigger] entries[j]).0@ ==> i == j
}

/// A map from names to values, kept as a list of entries in which no name
/// stands twice.
pub struct Table<V> {
    entries: Vec<(String, V)>,
}

impl<V> Table<V> {
    #[verifier::type_invariant]
    spec fn wf(&self) -> bool {
        distinct(self.entries@)
    }

    /// The map that the table stands for.
    pub closed spec fn view(&self) -> Map<Seq<char>, V> {
        Map::new(
            |key: Seq<char>| named(self.entries@, key),
            |key: Seq<char>| self.entries@[index_of(self.entries@, key)].1,
        )
    }

    pub fn new() -> (table: Table<V>)
        ensures
            table@ == Map::<Seq<char>, V>::empty(),
    {
        let table = Table { entries: Vec::new() };
        assert(table@ =~= Map::<Seq<char>, V>::empty());
        table
    }

    /// The position of a name, if the table holds it.
    fn find(&self, name: &String) -> (found: Option<usize>)
        ensures
            match found {
                Some(i) => i < self.entries@.len() && self.entries@[i as int].0@ == name@
                    && self@.contains_key(name@) && self@[name@] == self.entries@[i as int].1,
                None => !self@.contains_key(name@),
            },
    {
        proof {
            use_type_invariant(self);
        }
        let mut i: usize = 0;
        while i < self.entries.len()
            invariant
                i <= self.entries@.len(),
                distinct(self.entries@),
                forall|j: int| 0 <= j < i ==> (#[trigger] self.entries@[j]).0@ != name@,
            decreases self.entries@.len() - i,
        {
            if self.entries[i].0 == *name {
                assert(named(self.entries@, name@));
                return Some(i);
            }
            i = i + 1;
        }
        None
    }

    /// Whether the table holds the name.
    pub fn contains_key(&self, name: &String) -> (found: bool)
        ensures
            found == self@.contains_key(name@),
    {
        self.find(name).is_some()
    }

    /// The value under a name, if the table holds it.
    pub fn get(&self, name: &String) -> (found: Option<&V>)
        ensures
            match found {
                Some(value) => self@.contains_key(name@) && *value == self@[name@],
                None => !self@.contains_key(name@),
            },
    {
        match self.find(name) {
            Some(i) => Some(&self.entries[i].1),
            None => None,
        }
    }

    /// Puts a value under a name, in place of the one that stood there.
    pub fn insert(&mut self, name: String, value: V)
        ensures
            final(self)@ == old(self)@.insert(name@, value),
    {
        proof {
            use_type_invariant(&*self);
        }
        let ghost before = self.entries@;
        let ghost at = self.entries@.len() as int;
        let found = self.find(&name);
        let mut entries: Vec<(String, V)> = Vec::new();
        core::mem::swap(&mut self.entries, &mut entries);
        match found {
            Some(i) => {
                entries.set(i, (name, value));
                self.entries = entries;
                assert(distinct(self.entries@)) by {
                    assert forall|a: int, b: int|
                        0 <= a < self.entries@.len() && 0 <= b < self.entries@.len() && (
                        #[trigger] self.entries@[a]).0@ == (#[trigger] self.entries@[b]).0@ implies a
                        == b by {
                        assert(before[a].0@ == self.entries@[a].0@);
                        assert(before[b].0@ == self.entries@[b].0@);
                    }
                }
                assert(self@ =~= old(self)@.insert(name@, value)) by {
                    assert forall|key: Seq<char>| #[trigger]
                        old(self)@.insert(name@, value).contains_key(key) implies self@.contains_key(key)
                        && self@[key] == old(self)@.insert(name@, value)[key] by {
                        if key == name@ {
                            assert(self.entries@[i as int].0@ == key);
                            assert(named(self.entries@, key));
                            assert(index_of(self.entries@, key) == i);
                        } else {
                            let k = index_of(before, key);
                            assert(self.entries@[k].0@ == before[k].0@);
                            assert(named(self.entries@, key));
                            assert(index_of(self.entries@, key) == k);
                        }
                    }
                    assert forall|key: Seq<char>| #[trigger] self@.contains_key(key) implies old(self)@.insert(name@, value).contains_key(key) by {
                        let k = index_of(self.entries@, key);
                        assert(before[k].0@ == self.entries@[k].0@);
                        assert(named(before, key));
                    }
                }
            },
            None => {
                entries.push((name, value));
                self.entries = entries;
                assert(distinct(self.entries@)) by {
                    assert forall|a: int, b: int|
                        0 <= a < self.entries@.len() && 0 <= b < self.entries@.len() && (
                        #[trigger] self.entries@[a]).0@ == (#[trigger] self.entries@[b]).0@ implies a
                        == b by {
                        if a < at {
                            assert(before[a].0@ == self.entries@[a].0@);
                            assert(named(before, self.entries@[a].0@));
                        }
                        if b < at {
                            assert(before[b].0@ == self.entries@[b].0@);
                            assert(named(before, self.entries@[b].0@));
                        }
                    }
                }
                assert(self@ =~= old(self)@.insert(name@, value)) by {
                    assert forall|key: Seq<char>| #[trigger]
                        old(self)@.insert(name@, value).contains_key(key) implies self@.contains_key(key)
                        && self@[key] == old(self)@.insert(name@, value)[key] by {
                        if key == name@ {
                            assert(self.entries@[at].0@ == key);
                            assert(named(self.entries@, key));
                            assert(index_of(self.entries@, key) == at);
                        } else {
                            let k = index_of(before, key);
                            assert(self.entries@[k].0@ == key);
                            assert(named(self.entries@, key));
                            assert(index_of(self.entries@, key) == k);
                        }
                    }
                    assert forall|key: Seq<char>| #[trigger] self@.contains_key(key) implies old(self)@.insert(name@, value).contains_key(key) by {
                        let k = index_of(self.entries@, key);
                        if k < at {
                            assert(before[k].0@ == key);
                            assert(named(before, key));
                        }
                    }
                }
            },
        }
    }
}

} // verus!
