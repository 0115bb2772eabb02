//! A map keyed by output name.
use vstd::prelude::*;

use crate::text::same_text;

verus! {

/// Values keyed by name, in the order in which the names first came.
#[derive(Debug)]
pub struct NameMap<V> {
    entries: Vec<(String, V)>,
}

impl<V> NameMap<V> {
    /// The name of entry `i`.
    pub closed spec fn name_at(self, i: int) -> Seq<char> {
        self.entries@[i].0@
    }

    /// The value of entry `i`.
    pub closed spec fn value_at(self, i: int) -> V {
        self.entries@[i].1
    }

    /// How many entries there are.
    pub closed spec fn count(self) -> nat {
        self.entries@.len()
    }

    /// No name occurs twice.
    #[verifier::type_invariant]
    closed spec fn names_differ(self) -> bool {
        forall|i: int, j: int|
            0 <= i < j < self.count() ==> #[trigger] self.name_at(i) != #[trigger] self.name_at(j)
    }

    /// Whether some entry has this name.
    pub open spec fn has(self, name: Seq<char>) -> bool {
        exists|i: int| 0 <= i < self.count() && #[trigger] self.name_at(i) == name
    }

    /// Where the entry of this name stands.
    pub open spec fn index_of(self, name: Seq<char>) -> int {
        choose|i: int| 0 <= i < self.count() && #[trigger] self.name_at(i) == name
    }

    /// The map from names to values.
    pub open spec fn view(self) -> Map<Seq<char>, V> {
        Map::new(
            |name: Seq<char>| self.has(name),
            |name: Seq<char>| self.value_at(self.index_of(name)),
        )
    }

    /// An entry's name leads to that entry.
    proof fn lemma_entry(self, i: int)
        requires
            self.names_differ(),
            0 <= i < self.count(),
        ensures
            self@.contains_key(self.name_at(i)),
            self@[self.name_at(i)] == self.value_at(i),
    {
        let name = self.name_at(i);
        assert(self.has(name));
        let j = self.index_of(name);
        assert(0 <= j < self.count() && self.name_at(j) == name);
        if i < j {
            assert(self.name_at(i) != self.name_at(j));
        } else if j < i {
            assert(self.name_at(j) != self.name_at(i));
        }
    }

    /// There are as many entries as names.
    proof fn lemma_count(self)
        requires
            self.names_differ(),
        ensures
            self@.dom().finite(),
            self@.dom().len() == self.count(),
    {
        let all = Seq::new(self.count(), |i: int| self.name_at(i));
        assert forall|i: int, j: int|
            0 <= i < all.len() && 0 <= j < all.len() && i != j implies all[i] != all[j] by {
            if i < j {
                assert(self.name_at(i) != self.name_at(j));
            } else {
                assert(self.name_at(j) != self.name_at(i));
            }
        }
        all.unique_seq_to_set();
        assert forall|name: Seq<char>| self@.dom().contains(name) <==> all.to_set().contains(
            name,
        ) by {
            if self.has(name) {
                assert(all[self.index_of(name)] == name);
            }
            if all.contains(name) {
                let i = choose|i: int| 0 <= i < all.len() && all[i] == name;
                assert(self.name_at(i) == name);
            }
        }
        assert(self@.dom() =~= all.to_set());
    }

    /// An empty map.
    pub fn new() -> (r: Self)
        ensures
            r@ == Map::<Seq<char>, V>::empty(),
            r.count() == 0,
    {
        let r = NameMap { entries: Vec::new() };
        proof {
            assert(r@ =~= Map::<Seq<char>, V>::empty());
        }
        r
    }

    /// How many entries there are.
    pub fn len(&self) -> (n: usize)
        ensures
            n == self.count(),
            n == self@.dom().len(),
    {
        proof {
            use_type_invariant(self);
            self.lemma_count();
        }
        self.entries.len()
    }

    /// Whether there is no entry.
    pub fn is_empty(&self) -> (r: bool)
        ensures
            r == (self@ == Map::<Seq<char>, V>::empty()),
    {
        proof {
            use_type_invariant(self);
            if self.count() > 0 {
                self.lemma_entry(0);
            } else {
                assert(self@ =~= Map::<Seq<char>, V>::empty());
            }
        }
        self.entries.len() == 0
    }

    fn find(&self, name: &str) -> (r: Option<usize>)
        ensures
            match r {
                Some(i) => i < self.count() && self.name_at(i as int) == name@,
                None => !self.has(name@),
            },
    {
        let mut i: usize = 0;
        while i < self.entries.len()
            invariant
                i <= self.count(),
                self.count() == self.entries@.len(),
                forall|j: int| 0 <= j < i ==> #[trigger] self.name_at(j) != name@,
            decreases self.count() - i,
        {
            if same_text(self.entries[i].0.as_str(), name) {
                return Some(i);
            }
            i += 1;
        }
        None
    }

    /// Whether the name has a value.
    pub fn contains_key(&self, name: &str) -> (r: bool)
        ensures
            r == self@.contains_key(name@),
    {
        match self.find(name) {
            Some(i) => {
                proof {
                    use_type_invariant(self);
                    self.lemma_entry(i as int);
                }
                true
            },
            None => false,
        }
    }

    /// The value of the name.
    pub fn get(&self, name: &str) -> (r: Option<&V>)
        ensures
            match r {
                Some(v) => self@.contains_key(name@) && *v == self@[name@],
                None => !self@.contains_key(name@),
            },
    {
        match self.find(name) {
            Some(i) => {
                proof {
                    use_type_invariant(self);
                    self.lemma_entry(i as int);
                }
                Some(&self.entries[i].1)
            },
            None => None,
        }
    }

    /// Entry `i`, in the order in which the names first came.
    pub fn entry(&self, i: usize) -> (r: (&str, &V))
        requires
            i < self.count(),
        ensures
            r.0@ == self.name_at(i as int),
            *r.1 == self.value_at(i as int),
            self@.contains_key(r.0@),
            self@[r.0@] == *r.1,
    {
        proof {
            use_type_invariant(self);
            self.lemma_entry(i as int);
        }
        (self.entries[i].0.as_str(), &self.entries[i].1)
    }

    /// Drops the value of the name.
    pub fn remove(&mut self, name: &str) -> (r: Option<V>)
        ensures
            final(self)@ == old(self)@.remove(name@),
            match r {
                Some(v) => old(self)@.contains_key(name@) && v == old(self)@[name@],
                None => !old(self)@.contains_key(name@),
            },
            final(self).count() == old(self).count() - (if old(self)@.contains_key(name@) {
                1int
            } else {
                0int
            }),
    {
        let ghost before = *self;
        proof {
            use_type_invariant(&*self);
        }
        match self.find(name) {
            Some(i) => {
                proof {
                    before.lemma_entry(i as int);
                    assert forall|a: int, b: int|
                        0 <= a < b < before.count() - 1 implies #[trigger] before.entries@.remove(
                        i as int,
                    )[a].0@ != #[trigger] before.entries@.remove(i as int)[b].0@ by {
                        let a0 = if a < i { a } else { a + 1 };
                        let b0 = if b < i { b } else { b + 1 };
                        assert(before.name_at(a0) != before.name_at(b0));
                    }
                }
                let mut entries: Vec<(String, V)> = Vec::new();
                core::mem::swap(&mut entries, &mut self.entries);
                let e: (String, V) = entries.remove(i);
                self.entries = entries;
                proof {
                    let after = *self;
                    assert forall|n: Seq<char>| #[trigger]
                        after@.contains_key(n) implies before@.remove(name@).contains_key(n)
                        && before@.remove(name@)[n] == after@[n] by {
                        let j = after.index_of(n);
                        let j0 = if j < i { j } else { j + 1 };
                        assert(after.name_at(j) == before.name_at(j0));
                        before.lemma_entry(j0);
                        if j0 < i {
                            assert(before.name_at(j0) != before.name_at(i as int));
                        } else {
                            assert(before.name_at(i as int) != before.name_at(j0));
                        }
                    }
                    assert forall|n: Seq<char>| #[trigger]
                        before@.remove(name@).contains_key(n) implies after@.contains_key(n) by {
                        let j0 = before.index_of(n);
                        let j = if j0 < i { j0 } else { j0 - 1 };
                        assert(after.name_at(j) == before.name_at(j0));
                    }
                    assert(after@ =~= before@.remove(name@));
                }
                Some(e.1)
            },
            None => {
                proof {
                    assert(self@ =~= before@.remove(name@));
                }
                None
            },
        }
    }

    /// Gives the name a value, in place of the one that it had.
    pub fn insert(&mut self, name: String, value: V)
        ensures
            final(self)@ == old(self)@.insert(name@, value),
            final(self).count() == old(self).count() + (if old(self)@.contains_key(name@) {
                0int
            } else {
                1int
            }),
    {
        let ghost start = *self;
        let _ = self.remove(name.as_str());
        let ghost before = *self;
        let ghost key = name@;
        proof {
            use_type_invariant(&*self);
            assert(!before@.contains_key(key));
            assert forall|a: int, b: int|
                0 <= a < b < before.count() + 1 implies #[trigger] before.entries@.push((name, value))[a].0@
                != #[trigger] before.entries@.push((name, value))[b].0@ by {
                assert(before.name_at(a) == before.entries@[a].0@);
                if b < before.count() {
                    assert(before.name_at(a) != before.name_at(b));
                } else {
                    assert(before.has(before.name_at(a)));
                }
            }
        }
        let mut entries: Vec<(String, V)> = Vec::new();
        core::mem::swap(&mut entries, &mut self.entries);
        entries.push((name, value));
        self.entries = entries;
        proof {
            let after = *self;
            assert(after.name_at(before.count() as int) == key);
            use_type_invariant(&*self);
            assert forall|n: Seq<char>| #[trigger] after@.contains_key(n) implies before@.insert(
                key,
                value,
            ).contains_key(n) && before@.insert(key, value)[n] == after@[n] by {
                let j = after.index_of(n);
                after.lemma_entry(j);
                if j < before.count() {
                    assert(after.name_at(j) == before.name_at(j));
                    before.lemma_entry(j);
                }
            }
            assert forall|n: Seq<char>| #[trigger]
                before@.insert(key, value).contains_key(n) implies after@.contains_key(n) by {
                if n != key {
                    let j = before.index_of(n);
                    assert(after.name_at(j) == before.name_at(j));
                } else {
                    assert(after.has(key));
                }
            }
            assert(after@ =~= before@.insert(key, value));
            assert(after@ =~= start@.insert(key, value));
        }
    }
}

} // verus!
