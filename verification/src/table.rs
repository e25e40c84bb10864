//! A small map from names to items, kept as a list of entries in which no
//! name occurs twice. It is the registry behind variables, host functions,
//! nodes and header metadata.

use vstd::prelude::*;

verus! {

/// A finite map keyed by text. `insert` replaces the item of a name that is
/// already present, so every name is bound at most once.
#[derive(Debug)]
pub struct Table<V> {
    names: Vec<String>,
    items: Vec<V>,
}

impl<V> Table<V> {
    /// The names as sequences of characters, in entry order.
    pub closed spec fn names(&self) -> Seq<Seq<char>> {
        Seq::new(self.names@.len(), |i: int| self.names@[i]@)
    }

    /// The items, in entry order; `items()[i]` is bound to `names()[i]`.
    pub closed spec fn items(&self) -> Seq<V> {
        self.items@
    }

    /// Entries pair up and names are pairwise distinct.
    pub closed spec fn wf(&self) -> bool {
        &&& self.names@.len() == self.items@.len()
        &&& forall|i: int, j: int|
            0 <= i < j < self.names@.len() ==> self.names@[i]@ != self.names@[j]@
    }

    /// Whether `name` is bound.
    pub open spec fn has(&self, name: Seq<char>) -> bool {
        exists|i: int| 0 <= i < self.names().len() && #[trigger] self.names()[i] == name
    }

    /// The entry index of a bound name.
    pub open spec fn slot(&self, name: Seq<char>) -> int {
        choose|i: int| 0 <= i < self.names().len() && #[trigger] self.names()[i] == name
    }

    /// The item bound to `name`; arbitrary when the name is not bound.
    pub open spec fn at(&self, name: Seq<char>) -> V {
        self.items()[self.slot(name)]
    }

    /// The table as a mathematical map.
    pub open spec fn map(&self) -> Map<Seq<char>, V> {
        Map::new(|k: Seq<char>| self.has(k), |k: Seq<char>| self.at(k))
    }

    /// A well-formed table has as many names as items.
    pub proof fn lemma_len(&self)
        requires
            self.wf(),
        ensures
            self.names().len() == self.items().len(),
    {
    }

    /// In a well-formed table a name sits at exactly one index.
    pub proof fn lemma_slot(&self, i: int)
        requires
            self.wf(),
            0 <= i < self.names().len(),
        ensures
            self.has(self.names()[i]),
            self.slot(self.names()[i]) == i,
            self.at(self.names()[i]) == self.items()[i],
            self.names().len() == self.items().len(),
    {
        let name = self.names()[i];
        let j = self.slot(name);
        assert(self.names()[j] == name);
        if j < i {
            assert(self.names@[j]@ != self.names@[i]@);
        } else if i < j {
            assert(self.names@[i]@ != self.names@[j]@);
        }
    }

    /// An empty table.
    pub fn new() -> (t: Self)
        ensures
            t.wf(),
            t.names().len() == 0,
            t.map() == Map::<Seq<char>, V>::empty(),
            forall|k: Seq<char>| !t.has(k),
    {
        let t = Table { names: Vec::new(), items: Vec::new() };
        assert(t.map() =~= Map::<Seq<char>, V>::empty());
        assert forall|k: Seq<char>| !t.has(k) by {
            assert(!t.map().contains_key(k));
        }
        t
    }

    /// The number of entries.
    pub fn len(&self) -> (n: usize)
        requires
            self.wf(),
        ensures
            n == self.names().len(),
            n == self.items().len(),
    {
        self.names.len()
    }

    /// The index at which `name` is bound, if it is.
    pub fn position(&self, name: &String) -> (r: Option<usize>)
        requires
            self.wf(),
        ensures
            r is Some <==> self.has(name@),
            r matches Some(i) ==> i == self.slot(name@) && i < self.names().len(),
    {
        let mut i: usize = 0;
        while i < self.names.len()
            invariant
                self.wf(),
                i <= self.names@.len(),
                forall|j: int| 0 <= j < i ==> self.names@[j]@ != name@,
            decreases self.names@.len() - i,
        {
            if self.names[i] == *name {
                proof {
                    assert(self.names()[i as int] == name@);
                    self.lemma_slot(i as int);
                }
                return Some(i);
            }
            i += 1;
        }
        assert(!self.has(name@)) by {
            if self.has(name@) {
                let j = self.slot(name@);
                assert(self.names@[j]@ == name@);
            }
        }
        None
    }

    /// The name of entry `i`.
    pub fn name_at(&self, i: usize) -> (r: &String)
        requires
            self.wf(),
            i < self.names().len(),
        ensures
            r@ == self.names()[i as int],
    {
        &self.names[i]
    }

    /// The item of entry `i`.
    pub fn item_at(&self, i: usize) -> (r: &V)
        requires
            self.wf(),
            i < self.names().len(),
        ensures
            *r == self.items()[i as int],
    {
        &self.items[i]
    }

    /// The item bound to `name`, if any.
    pub fn get(&self, name: &String) -> (r: Option<&V>)
        requires
            self.wf(),
        ensures
            r is Some <==> self.has(name@),
            r matches Some(v) ==> *v == self.at(name@),
    {
        match self.position(name) {
            Some(i) => {
                proof {
                    self.lemma_slot(i as int);
                }
                Some(&self.items[i])
            },
            None => None,
        }
    }

    /// The item of entry `i`, to be changed in place.
    pub fn item_mut(&mut self, i: usize) -> (r: &mut V)
        requires
            old(self).wf(),
            i < old(self).names().len(),
        ensures
            *r == old(self).items()[i as int],
            final(self).wf(),
            final(self).names() == old(self).names(),
            final(self).items() == old(self).items().update(i as int, *final(r)),
    {
        &mut self.items[i]
    }

    /// Puts `item` in place of the item of entry `i`.
    pub fn set_item(&mut self, i: usize, item: V)
        requires
            old(self).wf(),
            i < old(self).names().len(),
        ensures
            final(self).wf(),
            final(self).names() == old(self).names(),
            final(self).items() == old(self).items().update(i as int, item),
            final(self).map() == old(self).map().insert(old(self).names()[i as int], item),
    {
        proof {
            old(self).lemma_slot(i as int);
        }
        self.items.set(i, item);
        proof {
            assert(self.names() == old(self).names());
            assert forall|k: Seq<char>| #[trigger] self.has(k) == old(self).has(k) by {}
            assert forall|k: Seq<char>| self.has(k) implies #[trigger] self.at(k) == (if k
                == old(self).names()[i as int] {
                item
            } else {
                old(self).at(k)
            }) by {
                let j = self.slot(k);
                self.lemma_slot(j);
                old(self).lemma_slot(j);
            }
            assert(self.map() =~= old(self).map().insert(old(self).names()[i as int], item));
        }
    }

    /// Binds `name` to `item`, replacing what the name was bound to before.
    pub fn insert(&mut self, name: String, item: V)
        requires
            old(self).wf(),
        ensures
            final(self).wf(),
            final(self).map() == old(self).map().insert(name@, item),
            old(self).has(name@) ==> final(self).names() == old(self).names(),
            !old(self).has(name@) ==> final(self).names() == old(self).names().push(name@),
            forall|k: Seq<char>| #[trigger] final(self).has(k) == (k == name@ || old(self).has(k)),
            forall|k: Seq<char>|
                final(self).has(k) ==> #[trigger] final(self).at(k) == (if k == name@ {
                    item
                } else {
                    old(self).at(k)
                }),
    {
        proof {
            assert forall|k: Seq<char>| old(self).has(k) == old(self).map().contains_key(k) by {}
        }
        match self.position(&name) {
            Some(i) => {
                proof {
                    self.lemma_slot(i as int);
                }
                self.set_item(i, item);
            },
            None => {
                self.names.push(name);
                self.items.push(item);
                proof {
                    let n = old(self).names().len() as int;
                    assert(self.names() =~= old(self).names().push(name@));
                    assert(self.wf()) by {
                        assert forall|i: int, j: int|
                            0 <= i < j < self.names@.len() implies self.names@[i]@
                            != self.names@[j]@ by {
                            if j == n {
                                assert(old(self).names()[i] == old(self).names@[i]@);
                            }
                        }
                    }
                    self.lemma_slot(n);
                    assert forall|k: Seq<char>| #[trigger]
                        self.has(k) == (k == name@ || old(self).has(k)) by {
                        if old(self).has(k) {
                            let j = old(self).slot(k);
                            assert(self.names()[j] == k);
                        }
                        if self.has(k) && k != name@ {
                            let j = self.slot(k);
                            assert(old(self).names()[j] == k);
                        }
                    }
                    assert forall|k: Seq<char>| old(self).has(k) implies #[trigger] self.at(k)
                        == old(self).at(k) by {
                        let j = old(self).slot(k);
                        old(self).lemma_slot(j);
                        assert(self.names()[j] == k);
                        self.lemma_slot(j);
                    }
                    assert(self.map() =~= old(self).map().insert(name@, item));
                }
            },
        }
    }
}

} // verus!
