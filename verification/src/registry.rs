//! A registry: values kept under unique names, in the order in which the names
//! were first set.

use vstd::prelude::*;

verus! {

/// Values of type `V` under unique names.
#[derive(Debug, Clone)]
pub struct Registry<V: View> {
    keys: Vec<String>,
    vals: Vec<V>,
}

impl<V: View> View for Registry<V> {
    type V = Map<Seq<char>, V::V>;

    /// The registry as a map from each name to the value kept under it.
    open spec fn view(&self) -> Map<Seq<char>, V::V> {
        Map::new(
            |k: Seq<char>| self.names().contains(k),
            |k: Seq<char>| self.values()[self.names().index_of(k)],
        )
    }
}

impl<V: View> Registry<V> {
    /// The names, in the order of listing.
    pub closed spec fn names(&self) -> Seq<Seq<char>> {
        Seq::new(self.keys@.len(), |i: int| self.keys@[i]@)
    }

    /// The values, each at the index of its name in `names()`.
    pub closed spec fn values(&self) -> Seq<V::V> {
        Seq::new(self.vals@.len(), |i: int| self.vals@[i]@)
    }

    /// The entries in the order of listing, each name with its value.
    pub open spec fn listing(&self) -> Seq<(Seq<char>, V::V)> {
        Seq::new(self.names().len(), |i: int| (self.names()[i], self.values()[i]))
    }

    /// Every name has its value, and no name occurs twice.
    pub open spec fn wf(&self) -> bool {
        &&& self.names().len() == self.values().len()
        &&& self.names().no_duplicates()
    }

    /// In a well-formed registry the map holds exactly the listed pairs.
    pub proof fn lemma_listing(&self)
        requires
            self.wf(),
        ensures
            self@.dom().finite(),
            self@.len() == self.names().len(),
            forall|i: int|
                0 <= i < self.names().len() ==> self@.contains_key(#[trigger] self.names()[i])
                    && self@[self.names()[i]] == self.values()[i],
            forall|k: Seq<char>| #[trigger]
                self@.contains_key(k) ==> 0 <= self.names().index_of(k) < self.names().len()
                    && self.names()[self.names().index_of(k)] == k,
    {
        let names = self.names();
        assert forall|i: int| 0 <= i < names.len() implies self@.contains_key(#[trigger] names[i])
            && self@[names[i]] == self.values()[i] by {
            assert(names.contains(names[i]));
            assert(names.index_of(names[i]) == i);
        }
        assert(self@.dom() =~= names.to_set());
        names.unique_seq_to_set();
    }

    /// Setting a name and looking it up gives the value that was set; setting
    /// it once more replaces that value, whatever stood there in between.
    pub proof fn lemma_set_then_get(&self, name: Seq<char>, first: V::V, second: V::V)
        ensures
            self@.insert(name, first).contains_key(name),
            self@.insert(name, first)[name] == first,
            self@.insert(name, first).insert(name, second)[name] == second,
            self@.insert(name, first).insert(name, second) == self@.insert(name, second),
    {
        assert(self@.insert(name, first).insert(name, second) =~= self@.insert(name, second));
    }

    /// Removing a name that is not there changes neither the entries nor their
    /// number.
    pub proof fn lemma_remove_absent(&self, name: Seq<char>)
        requires
            self.wf(),
            !self@.contains_key(name),
        ensures
            self@.remove(name) == self@,
            self@.remove(name).len() == self.names().len(),
    {
        self.lemma_listing();
        assert(self@.remove(name) =~= self@);
    }

    /// An empty registry.
    pub fn new() -> (r: Self)
        ensures
            r.wf(),
            r@ == Map::<Seq<char>, V::V>::empty(),
            r.names().len() == 0,
    {
        let r = Registry { keys: Vec::new(), vals: Vec::new() };
        assert(r@ =~= Map::<Seq<char>, V::V>::empty());
        r
    }

    /// The number of entries.
    pub fn len(&self) -> (n: usize)
        ensures
            n == self.names().len(),
    {
        self.keys.len()
    }

    /// The name of the `i`-th entry.
    pub fn name_at(&self, i: usize) -> (name: &String)
        requires
            i < self.names().len(),
        ensures
            name@ == self.names()[i as int],
    {
        &self.keys[i]
    }

    /// The value of the `i`-th entry.
    pub fn value_at(&self, i: usize) -> (value: &V)
        requires
            self.wf(),
            i < self.names().len(),
        ensures
            value@ == self.values()[i as int],
            value@ == self@[self.names()[i as int]],
    {
        proof {
            self.lemma_listing();
        }
        &self.vals[i]
    }

    /// Where `name` is listed, if it is.
    pub fn position(&self, name: &str) -> (at: Option<usize>)
        ensures
            match at {
                Some(i) => i < self.names().len() && self.names()[i as int] == name@ && forall|
                    j: int,
                | 0 <= j < i ==> self.names()[j] != name@,
                None => !self.names().contains(name@),
            },
    {
        let wanted = name.to_owned();
        let mut i: usize = 0;
        while i < self.keys.len()
            invariant
                i <= self.keys.len(),
                wanted@ == name@,
                forall|j: int| 0 <= j < i ==> self.names()[j] != name@,
            decreases self.keys.len() - i,
        {
            if self.keys[i] == wanted {
                return Some(i);
            }
            i += 1;
        }
        None
    }

    /// The value kept under `name`, if there is one.
    pub fn get(&self, name: &str) -> (found: Option<&V>)
        requires
            self.wf(),
        ensures
            match found {
                Some(v) => self@.contains_key(name@) && v@ == self@[name@],
                None => !self@.contains_key(name@),
            },
    {
        proof {
            self.lemma_listing();
        }
        match self.position(name) {
            Some(i) => Some(&self.vals[i]),
            None => None,
        }
    }

    /// Keeps `value` under `name`, in place of what was kept there before. A
    /// new name goes to the end of the listing; a known one stays where it is.
    pub fn set(&mut self, name: String, value: V)
        requires
            old(self).wf(),
        ensures
            final(self).wf(),
            final(self)@ == old(self)@.insert(name@, value@),
            old(self)@.contains_key(name@) ==> final(self).names() == old(self).names(),
            !old(self)@.contains_key(name@) ==> final(self).names() == old(self).names().push(
                name@,
            ),
    {
        proof {
            self.lemma_listing();
        }
        let ghost before = *self;
        let ghost value_view = value@;
        match self.position(name.as_str()) {
            Some(i) => {
                self.vals.set(i, value);
                assert(self.names() == before.names());
            },
            None => {
                self.keys.push(name);
                self.vals.push(value);
                assert(self.names() =~= before.names().push(name@));
            },
        }
        proof {
            self.lemma_listing();
            let after = before@.insert(name@, value_view);
            assert forall|k: Seq<char>| self@.contains_key(k) implies after.contains_key(k)
                && self@[k] == after[k] by {
                let j = self.names().index_of(k);
                if j < before.names().len() {
                    assert(before.names()[j] == k);
                }
            }
            assert forall|k: Seq<char>| after.contains_key(k) implies self@.contains_key(k) by {
                if k == name@ {
                    let at = if before@.contains_key(name@) {
                        before.names().index_of(name@)
                    } else {
                        before.names().len() as int
                    };
                    assert(self.names()[at] == k);
                } else {
                    let j = before.names().index_of(k);
                    assert(self.names()[j] == k);
                }
            }
            assert(self@ =~= after);
        }
    }

    /// Drops the entry under `name` and hands its value out; without such an
    /// entry nothing changes.
    pub fn remove(&mut self, name: &str) -> (removed: Option<V>)
        requires
            old(self).wf(),
        ensures
            final(self).wf(),
            final(self)@ == old(self)@.remove(name@),
            match removed {
                Some(v) => old(self)@.contains_key(name@) && v@ == old(self)@[name@]
                    && final(self).names() == old(self).names().remove(
                    old(self).names().index_of(name@),
                ),
                None => !old(self)@.contains_key(name@) && *final(self) == *old(self),
            },
    {
        proof {
            self.lemma_listing();
        }
        let ghost before = *self;
        match self.position(name) {
            Some(i) => {
                self.keys.remove(i);
                let v = self.vals.remove(i);
                proof {
                    assert(before.names().index_of(name@) == i);
                    assert(self.names() =~= before.names().remove(i as int));
                    assert(self.wf());
                    self.lemma_listing();
                    let after = before@.remove(name@);
                    assert forall|k: Seq<char>| self@.contains_key(k) implies after.contains_key(k)
                        && self@[k] == after[k] by {
                        let j = self.names().index_of(k);
                        let old_j = if j < i { j } else { j + 1 };
                        assert(before.names()[old_j] == k);
                    }
                    assert forall|k: Seq<char>| after.contains_key(k) implies self@.contains_key(
                        k,
                    ) by {
                        let old_j = before.names().index_of(k);
                        let j = if old_j < i { old_j } else { old_j - 1 };
                        assert(self.names()[j] == k);
                    }
                    assert(self@ =~= after);
                }
                Some(v)
            },
            None => {
                assert(self@ =~= before@.remove(name@));
                None
            },
        }
    }
}

} // verus!
