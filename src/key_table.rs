use vstd::prelude::*;

verus! {

/// A table of named text values in which every name occurs at most once.
///
/// Its view is the mapping from names to values; writing a name that is
/// already present replaces its value.
pub struct KeyTable {
    entries: Vec<(String, String)>,
}

impl KeyTable {
    /// Each name stands in at most one entry.
    pub closed spec fn wf(&self) -> bool {
        forall|i: int, j: int|
            0 <= i < self.entries@.len() && 0 <= j < self.entries@.len()
                && (#[trigger] self.entries@[i]).0@ == (#[trigger] self.entries@[j]).0@ ==> i == j
    }

    spec fn has_name(&self, k: Seq<char>) -> bool {
        exists|i: int| 0 <= i < self.entries@.len() && (#[trigger] self.entries@[i]).0@ == k
    }

    spec fn index_of(&self, k: Seq<char>) -> int {
        choose|i: int| 0 <= i < self.entries@.len() && (#[trigger] self.entries@[i]).0@ == k
    }

    /// An empty table.
    pub fn new() -> (r: KeyTable)
        ensures
            r.wf(),
            r@ == Map::<Seq<char>, Seq<char>>::empty(),
    {
        let r = KeyTable { entries: Vec::new() };
        assert(r@ =~= Map::<Seq<char>, Seq<char>>::empty());
        r
    }

    fn find(&self, name: &String) -> (r: Option<usize>)
        requires
            self.wf(),
        ensures
            match r {
                Some(i) => i < self.entries@.len() && self.entries@[i as int].0@ == name@,
                None => !self.has_name(name@),
            },
    {
        let mut i: usize = 0;
        while i < self.entries.len()
            invariant
                i <= self.entries@.len(),
                forall|j: int| 0 <= j < i ==> (#[trigger] self.entries@[j]).0@ != name@,
            decreases self.entries@.len() - i,
        {
            if self.entries[i].0 == *name {
                return Some(i);
            }
            i = i + 1;
        }
        None
    }

    proof fn lemma_lookup_at(&self, i: int)
        requires
            self.wf(),
            0 <= i < self.entries@.len(),
        ensures
            self@.contains_key(self.entries@[i].0@),
            self@[self.entries@[i].0@] == self.entries@[i].1@,
    {
        let k = self.entries@[i].0@;
        assert(self.has_name(k));
        assert(self.index_of(k) == i);
    }

    /// The value stored under `name`, if any.
    pub fn get(&self, name: &str) -> (r: Option<&String>)
        requires
            self.wf(),
        ensures
            r is Some <==> self@.contains_key(name@),
            r is Some ==> r.unwrap()@ == self@[name@],
    {
        let key = name.to_owned();
        match self.find(&key) {
            Some(i) => {
                proof {
                    self.lemma_lookup_at(i as int);
                }
                Some(&self.entries[i].1)
            },
            None => None,
        }
    }

    spec fn names(&self) -> Seq<Seq<char>> {
        self.entries@.map_values(|e: (String, String)| e.0@)
    }

    proof fn lemma_len(&self)
        requires
            self.wf(),
        ensures
            self@.dom().len() == self.entries@.len(),
    {
        let names = self.names();
        assert forall|i: int, j: int| 0 <= i < names.len() && 0 <= j < names.len() && i != j implies names[i]
            != names[j] by {
            assert(names[i] == self.entries@[i].0@);
            assert(names[j] == self.entries@[j].0@);
        };
        assert(names.no_duplicates());
        names.unique_seq_to_set();
        assert forall|k: Seq<char>| #[trigger] self@.dom().contains(k) == names.to_set().contains(k) by {
            if self.has_name(k) {
                let i = self.index_of(k);
                assert(names[i] == k);
            }
            if names.contains(k) {
                let i = choose|i: int| 0 <= i < names.len() && names[i] == k;
                assert(self.entries@[i].0@ == k);
            }
        };
        assert(self@.dom() =~= names.to_set());
    }

    /// The number of names in the table.
    pub fn len(&self) -> (r: usize)
        requires
            self.wf(),
        ensures
            r == self@.dom().len(),
    {
        proof {
            self.lemma_len();
        }
        self.entries.len()
    }

    /// Stores `value` under `name`, replacing any earlier value of that name.
    pub fn insert(&mut self, name: String, value: String)
        requires
            old(self).wf(),
        ensures
            final(self).wf(),
            final(self)@ == old(self)@.insert(name@, value@),
    {
        let ghost k = name@;
        let ghost v = value@;
        let ghost mut pos: int = 0;
        match self.find(&name) {
            Some(i) => {
                self.entries.set(i, (name, value));
                proof {
                    pos = i as int;
                }
            },
            None => {
                self.entries.push((name, value));
                proof {
                    pos = old(self).entries@.len() as int;
                }
            },
        }
        assert(self.entries@[pos].0@ == k && self.entries@[pos].1@ == v);
        assert(forall|j: int|
            0 <= j < self.entries@.len() && j != pos ==> self.entries@[j] == old(self).entries@[j]);
        assert(forall|j: int|
            0 <= j < old(self).entries@.len() && j != pos ==> old(self).entries@[j].0@ != k);
        assert forall|a: int, b: int|
            0 <= a < self.entries@.len() && 0 <= b < self.entries@.len()
                && (#[trigger] self.entries@[a]).0@ == (#[trigger] self.entries@[b]).0@ implies a == b by {
            if a != pos && b != pos {
                assert(old(self).entries@[a] == self.entries@[a]);
                assert(old(self).entries@[b] == self.entries@[b]);
            }
        };
        assert forall|n: Seq<char>| #[trigger] self@.contains_key(n) == old(self)@.insert(k, v).contains_key(n) by {
            if n == k {
                assert(self.entries@[pos].0@ == n);
            } else {
                if old(self).has_name(n) {
                    let j = old(self).index_of(n);
                    assert(self.entries@[j].0@ == n);
                }
                if self.has_name(n) {
                    let j = self.index_of(n);
                    assert(old(self).entries@[j].0@ == n);
                }
            }
        };
        assert forall|n: Seq<char>| #[trigger] self@.contains_key(n) implies self@[n] == old(self)@.insert(k, v)[n] by {
            let j = self.index_of(n);
            self.lemma_lookup_at(j);
            if n != k {
                old(self).lemma_lookup_at(j);
            } else {
                assert(self.entries@[pos].0@ == n);
            }
        };
        assert(self@ =~= old(self)@.insert(k, v));
    }

    /// Removes `name` and its value; a name that is absent leaves the table as it is.
    pub fn remove(&mut self, name: &str)
        requires
            old(self).wf(),
        ensures
            final(self).wf(),
            final(self)@ == old(self)@.remove(name@),
    {
        let key = name.to_owned();
        let ghost k = name@;
        match self.find(&key) {
            Some(i) => {
                let ghost last = old(self).entries@.len() - 1;
                self.entries.swap_remove(i);
                assert(forall|j: int|
                    0 <= j < self.entries@.len() ==> self.entries@[j] == if j == i {
                        old(self).entries@[last]
                    } else {
                        old(self).entries@[j]
                    });
                assert forall|a: int, b: int|
                    0 <= a < self.entries@.len() && 0 <= b < self.entries@.len()
                        && (#[trigger] self.entries@[a]).0@ == (#[trigger] self.entries@[b]).0@ implies a == b by {
                    let oa = if a == i { last } else { a };
                    let ob = if b == i { last } else { b };
                    assert(old(self).entries@[oa].0@ == old(self).entries@[ob].0@);
                };
                assert forall|n: Seq<char>| #[trigger] self@.contains_key(n) == old(self)@.remove(k).contains_key(n) by {
                    if self.has_name(n) {
                        let j = self.index_of(n);
                        let oj = if j == i { last } else { j };
                        assert(old(self).entries@[oj].0@ == n);
                        assert(n != k);
                    }
                    if old(self).has_name(n) && n != k {
                        let oj = old(self).index_of(n);
                        if oj == last {
                            assert(self.entries@[i as int].0@ == n);
                        } else {
                            assert(self.entries@[oj].0@ == n);
                        }
                    }
                };
                assert forall|n: Seq<char>| #[trigger] self@.contains_key(n) implies self@[n] == old(self)@.remove(k)[n] by {
                    let j = self.index_of(n);
                    self.lemma_lookup_at(j);
                    let oj = if j == i { last } else { j };
                    old(self).lemma_lookup_at(oj);
                };
            },
            None => {},
        }
        assert(self@ =~= old(self)@.remove(k));
    }
}

impl View for KeyTable {
    type V = Map<Seq<char>, Seq<char>>;

    closed spec fn view(&self) -> Map<Seq<char>, Seq<char>> {
        Map::new(|k: Seq<char>| self.has_name(k), |k: Seq<char>| self.entries@[self.index_of(k)].1@)
    }
}

} // verus!
