//! A table from texts to values.
use vstd::prelude::*;

verus! {

/// A table from texts to values in which no text occurs twice. Its view is a map.
pub struct Registry<T> {
    keys: Vec<String>,
    values: Vec<T>,
}

impl<T: View> View for Registry<T> {
    type V = Map<Seq<char>, T::V>;

    closed spec fn view(&self) -> Map<Seq<char>, T::V> {
        Map::new(
            |k: Seq<char>| exists|i: int| self.holds(i, k),
            |k: Seq<char>| self.values@[choose|i: int| self.holds(i, k)]@,
        )
    }
}

impl<T: View> Registry<T> {
    spec fn holds(&self, i: int, k: Seq<char>) -> bool {
        0 <= i < self.keys@.len() && self.keys@[i]@ == k
    }

    /// Every text has one value.
    pub closed spec fn wf(&self) -> bool {
        &&& self.keys@.len() == self.values@.len()
        &&& forall|i: int, j: int|
            0 <= i < j < self.keys@.len() ==> (#[trigger] self.keys@[i])@ != (
            #[trigger] self.keys@[j])@
    }

    proof fn lemma_entry(&self, i: int)
        requires
            self.wf(),
            0 <= i < self.keys@.len(),
        ensures
            self@.contains_key(self.keys@[i]@),
            self@[self.keys@[i]@] == self.values@[i]@,
    {
        let k = self.keys@[i]@;
        assert(self.holds(i, k));
        let j = choose|j: int| self.holds(j, k);
        assert(self.holds(j, k));
        if j < i {
            assert(self.keys@[j]@ != self.keys@[i]@);
        } else if i < j {
            assert(self.keys@[i]@ != self.keys@[j]@);
        }
    }

    proof fn lemma_absent(&self, k: Seq<char>)
        requires
            self.wf(),
            forall|i: int| 0 <= i < self.keys@.len() ==> (#[trigger] self.keys@[i])@ != k,
        ensures
            !self@.contains_key(k),
    {
        if self@.contains_key(k) {
            let j = choose|j: int| self.holds(j, k);
            assert(self.holds(j, k));
        }
    }

    /// The empty table.
    pub fn new() -> (r: Registry<T>)
        ensures
            r.wf(),
            r@ == Map::<Seq<char>, T::V>::empty(),
    {
        let r: Registry<T> = Registry { keys: Vec::new(), values: Vec::new() };
        assert(r@ =~= Map::<Seq<char>, T::V>::empty());
        r
    }

    fn find(&self, key: &str) -> (r: Option<usize>)
        requires
            self.wf(),
        ensures
            match r {
                Some(i) => i < self.keys@.len() && self.keys@[i as int]@ == key@
                    && self@.contains_key(key@) && self@[key@] == self.values@[i as int]@,
                None => !self@.contains_key(key@) && forall|i: int|
                    0 <= i < self.keys@.len() ==> (#[trigger] self.keys@[i])@ != key@,
            },
    {
        let wanted: String = key.to_owned();
        let mut i: usize = 0;
        while i < self.keys.len()
            invariant
                self.wf(),
                wanted@ == key@,
                i <= self.keys@.len(),
                forall|j: int| 0 <= j < i ==> (#[trigger] self.keys@[j])@ != key@,
            decreases self.keys@.len() - i,
        {
            if self.keys[i] == wanted {
                proof {
                    self.lemma_entry(i as int);
                }
                return Some(i);
            }
            i = i + 1;
        }
        proof {
            self.lemma_absent(key@);
        }
        None
    }

    /// Whether the table has a value for the text.
    pub fn contains_key(&self, key: &str) -> (r: bool)
        requires
            self.wf(),
        ensures
            r == self@.contains_key(key@),
    {
        self.find(key).is_some()
    }

    /// The value for the text.
    pub fn get(&self, key: &str) -> (r: Option<&T>)
        requires
            self.wf(),
        ensures
            match r {
                Some(v) => self@.contains_key(key@) && v@ == self@[key@],
                None => !self@.contains_key(key@),
            },
    {
        match self.find(key) {
            Some(i) => Some(&self.values[i]),
            None => None,
        }
    }

    /// Gives the text a value, in place of the one it had.
    pub fn insert(&mut self, key: &str, value: T)
        requires
            old(self).wf(),
        ensures
            final(self).wf(),
            final(self)@ == old(self)@.insert(key@, value@),
    {
        match self.find(key) {
            Some(at) => {
                self.values.set(at, value);
                proof {
                    let now = *self;
                    assert forall|k: Seq<char>| #[trigger] now@.dom().contains(k) implies old(self)@.insert(
                        key@,
                        value@,
                    ).dom().contains(k) && now@[k] == old(self)@.insert(key@, value@)[k] by {
                        let i = choose|i: int| now.holds(i, k);
                        assert(now.holds(i, k));
                        now.lemma_entry(i);
                        old(self).lemma_entry(i);
                        if i != at {
                            if i < at {
                                assert(old(self).keys@[i]@ != old(self).keys@[at as int]@);
                            } else {
                                assert(old(self).keys@[at as int]@ != old(self).keys@[i]@);
                            }
                        }
                    }
                    assert forall|k: Seq<char>| #[trigger]
                        old(self)@.insert(key@, value@).dom().contains(
                        k,
                    ) implies now@.dom().contains(k) by {
                        if k == key@ {
                            now.lemma_entry(at as int);
                        } else {
                            let i = choose|i: int| old(self).holds(i, k);
                            assert(old(self).holds(i, k));
                            now.lemma_entry(i);
                        }
                    }
                    assert(now@ =~= old(self)@.insert(key@, value@));
                }
            },
            None => {
                self.keys.push(key.to_owned());
                self.values.push(value);
                proof {
                    let now = *self;
                    let n = old(self).keys@.len();
                    assert forall|i: int, j: int| 0 <= i < j < now.keys@.len() implies (
                    #[trigger] now.keys@[i])@ != (#[trigger] now.keys@[j])@ by {
                        if j < n {
                            assert(old(self).keys@[i]@ != old(self).keys@[j]@);
                        } else {
                            assert(old(self).keys@[i]@ != key@);
                        }
                    }
                    assert forall|k: Seq<char>| #[trigger] now@.dom().contains(k) implies old(self)@.insert(
                        key@,
                        value@,
                    ).dom().contains(k) && now@[k] == old(self)@.insert(key@, value@)[k] by {
                        let i = choose|i: int| now.holds(i, k);
                        assert(now.holds(i, k));
                        now.lemma_entry(i);
                        if i < n {
                            old(self).lemma_entry(i);
                            assert(old(self).keys@[i]@ != key@);
                        }
                    }
                    assert forall|k: Seq<char>| #[trigger]
                        old(self)@.insert(key@, value@).dom().contains(
                        k,
                    ) implies now@.dom().contains(k) by {
                        if k == key@ {
                            now.lemma_entry(n as int);
                        } else {
                            let i = choose|i: int| old(self).holds(i, k);
                            assert(old(self).holds(i, k));
                            now.lemma_entry(i);
                        }
                    }
                    assert(now@ =~= old(self)@.insert(key@, value@));
                }
            },
        }
    }

    /// Forgets the text and its value, if it had one.
    pub fn remove(&mut self, key: &str)
        requires
            old(self).wf(),
        ensures
            final(self).wf(),
            final(self)@ == old(self)@.remove(key@),
    {
        match self.find(key) {
            Some(at) => {
                self.keys.remove(at);
                self.values.remove(at);
                proof {
                    let now = *self;
                    let was = *old(self);
                    assert forall|i: int, j: int| 0 <= i < j < now.keys@.len() implies (
                    #[trigger] now.keys@[i])@ != (#[trigger] now.keys@[j])@ by {
                        let a = if i < at { i } else { i + 1 };
                        let b = if j < at { j } else { j + 1 };
                        assert(was.keys@[a]@ != was.keys@[b]@);
                    }
                    assert forall|k: Seq<char>| #[trigger] now@.dom().contains(k) implies was@.remove(
                        key@,
                    ).dom().contains(k) && now@[k] == was@.remove(key@)[k] by {
                        let i = choose|i: int| now.holds(i, k);
                        assert(now.holds(i, k));
                        now.lemma_entry(i);
                        let a = if i < at { i } else { i + 1 };
                        was.lemma_entry(a);
                        if a < at {
                            assert(was.keys@[a]@ != was.keys@[at as int]@);
                        } else {
                            assert(was.keys@[at as int]@ != was.keys@[a]@);
                        }
                    }
                    assert forall|k: Seq<char>| #[trigger] was@.remove(key@).dom().contains(
                        k,
                    ) implies now@.dom().contains(k) by {
                        let i = choose|i: int| was.holds(i, k);
                        assert(was.holds(i, k));
                        let a = if i < at { i } else { i - 1 };
                        now.lemma_entry(a);
                    }
                    assert(now@ =~= was@.remove(key@));
                }
            },
            None => {
                assert(self@ =~= old(self)@.remove(key@));
            },
        }
    }

    /// The number of texts in the table.
    pub fn len(&self) -> (r: usize)
        requires
            self.wf(),
        ensures
            r == self@.dom().len(),
            self@.dom().finite(),
    {
        proof {
            self.lemma_domain();
        }
        self.keys.len()
    }

    proof fn lemma_domain(&self)
        requires
            self.wf(),
        ensures
            self@.dom().finite(),
            self@.dom().len() == self.keys@.len(),
    {
        let ks = self.keys@.map_values(|s: String| s@);
        assert(ks.no_duplicates()) by {
            assert forall|i: int, j: int| 0 <= i < ks.len() && 0 <= j < ks.len() && i != j implies ks[i]
                != ks[j] by {
                if i < j {
                    assert(self.keys@[i]@ != self.keys@[j]@);
                } else {
                    assert(self.keys@[j]@ != self.keys@[i]@);
                }
            }
        }
        ks.unique_seq_to_set();
        assert(self@.dom() =~= ks.to_set()) by {
            assert forall|k: Seq<char>| self@.contains_key(k) implies ks.contains(k) by {
                let i = choose|i: int| self.holds(i, k);
                assert(self.holds(i, k));
                assert(ks[i] == k);
            }
            assert forall|k: Seq<char>| ks.contains(k) implies self@.contains_key(k) by {
                let i = choose|i: int| 0 <= i < ks.len() && ks[i] == k;
                self.lemma_entry(i);
            }
        }
    }

    /// The text at a position, and its value; every text stands at exactly one position below the
    /// length.
    pub closed spec fn key_at(&self, i: int) -> Seq<char> {
        self.keys@[i]@
    }

    /// The value at a position.
    pub fn value_at(&self, i: usize) -> (r: &T)
        requires
            self.wf(),
            i < self@.dom().len(),
        ensures
            self@.contains_key(self.key_at(i as int)),
            r@ == self@[self.key_at(i as int)],
    {
        proof {
            self.lemma_domain();
            self.lemma_entry(i as int);
        }
        &self.values[i]
    }

    /// Every text of the table stands at one position.
    pub proof fn lemma_positions(&self)
        requires
            self.wf(),
        ensures
            forall|k: Seq<char>| #[trigger]
                self@.contains_key(k) ==> exists|i: int|
                    0 <= i < self@.dom().len() && #[trigger] self.key_at(i) == k,
            forall|i: int, j: int|
                0 <= i < j < self@.dom().len() ==> #[trigger] self.key_at(i) != #[trigger] self.key_at(j),
    {
        self.lemma_domain();
        assert forall|k: Seq<char>| #[trigger] self@.contains_key(k) implies exists|i: int|
            0 <= i < self@.dom().len() && #[trigger] self.key_at(i) == k by {
            let i = choose|i: int| self.holds(i, k);
            assert(self.holds(i, k));
            assert(self.key_at(i) == k);
        }
        assert forall|i: int, j: int| 0 <= i < j < self@.dom().len() implies #[trigger] self.key_at(i)
            != #[trigger] self.key_at(j) by {
            assert(self.keys@[i]@ != self.keys@[j]@);
        }
    }
}

} // verus!
