use vstd::prelude::*;

verus! {

/// A map keyed by text, kept as a list of entries in which no key occurs twice.
///
/// Its view is a `Map` from the key's characters to the stored value.  The
/// entries keep the order in which their keys were first inserted.
///
/// It stands where a `HashMap<String, _>` would: vstd's specification of
/// `HashMap` describes lookups only for key types that obey its key model
/// (`obeys_key_model`), which vstd grants to integers, `bool` and boxes of
/// them, not to `String`; a map keyed by text is therefore kept here as a list
/// of entries with distinct keys.
#[derive(Debug)]
pub struct TextMap<V> {
    entries: Vec<(String, V)>,
}

impl<V> TextMap<V> {
    /// No two entries share a key.
    pub closed spec fn wf(self) -> bool {
        forall|i: int, j: int|
            0 <= i < j < self.entries@.len() ==> #[trigger] self.entries@[i].0@
                != #[trigger] self.entries@[j].0@
    }

    /// The keys, in entry order.
    pub closed spec fn key_seq(self) -> Seq<Seq<char>> {
        Seq::new(self.entries@.len(), |i: int| self.entries@[i].0@)
    }

    /// The values, in entry order.
    pub closed spec fn value_seq(self) -> Seq<V> {
        Seq::new(self.entries@.len(), |i: int| self.entries@[i].1)
    }

    spec fn has_key(self, k: Seq<char>) -> bool {
        exists|i: int| 0 <= i < self.entries@.len() && #[trigger] self.entries@[i].0@ == k
    }

    spec fn position(self, k: Seq<char>) -> int {
        choose|i: int| 0 <= i < self.entries@.len() && #[trigger] self.entries@[i].0@ == k
    }

    pub closed spec fn view(self) -> Map<Seq<char>, V> {
        Map::new(|k: Seq<char>| self.has_key(k), |k: Seq<char>| self.entries@[self.position(k)].1)
    }

    proof fn lemma_position(self, i: int)
        requires
            self.wf(),
            0 <= i < self.entries@.len(),
        ensures
            self.has_key(self.entries@[i].0@),
            self.position(self.entries@[i].0@) == i,
            self.view().contains_key(self.entries@[i].0@),
            self.view()[self.entries@[i].0@] == self.entries@[i].1,
    {
        let k = self.entries@[i].0@;
        assert(self.has_key(k));
        let p = self.position(k);
        if p != i {
            if p < i {
                assert(self.entries@[p].0@ != self.entries@[i].0@);
            } else {
                assert(self.entries@[i].0@ != self.entries@[p].0@);
            }
        }
    }

    /// The view and the entry sequences agree: a key is in the map exactly when
    /// it is one of the listed keys, and then it maps to the value beside it.
    pub proof fn lemma_view_matches_entries(self)
        requires
            self.wf(),
        ensures
            self.key_seq().len() == self.value_seq().len(),
            forall|k: Seq<char>| #[trigger]
                self.view().contains_key(k) <==> self.key_seq().contains(k),
            forall|i: int|
                0 <= i < self.key_seq().len() ==> #[trigger] self.view()[self.key_seq()[i]]
                    == self.value_seq()[i],
            self.key_seq().no_duplicates(),
    {
        assert forall|k: Seq<char>| #[trigger]
            self.view().contains_key(k) <==> self.key_seq().contains(k) by {
            if self.view().contains_key(k) {
                let i = self.position(k);
                assert(self.key_seq()[i] == k);
            }
            if self.key_seq().contains(k) {
                let i = choose|i: int| 0 <= i < self.key_seq().len() && self.key_seq()[i] == k;
                assert(self.entries@[i].0@ == k);
            }
        }
        assert forall|i: int| 0 <= i < self.key_seq().len() implies #[trigger] self.view()[
            self.key_seq()[i]] == self.value_seq()[i] by {
            self.lemma_position(i);
        }
        assert forall|i: int, j: int|
            0 <= i < self.key_seq().len() && 0 <= j < self.key_seq().len() && i != j implies
            self.key_seq()[i] != self.key_seq()[j] by {
            if i < j {
                assert(self.entries@[i].0@ != self.entries@[j].0@);
            } else {
                assert(self.entries@[j].0@ != self.entries@[i].0@);
            }
        }
    }

    /// Creates an empty map.
    pub fn new() -> (m: Self)
        ensures
            m.wf(),
            m@ == Map::<Seq<char>, V>::empty(),
            m.key_seq() == Seq::<Seq<char>>::empty(),
    {
        let m = TextMap { entries: Vec::new() };
        assert(m@ =~= Map::<Seq<char>, V>::empty());
        assert(m.key_seq() =~= Seq::<Seq<char>>::empty());
        m
    }

    /// The number of entries.
    pub fn len(&self) -> (n: usize)
        ensures
            n == self.key_seq().len(),
    {
        self.entries.len()
    }

    /// Finds the index of the entry with the given key, if there is one.
    fn find(&self, key: &String) -> (r: Option<usize>)
        ensures
            match r {
                Some(i) => i < self.entries@.len() && self.entries@[i as int].0@ == key@,
                None => !self@.contains_key(key@),
            },
    {
        let mut i: usize = 0;
        while i < self.entries.len()
            invariant
                i <= self.entries@.len(),
                forall|j: int| 0 <= j < i ==> self.entries@[j].0@ != key@,
            decreases self.entries@.len() - i,
        {
            if self.entries[i].0 == *key {
                return Some(i);
            }
            i = i + 1;
        }
        None
    }

    /// Whether the key is present.
    pub fn contains_key(&self, key: &str) -> (b: bool)
        requires
            self.wf(),
        ensures
            b == self@.contains_key(key@),
    {
        let k = key.to_owned();
        match self.find(&k) {
            Some(i) => {
                proof {
                    self.lemma_position(i as int);
                }
                true
            },
            None => false,
        }
    }

    /// The value stored under the key, if any.
    pub fn get(&self, key: &str) -> (r: Option<&V>)
        requires
            self.wf(),
        ensures
            match r {
                Some(v) => self@.contains_key(key@) && *v == self@[key@],
                None => !self@.contains_key(key@),
            },
    {
        let k = key.to_owned();
        match self.find(&k) {
            Some(i) => {
                proof {
                    self.lemma_position(i as int);
                }
                Some(&self.entries[i].1)
            },
            None => None,
        }
    }

    /// Stores the value under the key, replacing any value stored there before.
    /// A new key goes after all existing ones; an existing key keeps its place.
    pub fn insert(&mut self, key: String, value: V)
        requires
            old(self).wf(),
        ensures
            final(self).wf(),
            final(self)@ == old(self)@.insert(key@, value),
            old(self)@.contains_key(key@) ==> final(self).key_seq() == old(self).key_seq(),
            !old(self)@.contains_key(key@) ==> final(self).key_seq() == old(self).key_seq().push(
                key@,
            ),
            !old(self)@.contains_key(key@) ==> final(self).value_seq() == old(
                self,
            ).value_seq().push(value),
    {
        let ghost pre = *self;
        match self.find(&key) {
            Some(i) => {
                proof {
                    pre.lemma_position(i as int);
                }
                self.entries.set(i, (key, value));
                proof {
                    let post = *self;
                    assert forall|a: int, b: int|
                        0 <= a < b < post.entries@.len() implies #[trigger] post.entries@[a].0@
                        != #[trigger] post.entries@[b].0@ by {
                        assert(pre.entries@[a].0@ != pre.entries@[b].0@);
                    }
                    assert forall|k: Seq<char>| #[trigger]
                        post@.contains_key(k) == pre@.insert(key@, value).contains_key(k) by {
                        if post.has_key(k) {
                            let j = post.position(k);
                            assert(pre.entries@[j].0@ == k);
                        }
                        if pre.has_key(k) {
                            let j = pre.position(k);
                            assert(post.entries@[j].0@ == k);
                        }
                    }
                    assert forall|k: Seq<char>| #[trigger] post@.contains_key(k) implies post@[k]
                        == pre@.insert(key@, value)[k] by {
                        let j = post.position(k);
                        post.lemma_position(j);
                        if j != i {
                            pre.lemma_position(j);
                        }
                    }
                    assert(post@ =~= pre@.insert(key@, value));
                    assert(post.key_seq() =~= pre.key_seq());
                }
            },
            None => {
                self.entries.push((key, value));
                proof {
                    let post = *self;
                    let n = pre.entries@.len() as int;
                    assert forall|a: int, b: int|
                        0 <= a < b < post.entries@.len() implies #[trigger] post.entries@[a].0@
                        != #[trigger] post.entries@[b].0@ by {
                        if b < n {
                            assert(pre.entries@[a].0@ != pre.entries@[b].0@);
                        } else {
                            assert(pre.entries@[a].0@ == post.entries@[a].0@);
                            if pre.entries@[a].0@ == key@ {
                                assert(pre.has_key(key@));
                            }
                        }
                    }
                    assert forall|k: Seq<char>| #[trigger]
                        post@.contains_key(k) == pre@.insert(key@, value).contains_key(k) by {
                        if post.has_key(k) {
                            let j = post.position(k);
                            if j < n {
                                assert(pre.entries@[j].0@ == k);
                            }
                        }
                        if pre.has_key(k) {
                            let j = pre.position(k);
                            assert(post.entries@[j].0@ == k);
                        }
                        if k == key@ {
                            assert(post.entries@[n].0@ == k);
                        }
                    }
                    assert forall|k: Seq<char>| #[trigger] post@.contains_key(k) implies post@[k]
                        == pre@.insert(key@, value)[k] by {
                        let j = post.position(k);
                        post.lemma_position(j);
                        if j != n {
                            pre.lemma_position(j);
                        }
                    }
                    assert(post@ =~= pre@.insert(key@, value));
                    assert(post.key_seq() =~= pre.key_seq().push(key@));
                    assert(post.value_seq() =~= pre.value_seq().push(value));
                }
            },
        }
    }

    /// Removes the entry with the given key, if there is one; the other
    /// entries keep their order.
    pub fn remove(&mut self, key: &str)
        requires
            old(self).wf(),
        ensures
            final(self).wf(),
            final(self)@ == old(self)@.remove(key@),
    {
        let ghost pre = *self;
        let k = key.to_owned();
        match self.find(&k) {
            Some(i) => {
                proof {
                    pre.lemma_position(i as int);
                }
                self.entries.remove(i);
                proof {
                    let post = *self;
                    assert forall|a: int, b: int|
                        0 <= a < b < post.entries@.len() implies #[trigger] post.entries@[a].0@
                        != #[trigger] post.entries@[b].0@ by {
                        let pa = if a < i { a } else { a + 1 };
                        let pb = if b < i { b } else { b + 1 };
                        assert(pre.entries@[pa].0@ != pre.entries@[pb].0@);
                    }
                    assert forall|q: Seq<char>| #[trigger]
                        post@.contains_key(q) == pre@.remove(key@).contains_key(q) by {
                        if post.has_key(q) {
                            let j = post.position(q);
                            let pj = if j < i { j } else { j + 1 };
                            assert(pre.entries@[pj].0@ == q);
                            if q == key@ {
                                assert(pre.entries@[pj].0@ == pre.entries@[i as int].0@);
                                if pj < i {
                                    assert(pre.entries@[pj].0@ != pre.entries@[i as int].0@);
                                } else {
                                    assert(pre.entries@[i as int].0@ != pre.entries@[pj].0@);
                                }
                            }
                        }
                        if pre.has_key(q) && q != key@ {
                            let j = pre.position(q);
                            assert(j != i);
                            let nj = if j < i { j } else { j - 1 };
                            assert(post.entries@[nj].0@ == q);
                        }
                    }
                    assert forall|q: Seq<char>| #[trigger] post@.contains_key(q) implies post@[q]
                        == pre@.remove(key@)[q] by {
                        let j = post.position(q);
                        post.lemma_position(j);
                        let pj = if j < i { j } else { j + 1 };
                        pre.lemma_position(pj);
                    }
                    assert(post@ =~= pre@.remove(key@));
                }
            },
            None => {
                assert(pre@ =~= pre@.remove(key@));
            },
        }
    }

    /// A copy holding the same keys in the same order, each with a clone of its value.
    pub fn duplicate(&self) -> (r: Self) where V: Clone
        requires
            self.wf(),
        ensures
            r.wf(),
            r.key_seq() == self.key_seq(),
            r@.dom() == self@.dom(),
            forall|k: Seq<char>| #[trigger] r@.contains_key(k) ==> cloned::<V>(self@[k], r@[k]),
    {
        let mut entries: Vec<(String, V)> = Vec::new();
        let mut i: usize = 0;
        while i < self.entries.len()
            invariant
                self.wf(),
                i <= self.entries@.len(),
                entries@.len() == i,
                forall|j: int| 0 <= j < i ==> #[trigger] entries@[j].0@ == self.entries@[j].0@,
                forall|j: int|
                    0 <= j < i ==> cloned::<V>(self.entries@[j].1, #[trigger] entries@[j].1),
            decreases self.entries@.len() - i,
        {
            let key = self.entries[i].0.clone();
            let value = self.entries[i].1.clone();
            entries.push((key, value));
            i = i + 1;
        }
        let r = TextMap { entries };
        proof {
            assert forall|a: int, b: int| 0 <= a < b < r.entries@.len() implies #[trigger] r.entries@[a].0@
                != #[trigger] r.entries@[b].0@ by {
                assert(self.entries@[a].0@ != self.entries@[b].0@);
            }
            assert(r.key_seq() =~= self.key_seq());
            assert forall|k: Seq<char>| #[trigger] r@.contains_key(k) == self@.contains_key(k) by {
                if r.has_key(k) {
                    let j = r.position(k);
                    assert(self.entries@[j].0@ == k);
                }
                if self.has_key(k) {
                    let j = self.position(k);
                    assert(r.entries@[j].0@ == k);
                }
            }
            assert(r@.dom() =~= self@.dom());
            assert forall|k: Seq<char>| #[trigger] r@.contains_key(k) implies cloned::<V>(
                self@[k],
                r@[k],
            ) by {
                let j = r.position(k);
                r.lemma_position(j);
                self.lemma_position(j);
            }
        }
        r
    }

    /// The keys, in entry order.
    pub fn keys(&self) -> (r: Vec<String>)
        ensures
            r@.len() == self.key_seq().len(),
            forall|i: int| 0 <= i < r@.len() ==> #[trigger] r@[i]@ == self.key_seq()[i],
    {
        let mut r: Vec<String> = Vec::new();
        let mut i: usize = 0;
        while i < self.entries.len()
            invariant
                i <= self.entries@.len(),
                r@.len() == i,
                forall|j: int| 0 <= j < i ==> #[trigger] r@[j]@ == self.key_seq()[j],
            decreases self.entries@.len() - i,
        {
            r.push(self.entries[i].0.clone());
            i = i + 1;
        }
        r
    }

    /// The value of the entry at the given position.
    pub fn value_at(&self, i: usize) -> (v: &V)
        requires
            i < self.key_seq().len(),
        ensures
            *v == self.value_seq()[i as int],
    {
        &self.entries[i].1
    }

    /// The key of the entry at the given position.
    pub fn key_at(&self, i: usize) -> (k: &String)
        requires
            i < self.key_seq().len(),
        ensures
            k@ == self.key_seq()[i as int],
    {
        &self.entries[i].0
    }
}

} // verus!
