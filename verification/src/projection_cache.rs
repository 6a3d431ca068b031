//! The cache of command projections: for each aggregate recently handled, the
//! sequence number of its last applied event and its projection.
//!
//! The cache holds at most `PROJECTION_CACHE_CAPACITY` aggregates; storing one
//! more evicts the least recently used.  An `lru::LruCache` keeps the order of
//! use and maps each aggregate to the slot that holds its entry.
use vstd::prelude::*;

verus! {

#[verifier::external_type_specification]
#[verifier::external_body]
#[verifier::reject_recursive_types(K)]
#[verifier::reject_recursive_types(V)]
#[verifier::reject_recursive_types(S)]
pub struct ExLruCache<K, V, S>(lru::LruCache<K, V, S>);

/// An LRU cache of slot numbers by key.
pub type SlotLru = lru::LruCache<String, usize, std::collections::hash_map::RandomState>;

/// The entries of an LRU cache of slot numbers, by key.
pub uninterp spec fn lru_entries(cache: SlotLru) -> Map<Seq<char>, usize>;

/// The keys of an LRU cache in order of use, the least recently used first
/// (the cache's list read from its tail to its head).
pub uninterp spec fn lru_recency(cache: SlotLru) -> Seq<Seq<char>>;

/// The number of entries that an LRU cache was made to hold at most.
pub uninterp spec fn lru_capacity(cache: SlotLru) -> nat;

/// What holds of every LRU cache: its order of use names each stored key
/// once and no other, its capacity is positive, and it holds no more entries
/// than its capacity.
pub open spec fn lru_consistent(cache: SlotLru) -> bool {
    &&& lru_recency(cache).no_duplicates()
    &&& forall|k: Seq<char>| #[trigger]
        lru_entries(cache).contains_key(k) <==> lru_recency(cache).contains(k)
    &&& 0 < lru_capacity(cache)
    &&& lru_recency(cache).len() <= lru_capacity(cache)
}

/// The order of use after the key at position `i` is used again: it moves to
/// the end, the others keep their order.
pub open spec fn moved_to_end(order: Seq<Seq<char>>, i: int) -> Seq<Seq<char>> {
    order.remove(i).push(order[i])
}

/// An empty LRU cache that holds at most `cap` entries
/// (`lru::LruCache::with_hasher`, hashing with std's `RandomState`).
#[verifier::external_body]
fn new_lru(cap: usize) -> (r: SlotLru)
    requires
        cap > 0,
    ensures
        lru_entries(r).dom() == Set::<Seq<char>>::empty(),
        lru_recency(r) == Seq::<Seq<char>>::empty(),
        lru_capacity(r) == cap,
{
    lru::LruCache::with_hasher(
        std::num::NonZeroUsize::new(cap).unwrap(),
        std::collections::hash_map::RandomState::new(),
    )
}

/// The entry stored under the key, if any (`lru::LruCache::get`, which also
/// marks the entry as the most recently used, moving it to the end of the
/// order of use); the entries and the capacity stay.
#[verifier::external_body]
fn lru_get(cache: &mut SlotLru, key: &str) -> (r: Option<usize>)
    ensures
        lru_consistent(*old(cache)),
        lru_consistent(*final(cache)),
        lru_entries(*final(cache)) == lru_entries(*old(cache)),
        lru_capacity(*final(cache)) == lru_capacity(*old(cache)),
        match r {
            Some(v) => {
                &&& lru_entries(*old(cache)).contains_key(key@)
                &&& v == lru_entries(*old(cache))[key@]
                &&& lru_recency(*final(cache)) == moved_to_end(lru_recency(*old(cache)), lru_recency(*old(cache)).index_of(key@))
            },
            None => {
                &&& !lru_entries(*old(cache)).contains_key(key@)
                &&& lru_recency(*final(cache)) == lru_recency(*old(cache))
            },
        },
{
    cache.get(key).copied()
}

/// Stores the entry under the key as the most recently used
/// (`lru::LruCache::push`).  An entry already stored under the key is
/// replaced and handed back, and the key moves to the end of the order of
/// use.  Otherwise, when the cache holds as many entries as its capacity, the
/// least recently used entry is removed and handed back; when it holds fewer,
/// nothing is removed.
#[verifier::external_body]
fn lru_push(cache: &mut SlotLru, key: String, value: usize) -> (r: Option<
    (String, usize),
>)
    ensures
        lru_consistent(*old(cache)),
        lru_consistent(*final(cache)),
        lru_capacity(*final(cache)) == lru_capacity(*old(cache)),
        lru_entries(*old(cache)).contains_key(key@) ==> {
            &&& r matches Some((k, v)) && k@ == key@ && v == lru_entries(*old(cache))[key@]
            &&& lru_entries(*final(cache)) == lru_entries(*old(cache)).insert(key@, value)
            &&& lru_recency(*final(cache)) == moved_to_end(lru_recency(*old(cache)), lru_recency(*old(cache)).index_of(key@))
        },
        !lru_entries(*old(cache)).contains_key(key@) && lru_recency(*old(cache)).len() < lru_capacity(*old(cache)) ==> {
            &&& r is None
            &&& lru_entries(*final(cache)) == lru_entries(*old(cache)).insert(key@, value)
            &&& lru_recency(*final(cache)) == lru_recency(*old(cache)).push(key@)
        },
        !lru_entries(*old(cache)).contains_key(key@) && lru_recency(*old(cache)).len() >= lru_capacity(*old(cache)) ==> {
            &&& r matches Some((k, v)) && k@ == lru_recency(*old(cache))[0] && v == lru_entries(*old(cache))[k@]
            &&& lru_entries(*final(cache)) == lru_entries(*old(cache)).remove(lru_recency(*old(cache))[0]).insert(key@, value)
            &&& lru_recency(*final(cache)) == lru_recency(*old(cache)).drop_first().push(key@)
        },
{
    cache.push(key, value)
}

/// The number of aggregates whose projections are cached.
pub const PROJECTION_CACHE_CAPACITY: usize = 1024;

/// Cached projections: the sequence number of the last event applied to each
/// and the projection, by aggregate identifier.
pub struct ProjectionCache<P> {
    lru: SlotLru,
    slots: Vec<(i64, P)>,
}

impl<P> ProjectionCache<P> {
    /// Every cached aggregate has a slot of its own, and the order of use is
    /// that of an LRU cache of the library's capacity.
    pub closed spec fn wf(self) -> bool {
        &&& lru_consistent(self.lru)
        &&& lru_capacity(self.lru) == PROJECTION_CACHE_CAPACITY
        &&& forall|k: Seq<char>| #[trigger]
            lru_entries(self.lru).contains_key(k) ==> lru_entries(self.lru)[k] < self.slots@.len()
        &&& forall|k1: Seq<char>, k2: Seq<char>|
            #![trigger lru_entries(self.lru)[k1], lru_entries(self.lru)[k2]]
            lru_entries(self.lru).contains_key(k1) && lru_entries(self.lru).contains_key(k2) && k1
                != k2 ==> lru_entries(self.lru)[k1] != lru_entries(self.lru)[k2]
    }

    /// The cached entries by aggregate identifier.
    pub closed spec fn entries(self) -> Map<Seq<char>, (i64, P)> {
        Map::new(
            |k: Seq<char>| lru_entries(self.lru).contains_key(k),
            |k: Seq<char>| self.slots@[lru_entries(self.lru)[k] as int],
        )
    }

    /// The cached aggregates in order of use, the least recently used first.
    pub closed spec fn recency(self) -> Seq<Seq<char>> {
        lru_recency(self.lru)
    }

    /// In every state of the cache, its order of use names each cached
    /// aggregate exactly once, and it holds no more aggregates than its
    /// capacity.
    pub proof fn lemma_cache_bounded(self)
        requires
            self.wf(),
        ensures
            self.recency().no_duplicates(),
            self.recency().to_set() == self.entries().dom(),
            self.entries().dom().len() <= PROJECTION_CACHE_CAPACITY,
    {
        assert(self.recency().to_set() =~= self.entries().dom());
        self.recency().unique_seq_to_set();
    }

    /// An empty cache.
    pub fn new() -> (r: ProjectionCache<P>)
        ensures
            r.wf(),
            r.entries() == Map::<Seq<char>, (i64, P)>::empty(),
            r.recency() == Seq::<Seq<char>>::empty(),
    {
        let r = ProjectionCache { lru: new_lru(PROJECTION_CACHE_CAPACITY), slots: Vec::new() };
        assert(r.entries() =~= Map::<Seq<char>, (i64, P)>::empty());
        r
    }

    /// A copy of the entry cached for the aggregate, if any; a cached
    /// aggregate becomes the most recently used.
    pub fn get(&mut self, aggregate_id: &str) -> (r: Option<(i64, P)>) where P: Clone
        requires
            old(self).wf(),
        ensures
            final(self).wf(),
            final(self).entries() == old(self).entries(),
            match r {
                Some((s, p)) => {
                    &&& old(self).entries().contains_key(aggregate_id@)
                    &&& s == old(self).entries()[aggregate_id@].0
                    &&& cloned::<P>(old(self).entries()[aggregate_id@].1, p)
                    &&& final(self).recency() == moved_to_end(old(self).recency(), old(self).recency().index_of(aggregate_id@))
                },
                None => {
                    &&& !old(self).entries().contains_key(aggregate_id@)
                    &&& final(self).recency() == old(self).recency()
                },
            },
    {
        match lru_get(&mut self.lru, aggregate_id) {
            Some(slot) => {
                proof {
                    assert(self.entries() =~= old(self).entries());
                }
                let (s, p) = &self.slots[slot];
                Some((*s, p.clone()))
            },
            None => {
                proof {
                    assert(self.entries() =~= old(self).entries());
                }
                None
            },
        }
    }

    /// Caches the entry for the aggregate, replacing the one cached for it
    /// before, and makes it the most recently used.  Only when the cache
    /// already holds as many aggregates as its capacity and the aggregate is
    /// not among them is an entry evicted: that of the least recently used
    /// aggregate.  Every other entry stays.
    pub fn put(&mut self, aggregate_id: String, entry: (i64, P))
        requires
            old(self).wf(),
        ensures
            final(self).wf(),
            old(self).entries().contains_key(aggregate_id@) ==> {
                &&& final(self).entries() == old(self).entries().insert(aggregate_id@, entry)
                &&& final(self).recency() == moved_to_end(old(self).recency(), old(self).recency().index_of(aggregate_id@))
            },
            !old(self).entries().contains_key(aggregate_id@) && old(self).recency().len() < PROJECTION_CACHE_CAPACITY ==> {
                &&& final(self).entries() == old(self).entries().insert(aggregate_id@, entry)
                &&& final(self).recency() == old(self).recency().push(aggregate_id@)
            },
            !old(self).entries().contains_key(aggregate_id@) && old(self).recency().len() >= PROJECTION_CACHE_CAPACITY ==> {
                &&& final(self).entries() == old(self).entries().remove(old(self).recency()[0]).insert(aggregate_id@, entry)
                &&& final(self).recency() == old(self).recency().drop_first().push(aggregate_id@)
            },
    {
        let ghost old_entries = self.entries();
        let ghost old_lru = lru_entries(self.lru);
        let ghost old_slots = self.slots@;
        match lru_get(&mut self.lru, aggregate_id.as_str()) {
            Some(slot) => {
                self.slots.set(slot, entry);
                proof {
                    assert(self.entries() =~= old_entries.insert(aggregate_id@, entry));
                }
            },
            None => {
                let fresh = self.slots.len();
                self.slots.push(entry);
                let key = aggregate_id.clone();
                match lru_push(&mut self.lru, key, fresh) {
                    None => {
                        proof {
                            assert(self.entries() =~= old_entries.insert(aggregate_id@, entry));
                        }
                    },
                    Some((evicted, freed)) => {
                        let ghost evicted_key = evicted@;
                        let ghost pushed = lru_recency(self.lru);
                        proof {
                            assert(old(self).recency().contains(evicted_key)) by {
                                assert(old(self).recency()[0] == evicted_key);
                            }
                            assert(old_lru.contains_key(evicted_key));
                            assert(pushed[pushed.len() - 1] == aggregate_id@);
                        }
                        let moved = self.slots.pop().unwrap();
                        self.slots.set(freed, moved);
                        let _ = lru_push(&mut self.lru, aggregate_id, freed);
                        proof {
                            let now = lru_entries(self.lru);
                            assert(now == old_lru.remove(evicted_key).insert(aggregate_id@, freed));
                            let i = pushed.index_of(aggregate_id@);
                            assert(pushed.contains(aggregate_id@));
                            assert(i == pushed.len() - 1);
                            assert(lru_recency(self.lru) =~= pushed);
                            assert forall|k: Seq<char>| #[trigger]
                                now.contains_key(k) implies now[k] < self.slots@.len() by {
                                if k != aggregate_id@ {
                                    assert(old_lru.contains_key(k));
                                }
                            }
                            assert forall|k1: Seq<char>, k2: Seq<char>|
                                now.contains_key(k1) && now.contains_key(k2) && k1 != k2 implies
                                #[trigger] now[k1] != #[trigger] now[k2] by {
                                if k1 != aggregate_id@ && k2 != aggregate_id@ {
                                    assert(old_lru[k1] != old_lru[k2]);
                                } else if k1 == aggregate_id@ {
                                    assert(old_lru[evicted_key] != old_lru[k2]);
                                } else {
                                    assert(old_lru[evicted_key] != old_lru[k1]);
                                }
                            }
                            let expected = old_entries.remove(evicted_key).insert(
                                aggregate_id@,
                                entry,
                            );
                            assert forall|k: Seq<char>| #[trigger]
                                self.entries().contains_key(k) implies self.entries()[k]
                                == expected[k] by {
                                if k != aggregate_id@ {
                                    assert(old_lru[k] != old_lru[evicted_key]);
                                    assert(self.slots@[now[k] as int] == old_slots[old_lru[k] as int]);
                                }
                            }
                            assert(self.entries() =~= expected);
                        }
                    },
                }
            },
        }
    }
}

} // verus!
