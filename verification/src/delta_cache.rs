//! Bounded cache of decoded broadcast frames, shared by the drain tasks of
//! one driver.
//!
//! Every connected player receives bit-identical broadcast bytes, so each
//! distinct frame is decoded once and later arrivals reuse the decoded
//! entity set. Frames are keyed by a 64-bit hash of their bytes; eviction
//! is first-in first-out.

use std::collections::{HashMap, HashSet, VecDeque};
use std::sync::Arc;
use vstd::prelude::*;

verus! {

broadcast use vstd::std_specs::hash::group_hash_axioms;

/// What one decoded broadcast contributes to latency measurement: the
/// entities it updated and the client sequence numbers they echo.
#[derive(Debug)]
pub struct CachedDelta {
    pub entity_ids: HashSet<u128>,
    pub client_seqs: HashMap<u128, u64>,
}

/// The 64-bit cache key of a frame: std's `DefaultHasher` over the byte
/// slice (`Hash` for `[u8]`, then `finish`). The value is stable within one
/// build on one machine; it is not described further, since the slice's
/// length prefix is hashed in the machine's native width and byte order.
#[verifier::external_body]
pub fn key_for(bytes: &[u8]) -> u64 {
    std::hash::BuildHasher::hash_one(
        &std::hash::BuildHasherDefault::<std::collections::hash_map::DefaultHasher>::default(),
        bytes,
    )
}

/// How many of the oldest keys an insert evicts from a cache holding
/// `len` entries with capacity `max`: enough to leave room for one more
/// (all of them when the capacity is zero).
pub open spec fn evicted_count(len: nat, max: nat) -> nat {
    if max == 0 {
        len
    } else if len >= max {
        (len - max + 1) as nat
    } else {
        0
    }
}

pub struct DeltaCache {
    map: HashMap<u64, Arc<CachedDelta>>,
    order: VecDeque<u64>,
    hits: u64,
    misses: u64,
    max_entries: usize,
}

impl DeltaCache {
    /// Cached entries by key.
    pub closed spec fn entries(&self) -> Map<u64, Arc<CachedDelta>> {
        self.map@
    }

    /// Keys in insertion order, oldest first.
    pub closed spec fn order(&self) -> Seq<u64> {
        self.order@
    }

    pub closed spec fn hits(&self) -> u64 {
        self.hits
    }

    pub closed spec fn misses(&self) -> u64 {
        self.misses
    }

    pub closed spec fn max_entries(&self) -> nat {
        self.max_entries as nat
    }

    /// `post` is this cache after a lookup of `key` that returned `r`.
    pub open spec fn looked_up(self, post: Self, key: u64, r: Option<Arc<CachedDelta>>) -> bool {
        &&& post.entries() == self.entries()
        &&& post.order() == self.order()
        &&& post.max_entries() == self.max_entries()
        &&& self.entries().contains_key(key) ==> {
            &&& r == Some(self.entries()[key])
            &&& post.hits() == self.hits().wrapping_add(1)
            &&& post.misses() == self.misses()
        }
        &&& !self.entries().contains_key(key) ==> {
            &&& r is None
            &&& post.hits() == self.hits()
            &&& post.misses() == self.misses().wrapping_add(1)
        }
    }

    /// `post` is this cache after inserting `entry` under `key`: a cached
    /// key only has its entry replaced; a new key first evicts the oldest
    /// keys until there is room, then joins the order as the newest.
    pub open spec fn inserted(self, post: Self, key: u64, entry: Arc<CachedDelta>) -> bool {
        let kept = self.order().skip(evicted_count(self.order().len(), self.max_entries()) as int);
        &&& self.entries().contains_key(key) ==> {
            &&& post.order() == self.order()
            &&& post.entries() == self.entries().insert(key, entry)
        }
        &&& !self.entries().contains_key(key) ==> {
            &&& post.order() == kept.push(key)
            &&& post.entries() == self.entries().restrict(kept.to_set()).insert(key, entry)
        }
        &&& post.hits() == self.hits()
        &&& post.misses() == self.misses()
        &&& post.max_entries() == self.max_entries()
    }

    /// The insertion order lists each cached key once, and the cache holds
    /// at most `max_entries` entries (one, when the capacity is zero).
    pub closed spec fn wf(&self) -> bool {
        &&& self.order@.no_duplicates()
        &&& forall|k: u64| self.map@.contains_key(k) <==> self.order@.contains(k)
        &&& self.map@.len() == self.order@.len()
        &&& self.map@.len() <= if self.max_entries == 0 { 1 } else { self.max_entries as nat }
    }

    pub fn new(max_entries: usize) -> (c: Self)
        ensures
            c.wf(),
            c.entries() == Map::<u64, Arc<CachedDelta>>::empty(),
            c.order() == Seq::<u64>::empty(),
            c.hits() == 0,
            c.misses() == 0,
            c.max_entries() == max_entries,
    {
        let c = DeltaCache { map: HashMap::new(), order: VecDeque::new(), hits: 0, misses: 0, max_entries };
        proof {
            assert(c.map@ =~= Map::<u64, Arc<CachedDelta>>::empty());
        }
        c
    }

    /// Looks a key up, counting a hit or a miss (counters wrap at 2^64).
    pub fn lookup_key(&mut self, key: u64) -> (r: Option<Arc<CachedDelta>>)
        requires
            old(self).wf(),
        ensures
            final(self).wf(),
            old(self).looked_up(*final(self), key, r),
    {
        match self.map.get(&key) {
            Some(e) => {
                let e = Arc::clone(e);
                self.hits = self.hits.wrapping_add(1);
                Some(e)
            },
            None => {
                self.misses = self.misses.wrapping_add(1);
                None
            },
        }
    }

    /// Caches `entry` under `key`. A key already cached (a duplicate insert
    /// by racing drain tasks) only has its entry replaced and keeps its
    /// place in the eviction order; a new key first evicts the oldest keys
    /// until there is room for one more entry.
    pub fn insert_key(&mut self, key: u64, entry: Arc<CachedDelta>)
        requires
            old(self).wf(),
        ensures
            final(self).wf(),
            old(self).inserted(*final(self), key, entry),
    {
        if self.map.contains_key(&key) {
            self.map.insert(key, entry);
            proof {
                assert(self.map@.dom() =~= old(self).map@.dom());
            }
            return;
        }
        let ghost o_order = self.order@;
        let ghost o_map = self.map@;
        let ghost len0 = self.order@.len();
        let ghost mut n: nat = 0;
        while self.map.len() >= self.max_entries
            invariant_except_break
                n > 0 ==> len0 - (n - 1) >= self.max_entries,
            invariant
                self.order@.no_duplicates(),
                forall|k: u64| self.map@.contains_key(k) <==> self.order@.contains(k),
                self.map@.len() == self.order@.len(),
                n <= len0,
                len0 == o_order.len(),
                self.order@ == o_order.skip(n as int),
                forall|k: u64| #[trigger] self.map@.contains_key(k) ==> self.map@[k] == o_map[k],
                self.max_entries == old(self).max_entries,
                self.hits == old(self).hits,
                self.misses == old(self).misses,
            ensures
                n == evicted_count(len0, self.max_entries as nat),
                self.map@.len() < if self.max_entries == 0 { 1 } else { self.max_entries as nat },
            decreases self.order@.len(),
        {
            let ghost before = self.order@;
            match self.order.pop_front() {
                Some(oldest) => {
                    self.map.remove(&oldest);
                    proof {
                        n = n + 1;
                        assert(self.order@ =~= o_order.skip(n as int));
                        assert(before.contains(oldest));
                        assert(!self.order@.contains(oldest)) by {
                            if self.order@.contains(oldest) {
                                let k = choose|k: int| 0 <= k < self.order@.len() && self.order@[k] == oldest;
                                assert(before[k + 1] == oldest);
                                assert(before[0] == oldest);
                            }
                        }
                        assert forall|k: u64| self.map@.contains_key(k) <==> self.order@.contains(k) by {
                            if k != oldest && before.contains(k) {
                                let j = choose|j: int| 0 <= j < before.len() && before[j] == k;
                                assert(j != 0);
                                assert(self.order@[j - 1] == k);
                            }
                            if self.order@.contains(k) {
                                let j = choose|j: int| 0 <= j < self.order@.len() && self.order@[j] == k;
                                assert(before[j + 1] == k);
                            }
                        }
                    }
                },
                None => {
                    break;
                },
            }
        }
        let ghost pre_order = self.order@;
        let ghost pre_map = self.map@;
        let present = self.map.contains_key(&key);
        if !present {
            self.order.push_back(key);
        }
        self.map.insert(key, entry);
        proof {
            let kept = o_order.skip(n as int);
            assert(self.map@ == pre_map.insert(key, entry));
            assert(present == pre_map.contains_key(key));
            assert(pre_order == kept);
            assert(kept.contains(key) == present);
            assert forall|k: u64| k != key implies (self.order@.contains(k) <==> pre_order.contains(k)) by {
                if !present && self.order@.contains(k) {
                    let j = choose|j: int| 0 <= j < self.order@.len() && self.order@[j] == k;
                    assert(j < pre_order.len());
                    assert(pre_order[j] == k);
                }
                if pre_order.contains(k) {
                    let j = choose|j: int| 0 <= j < pre_order.len() && pre_order[j] == k;
                    assert(self.order@[j] == k);
                }
            }
            assert(self.order@.contains(key)) by {
                if !present {
                    assert(self.order@[self.order@.len() - 1] == key);
                }
            }
            assert forall|k: u64| self.map@.contains_key(k) <==> self.order@.contains(k) by {
                if k != key {
                    assert(self.map@.contains_key(k) == pre_map.contains_key(k));
                    assert(pre_map.contains_key(k) == pre_order.contains(k));
                    assert(self.order@.contains(k) == pre_order.contains(k));
                } else {
                    assert(self.map@.contains_key(k));
                }
            }
            assert(self.order@.no_duplicates()) by {
                if !present {
                    assert forall|a: int, b: int|
                        0 <= a < self.order@.len() && 0 <= b < self.order@.len() && a != b
                        implies self.order@[a] != self.order@[b] by {
                        if a == kept.len() as int {
                            assert(kept[b] != key);
                        } else if b == kept.len() as int {
                            assert(kept[a] != key);
                        }
                    }
                }
            }
            assert forall|k: u64| kept.contains(k) implies o_map.contains_key(k) by {
                let j = choose|j: int| 0 <= j < kept.len() && kept[j] == k;
                assert(o_order[j + n] == k);
                assert(o_order.contains(k));
            }
            let target = o_map.restrict(kept.to_set()).insert(key, entry);
            assert forall|k: u64| #[trigger] self.map@.contains_key(k) <==> target.contains_key(k) by {
                if k != key {
                    assert(self.map@.contains_key(k) == pre_map.contains_key(k));
                    assert(pre_map.contains_key(k) == kept.contains(k));
                    assert(kept.to_set().contains(k) == kept.contains(k));
                }
            }
            assert forall|k: u64| #[trigger] self.map@.contains_key(k) implies self.map@[k] == target[k] by {
                if k != key {
                    assert(pre_map.contains_key(k));
                    assert(pre_map[k] == o_map[k]);
                    assert(kept.to_set().contains(k));
                }
            }
            assert(self.map@ =~= target);
        }
    }

    /// Hit and miss counts since the last call; both restart from zero.
    pub fn snapshot_and_reset_counters(&mut self) -> (r: (u64, u64))
        requires
            old(self).wf(),
        ensures
            final(self).wf(),
            r == (old(self).hits(), old(self).misses()),
            final(self).hits() == 0,
            final(self).misses() == 0,
            final(self).entries() == old(self).entries(),
            final(self).order() == old(self).order(),
            final(self).max_entries() == old(self).max_entries(),
    {
        let r = (self.hits, self.misses);
        self.hits = 0;
        self.misses = 0;
        r
    }

    /// `lookup_key` on the frame's hash key.
    pub fn lookup(&mut self, bytes: &[u8]) -> (r: Option<Arc<CachedDelta>>)
        requires
            old(self).wf(),
        ensures
            final(self).wf(),
            exists|key: u64| #[trigger] old(self).looked_up(*final(self), key, r),
    {
        let key = key_for(bytes);
        self.lookup_key(key)
    }

    /// `insert_key` on the frame's hash key.
    pub fn insert(&mut self, bytes: &[u8], entry: Arc<CachedDelta>)
        requires
            old(self).wf(),
        ensures
            final(self).wf(),
            exists|key: u64| #[trigger] old(self).inserted(*final(self), key, entry),
    {
        let key = key_for(bytes);
        self.insert_key(key, entry);
    }
}

impl Default for DeltaCache {
    /// Room for 1000 frames.
    fn default() -> (c: Self)
        ensures
            c.wf(),
            c.entries() == Map::<u64, Arc<CachedDelta>>::empty(),
            c.order() == Seq::<u64>::empty(),
            c.hits() == 0,
            c.misses() == 0,
            c.max_entries() == 1000,
    {
        DeltaCache::new(1000)
    }
}

/// A frame key inserted into the cache is found by the next lookup, which
/// returns the inserted entry and counts a hit.
pub proof fn law_lookup_after_insert_hits(
    c: DeltaCache,
    post: DeltaCache,
    key: u64,
    entry: Arc<CachedDelta>,
    post2: DeltaCache,
    r: Option<Arc<CachedDelta>>,
)
    requires
        c.inserted(post, key, entry),
        post.looked_up(post2, key, r),
    ensures
        r == Some(entry),
        post2.hits() == post.hits().wrapping_add(1),
        post2.misses() == post.misses(),
{
}

/// The cache never holds more than `max_entries` frames (one, for a zero
/// capacity).
pub proof fn law_cache_is_bounded(c: DeltaCache)
    requires
        c.wf(),
    ensures
        c.entries().dom().len() <= if c.max_entries() == 0 { 1 } else { c.max_entries() },
{
}

} // verus!
