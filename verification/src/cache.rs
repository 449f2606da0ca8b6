use vstd::prelude::*;

use crate::types::{ChunkKey, ObjectId};

verus! {

/// Capacities at which the cache keeps a single internal shard, whatever the
/// machine: the constructor halves the shard count while a shard would hold
/// fewer than 32 items, and the halving only stops above one shard once each
/// shard holds at least 32, which needs a capacity of 63 or more. Only on a
/// single shard is the whole capacity one eviction budget, which the
/// exact-insert clauses below rest on.
pub open spec fn single_sharded(capacity: nat) -> bool {
    capacity <= 62
}

/// A cache with room: strictly fewer entries than its capacity, on a single
/// shard. Inserting into such a cache evicts nothing.
pub open spec fn room_for_one<K>(view: Map<K, Seq<u8>>, capacity: nat) -> bool {
    &&& single_sharded(capacity)
    &&& view.dom().finite()
    &&& view.dom().len() < capacity
}

/// Bounded cache from object id to object bytes, one instance per
/// content-addressed object class. The entries live in a
/// `quick_cache::sync::Cache`, a concurrent capacity-bounded cache with an
/// approximate-recency eviction policy; this struct hides it and the
/// operations below state what its source guarantees. Correct lookups also
/// rest on `ObjectId`'s derived `Eq` and `Hash`, which compare and hash the
/// fields structurally.
#[verifier::external_body]
pub struct IdCache {
    inner: quick_cache::sync::Cache<ObjectId, Vec<u8>>,
}

/// The resident entries an `IdCache` currently holds.
pub uninterp spec fn id_cache_view(c: IdCache) -> Map<ObjectId, Seq<u8>>;

/// The entry capacity an `IdCache` was created with.
pub uninterp spec fn id_cache_capacity(c: IdCache) -> nat;

impl IdCache {
    /// Relies on quick_cache::sync::Cache::new: a fresh cache with the given
    /// item capacity holds no entries.
    #[verifier::external_body]
    pub fn new(capacity: usize) -> (c: IdCache)
        ensures
            id_cache_view(c).dom() == Set::<ObjectId>::empty(),
            id_cache_capacity(c) == capacity as nat,
    {
        IdCache { inner: quick_cache::sync::Cache::new(capacity) }
    }

    /// Relies on quick_cache::sync::Cache::get: returns a clone of the value
    /// stored under the key, or nothing when the key is absent; it moves no
    /// entry in or out of the cache.
    #[verifier::external_body]
    pub fn get(&mut self, key: &ObjectId) -> (r: Option<Vec<u8>>)
        ensures
            id_cache_view(*final(self)) == id_cache_view(*old(self)),
            id_cache_capacity(*final(self)) == id_cache_capacity(*old(self)),
            match r {
                Some(v) => id_cache_view(*old(self)).contains_key(*key) && v@ == id_cache_view(
                    *old(self),
                )[*key],
                None => !id_cache_view(*old(self)).contains_key(*key),
            },
    {
        self.inner.get(key)
    }

    /// Relies on quick_cache::sync::Cache::insert. The new entry replaces any
    /// resident entry under the same key; eviction may drop entries — under
    /// some access histories even the entry just inserted — but never invents
    /// one, so the result is always within the old entries plus the new pair.
    /// Below capacity on a single shard nothing is evicted at all, and the
    /// insert is exact. A capacity-0 cache admits nothing.
    #[verifier::external_body]
    pub fn insert(&mut self, key: ObjectId, value: &Vec<u8>)
        ensures
            id_cache_capacity(*final(self)) == id_cache_capacity(*old(self)),
            id_cache_view(*old(self)).dom().finite() ==> id_cache_view(
                *final(self),
            ).dom().finite(),
            id_cache_view(*final(self)).submap_of(
                id_cache_view(*old(self)).insert(key, value@),
            ),
            room_for_one(id_cache_view(*old(self)), id_cache_capacity(*old(self)))
                ==> id_cache_view(*final(self)) == id_cache_view(*old(self)).insert(key, value@),
            id_cache_capacity(*old(self)) == 0 ==> !id_cache_view(*final(self)).contains_key(key),
    {
        self.inner.insert(key, value.clone());
    }

    /// Relies on quick_cache::sync::Cache::get_value_or_guard and
    /// PlaceholderGuard::insert: the claim-and-publish path. If the key is
    /// resident the cache is left as it is; otherwise the claim is taken and
    /// the value published under it, with the same eviction latitude as
    /// `insert` — within the old entries plus the new pair, exact below
    /// capacity on a single shard, nothing admitted at capacity 0.
    #[verifier::external_body]
    pub fn fill(&mut self, key: ObjectId, value: &Vec<u8>)
        ensures
            id_cache_capacity(*final(self)) == id_cache_capacity(*old(self)),
            id_cache_view(*old(self)).dom().finite() ==> id_cache_view(
                *final(self),
            ).dom().finite(),
            id_cache_view(*old(self)).contains_key(key) ==> id_cache_view(*final(self))
                == id_cache_view(*old(self)),
            !id_cache_view(*old(self)).contains_key(key) ==> id_cache_view(
                *final(self),
            ).submap_of(id_cache_view(*old(self)).insert(key, value@)),
            !id_cache_view(*old(self)).contains_key(key) && room_for_one(
                id_cache_view(*old(self)),
                id_cache_capacity(*old(self)),
            ) ==> id_cache_view(*final(self)) == id_cache_view(*old(self)).insert(key, value@),
            id_cache_capacity(*old(self)) == 0 ==> !id_cache_view(*final(self)).contains_key(key),
    {
        match self.inner.get_value_or_guard(&key, None) {
            quick_cache::sync::GuardResult::Value(_) => {},
            quick_cache::sync::GuardResult::Guard(g) => {
                let _fail_is_ok = g.insert(value.clone());
            },
            quick_cache::sync::GuardResult::Timeout => {},
        }
    }
}

/// Bounded cache from (object id, byte range) to chunk bytes: the chunk
/// instance of the per-class cache. Same grounds as `IdCache`.
#[verifier::external_body]
pub struct ChunkCache {
    inner: quick_cache::sync::Cache<ChunkKey, Vec<u8>>,
}

/// The resident entries a `ChunkCache` currently holds.
pub uninterp spec fn chunk_cache_view(c: ChunkCache) -> Map<ChunkKey, Seq<u8>>;

/// The entry capacity a `ChunkCache` was created with.
pub uninterp spec fn chunk_cache_capacity(c: ChunkCache) -> nat;

impl ChunkCache {
    /// Relies on quick_cache::sync::Cache::new: a fresh cache with the given
    /// item capacity holds no entries.
    #[verifier::external_body]
    pub fn new(capacity: usize) -> (c: ChunkCache)
        ensures
            chunk_cache_view(c).dom() == Set::<ChunkKey>::empty(),
            chunk_cache_capacity(c) == capacity as nat,
    {
        ChunkCache { inner: quick_cache::sync::Cache::new(capacity) }
    }

    /// Relies on quick_cache::sync::Cache::get: returns a clone of the value
    /// stored under the key, or nothing when the key is absent; it moves no
    /// entry in or out of the cache.
    #[verifier::external_body]
    pub fn get(&mut self, key: &ChunkKey) -> (r: Option<Vec<u8>>)
        ensures
            chunk_cache_view(*final(self)) == chunk_cache_view(*old(self)),
            chunk_cache_capacity(*final(self)) == chunk_cache_capacity(*old(self)),
            match r {
                Some(v) => chunk_cache_view(*old(self)).contains_key(*key) && v@
                    == chunk_cache_view(*old(self))[*key],
                None => !chunk_cache_view(*old(self)).contains_key(*key),
            },
    {
        self.inner.get(key)
    }

    /// Relies on quick_cache::sync::Cache::get_value_or_guard and
    /// PlaceholderGuard::insert: as for `IdCache::fill`.
    #[verifier::external_body]
    pub fn fill(&mut self, key: ChunkKey, value: &Vec<u8>)
        ensures
            chunk_cache_capacity(*final(self)) == chunk_cache_capacity(*old(self)),
            chunk_cache_view(*old(self)).dom().finite() ==> chunk_cache_view(
                *final(self),
            ).dom().finite(),
            chunk_cache_view(*old(self)).contains_key(key) ==> chunk_cache_view(*final(self))
                == chunk_cache_view(*old(self)),
            !chunk_cache_view(*old(self)).contains_key(key) ==> chunk_cache_view(
                *final(self),
            ).submap_of(chunk_cache_view(*old(self)).insert(key, value@)),
            !chunk_cache_view(*old(self)).contains_key(key) && room_for_one(
                chunk_cache_view(*old(self)),
                chunk_cache_capacity(*old(self)),
            ) ==> chunk_cache_view(*final(self)) == chunk_cache_view(*old(self)).insert(
                key,
                value@,
            ),
            chunk_cache_capacity(*old(self)) == 0 ==> !chunk_cache_view(
                *final(self),
            ).contains_key(key),
    {
        match self.inner.get_value_or_guard(&key, None) {
            quick_cache::sync::GuardResult::Value(_) => {},
            quick_cache::sync::GuardResult::Guard(g) => {
                let _fail_is_ok = g.insert(value.clone());
            },
            quick_cache::sync::GuardResult::Timeout => {},
        }
    }
}

} // verus!
