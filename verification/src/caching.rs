use vstd::prelude::*;

use crate::cache::{
    chunk_cache_capacity, chunk_cache_view, id_cache_capacity, id_cache_view, room_for_one,
    ChunkCache, IdCache,
};
use crate::storage::{
    lemma_submap_of_empty_insert, lemma_submap_of_insert_chain, objects_extended,
    objects_unchanged, ref_history, refs_unchanged, names_contain, result_view, Storage,
    StoreModel, StoreOp,
};
use crate::types::{
    AttributesTable, ByteRange, ChunkKey, Manifest, ObjectId, Snapshot, StorageResult,
};

verus! {

/// The caching decorator: offers the full storage contract by composing one
/// backend with four bounded entry caches, one per content-addressed object
/// class. Reads are served from the matching cache when the key is present
/// (the backend is not touched at all); on a miss the backend is fetched
/// exactly once and a success is published into the cache through the
/// cache's claim-and-publish primitive — the same single-flight path that
/// de-duplicates concurrent fills when a cache is shared. Writes go to the
/// backend first and populate the cache only after the backend confirmed
/// them — except chunk writes, which are never pre-cached. Every ref
/// operation is passed through to the backend unmodified, one call per
/// call: refs are mutable and must always reflect live backend state.
///
/// Failures are never cached: a failed fetch leaves the key absent and
/// publishes nothing, so the very next call retries against the backend.
pub struct MemCachingStorage<B: Storage> {
    backend: B,
    snapshot_cache: IdCache,
    manifest_cache: IdCache,
    attributes_cache: IdCache,
    chunk_cache: ChunkCache,
}

impl<B: Storage> MemCachingStorage<B> {
    /// The wrapped backend.
    pub closed spec fn backend_state(&self) -> B {
        self.backend
    }

    /// The store the decorator represents: exactly the backend's contents.
    pub open spec fn model(&self) -> StoreModel {
        self.backend_state().model()
    }

    /// The entries the snapshot cache currently holds.
    pub closed spec fn snapshot_cache_view(&self) -> Map<ObjectId, Seq<u8>> {
        id_cache_view(self.snapshot_cache)
    }

    /// The entries the manifest cache currently holds.
    pub closed spec fn manifest_cache_view(&self) -> Map<ObjectId, Seq<u8>> {
        id_cache_view(self.manifest_cache)
    }

    /// The entries the attribute-table cache currently holds.
    pub closed spec fn attributes_cache_view(&self) -> Map<ObjectId, Seq<u8>> {
        id_cache_view(self.attributes_cache)
    }

    /// The entries the chunk cache currently holds.
    pub closed spec fn chunk_cache_view(&self) -> Map<ChunkKey, Seq<u8>> {
        chunk_cache_view(self.chunk_cache)
    }

    /// The four cache capacities, in construction order: snapshots,
    /// manifests, attribute tables, chunks.
    pub closed spec fn capacities(&self) -> (nat, nat, nat, nat) {
        (
            id_cache_capacity(self.snapshot_cache),
            id_cache_capacity(self.manifest_cache),
            id_cache_capacity(self.attributes_cache),
            chunk_cache_capacity(self.chunk_cache),
        )
    }

    pub open spec fn snapshot_capacity(&self) -> nat {
        self.capacities().0
    }

    pub open spec fn manifest_capacity(&self) -> nat {
        self.capacities().1
    }

    pub open spec fn attributes_capacity(&self) -> nat {
        self.capacities().2
    }

    pub open spec fn chunk_capacity(&self) -> nat {
        self.capacities().3
    }

    /// Cache coherence: every cached entry agrees with the backend's current
    /// content. It holds from construction on, every operation preserves it,
    /// and content-addressed immutability (objects only ever grow) is what
    /// makes that possible.
    pub closed spec fn inv(&self) -> bool {
        &&& self.snapshot_cache_view().submap_of(self.backend.model().snapshots)
        &&& self.manifest_cache_view().submap_of(self.backend.model().manifests)
        &&& self.attributes_cache_view().submap_of(self.backend.model().attributes)
        &&& self.chunk_cache_view().submap_of(self.backend.model().chunks)
        &&& self.snapshot_cache_view().dom().finite()
        &&& self.manifest_cache_view().dom().finite()
        &&& self.attributes_cache_view().dom().finite()
        &&& self.chunk_cache_view().dom().finite()
        &&& (self.snapshot_capacity() == 0 ==> self.snapshot_cache_view() == Map::<
            ObjectId,
            Seq<u8>,
        >::empty())
        &&& (self.manifest_capacity() == 0 ==> self.manifest_cache_view() == Map::<
            ObjectId,
            Seq<u8>,
        >::empty())
        &&& (self.attributes_capacity() == 0 ==> self.attributes_cache_view() == Map::<
            ObjectId,
            Seq<u8>,
        >::empty())
        &&& (self.chunk_capacity() == 0 ==> self.chunk_cache_view() == Map::<
            ChunkKey,
            Seq<u8>,
        >::empty())
    }

    /// Builds the decorator around `backend` with one capacity per object
    /// class; a capacity of zero disables caching for that class.
    pub fn new(
        backend: B,
        num_snapshots: u16,
        num_manifests: u16,
        num_attributes: u16,
        num_chunks: u16,
    ) -> (r: MemCachingStorage<B>)
        ensures
            r.inv(),
            r.backend_state() == backend,
            r.snapshot_cache_view() == Map::<ObjectId, Seq<u8>>::empty(),
            r.manifest_cache_view() == Map::<ObjectId, Seq<u8>>::empty(),
            r.attributes_cache_view() == Map::<ObjectId, Seq<u8>>::empty(),
            r.chunk_cache_view() == Map::<ChunkKey, Seq<u8>>::empty(),
            r.snapshot_capacity() == num_snapshots as nat,
            r.manifest_capacity() == num_manifests as nat,
            r.attributes_capacity() == num_attributes as nat,
            r.chunk_capacity() == num_chunks as nat,
    {
        let snapshot_cache = IdCache::new(num_snapshots as usize);
        let manifest_cache = IdCache::new(num_manifests as usize);
        let attributes_cache = IdCache::new(num_attributes as usize);
        let chunk_cache = ChunkCache::new(num_chunks as usize);
        proof {
            assert(id_cache_view(snapshot_cache) =~= Map::<ObjectId, Seq<u8>>::empty());
            assert(id_cache_view(manifest_cache) =~= Map::<ObjectId, Seq<u8>>::empty());
            assert(id_cache_view(attributes_cache) =~= Map::<ObjectId, Seq<u8>>::empty());
            assert(chunk_cache_view(chunk_cache) =~= Map::<ChunkKey, Seq<u8>>::empty());
        }
        MemCachingStorage { backend, snapshot_cache, manifest_cache, attributes_cache, chunk_cache }
    }

    /// Read access to the wrapped backend, for callers that hold state there.
    pub fn backend_ref(&self) -> (r: &B)
        ensures
            *r == self.backend_state(),
    {
        &self.backend
    }

    pub fn fetch_snapshot(&mut self, id: &ObjectId) -> (r: StorageResult<Snapshot>)
        requires
            old(self).inv(),
        ensures
            final(self).inv(),
            objects_unchanged(old(self).model(), final(self).model()),
            refs_unchanged(old(self).model(), final(self).model()),
            r matches Ok(s) ==> old(self).model().snapshots.contains_key(*id) && s@
                == old(self).model().snapshots[*id],
            final(self).capacities() == old(self).capacities(),
            final(self).manifest_cache_view() == old(self).manifest_cache_view(),
            final(self).attributes_cache_view() == old(self).attributes_cache_view(),
            final(self).chunk_cache_view() == old(self).chunk_cache_view(),
            old(self).snapshot_cache_view().contains_key(*id) ==> final(self).backend_state()
                == old(self).backend_state() && final(self).snapshot_cache_view()
                == old(self).snapshot_cache_view() && r is Ok,
            r matches Ok(s) ==> (old(self).snapshot_cache_view().contains_key(*id) ==> s@
                == old(self).snapshot_cache_view()[*id]),
            r matches Ok(s) ==> final(self).snapshot_cache_view().submap_of(
                old(self).snapshot_cache_view().insert(*id, s@),
            ),
            r matches Ok(s) ==> (room_for_one(old(self).snapshot_cache_view(), old(self).snapshot_capacity())
                ==> final(self).snapshot_cache_view() == old(self).snapshot_cache_view().insert(*id, s@)),
            r matches Ok(s) ==> (old(self).snapshot_capacity() == 0 ==> !final(self).snapshot_cache_view().contains_key(
                *id,
            )),
            old(self).snapshot_cache_view().contains_key(*id) ==> final(self).model().ops == old(self).model().ops,
            !old(self).snapshot_cache_view().contains_key(*id) ==> final(self).model().ops == old(self).model().ops.push(StoreOp::FetchSnapshot(*id, result_view(r))),
            r is Err ==> final(self).snapshot_cache_view() == old(self).snapshot_cache_view()
                && !final(self).snapshot_cache_view().contains_key(*id),
    {
        match self.snapshot_cache.get(id) {
            Some(data) => {
                proof {
                    assert(old(self).snapshot_cache_view().dom().contains(*id));
                    assert(old(self).model().snapshots.contains_key(*id));
                    assert(data@ == old(self).model().snapshots[*id]);
                    assert(old(self).snapshot_cache_view().insert(*id, data@) =~= old(self).snapshot_cache_view());
                }
                Ok(Snapshot { data })
            },
            None => match self.backend.fetch_snapshot(id) {
                Ok(s) => {
                    proof {
                        assert(old(self).model().snapshots.contains_key(*id));
                        assert(s@ == old(self).model().snapshots[*id]);
                    }
                    self.snapshot_cache.fill(*id, &s.data);
                    proof {
                        lemma_submap_of_insert_chain(
                            id_cache_view(self.snapshot_cache),
                            old(self).snapshot_cache_view(),
                            self.backend.model().snapshots,
                            *id,
                            s@,
                        );
                        if id_cache_capacity(self.snapshot_cache) == 0 {
                            lemma_submap_of_empty_insert(
                                id_cache_view(self.snapshot_cache),
                                *id,
                                s@,
                            );
                        }
                    }
                    Ok(s)
                },
                Err(e) => Err(e),
            },
        }
    }

    pub fn fetch_attributes(&mut self, id: &ObjectId) -> (r: StorageResult<AttributesTable>)
        requires
            old(self).inv(),
        ensures
            final(self).inv(),
            objects_unchanged(old(self).model(), final(self).model()),
            refs_unchanged(old(self).model(), final(self).model()),
            r matches Ok(t) ==> old(self).model().attributes.contains_key(*id) && t@
                == old(self).model().attributes[*id],
            final(self).capacities() == old(self).capacities(),
            final(self).snapshot_cache_view() == old(self).snapshot_cache_view(),
            final(self).manifest_cache_view() == old(self).manifest_cache_view(),
            final(self).chunk_cache_view() == old(self).chunk_cache_view(),
            old(self).attributes_cache_view().contains_key(*id) ==> final(self).backend_state()
                == old(self).backend_state() && final(self).attributes_cache_view()
                == old(self).attributes_cache_view() && r is Ok,
            r matches Ok(t) ==> (old(self).attributes_cache_view().contains_key(*id) ==> t@
                == old(self).attributes_cache_view()[*id]),
            r matches Ok(t) ==> final(self).attributes_cache_view().submap_of(
                old(self).attributes_cache_view().insert(*id, t@),
            ),
            r matches Ok(t) ==> (room_for_one(old(self).attributes_cache_view(), old(self).attributes_capacity())
                ==> final(self).attributes_cache_view() == old(self).attributes_cache_view().insert(*id, t@)),
            r matches Ok(t) ==> (old(self).attributes_capacity() == 0 ==> !final(self).attributes_cache_view().contains_key(
                *id,
            )),
            old(self).attributes_cache_view().contains_key(*id) ==> final(self).model().ops == old(self).model().ops,
            !old(self).attributes_cache_view().contains_key(*id) ==> final(self).model().ops == old(self).model().ops.push(StoreOp::FetchAttributes(*id, result_view(r))),
            r is Err ==> final(self).attributes_cache_view() == old(self).attributes_cache_view()
                && !final(self).attributes_cache_view().contains_key(*id),
    {
        match self.attributes_cache.get(id) {
            Some(data) => {
                proof {
                    assert(old(self).attributes_cache_view().dom().contains(*id));
                    assert(old(self).model().attributes.contains_key(*id));
                    assert(data@ == old(self).model().attributes[*id]);
                    assert(old(self).attributes_cache_view().insert(*id, data@) =~= old(self).attributes_cache_view());
                }
                Ok(AttributesTable { data })
            },
            None => match self.backend.fetch_attributes(id) {
                Ok(t) => {
                    proof {
                        assert(old(self).model().attributes.contains_key(*id));
                        assert(t@ == old(self).model().attributes[*id]);
                    }
                    self.attributes_cache.fill(*id, &t.data);
                    proof {
                        lemma_submap_of_insert_chain(
                            id_cache_view(self.attributes_cache),
                            old(self).attributes_cache_view(),
                            self.backend.model().attributes,
                            *id,
                            t@,
                        );
                        if id_cache_capacity(self.attributes_cache) == 0 {
                            lemma_submap_of_empty_insert(
                                id_cache_view(self.attributes_cache),
                                *id,
                                t@,
                            );
                        }
                    }
                    Ok(t)
                },
                Err(e) => Err(e),
            },
        }
    }

    pub fn fetch_manifests(&mut self, id: &ObjectId) -> (r: StorageResult<Manifest>)
        requires
            old(self).inv(),
        ensures
            final(self).inv(),
            objects_unchanged(old(self).model(), final(self).model()),
            refs_unchanged(old(self).model(), final(self).model()),
            r matches Ok(m) ==> old(self).model().manifests.contains_key(*id) && m@
                == old(self).model().manifests[*id],
            final(self).capacities() == old(self).capacities(),
            final(self).snapshot_cache_view() == old(self).snapshot_cache_view(),
            final(self).attributes_cache_view() == old(self).attributes_cache_view(),
            final(self).chunk_cache_view() == old(self).chunk_cache_view(),
            old(self).manifest_cache_view().contains_key(*id) ==> final(self).backend_state()
                == old(self).backend_state() && final(self).manifest_cache_view()
                == old(self).manifest_cache_view() && r is Ok,
            r matches Ok(m) ==> (old(self).manifest_cache_view().contains_key(*id) ==> m@
                == old(self).manifest_cache_view()[*id]),
            r matches Ok(m) ==> final(self).manifest_cache_view().submap_of(
                old(self).manifest_cache_view().insert(*id, m@),
            ),
            r matches Ok(m) ==> (room_for_one(old(self).manifest_cache_view(), old(self).manifest_capacity())
                ==> final(self).manifest_cache_view() == old(self).manifest_cache_view().insert(*id, m@)),
            r matches Ok(m) ==> (old(self).manifest_capacity() == 0 ==> !final(self).manifest_cache_view().contains_key(
                *id,
            )),
            old(self).manifest_cache_view().contains_key(*id) ==> final(self).model().ops == old(self).model().ops,
            !old(self).manifest_cache_view().contains_key(*id) ==> final(self).model().ops == old(self).model().ops.push(StoreOp::FetchManifests(*id, result_view(r))),
            r is Err ==> final(self).manifest_cache_view() == old(self).manifest_cache_view()
                && !final(self).manifest_cache_view().contains_key(*id),
    {
        match self.manifest_cache.get(id) {
            Some(data) => {
                proof {
                    assert(old(self).manifest_cache_view().dom().contains(*id));
                    assert(old(self).model().manifests.contains_key(*id));
                    assert(data@ == old(self).model().manifests[*id]);
                    assert(old(self).manifest_cache_view().insert(*id, data@) =~= old(self).manifest_cache_view());
                }
                Ok(Manifest { data })
            },
            None => match self.backend.fetch_manifests(id) {
                Ok(m) => {
                    proof {
                        assert(old(self).model().manifests.contains_key(*id));
                        assert(m@ == old(self).model().manifests[*id]);
                    }
                    self.manifest_cache.fill(*id, &m.data);
                    proof {
                        lemma_submap_of_insert_chain(
                            id_cache_view(self.manifest_cache),
                            old(self).manifest_cache_view(),
                            self.backend.model().manifests,
                            *id,
                            m@,
                        );
                        if id_cache_capacity(self.manifest_cache) == 0 {
                            lemma_submap_of_empty_insert(
                                id_cache_view(self.manifest_cache),
                                *id,
                                m@,
                            );
                        }
                    }
                    Ok(m)
                },
                Err(e) => Err(e),
            },
        }
    }

    pub fn fetch_chunk(&mut self, id: &ObjectId, range: &ByteRange) -> (r: StorageResult<Vec<u8>>)
        requires
            old(self).inv(),
        ensures
            final(self).inv(),
            objects_unchanged(old(self).model(), final(self).model()),
            refs_unchanged(old(self).model(), final(self).model()),
            r matches Ok(b) ==> old(self).model().chunks.contains_key(
                ChunkKey { id: *id, range: *range },
            ) && b@ == old(self).model().chunks[ChunkKey { id: *id, range: *range }],
            final(self).capacities() == old(self).capacities(),
            final(self).snapshot_cache_view() == old(self).snapshot_cache_view(),
            final(self).manifest_cache_view() == old(self).manifest_cache_view(),
            final(self).attributes_cache_view() == old(self).attributes_cache_view(),
            old(self).chunk_cache_view().contains_key(ChunkKey { id: *id, range: *range })
                ==> final(self).backend_state() == old(self).backend_state()
                && final(self).chunk_cache_view() == old(self).chunk_cache_view() && r is Ok,
            r matches Ok(b) ==> (old(self).chunk_cache_view().contains_key(
                ChunkKey { id: *id, range: *range },
            ) ==> b@ == old(self).chunk_cache_view()[ChunkKey { id: *id, range: *range }]),
            r matches Ok(b) ==> final(self).chunk_cache_view().submap_of(
                old(self).chunk_cache_view().insert(ChunkKey { id: *id, range: *range }, b@),
            ),
            r matches Ok(b) ==> (room_for_one(old(self).chunk_cache_view(), old(self).chunk_capacity())
                ==> final(self).chunk_cache_view() == old(self).chunk_cache_view().insert(
                ChunkKey { id: *id, range: *range },
                b@,
            )),
            r matches Ok(b) ==> (old(self).chunk_capacity() == 0 ==> !final(self).chunk_cache_view().contains_key(
                ChunkKey { id: *id, range: *range },
            )),
            old(self).chunk_cache_view().contains_key(ChunkKey { id: *id, range: *range })
                ==> final(self).model().ops == old(self).model().ops,
            !old(self).chunk_cache_view().contains_key(ChunkKey { id: *id, range: *range })
                ==> final(self).model().ops == old(self).model().ops.push(
                StoreOp::FetchChunk(ChunkKey { id: *id, range: *range }, result_view(r)),
            ),
            r is Err ==> final(self).chunk_cache_view() == old(self).chunk_cache_view()
                && !final(self).chunk_cache_view().contains_key(
                ChunkKey { id: *id, range: *range },
            ),
    {
        let key = ChunkKey { id: *id, range: *range };
        match self.chunk_cache.get(&key) {
            Some(bytes) => {
                proof {
                    assert(old(self).chunk_cache_view().dom().contains(key));
                    assert(old(self).model().chunks.contains_key(key));
                    assert(bytes@ == old(self).model().chunks[key]);
                    assert(old(self).chunk_cache_view().insert(key, bytes@) =~= old(
                        self,
                    ).chunk_cache_view());
                }
                Ok(bytes)
            },
            None => match self.backend.fetch_chunk(id, range) {
                Ok(bytes) => {
                    proof {
                        assert(old(self).model().chunks.contains_key(key));
                        assert(bytes@ == old(self).model().chunks[key]);
                    }
                    self.chunk_cache.fill(key, &bytes);
                    proof {
                        lemma_submap_of_insert_chain(
                            chunk_cache_view(self.chunk_cache),
                            old(self).chunk_cache_view(),
                            self.backend.model().chunks,
                            key,
                            bytes@,
                        );
                        if chunk_cache_capacity(self.chunk_cache) == 0 {
                            lemma_submap_of_empty_insert(
                                chunk_cache_view(self.chunk_cache),
                                key,
                                bytes@,
                            );
                        }
                    }
                    Ok(bytes)
                },
                Err(e) => Err(e),
            },
        }
    }

    pub fn write_snapshot(&mut self, id: ObjectId, snapshot: &Snapshot) -> (r: StorageResult<()>)
        requires
            old(self).inv(),
            old(self).model().snapshots.contains_key(id) ==> old(self).model().snapshots[id]
                == snapshot@,
        ensures
            final(self).inv(),
            objects_extended(old(self).model(), final(self).model()),
            refs_unchanged(old(self).model(), final(self).model()),
            final(self).model().attributes == old(self).model().attributes,
            final(self).model().manifests == old(self).model().manifests,
            final(self).model().chunks == old(self).model().chunks,
            final(self).model().chunk_objects == old(self).model().chunk_objects,
            r is Ok ==> final(self).model().snapshots == old(self).model().snapshots.insert(
                id,
                snapshot@,
            ),
            final(self).capacities() == old(self).capacities(),
            final(self).manifest_cache_view() == old(self).manifest_cache_view(),
            final(self).attributes_cache_view() == old(self).attributes_cache_view(),
            final(self).chunk_cache_view() == old(self).chunk_cache_view(),
            r is Ok ==> final(self).snapshot_cache_view().submap_of(
                old(self).snapshot_cache_view().insert(id, snapshot@),
            ),
            r is Ok ==> (room_for_one(old(self).snapshot_cache_view(), old(self).snapshot_capacity()) ==> final(self).snapshot_cache_view() == old(self).snapshot_cache_view().insert(id, snapshot@)),
            r is Ok ==> (old(self).snapshot_capacity() == 0 ==> !final(self).snapshot_cache_view().contains_key(id)),
            final(self).model().ops == old(self).model().ops.push(StoreOp::WriteSnapshot(id, r)),
            r is Err ==> final(self).snapshot_cache_view() == old(self).snapshot_cache_view(),
    {
        match self.backend.write_snapshot(id, snapshot) {
            Ok(u) => {
                proof {
                    vstd::map_lib::lemma_submap_of_trans(
                        old(self).snapshot_cache_view(),
                        old(self).backend_state().model().snapshots,
                        self.backend.model().snapshots,
                    );
                }
                self.snapshot_cache.insert(id, &snapshot.data);
                proof {
                    lemma_submap_of_insert_chain(
                        id_cache_view(self.snapshot_cache),
                        old(self).snapshot_cache_view(),
                        self.backend.model().snapshots,
                        id,
                        snapshot@,
                    );
                    if id_cache_capacity(self.snapshot_cache) == 0 {
                        lemma_submap_of_empty_insert(id_cache_view(self.snapshot_cache), id, snapshot@);
                    }
                }
                Ok(u)
            },
            Err(e) => {
                proof {
                    vstd::map_lib::lemma_submap_of_trans(
                        old(self).snapshot_cache_view(),
                        old(self).backend_state().model().snapshots,
                        self.backend.model().snapshots,
                    );
                }
                Err(e)
            },
        }
    }

    pub fn write_attributes(&mut self, id: ObjectId, table: &AttributesTable) -> (r:
        StorageResult<()>)
        requires
            old(self).inv(),
            old(self).model().attributes.contains_key(id) ==> old(self).model().attributes[id]
                == table@,
        ensures
            final(self).inv(),
            objects_extended(old(self).model(), final(self).model()),
            refs_unchanged(old(self).model(), final(self).model()),
            final(self).model().snapshots == old(self).model().snapshots,
            final(self).model().manifests == old(self).model().manifests,
            final(self).model().chunks == old(self).model().chunks,
            final(self).model().chunk_objects == old(self).model().chunk_objects,
            r is Ok ==> final(self).model().attributes == old(self).model().attributes.insert(
                id,
                table@,
            ),
            final(self).capacities() == old(self).capacities(),
            final(self).snapshot_cache_view() == old(self).snapshot_cache_view(),
            final(self).manifest_cache_view() == old(self).manifest_cache_view(),
            final(self).chunk_cache_view() == old(self).chunk_cache_view(),
            r is Ok ==> final(self).attributes_cache_view().submap_of(
                old(self).attributes_cache_view().insert(id, table@),
            ),
            r is Ok ==> (room_for_one(old(self).attributes_cache_view(), old(self).attributes_capacity()) ==> final(self).attributes_cache_view() == old(self).attributes_cache_view().insert(id, table@)),
            r is Ok ==> (old(self).attributes_capacity() == 0 ==> !final(self).attributes_cache_view().contains_key(id)),
            final(self).model().ops == old(self).model().ops.push(StoreOp::WriteAttributes(id, r)),
            r is Err ==> final(self).attributes_cache_view() == old(self).attributes_cache_view(),
    {
        match self.backend.write_attributes(id, table) {
            Ok(u) => {
                proof {
                    vstd::map_lib::lemma_submap_of_trans(
                        old(self).attributes_cache_view(),
                        old(self).backend_state().model().attributes,
                        self.backend.model().attributes,
                    );
                }
                self.attributes_cache.insert(id, &table.data);
                proof {
                    lemma_submap_of_insert_chain(
                        id_cache_view(self.attributes_cache),
                        old(self).attributes_cache_view(),
                        self.backend.model().attributes,
                        id,
                        table@,
                    );
                    if id_cache_capacity(self.attributes_cache) == 0 {
                        lemma_submap_of_empty_insert(id_cache_view(self.attributes_cache), id, table@);
                    }
                }
                Ok(u)
            },
            Err(e) => {
                proof {
                    vstd::map_lib::lemma_submap_of_trans(
                        old(self).attributes_cache_view(),
                        old(self).backend_state().model().attributes,
                        self.backend.model().attributes,
                    );
                }
                Err(e)
            },
        }
    }

    pub fn write_manifests(&mut self, id: ObjectId, manifest: &Manifest) -> (r: StorageResult<()>)
        requires
            old(self).inv(),
            old(self).model().manifests.contains_key(id) ==> old(self).model().manifests[id]
                == manifest@,
        ensures
            final(self).inv(),
            objects_extended(old(self).model(), final(self).model()),
            refs_unchanged(old(self).model(), final(self).model()),
            final(self).model().snapshots == old(self).model().snapshots,
            final(self).model().attributes == old(self).model().attributes,
            final(self).model().chunks == old(self).model().chunks,
            final(self).model().chunk_objects == old(self).model().chunk_objects,
            r is Ok ==> final(self).model().manifests == old(self).model().manifests.insert(
                id,
                manifest@,
            ),
            final(self).capacities() == old(self).capacities(),
            final(self).snapshot_cache_view() == old(self).snapshot_cache_view(),
            final(self).attributes_cache_view() == old(self).attributes_cache_view(),
            final(self).chunk_cache_view() == old(self).chunk_cache_view(),
            r is Ok ==> final(self).manifest_cache_view().submap_of(
                old(self).manifest_cache_view().insert(id, manifest@),
            ),
            r is Ok ==> (room_for_one(old(self).manifest_cache_view(), old(self).manifest_capacity()) ==> final(self).manifest_cache_view() == old(self).manifest_cache_view().insert(id, manifest@)),
            r is Ok ==> (old(self).manifest_capacity() == 0 ==> !final(self).manifest_cache_view().contains_key(id)),
            final(self).model().ops == old(self).model().ops.push(StoreOp::WriteManifests(id, r)),
            r is Err ==> final(self).manifest_cache_view() == old(self).manifest_cache_view(),
    {
        match self.backend.write_manifests(id, manifest) {
            Ok(u) => {
                proof {
                    vstd::map_lib::lemma_submap_of_trans(
                        old(self).manifest_cache_view(),
                        old(self).backend_state().model().manifests,
                        self.backend.model().manifests,
                    );
                }
                self.manifest_cache.insert(id, &manifest.data);
                proof {
                    lemma_submap_of_insert_chain(
                        id_cache_view(self.manifest_cache),
                        old(self).manifest_cache_view(),
                        self.backend.model().manifests,
                        id,
                        manifest@,
                    );
                    if id_cache_capacity(self.manifest_cache) == 0 {
                        lemma_submap_of_empty_insert(id_cache_view(self.manifest_cache), id, manifest@);
                    }
                }
                Ok(u)
            },
            Err(e) => {
                proof {
                    vstd::map_lib::lemma_submap_of_trans(
                        old(self).manifest_cache_view(),
                        old(self).backend_state().model().manifests,
                        self.backend.model().manifests,
                    );
                }
                Err(e)
            },
        }
    }

    pub fn write_chunk(&mut self, id: ObjectId, bytes: &Vec<u8>) -> (r: StorageResult<()>)
        requires
            old(self).inv(),
            old(self).model().chunk_objects.contains_key(id) ==> old(self).model().chunk_objects[id] == bytes@,
        ensures
            final(self).inv(),
            objects_extended(old(self).model(), final(self).model()),
            refs_unchanged(old(self).model(), final(self).model()),
            final(self).model().snapshots == old(self).model().snapshots,
            final(self).model().attributes == old(self).model().attributes,
            final(self).model().manifests == old(self).model().manifests,
            r is Ok ==> final(self).model().chunk_objects == old(self).model().chunk_objects.insert(id, bytes@),
            final(self).capacities() == old(self).capacities(),
            final(self).snapshot_cache_view() == old(self).snapshot_cache_view(),
            final(self).manifest_cache_view() == old(self).manifest_cache_view(),
            final(self).attributes_cache_view() == old(self).attributes_cache_view(),
            final(self).chunk_cache_view() == old(self).chunk_cache_view(),
            final(self).model().ops == old(self).model().ops.push(StoreOp::WriteChunk(id, r)),
    {
        let r = self.backend.write_chunk(id, bytes);
        proof {
            vstd::map_lib::lemma_submap_of_trans(
                old(self).chunk_cache_view(),
                old(self).backend_state().model().chunks,
                self.backend.model().chunks,
            );
        }
        r
    }

    pub fn get_ref(&mut self, ref_key: &str) -> (r: StorageResult<Vec<u8>>)
        requires
            old(self).inv(),
        ensures
            final(self).inv(),
            objects_unchanged(old(self).model(), final(self).model()),
            refs_unchanged(old(self).model(), final(self).model()),
            r matches Ok(b) ==> old(self).model().refs.contains_key(ref_key@) && old(self).model().refs[ref_key@].len() > 0 && b@ == old(self).model().refs[ref_key@].last(),
            final(self).capacities() == old(self).capacities(),
            final(self).snapshot_cache_view() == old(self).snapshot_cache_view(),
            final(self).manifest_cache_view() == old(self).manifest_cache_view(),
            final(self).attributes_cache_view() == old(self).attributes_cache_view(),
            final(self).chunk_cache_view() == old(self).chunk_cache_view(),
            final(self).model().ops == old(self).model().ops.push(
                StoreOp::GetRef(ref_key@, result_view(r)),
            ),
    {
        self.backend.get_ref(ref_key)
    }

    pub fn ref_names(&mut self) -> (r: StorageResult<Vec<String>>)
        requires
            old(self).inv(),
        ensures
            final(self).inv(),
            objects_unchanged(old(self).model(), final(self).model()),
            refs_unchanged(old(self).model(), final(self).model()),
            r matches Ok(names) ==> forall|i: int|
                0 <= i < names@.len() ==> old(self).model().refs.dom().contains(
                    #[trigger] names@[i]@,
                ),
            r matches Ok(names) ==> forall|n: Seq<char>|
                #[trigger] old(self).model().refs.dom().contains(n) ==> names_contain(names@, n),
            final(self).capacities() == old(self).capacities(),
            final(self).snapshot_cache_view() == old(self).snapshot_cache_view(),
            final(self).manifest_cache_view() == old(self).manifest_cache_view(),
            final(self).attributes_cache_view() == old(self).attributes_cache_view(),
            final(self).chunk_cache_view() == old(self).chunk_cache_view(),
            final(self).model().ops == old(self).model().ops.push(
                StoreOp::RefNames(result_view(r)),
            ),
    {
        self.backend.ref_names()
    }

    pub fn write_ref(&mut self, ref_key: &str, overwrite_refs: bool, bytes: &Vec<u8>) -> (r:
        StorageResult<()>)
        requires
            old(self).inv(),
        ensures
            final(self).inv(),
            objects_unchanged(old(self).model(), final(self).model()),
            r is Err ==> refs_unchanged(old(self).model(), final(self).model()),
            r is Ok && !overwrite_refs ==> !old(self).model().refs.contains_key(ref_key@),
            r is Ok ==> final(self).model().refs == old(self).model().refs.insert(
                ref_key@,
                ref_history(old(self).model().refs, ref_key@).push(bytes@),
            ),
            final(self).capacities() == old(self).capacities(),
            final(self).snapshot_cache_view() == old(self).snapshot_cache_view(),
            final(self).manifest_cache_view() == old(self).manifest_cache_view(),
            final(self).attributes_cache_view() == old(self).attributes_cache_view(),
            final(self).chunk_cache_view() == old(self).chunk_cache_view(),
            final(self).model().ops == old(self).model().ops.push(
                StoreOp::WriteRef(ref_key@, overwrite_refs, r),
            ),
    {
        self.backend.write_ref(ref_key, overwrite_refs, bytes)
    }

    pub fn ref_versions(&mut self, ref_name: &str) -> (r: StorageResult<Vec<String>>)
        requires
            old(self).inv(),
        ensures
            final(self).inv(),
            objects_unchanged(old(self).model(), final(self).model()),
            refs_unchanged(old(self).model(), final(self).model()),
            r matches Ok(v) ==> old(self).model().refs.contains_key(ref_name@) && v@.len() == old(self).model().refs[ref_name@].len(),
            final(self).capacities() == old(self).capacities(),
            final(self).snapshot_cache_view() == old(self).snapshot_cache_view(),
            final(self).manifest_cache_view() == old(self).manifest_cache_view(),
            final(self).attributes_cache_view() == old(self).attributes_cache_view(),
            final(self).chunk_cache_view() == old(self).chunk_cache_view(),
            final(self).model().ops == old(self).model().ops.push(
                StoreOp::RefVersions(ref_name@, result_view(r)),
            ),
    {
        self.backend.ref_versions(ref_name)
    }
}

/// Law: a cached entry is never stale. Whatever the decorator holds in a
/// cache is exactly what the backend currently stores under the same key, so
/// a cache hit returns what a successful backend fetch would.
pub proof fn lemma_cache_never_stale<B: Storage>(d: MemCachingStorage<B>)
    requires
        d.inv(),
    ensures
        d.snapshot_cache_view().submap_of(d.model().snapshots),
        d.manifest_cache_view().submap_of(d.model().manifests),
        d.attributes_cache_view().submap_of(d.model().attributes),
        d.chunk_cache_view().submap_of(d.model().chunks),
{
}

/// Law: a cache hit is the store's current content, key by key. Together
/// with the fetch contracts (a present key is answered from the cache with
/// the backend untouched) this is why serving from the cache is
/// indistinguishable from calling the backend directly on these keys.
pub proof fn lemma_cached_read_is_current<B: Storage>(
    d: MemCachingStorage<B>,
    id: ObjectId,
    key: ChunkKey,
)
    requires
        d.inv(),
    ensures
        d.snapshot_cache_view().contains_key(id) ==> d.model().snapshots.contains_key(id)
            && d.snapshot_cache_view()[id] == d.model().snapshots[id],
        d.manifest_cache_view().contains_key(id) ==> d.model().manifests.contains_key(id)
            && d.manifest_cache_view()[id] == d.model().manifests[id],
        d.attributes_cache_view().contains_key(id) ==> d.model().attributes.contains_key(id)
            && d.attributes_cache_view()[id] == d.model().attributes[id],
        d.chunk_cache_view().contains_key(key) ==> d.model().chunks.contains_key(key)
            && d.chunk_cache_view()[key] == d.model().chunks[key],
{
    lemma_cache_never_stale(d);
    if d.snapshot_cache_view().contains_key(id) {
        crate::storage::lemma_submap_at(d.snapshot_cache_view(), d.model().snapshots, id);
    }
    if d.manifest_cache_view().contains_key(id) {
        crate::storage::lemma_submap_at(d.manifest_cache_view(), d.model().manifests, id);
    }
    if d.attributes_cache_view().contains_key(id) {
        crate::storage::lemma_submap_at(d.attributes_cache_view(), d.model().attributes, id);
    }
    if d.chunk_cache_view().contains_key(key) {
        crate::storage::lemma_submap_at(d.chunk_cache_view(), d.model().chunks, key);
    }
}

} // verus!
