use vstd::prelude::*;

use crate::types::{
    AttributesTable, ByteRange, ChunkKey, Manifest, ObjectId, Snapshot, StorageResult,
};

verus! {

/// One backend call, with the key it was made for and the outcome it
/// returned. The model records these so that contracts can count calls,
/// state their order, and tie a caller's result to the backend's own.
pub enum StoreOp {
    FetchSnapshot(ObjectId, StorageResult<Seq<u8>>),
    FetchAttributes(ObjectId, StorageResult<Seq<u8>>),
    FetchManifests(ObjectId, StorageResult<Seq<u8>>),
    FetchChunk(ChunkKey, StorageResult<Seq<u8>>),
    WriteSnapshot(ObjectId, StorageResult<()>),
    WriteAttributes(ObjectId, StorageResult<()>),
    WriteManifests(ObjectId, StorageResult<()>),
    WriteChunk(ObjectId, StorageResult<()>),
    GetRef(Seq<char>, StorageResult<Seq<u8>>),
    RefNames(StorageResult<Seq<String>>),
    WriteRef(Seq<char>, bool, StorageResult<()>),
    RefVersions(Seq<char>, StorageResult<Seq<String>>),
}

/// A result with its payload replaced by the payload's view.
pub open spec fn result_view<T: View>(r: StorageResult<T>) -> StorageResult<T::V> {
    match r {
        Ok(v) => Ok(v@),
        Err(e) => Err(e),
    }
}

/// Mathematical model of a store: one map per content-addressed object class
/// (snapshots, attribute tables, manifests, whole chunk objects), the map of
/// fetchable chunk byte-ranges, the mutable refs (each ref its history of
/// versions, newest last), and the log of every call the store has answered,
/// in order, each with its outcome.
pub struct StoreModel {
    pub snapshots: Map<ObjectId, Seq<u8>>,
    pub attributes: Map<ObjectId, Seq<u8>>,
    pub manifests: Map<ObjectId, Seq<u8>>,
    pub chunks: Map<ChunkKey, Seq<u8>>,
    pub chunk_objects: Map<ObjectId, Seq<u8>>,
    pub refs: Map<Seq<char>, Seq<Seq<u8>>>,
    pub ops: Seq<StoreOp>,
}

/// A submap of a coherent cache extended by one entry the store holds is
/// itself coherent with the store.
pub proof fn lemma_submap_of_insert_chain<K, V>(
    m3: Map<K, V>,
    m1: Map<K, V>,
    m2: Map<K, V>,
    k: K,
    v: V,
)
    requires
        m3.submap_of(m1.insert(k, v)),
        m1.submap_of(m2),
        m2.contains_key(k),
        m2[k] == v,
    ensures
        m3.submap_of(m2),
{
    assert forall|k2: K| #[trigger] m3.dom().contains(k2) implies m2.dom().contains(k2) && m3[k2]
        == m2[k2] by {
        assert(m1.insert(k, v).dom().contains(k2));
    }
}

/// A submap agrees with the larger map on every key it holds.
pub proof fn lemma_submap_at<K, V>(m1: Map<K, V>, m2: Map<K, V>, k: K)
    requires
        m1.submap_of(m2),
        m1.dom().contains(k),
    ensures
        m2.dom().contains(k),
        m1[k] == m2[k],
{
    assert(m1.dom().contains(k) ==> m2.dom().contains(k) && m1[k] == m2[k]);
}

/// A remainder of one fresh pair without that pair's key is empty.
pub proof fn lemma_submap_of_empty_insert<K, V>(m3: Map<K, V>, k: K, v: V)
    requires
        m3.submap_of(Map::<K, V>::empty().insert(k, v)),
        !m3.contains_key(k),
    ensures
        m3 == Map::<K, V>::empty(),
{
    assert forall|k2: K| #[trigger] m3.dom().contains(k2) implies false by {
        assert(Map::<K, V>::empty().insert(k, v).dom().contains(k2));
    }
    assert(m3 =~= Map::<K, V>::empty());
}

/// No content-addressed object was added, removed or changed.
pub open spec fn objects_unchanged(pre: StoreModel, post: StoreModel) -> bool {
    &&& post.snapshots == pre.snapshots
    &&& post.attributes == pre.attributes
    &&& post.manifests == pre.manifests
    &&& post.chunks == pre.chunks
    &&& post.chunk_objects == pre.chunk_objects
}

/// Content-addressed growth: every object the store held is still there,
/// unchanged; fresh ones may have appeared.
pub open spec fn objects_extended(pre: StoreModel, post: StoreModel) -> bool {
    &&& pre.snapshots.submap_of(post.snapshots)
    &&& pre.attributes.submap_of(post.attributes)
    &&& pre.manifests.submap_of(post.manifests)
    &&& pre.chunks.submap_of(post.chunks)
    &&& pre.chunk_objects.submap_of(post.chunk_objects)
}

/// The refs and their histories are exactly as before.
pub open spec fn refs_unchanged(pre: StoreModel, post: StoreModel) -> bool {
    post.refs == pre.refs
}

/// Whether some element of `names` holds exactly the characters of `n`.
pub open spec fn names_contain(names: Seq<String>, n: Seq<char>) -> bool {
    exists|i: int| 0 <= i < names.len() && names[i]@ == n
}

/// The version history a name currently has: empty if the name is unknown.
pub open spec fn ref_history(refs: Map<Seq<char>, Seq<Seq<u8>>>, name: Seq<char>) -> Seq<Seq<u8>> {
    if refs.contains_key(name) {
        refs[name]
    } else {
        Seq::empty()
    }
}

/// The storage contract, stated over each implementation's `model()`.
///
/// The content-addressed classes are immutable: no operation ever removes or
/// changes an entry, it can only add fresh ones. This is the invariant the
/// caching layer rests on. Writers must therefore only ever write the content
/// an id already denotes, which is what the `requires` of the write
/// operations state. Refs carry no such promise: they are mutable pointers
/// and are always read live.
///
/// Fetches may fail at any time (not-found, transient failure, permission),
/// but a successful fetch returns exactly the content the store holds.
pub trait Storage: Sized {
    /// The store's current contents.
    spec fn model(&self) -> StoreModel;

    fn fetch_snapshot(&mut self, id: &ObjectId) -> (r: StorageResult<Snapshot>)
        ensures
            objects_unchanged(old(self).model(), final(self).model()),
            refs_unchanged(old(self).model(), final(self).model()),
            r matches Ok(s) ==> old(self).model().snapshots.contains_key(*id)
                && s@ == old(self).model().snapshots[*id],
            final(self).model().ops == old(self).model().ops.push(
                StoreOp::FetchSnapshot(*id, result_view(r)),
            ),
    ;

    fn fetch_attributes(&mut self, id: &ObjectId) -> (r: StorageResult<AttributesTable>)
        ensures
            objects_unchanged(old(self).model(), final(self).model()),
            refs_unchanged(old(self).model(), final(self).model()),
            r matches Ok(t) ==> old(self).model().attributes.contains_key(*id)
                && t@ == old(self).model().attributes[*id],
            final(self).model().ops == old(self).model().ops.push(
                StoreOp::FetchAttributes(*id, result_view(r)),
            ),
    ;

    fn fetch_manifests(&mut self, id: &ObjectId) -> (r: StorageResult<Manifest>)
        ensures
            objects_unchanged(old(self).model(), final(self).model()),
            refs_unchanged(old(self).model(), final(self).model()),
            r matches Ok(m) ==> old(self).model().manifests.contains_key(*id)
                && m@ == old(self).model().manifests[*id],
            final(self).model().ops == old(self).model().ops.push(
                StoreOp::FetchManifests(*id, result_view(r)),
            ),
    ;

    fn fetch_chunk(&mut self, id: &ObjectId, range: &ByteRange) -> (r: StorageResult<Vec<u8>>)
        ensures
            objects_unchanged(old(self).model(), final(self).model()),
            refs_unchanged(old(self).model(), final(self).model()),
            r matches Ok(b) ==> old(self).model().chunks.contains_key(
                ChunkKey { id: *id, range: *range },
            ) && b@ == old(self).model().chunks[ChunkKey { id: *id, range: *range }],
            final(self).model().ops == old(self).model().ops.push(
                StoreOp::FetchChunk(ChunkKey { id: *id, range: *range }, result_view(r)),
            ),
    ;

    fn write_snapshot(&mut self, id: ObjectId, snapshot: &Snapshot) -> (r: StorageResult<()>)
        requires
            old(self).model().snapshots.contains_key(id) ==> old(self).model().snapshots[id]
                == snapshot@,
        ensures
            objects_extended(old(self).model(), final(self).model()),
            refs_unchanged(old(self).model(), final(self).model()),
            final(self).model().attributes == old(self).model().attributes,
            final(self).model().manifests == old(self).model().manifests,
            final(self).model().chunks == old(self).model().chunks,
            final(self).model().chunk_objects == old(self).model().chunk_objects,
            r is Ok ==> final(self).model().snapshots == old(self).model().snapshots.insert(
                id,
                snapshot@,
            ),
            final(self).model().ops == old(self).model().ops.push(StoreOp::WriteSnapshot(id, r)),
    ;

    fn write_attributes(&mut self, id: ObjectId, table: &AttributesTable) -> (r: StorageResult<()>)
        requires
            old(self).model().attributes.contains_key(id) ==> old(self).model().attributes[id]
                == table@,
        ensures
            objects_extended(old(self).model(), final(self).model()),
            refs_unchanged(old(self).model(), final(self).model()),
            final(self).model().snapshots == old(self).model().snapshots,
            final(self).model().manifests == old(self).model().manifests,
            final(self).model().chunks == old(self).model().chunks,
            final(self).model().chunk_objects == old(self).model().chunk_objects,
            r is Ok ==> final(self).model().attributes == old(self).model().attributes.insert(
                id,
                table@,
            ),
            final(self).model().ops == old(self).model().ops.push(StoreOp::WriteAttributes(id, r)),
    ;

    fn write_manifests(&mut self, id: ObjectId, manifest: &Manifest) -> (r: StorageResult<()>)
        requires
            old(self).model().manifests.contains_key(id) ==> old(self).model().manifests[id]
                == manifest@,
        ensures
            objects_extended(old(self).model(), final(self).model()),
            refs_unchanged(old(self).model(), final(self).model()),
            final(self).model().snapshots == old(self).model().snapshots,
            final(self).model().attributes == old(self).model().attributes,
            final(self).model().chunks == old(self).model().chunks,
            final(self).model().chunk_objects == old(self).model().chunk_objects,
            r is Ok ==> final(self).model().manifests == old(self).model().manifests.insert(
                id,
                manifest@,
            ),
            final(self).model().ops == old(self).model().ops.push(StoreOp::WriteManifests(id, r)),
    ;

    fn write_chunk(&mut self, id: ObjectId, bytes: &Vec<u8>) -> (r: StorageResult<()>)
        requires
            old(self).model().chunk_objects.contains_key(id) ==> old(
                self,
            ).model().chunk_objects[id] == bytes@,
        ensures
            objects_extended(old(self).model(), final(self).model()),
            refs_unchanged(old(self).model(), final(self).model()),
            final(self).model().snapshots == old(self).model().snapshots,
            final(self).model().attributes == old(self).model().attributes,
            final(self).model().manifests == old(self).model().manifests,
            r is Ok ==> final(self).model().chunk_objects == old(
                self,
            ).model().chunk_objects.insert(id, bytes@),
            final(self).model().ops == old(self).model().ops.push(StoreOp::WriteChunk(id, r)),
    ;

    fn get_ref(&mut self, ref_key: &str) -> (r: StorageResult<Vec<u8>>)
        ensures
            objects_unchanged(old(self).model(), final(self).model()),
            refs_unchanged(old(self).model(), final(self).model()),
            r matches Ok(b) ==> old(self).model().refs.contains_key(ref_key@)
                && old(self).model().refs[ref_key@].len() > 0
                && b@ == old(self).model().refs[ref_key@].last(),
            final(self).model().ops == old(self).model().ops.push(
                StoreOp::GetRef(ref_key@, result_view(r)),
            ),
    ;

    fn ref_names(&mut self) -> (r: StorageResult<Vec<String>>)
        ensures
            objects_unchanged(old(self).model(), final(self).model()),
            refs_unchanged(old(self).model(), final(self).model()),
            r matches Ok(names) ==> forall|i: int|
                0 <= i < names@.len() ==> old(self).model().refs.dom().contains(
                    #[trigger] names@[i]@,
                ),
            r matches Ok(names) ==> forall|n: Seq<char>|
                #[trigger] old(self).model().refs.dom().contains(n) ==> names_contain(names@, n),
            final(self).model().ops == old(self).model().ops.push(
                StoreOp::RefNames(result_view(r)),
            ),
    ;

    fn write_ref(&mut self, ref_key: &str, overwrite_refs: bool, bytes: &Vec<u8>) -> (r:
        StorageResult<()>)
        ensures
            objects_unchanged(old(self).model(), final(self).model()),
            r is Err ==> refs_unchanged(old(self).model(), final(self).model()),
            r is Ok && !overwrite_refs ==> !old(self).model().refs.contains_key(ref_key@),
            r is Ok ==> final(self).model().refs == old(self).model().refs.insert(
                ref_key@,
                ref_history(old(self).model().refs, ref_key@).push(bytes@),
            ),
            final(self).model().ops == old(self).model().ops.push(
                StoreOp::WriteRef(ref_key@, overwrite_refs, r),
            ),
    ;

    fn ref_versions(&mut self, ref_name: &str) -> (r: StorageResult<Vec<String>>)
        ensures
            objects_unchanged(old(self).model(), final(self).model()),
            refs_unchanged(old(self).model(), final(self).model()),
            r matches Ok(v) ==> old(self).model().refs.contains_key(ref_name@)
                && v@.len() == old(self).model().refs[ref_name@].len(),
            final(self).model().ops == old(self).model().ops.push(
                StoreOp::RefVersions(ref_name@, result_view(r)),
            ),
    ;
}

} // verus!
