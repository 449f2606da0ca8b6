use vstd::prelude::*;

use crate::storage::{result_view, Storage, StoreModel, StoreOp};
use crate::store::{byte_lists_view, clone_bytes, push_char, IdStore, RefStore};
use crate::types::{
    AttributesTable, ByteRange, ChunkKey, Manifest, ObjectId, Snapshot, StorageError,
    StorageResult,
};

verus! {

/// The byte-ranges fetchable from a map of whole chunk objects: every
/// in-bounds range of every object, holding that object's bytes over the
/// range.
pub open spec fn chunk_ranges(objects: Map<ObjectId, Seq<u8>>) -> Map<ChunkKey, Seq<u8>> {
    Map::new(
        |k: ChunkKey| objects.contains_key(k.id) && k.range.start <= k.range.end
            && k.range.end <= objects[k.id].len(),
        |k: ChunkKey| objects[k.id].subrange(k.range.start as int, k.range.end as int),
    )
}

/// Copies `v[start..end]` into a fresh vector.
fn slice_bytes(v: &Vec<u8>, start: u64, end: u64) -> (r: Vec<u8>)
    requires
        start <= end,
        end <= v@.len(),
    ensures
        r@ == v@.subrange(start as int, end as int),
{
    let n = v.len();
    proof {
        assert(end as int <= n as int);
    }
    let s = start as usize;
    let e = end as usize;
    let mut r: Vec<u8> = Vec::new();
    let mut i: usize = s;
    while i < e
        invariant
            s <= i <= e,
            e <= v@.len(),
            s as int == start as int,
            e as int == end as int,
            r@ == v@.subrange(s as int, i as int),
        decreases e - i,
    {
        r.push(v[i]);
        i = i + 1;
        proof {
            assert(v@.subrange(s as int, i as int) =~= v@.subrange(s as int, i - 1).push(
                v@[i - 1],
            ));
        }
    }
    r
}

/// The name this backend gives the version at position `i` of a ref's
/// history: `i + 1` repetitions of a marker character. The identifiers are
/// opaque to callers; this scheme only makes them deterministic and distinct
/// within one ref.
pub open spec fn version_label(i: int) -> Seq<char> {
    Seq::new((i + 1) as nat, |j: int| 'v')
}

/// A backend that holds everything in process memory: the simplest complete
/// implementation of the storage contract, and the backend the tests run the
/// caching layer against.
pub struct InMemoryStorage {
    snapshots: IdStore,
    attributes: IdStore,
    manifests: IdStore,
    chunk_objects: IdStore,
    refs: RefStore,
    ops: Ghost<Seq<StoreOp>>,
}

impl InMemoryStorage {
    pub fn new() -> (r: InMemoryStorage)
        ensures
            r.model().snapshots == Map::<ObjectId, Seq<u8>>::empty(),
            r.model().attributes == Map::<ObjectId, Seq<u8>>::empty(),
            r.model().manifests == Map::<ObjectId, Seq<u8>>::empty(),
            r.model().chunk_objects == Map::<ObjectId, Seq<u8>>::empty(),
            r.model().refs == Map::<Seq<char>, Seq<Seq<u8>>>::empty(),
            r.model().ops == Seq::<StoreOp>::empty(),
    {
        InMemoryStorage {
            snapshots: IdStore::new(),
            attributes: IdStore::new(),
            manifests: IdStore::new(),
            chunk_objects: IdStore::new(),
            refs: RefStore::new(),
            ops: Ghost(Seq::empty()),
        }
    }
}

impl Storage for InMemoryStorage {
    closed spec fn model(&self) -> StoreModel {
        StoreModel {
            snapshots: self.snapshots.as_map(),
            attributes: self.attributes.as_map(),
            manifests: self.manifests.as_map(),
            chunks: chunk_ranges(self.chunk_objects.as_map()),
            chunk_objects: self.chunk_objects.as_map(),
            refs: self.refs.as_map(),
            ops: self.ops@,
        }
    }

    fn fetch_snapshot(&mut self, id: &ObjectId) -> (r: StorageResult<Snapshot>)
        ensures
            r is Ok <==> old(self).model().snapshots.contains_key(*id),
            r matches Err(e) ==> e == StorageError::NotFound,
    {
        let r = match self.snapshots.get(id) {
            Some(data) => Ok(Snapshot { data }),
            None => Err(StorageError::NotFound),
        };
        self.ops = Ghost(self.ops@.push(StoreOp::FetchSnapshot(*id, result_view(r))));
        r
    }

    fn fetch_attributes(&mut self, id: &ObjectId) -> (r: StorageResult<AttributesTable>)
        ensures
            r is Ok <==> old(self).model().attributes.contains_key(*id),
            r matches Err(e) ==> e == StorageError::NotFound,
    {
        let r = match self.attributes.get(id) {
            Some(data) => Ok(AttributesTable { data }),
            None => Err(StorageError::NotFound),
        };
        self.ops = Ghost(self.ops@.push(StoreOp::FetchAttributes(*id, result_view(r))));
        r
    }

    fn fetch_manifests(&mut self, id: &ObjectId) -> (r: StorageResult<Manifest>)
        ensures
            r is Ok <==> old(self).model().manifests.contains_key(*id),
            r matches Err(e) ==> e == StorageError::NotFound,
    {
        let r = match self.manifests.get(id) {
            Some(data) => Ok(Manifest { data }),
            None => Err(StorageError::NotFound),
        };
        self.ops = Ghost(self.ops@.push(StoreOp::FetchManifests(*id, result_view(r))));
        r
    }

    fn fetch_chunk(&mut self, id: &ObjectId, range: &ByteRange) -> (r: StorageResult<Vec<u8>>)
        ensures
            r is Ok <==> old(self).model().chunks.contains_key(ChunkKey { id: *id, range: *range }),
            r matches Err(e) ==> e == StorageError::NotFound,
    {
        let r = match self.chunk_objects.get(id) {
            Some(obj) => {
                if range.start <= range.end && range.end <= obj.len() as u64 {
                    Ok(slice_bytes(&obj, range.start, range.end))
                } else {
                    Err(StorageError::NotFound)
                }
            },
            None => Err(StorageError::NotFound),
        };
        self.ops = Ghost(
            self.ops@.push(StoreOp::FetchChunk(ChunkKey { id: *id, range: *range }, result_view(r))),
        );
        r
    }

    fn write_snapshot(&mut self, id: ObjectId, snapshot: &Snapshot) -> (r: StorageResult<()>)
        ensures
            r is Ok,
    {
        self.snapshots.put(id, &snapshot.data);
        self.ops = Ghost(self.ops@.push(StoreOp::WriteSnapshot(id, Ok(()))));
        Ok(())
    }

    fn write_attributes(&mut self, id: ObjectId, table: &AttributesTable) -> (r: StorageResult<
        (),
    >)
        ensures
            r is Ok,
    {
        self.attributes.put(id, &table.data);
        self.ops = Ghost(self.ops@.push(StoreOp::WriteAttributes(id, Ok(()))));
        Ok(())
    }

    fn write_manifests(&mut self, id: ObjectId, manifest: &Manifest) -> (r: StorageResult<()>)
        ensures
            r is Ok,
    {
        self.manifests.put(id, &manifest.data);
        self.ops = Ghost(self.ops@.push(StoreOp::WriteManifests(id, Ok(()))));
        Ok(())
    }

    fn write_chunk(&mut self, id: ObjectId, bytes: &Vec<u8>) -> (r: StorageResult<()>)
        ensures
            r is Ok,
    {
        self.chunk_objects.put(id, bytes);
        proof {
            assert forall|k: ChunkKey|
                chunk_ranges(old(self).chunk_objects.as_map()).dom().contains(
                    k,
                ) implies chunk_ranges(self.chunk_objects.as_map()).dom().contains(k)
                && chunk_ranges(self.chunk_objects.as_map())[k] == chunk_ranges(
                old(self).chunk_objects.as_map(),
            )[k] by {}
            assert(chunk_ranges(old(self).chunk_objects.as_map()).submap_of(
                chunk_ranges(self.chunk_objects.as_map()),
            ));
        }
        self.ops = Ghost(self.ops@.push(StoreOp::WriteChunk(id, Ok(()))));
        Ok(())
    }

    fn get_ref(&mut self, ref_key: &str) -> (r: StorageResult<Vec<u8>>)
        ensures
            r is Ok <==> old(self).model().refs.contains_key(ref_key@) && old(
                self,
            ).model().refs[ref_key@].len() > 0,
            r matches Err(e) ==> e == StorageError::NotFound,
    {
        let key = ref_key.to_string();
        let r = match self.refs.find(&key) {
            Some(list) => {
                if list.len() > 0 {
                    let last = clone_bytes(&list[list.len() - 1]);
                    proof {
                        assert(byte_lists_view(list@).last() == list@[list@.len() - 1]@);
                    }
                    Ok(last)
                } else {
                    Err(StorageError::NotFound)
                }
            },
            None => Err(StorageError::NotFound),
        };
        self.ops = Ghost(self.ops@.push(StoreOp::GetRef(ref_key@, result_view(r))));
        r
    }

    fn ref_names(&mut self) -> (r: StorageResult<Vec<String>>)
        ensures
            r is Ok,
    {
        let names = self.refs.names();
        proof {
            assert forall|n: Seq<char>| #[trigger] old(self).model().refs.dom().contains(
                n,
            ) implies crate::storage::names_contain(names@, n) by {
                assert(self.refs.as_map().dom().contains(n));
            }
        }
        let r = Ok(names);
        self.ops = Ghost(self.ops@.push(StoreOp::RefNames(result_view(r))));
        r
    }

    fn write_ref(&mut self, ref_key: &str, overwrite_refs: bool, bytes: &Vec<u8>) -> (r:
        StorageResult<()>)
        ensures
            r is Ok <==> overwrite_refs || !old(self).model().refs.contains_key(ref_key@),
            r matches Err(e) ==> e == StorageError::AlreadyExists,
    {
        let key = ref_key.to_string();
        if !overwrite_refs {
            if self.refs.find(&key).is_some() {
                self.ops = Ghost(
                    self.ops@.push(
                        StoreOp::WriteRef(ref_key@, overwrite_refs, Err(StorageError::AlreadyExists)),
                    ),
                );
                return Err(StorageError::AlreadyExists);
            }
        }
        self.refs.append(&key, bytes);
        self.ops = Ghost(self.ops@.push(StoreOp::WriteRef(ref_key@, overwrite_refs, Ok(()))));
        Ok(())
    }

    fn ref_versions(&mut self, ref_name: &str) -> (r: StorageResult<Vec<String>>)
        ensures
            r is Ok <==> old(self).model().refs.contains_key(ref_name@),
            r matches Err(e) ==> e == StorageError::NotFound,
            r matches Ok(v) ==> forall|i: int|
                0 <= i < v@.len() ==> (#[trigger] v@[i])@ == version_label(i),
    {
        let key = ref_name.to_string();
        let r = match self.refs.find(&key) {
            Some(list) => {
                let mut out: Vec<String> = Vec::new();
                let mut label = String::new();
                let mut i: usize = 0;
                while i < list.len()
                    invariant
                        out@.len() == i,
                        i <= list@.len(),
                        label@ == Seq::new(i as nat, |j: int| 'v'),
                        forall|j: int| 0 <= j < i ==> (#[trigger] out@[j])@ == version_label(j),
                    decreases list@.len() - i,
                {
                    push_char(&mut label, 'v');
                    proof {
                        assert(label@ =~= Seq::new((i + 1) as nat, |j: int| 'v'));
                    }
                    out.push(label.clone());
                    i = i + 1;
                }
                Ok(out)
            },
            None => Err(StorageError::NotFound),
        };
        self.ops = Ghost(self.ops@.push(StoreOp::RefVersions(ref_name@, result_view(r))));
        r
    }
}

} // verus!
