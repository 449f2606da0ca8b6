use vstd::prelude::*;

use crate::storage::{Storage, StoreModel};
use crate::types::{
    AttributesTable, ByteRange, ChunkKey, Manifest, ObjectId, Snapshot, StorageResult,
};

verus! {

/// One call a `LoggingStorage` saw, in order. Fetch and write entries carry
/// the key they were called with; ref entries record only the kind of call.
#[derive(Clone, Copy, PartialEq, Eq, Hash, Debug, Structural)]
pub enum Op {
    FetchSnapshot(ObjectId),
    FetchAttributes(ObjectId),
    FetchManifests(ObjectId),
    FetchChunk(ChunkKey),
    WriteSnapshot(ObjectId),
    WriteAttributes(ObjectId),
    WriteManifests(ObjectId),
    WriteChunk(ObjectId),
    GetRef,
    RefNames,
    WriteRef,
    RefVersions,
}

/// A backend wrapper that forwards every call to the wrapped backend and
/// records it in `ops`, so a test can see exactly which calls reached the
/// backend and in what order.
pub struct LoggingStorage<B: Storage> {
    pub inner: B,
    pub ops: Vec<Op>,
}

impl<B: Storage> LoggingStorage<B> {
    pub fn new(inner: B) -> (r: LoggingStorage<B>)
        ensures
            r.inner == inner,
            r.ops@ == Seq::<Op>::empty(),
    {
        LoggingStorage { inner, ops: Vec::new() }
    }
}

impl<B: Storage> Storage for LoggingStorage<B> {
    open spec fn model(&self) -> StoreModel {
        self.inner.model()
    }

    fn fetch_snapshot(&mut self, id: &ObjectId) -> (r: StorageResult<Snapshot>)
        ensures
            final(self).ops@ == old(self).ops@.push(Op::FetchSnapshot(*id)),
    {
        self.ops.push(Op::FetchSnapshot(*id));
        self.inner.fetch_snapshot(id)
    }

    fn fetch_attributes(&mut self, id: &ObjectId) -> (r: StorageResult<AttributesTable>)
        ensures
            final(self).ops@ == old(self).ops@.push(Op::FetchAttributes(*id)),
    {
        self.ops.push(Op::FetchAttributes(*id));
        self.inner.fetch_attributes(id)
    }

    fn fetch_manifests(&mut self, id: &ObjectId) -> (r: StorageResult<Manifest>)
        ensures
            final(self).ops@ == old(self).ops@.push(Op::FetchManifests(*id)),
    {
        self.ops.push(Op::FetchManifests(*id));
        self.inner.fetch_manifests(id)
    }

    fn fetch_chunk(&mut self, id: &ObjectId, range: &ByteRange) -> (r: StorageResult<Vec<u8>>)
        ensures
            final(self).ops@ == old(self).ops@.push(
                Op::FetchChunk(ChunkKey { id: *id, range: *range }),
            ),
    {
        self.ops.push(Op::FetchChunk(ChunkKey { id: *id, range: *range }));
        self.inner.fetch_chunk(id, range)
    }

    fn write_snapshot(&mut self, id: ObjectId, snapshot: &Snapshot) -> (r: StorageResult<()>)
        ensures
            final(self).ops@ == old(self).ops@.push(Op::WriteSnapshot(id)),
    {
        self.ops.push(Op::WriteSnapshot(id));
        self.inner.write_snapshot(id, snapshot)
    }

    fn write_attributes(&mut self, id: ObjectId, table: &AttributesTable) -> (r: StorageResult<
        (),
    >)
        ensures
            final(self).ops@ == old(self).ops@.push(Op::WriteAttributes(id)),
    {
        self.ops.push(Op::WriteAttributes(id));
        self.inner.write_attributes(id, table)
    }

    fn write_manifests(&mut self, id: ObjectId, manifest: &Manifest) -> (r: StorageResult<()>)
        ensures
            final(self).ops@ == old(self).ops@.push(Op::WriteManifests(id)),
    {
        self.ops.push(Op::WriteManifests(id));
        self.inner.write_manifests(id, manifest)
    }

    fn write_chunk(&mut self, id: ObjectId, bytes: &Vec<u8>) -> (r: StorageResult<()>)
        ensures
            final(self).ops@ == old(self).ops@.push(Op::WriteChunk(id)),
    {
        self.ops.push(Op::WriteChunk(id));
        self.inner.write_chunk(id, bytes)
    }

    fn get_ref(&mut self, ref_key: &str) -> (r: StorageResult<Vec<u8>>)
        ensures
            final(self).ops@ == old(self).ops@.push(Op::GetRef),
    {
        self.ops.push(Op::GetRef);
        self.inner.get_ref(ref_key)
    }

    fn ref_names(&mut self) -> (r: StorageResult<Vec<String>>)
        ensures
            final(self).ops@ == old(self).ops@.push(Op::RefNames),
    {
        self.ops.push(Op::RefNames);
        self.inner.ref_names()
    }

    fn write_ref(&mut self, ref_key: &str, overwrite_refs: bool, bytes: &Vec<u8>) -> (r:
        StorageResult<()>)
        ensures
            final(self).ops@ == old(self).ops@.push(Op::WriteRef),
    {
        self.ops.push(Op::WriteRef);
        self.inner.write_ref(ref_key, overwrite_refs, bytes)
    }

    fn ref_versions(&mut self, ref_name: &str) -> (r: StorageResult<Vec<String>>)
        ensures
            final(self).ops@ == old(self).ops@.push(Op::RefVersions),
    {
        self.ops.push(Op::RefVersions);
        self.inner.ref_versions(ref_name)
    }
}

} // verus!
