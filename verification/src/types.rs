use vstd::prelude::*;

verus! {

/// Content address of one immutable object (snapshot, attribute table,
/// manifest, or chunk). The cache never inspects its structure; it is only
/// compared and hashed as a key.
#[derive(Clone, Copy, PartialEq, Eq, Hash, Debug, Structural)]
pub struct ObjectId {
    pub id: u128,
}

/// Descriptor of a sub-region of a chunk object. Opaque to the cache; it is
/// only part of the chunk cache key.
#[derive(Clone, Copy, PartialEq, Eq, Hash, Debug, Structural)]
pub struct ByteRange {
    pub start: u64,
    pub end: u64,
}

/// Cache key for chunk byte-ranges: an object id together with a range.
#[derive(Clone, Copy, PartialEq, Eq, Hash, Debug, Structural)]
pub struct ChunkKey {
    pub id: ObjectId,
    pub range: ByteRange,
}

/// Immutable snapshot object, identified by exactly one ObjectId.
#[derive(PartialEq, Eq, Debug)]
pub struct Snapshot {
    pub data: Vec<u8>,
}

impl View for Snapshot {
    type V = Seq<u8>;

    open spec fn view(&self) -> Seq<u8> {
        self.data@
    }
}

/// Immutable attribute table object, identified by exactly one ObjectId.
#[derive(PartialEq, Eq, Debug)]
pub struct AttributesTable {
    pub data: Vec<u8>,
}

impl View for AttributesTable {
    type V = Seq<u8>;

    open spec fn view(&self) -> Seq<u8> {
        self.data@
    }
}

/// Immutable manifest object, identified by exactly one ObjectId.
#[derive(PartialEq, Eq, Debug)]
pub struct Manifest {
    pub data: Vec<u8>,
}

impl View for Manifest {
    type V = Seq<u8>;

    open spec fn view(&self) -> Seq<u8> {
        self.data@
    }
}

/// Errors a backend may report. The caching layer never translates, wraps,
/// suppresses or caches an error: callers observe exactly the backend's error.
#[derive(Clone, Copy, PartialEq, Eq, Hash, Debug, Structural)]
pub enum StorageError {
    /// The requested object or ref does not exist.
    NotFound,
    /// A ref write without the overwrite flag hit an existing ref.
    AlreadyExists,
    /// A transient input/output failure.
    Io,
    /// The backend refused the operation.
    PermissionDenied,
}

pub type StorageResult<T> = Result<T, StorageError>;

} // verus!
