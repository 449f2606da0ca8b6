use caching_storage::caching::MemCachingStorage;
use caching_storage::logging::{LoggingStorage, Op};
use caching_storage::memory::InMemoryStorage;
use caching_storage::types::{ByteRange, ChunkKey, Manifest, ObjectId, Snapshot, StorageError};
use caching_storage::storage::Storage;

fn oid(n: u128) -> ObjectId {
    ObjectId { id: n }
}

fn fetch_ops(ops: &[Op]) -> Vec<Op> {
    ops.iter()
        .copied()
        .filter(|op| {
            matches!(
                op,
                Op::FetchSnapshot(_)
                    | Op::FetchAttributes(_)
                    | Op::FetchManifests(_)
                    | Op::FetchChunk(_)
            )
        })
        .collect()
}

#[test]
fn test_caching_storage_caches() {
    let mut backend = InMemoryStorage::new();

    let pre_existing_id = oid(1);
    let pre_existing_manifest = Manifest { data: vec![b'a'] };
    backend
        .write_manifests(pre_existing_id, &pre_existing_manifest)
        .unwrap();

    let logging = LoggingStorage::new(backend);
    let mut caching = MemCachingStorage::new(logging, 0, 2, 0, 0);

    let manifest = Manifest { data: vec![b'b'] };
    let id = oid(2);
    caching.write_manifests(id, &manifest).unwrap();

    assert_eq!(caching.fetch_manifests(&id).unwrap(), manifest);
    assert_eq!(caching.fetch_manifests(&id).unwrap(), manifest);
    // when we insert we cache, so no fetches
    assert_eq!(fetch_ops(&caching.backend_ref().ops), vec![]);

    // first time it sees an id it calls the backend
    assert_eq!(
        caching.fetch_manifests(&pre_existing_id).unwrap(),
        pre_existing_manifest
    );
    assert_eq!(
        fetch_ops(&caching.backend_ref().ops),
        vec![Op::FetchManifests(pre_existing_id)]
    );

    // only calls backend once
    assert_eq!(
        caching.fetch_manifests(&pre_existing_id).unwrap(),
        pre_existing_manifest
    );
    assert_eq!(
        fetch_ops(&caching.backend_ref().ops),
        vec![Op::FetchManifests(pre_existing_id)]
    );

    // other values still cached
    assert_eq!(caching.fetch_manifests(&id).unwrap(), manifest);
    assert_eq!(
        fetch_ops(&caching.backend_ref().ops),
        vec![Op::FetchManifests(pre_existing_id)]
    );
}

#[test]
fn test_caching_storage_has_limit() {
    let mut backend = InMemoryStorage::new();

    let id1 = oid(1);
    let table1 = Manifest { data: vec![1, 2, 3] };
    backend.write_manifests(id1, &table1).unwrap();
    let id2 = oid(2);
    let table2 = Manifest { data: vec![4, 5, 6] };
    backend.write_manifests(id2, &table2).unwrap();
    let id3 = oid(3);
    let table3 = Manifest { data: vec![7, 8, 9] };
    backend.write_manifests(id3, &table3).unwrap();

    let logging = LoggingStorage::new(backend);
    // the cache can only fit 2 manifests
    let mut caching = MemCachingStorage::new(logging, 0, 2, 0, 0);

    // we keep asking for all 3 items, but the cache can only fit 2
    for _ in 0..20 {
        assert_eq!(caching.fetch_manifests(&id1).unwrap(), table1);
        assert_eq!(caching.fetch_manifests(&id2).unwrap(), table2);
        assert_eq!(caching.fetch_manifests(&id3).unwrap(), table3);
    }
    // after the initial warming requests, we only request the file that
    // doesn't fit in the cache
    let ops = fetch_ops(&caching.backend_ref().ops);
    let mut distinct: Vec<Op> = Vec::new();
    for op in &ops[10..] {
        if !distinct.contains(op) {
            distinct.push(*op);
        }
    }
    assert_eq!(distinct.len(), 1);
}

#[test]
fn write_then_read_avoids_backend() {
    let backend = InMemoryStorage::new();
    let logging = LoggingStorage::new(backend);
    let mut caching = MemCachingStorage::new(logging, 2, 2, 2, 2);

    let id = oid(10);
    let snapshot = Snapshot { data: vec![9, 9, 9] };
    caching.write_snapshot(id, &snapshot).unwrap();

    for _ in 0..5 {
        assert_eq!(caching.fetch_snapshot(&id).unwrap(), snapshot);
    }
    // the write is the only backend call; no fetch ever reached it
    assert_eq!(caching.backend_ref().ops, vec![Op::WriteSnapshot(id)]);
}

#[test]
fn first_miss_then_hit() {
    let mut backend = InMemoryStorage::new();
    let id = oid(11);
    let table = caching_storage::types::AttributesTable { data: vec![5, 6] };
    backend.write_attributes(id, &table).unwrap();

    let logging = LoggingStorage::new(backend);
    let mut caching = MemCachingStorage::new(logging, 2, 2, 2, 2);

    // the first fetch issues exactly one backend fetch
    assert_eq!(caching.fetch_attributes(&id).unwrap(), table);
    assert_eq!(
        fetch_ops(&caching.backend_ref().ops),
        vec![Op::FetchAttributes(id)]
    );

    // every further fetch is served from the cache
    for _ in 0..4 {
        assert_eq!(caching.fetch_attributes(&id).unwrap(), table);
    }
    assert_eq!(
        fetch_ops(&caching.backend_ref().ops),
        vec![Op::FetchAttributes(id)]
    );
}

#[test]
fn chunk_writes_are_not_pre_cached() {
    let backend = InMemoryStorage::new();
    let logging = LoggingStorage::new(backend);
    let mut caching = MemCachingStorage::new(logging, 2, 2, 2, 2);

    let id = oid(12);
    let bytes = vec![1, 2, 3, 4, 5];
    caching.write_chunk(id, &bytes).unwrap();

    let range = ByteRange { start: 1, end: 4 };
    // the write did not populate the chunk cache, so this is a miss
    assert_eq!(caching.fetch_chunk(&id, &range).unwrap(), vec![2, 3, 4]);
    assert_eq!(
        fetch_ops(&caching.backend_ref().ops),
        vec![Op::FetchChunk(ChunkKey { id, range })]
    );

    // but the fetched range is now cached
    assert_eq!(caching.fetch_chunk(&id, &range).unwrap(), vec![2, 3, 4]);
    assert_eq!(
        fetch_ops(&caching.backend_ref().ops),
        vec![Op::FetchChunk(ChunkKey { id, range })]
    );
}

#[test]
fn ref_operations_pass_through_in_order() {
    let backend = InMemoryStorage::new();
    let logging = LoggingStorage::new(backend);
    let mut caching = MemCachingStorage::new(logging, 2, 2, 2, 2);

    caching.write_ref("main", false, &vec![1]).unwrap();
    assert_eq!(caching.get_ref("main").unwrap(), vec![1]);
    caching.write_ref("main", true, &vec![2]).unwrap();
    assert_eq!(caching.get_ref("main").unwrap(), vec![2]);
    let names = caching.ref_names().unwrap();
    assert_eq!(names, vec!["main".to_string()]);
    assert_eq!(
        caching.ref_versions("main").unwrap(),
        vec!["v".to_string(), "vv".to_string()]
    );

    // one backend call per decorator call, in the same order
    assert_eq!(
        caching.backend_ref().ops,
        vec![
            Op::WriteRef,
            Op::GetRef,
            Op::WriteRef,
            Op::GetRef,
            Op::RefNames,
            Op::RefVersions
        ]
    );
}

#[test]
fn failure_is_not_cached() {
    let backend = InMemoryStorage::new();
    let logging = LoggingStorage::new(backend);
    let mut caching = MemCachingStorage::new(logging, 2, 2, 2, 2);

    let id = oid(13);
    // the backend has no such snapshot: the error is the backend's own
    assert_eq!(caching.fetch_snapshot(&id), Err(StorageError::NotFound));
    // the failure was not cached: the retry reaches the backend again
    assert_eq!(caching.fetch_snapshot(&id), Err(StorageError::NotFound));
    assert_eq!(
        fetch_ops(&caching.backend_ref().ops),
        vec![Op::FetchSnapshot(id), Op::FetchSnapshot(id)]
    );
}

#[test]
fn capacity_zero_disables_caching() {
    let backend = InMemoryStorage::new();
    let logging = LoggingStorage::new(backend);
    let mut caching = MemCachingStorage::new(logging, 0, 0, 0, 0);

    let id = oid(14);
    let snapshot = Snapshot { data: vec![7] };
    caching.write_snapshot(id, &snapshot).unwrap();

    // every lookup is a permanent miss, but stays correct
    assert_eq!(caching.fetch_snapshot(&id).unwrap(), snapshot);
    assert_eq!(caching.fetch_snapshot(&id).unwrap(), snapshot);
    assert_eq!(
        fetch_ops(&caching.backend_ref().ops),
        vec![Op::FetchSnapshot(id), Op::FetchSnapshot(id)]
    );
}

#[test]
fn write_ref_without_overwrite_conflicts() {
    let backend = InMemoryStorage::new();
    let logging = LoggingStorage::new(backend);
    let mut caching = MemCachingStorage::new(logging, 2, 2, 2, 2);

    caching.write_ref("branch", false, &vec![1]).unwrap();
    assert_eq!(
        caching.write_ref("branch", false, &vec![2]),
        Err(StorageError::AlreadyExists)
    );
    // the failed write did not move the ref
    assert_eq!(caching.get_ref("branch").unwrap(), vec![1]);
}

#[test]
fn missing_ref_reports_not_found() {
    let mut backend = InMemoryStorage::new();
    assert_eq!(backend.get_ref("nothing"), Err(StorageError::NotFound));
    assert_eq!(backend.ref_versions("nothing"), Err(StorageError::NotFound));
}

#[test]
fn in_memory_chunk_ranges() {
    let mut backend = InMemoryStorage::new();
    let id = oid(15);
    backend.write_chunk(id, &vec![10, 11, 12, 13]).unwrap();

    let whole = ByteRange { start: 0, end: 4 };
    assert_eq!(backend.fetch_chunk(&id, &whole).unwrap(), vec![10, 11, 12, 13]);
    let empty = ByteRange { start: 2, end: 2 };
    assert_eq!(backend.fetch_chunk(&id, &empty).unwrap(), vec![]);
    let beyond = ByteRange { start: 2, end: 9 };
    assert_eq!(backend.fetch_chunk(&id, &beyond), Err(StorageError::NotFound));
    let backwards = ByteRange { start: 3, end: 1 };
    assert_eq!(
        backend.fetch_chunk(&id, &backwards),
        Err(StorageError::NotFound)
    );
}

#[test]
fn in_memory_ref_history() {
    let mut backend = InMemoryStorage::new();
    backend.write_ref("dev", false, &vec![1]).unwrap();
    backend.write_ref("dev", true, &vec![2]).unwrap();
    backend.write_ref("dev", true, &vec![3]).unwrap();
    backend.write_ref("other", false, &vec![9]).unwrap();

    // the newest version is the one a read sees
    assert_eq!(backend.get_ref("dev").unwrap(), vec![3]);
    assert_eq!(backend.ref_versions("dev").unwrap().len(), 3);
    assert_eq!(backend.ref_versions("other").unwrap().len(), 1);

    let mut names = backend.ref_names().unwrap();
    names.sort();
    assert_eq!(names, vec!["dev".to_string(), "other".to_string()]);
}

#[test]
fn immutable_classes_write_through() {
    let backend = InMemoryStorage::new();
    let logging = LoggingStorage::new(backend);
    let mut caching = MemCachingStorage::new(logging, 2, 2, 2, 2);

    let id = oid(16);
    let manifest = Manifest { data: vec![1] };
    let table = caching_storage::types::AttributesTable { data: vec![2] };
    caching.write_manifests(id, &manifest).unwrap();
    caching.write_attributes(id, &table).unwrap();

    // both writes reached the backend (write-through), and both reads hit
    assert_eq!(caching.fetch_manifests(&id).unwrap(), manifest);
    assert_eq!(caching.fetch_attributes(&id).unwrap(), table);
    assert_eq!(
        caching.backend_ref().ops,
        vec![Op::WriteManifests(id), Op::WriteAttributes(id)]
    );
}
