//! A caching decorator for a content-addressed storage backend.
//!
//! Callers read and write four classes of immutable, content-addressed
//! objects (snapshots, attribute tables, manifests, chunk byte-ranges) and a
//! set of mutable named refs. [`caching::MemCachingStorage`] implements the
//! same storage contract as the backend it wraps, keeping one bounded cache
//! per object class so that repeated reads are served without touching the
//! backend, while never serving stale data, never caching a failure, and
//! passing every ref operation straight through.

pub mod cache;
pub mod caching;
pub mod logging;
pub mod memory;
pub mod storage;
pub mod store;
pub mod types;
