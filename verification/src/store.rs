//! The persistent computation cache: a disk-backed key/value store, one per
//! project root, living under a fixed reserved directory name (`.tach`) at
//! that root.  Keys are fingerprint strings; values are a computation result
//! (an ordered sequence of per-item `(status, message)` pairs and a summary
//! status byte).  The store is owned by cached's `DiskCache`, which provides
//! safe concurrent access across processes; every call opens the store anew
//! and releases it on return.

use vstd::prelude::*;

verus! {

/// A stored computation result: per-item `(status, message)` outcomes in
/// order, and one summary status byte.
pub type ComputationCacheValue = (Vec<(u8, String)>, u8);

/// What went wrong in a cache operation.  The cache is a performance
/// optimization: callers are expected to treat any of these as "proceed
/// without the cache", but the variants let them tell the cases apart.
#[derive(Clone, Copy, Debug, PartialEq, Eq, Structural)]
pub enum CacheError {
    /// A declared input file could not be read while gathering bytes for a
    /// fingerprint: fatal to that computation, no partial fingerprint exists.
    InputRead,
    /// A project manifest was present but malformed.  This library itself
    /// never raises it: a malformed manifest degrades to an empty dependency
    /// list instead of blocking the computation.
    ManifestParse,
    /// The on-disk store could not be opened or created.
    StoreInit,
    /// A read or write against an opened store failed; distinct from a clean
    /// miss, which is no error.
    StoreIo,
}

#[verifier::external_type_specification]
#[verifier::external_body]
#[verifier::reject_recursive_types(K)]
#[verifier::reject_recursive_types(V)]
pub struct ExDiskCache<K, V>(cached::stores::DiskCache<K, V>);

#[verifier::external_type_specification]
#[verifier::external_body]
pub struct ExDiskCacheError(cached::stores::DiskCacheError);

#[verifier::external_type_specification]
#[verifier::external_body]
pub struct ExDiskCacheBuildError(cached::stores::DiskCacheBuildError);

impl From<cached::stores::DiskCacheError> for CacheError {
    /// A failed read or write against an opened store.
    fn from(_e: cached::stores::DiskCacheError) -> (r: CacheError) {
        CacheError::StoreIo
    }
}

impl vstd::std_specs::convert::FromSpecImpl<cached::stores::DiskCacheError> for CacheError {
    open spec fn obeys_from_spec() -> bool {
        true
    }

    open spec fn from_spec(_e: cached::stores::DiskCacheError) -> CacheError {
        CacheError::StoreIo
    }
}

impl From<cached::stores::DiskCacheBuildError> for CacheError {
    /// A store that could not be opened or created.
    fn from(_e: cached::stores::DiskCacheBuildError) -> (r: CacheError) {
        CacheError::StoreInit
    }
}

impl vstd::std_specs::convert::FromSpecImpl<cached::stores::DiskCacheBuildError> for CacheError {
    open spec fn obeys_from_spec() -> bool {
        true
    }

    open spec fn from_spec(_e: cached::stores::DiskCacheBuildError) -> CacheError {
        CacheError::StoreInit
    }
}

/// Relies on cached's `DiskCache` builder: `DiskCache::new` names the store,
/// `DiskCacheBuilder::disk_directory` places it under the reserved cache
/// directory below the project root, and `DiskCacheBuilder::build` opens or
/// creates the sled-backed store there.  Opening is idempotent and safe to
/// repeat, also concurrently from several processes; the handle is released
/// when dropped.  What the store holds depends on the disk, so nothing is
/// promised of it here.
#[verifier::external_body]
fn open_store(project_root: &str) -> (r: Result<
    cached::stores::DiskCache<String, ComputationCacheValue>,
    cached::stores::DiskCacheBuildError,
>) {
    cached::stores::DiskCache::new("computation-cache")
        .disk_directory(std::path::Path::new(project_root).join(".tach").join("computation-cache"))
        .build()
}

/// Relies on `ConcurrentCached::cache_get` of cached's `DiskCache` (built with
/// no expiry): `Ok(Some(v))` when the key holds a decodable value, `Ok(None)`
/// on a clean miss, `Err` when the underlying read or decode fails.  The
/// result depends on the disk, so nothing is promised of it here.
#[verifier::external_body]
fn store_get(
    store: &cached::stores::DiskCache<String, ComputationCacheValue>,
    key: &String,
) -> (r: Result<Option<ComputationCacheValue>, cached::stores::DiskCacheError>) {
    cached::ConcurrentCached::cache_get(store, key)
}

/// Relies on `ConcurrentCached::cache_set` of cached's `DiskCache` (built with
/// no expiry): fully replaces the value stored for the key and returns the
/// previous one (`None` on a first write), or `Err` when the write fails.
/// The result depends on the disk, so nothing is promised of it here.
#[verifier::external_body]
fn store_set(
    store: &cached::stores::DiskCache<String, ComputationCacheValue>,
    key: String,
    value: ComputationCacheValue,
) -> (r: Result<Option<ComputationCacheValue>, cached::stores::DiskCacheError>) {
    cached::ConcurrentCached::cache_set(store, key, value)
}

/// Look up a fingerprint in the project's computation cache.  A clean miss is
/// `Ok(None)`, not an error; `Err(StoreInit)` means the store could not be
/// opened, `Err(StoreIo)` that the read failed.
pub fn check_computation_cache(project_root: String, cache_key: String) -> (r: Result<
    Option<ComputationCacheValue>,
    CacheError,
>)
    ensures
        r matches Err(e) ==> e == CacheError::StoreInit || e == CacheError::StoreIo,
{
    let store = match open_store(project_root.as_str()) {
        Ok(s) => s,
        Err(e) => {
            return Err(CacheError::from(e));
        },
    };
    match store_get(&store, &cache_key) {
        Ok(v) => Ok(v),
        Err(e) => Err(CacheError::from(e)),
    }
}

/// Store a computation result under a fingerprint, fully replacing any prior
/// entry for that key.  Returns the previous entry (`None` on a first write);
/// `Err(StoreInit)` means the store could not be opened, `Err(StoreIo)` that
/// the write failed.
pub fn update_computation_cache(
    project_root: String,
    cache_key: String,
    value: ComputationCacheValue,
) -> (r: Result<Option<ComputationCacheValue>, CacheError>)
    ensures
        r matches Err(e) ==> e == CacheError::StoreInit || e == CacheError::StoreIo,
{
    let store = match open_store(project_root.as_str()) {
        Ok(s) => s,
        Err(e) => {
            return Err(CacheError::from(e));
        },
    };
    match store_set(&store, cache_key, value) {
        Ok(v) => Ok(v),
        Err(e) => Err(CacheError::from(e)),
    }
}

} // verus!
