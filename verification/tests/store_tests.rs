use compcache::{
    CacheError, ComputationCacheValue, check_computation_cache, update_computation_cache,
};

fn fresh_root() -> (tempfile::TempDir, String) {
    let dir = tempfile::tempdir().unwrap();
    let root = dir.path().to_str().unwrap().to_string();
    (dir, root)
}

fn value_one() -> ComputationCacheValue {
    (vec![(0u8, "ok".to_string()), (1u8, "warn: slow".to_string())], 0u8)
}

fn value_two() -> ComputationCacheValue {
    (vec![(2u8, "error: failed".to_string())], 2u8)
}

#[test]
fn miss_is_none_not_error() {
    let (_dir, root) = fresh_root();
    let got = check_computation_cache(root, "CBF29CE484222325".to_string()).unwrap();
    assert_eq!(got, None);
}

#[test]
fn round_trip_returns_stored_value() {
    let (_dir, root) = fresh_root();
    let key = "FB5F185E20BD2307".to_string();
    let prior = update_computation_cache(root.clone(), key.clone(), value_one()).unwrap();
    assert_eq!(prior, None);
    let got = check_computation_cache(root, key).unwrap();
    assert_eq!(got, Some(value_one()));
}

#[test]
fn overwrite_keeps_only_second_value() {
    let (_dir, root) = fresh_root();
    let key = "E6413A90C4BC6298".to_string();
    let first = update_computation_cache(root.clone(), key.clone(), value_one()).unwrap();
    assert_eq!(first, None);
    let second = update_computation_cache(root.clone(), key.clone(), value_two()).unwrap();
    assert_eq!(second, Some(value_one()));
    let got = check_computation_cache(root, key).unwrap();
    assert_eq!(got, Some(value_two()));
}

#[test]
fn unopenable_store_is_store_init_error() {
    // The project root is a regular file, so the cache directory below it
    // cannot be created.
    let file = tempfile::NamedTempFile::new().unwrap();
    let root = file.path().to_str().unwrap().to_string();
    let err = check_computation_cache(root.clone(), "K".to_string()).unwrap_err();
    assert_eq!(err, CacheError::StoreInit);
    let err = update_computation_cache(root, "K".to_string(), value_one()).unwrap_err();
    assert_eq!(err, CacheError::StoreInit);
}

#[test]
fn distinct_keys_are_independent() {
    let (_dir, root) = fresh_root();
    let stored = update_computation_cache(root.clone(), "A".to_string(), value_one()).unwrap();
    assert_eq!(stored, None);
    let other = check_computation_cache(root, "B".to_string()).unwrap();
    assert_eq!(other, None);
}
