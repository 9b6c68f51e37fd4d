//! A content-addressed computation cache: derives a stable fingerprint from a
//! unit of work's effective inputs (source file contents, environment values,
//! declared dependencies, an action name and an interpreter version) and uses
//! that fingerprint as the key of a disk-backed store of computation results.

pub mod digest;
pub mod fingerprint;
pub mod hex;
pub mod manifest;
pub mod store;

pub use digest::FnvHasher;
pub use fingerprint::{WorkInputs, build_fingerprint, env_entries};
pub use hex::to_hex_upper;
pub use manifest::{parse_requirements, project_dependencies};
pub use store::{
    CacheError, ComputationCacheValue, check_computation_cache, update_computation_cache,
};
