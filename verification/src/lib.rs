//! A small in-process, namespaced, time-to-live key-value cache.
//!
//! A [`Store`] holds one mapping from encoded string keys to entries; a
//! [`Cache`] is a lightweight handle wrapping a namespace string. Every
//! operation folds the namespace into the encoded key, so handles with
//! different namespaces share one store without interfering. Entries go
//! stale after a caller-chosen lifetime and are detected as stale lazily,
//! at lookup time; nothing is ever removed except by overwrite.

mod clock;
mod json;

pub mod cache;
pub mod laws;
pub mod store;

pub use cache::Cache;
pub use cache::CacheError;
pub use cache::encoded_key;
pub use cache::spec_lookup;
pub use json::json_str_of;
pub use json::json_str_parse;
pub use store::CacheEntry;
pub use store::Store;
