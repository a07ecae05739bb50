//! An in-process key-value cache whose entries may carry a time-to-live.
//!
//! Time is a monotonic clock reading in nanoseconds, handed to every
//! operation that needs it. An entry is live while it has no expiry, or
//! while its expiry lies strictly after the current reading.

pub mod adapter;
pub mod cache;
pub mod entry;
pub mod laws;

pub use adapter::{
    create_cache, default_cache, get_info, CacheEntry, CacheInfo, CacheOptions, JsCache, SetItem,
};
pub use cache::{CacheError, MiniCache};
pub use entry::Entry;
