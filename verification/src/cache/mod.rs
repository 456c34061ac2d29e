//! HTTP-aware object cache: a bounded store of byte payloads keyed by
//! strings, with a fixed eviction strategy, time-to-live freshness and
//! conditional validation.

pub mod etag;
pub mod laws;
pub mod lemmas;
pub mod model;
pub mod store;
pub mod types;
pub mod wire;

pub use self::etag::format_etag;
pub use self::model::{CacheError, CacheStrategy};
pub use self::store::Cache;
pub use self::types::{CacheEntry, CachePolicy, CacheResponse, CacheStats};
pub use self::wire::{
    policy_from_parts, secs_to_millis, strategy_from_id, time_from_wire, time_to_wire,
    ttl_from_wire,
};
