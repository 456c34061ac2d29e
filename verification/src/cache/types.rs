//! The values that cross the cache's interface, each with its view into the
//! model.

use vstd::prelude::*;
use vstd::string::StringExecFns;
use crate::cache::model::{CacheStrategy, EntryModel, PolicyModel, ResponseModel};
use crate::text::{text_of, texts_of};

verus! {

/// One cached payload and its metadata.
///
/// Times are milliseconds on the caller's monotonic clock, except
/// `last_modified`, which is in seconds since the Unix epoch.
#[derive(Debug, Clone)]
pub struct CacheEntry {
    pub key: String,
    pub data: Vec<u8>,
    pub content_type: Option<String>,
    pub etag: Option<String>,
    pub last_modified: Option<u64>,
    pub created_at: u64,
    pub last_accessed: u64,
    pub access_count: u64,
    pub ttl: u64,
    pub is_compressed: bool,
}

impl View for CacheEntry {
    type V = EntryModel;

    open spec fn view(&self) -> EntryModel {
        EntryModel {
            key: self.key@,
            data: self.data@,
            content_type: text_of(self.content_type),
            etag: text_of(self.etag),
            last_modified: self.last_modified,
            created_at: self.created_at,
            last_accessed: self.last_accessed,
            access_count: self.access_count,
            ttl: self.ttl,
            is_compressed: self.is_compressed,
        }
    }
}

/// The models of a list of entries, in order.
pub open spec fn entries_of(v: Seq<CacheEntry>) -> Seq<EntryModel> {
    Seq::new(v.len(), |i: int| v[i]@)
}

/// The policy of a cache, fixed when the cache is built.
///
/// `default_ttl` is in milliseconds. An empty list of content-type prefixes
/// admits every type.
#[derive(Debug, Clone)]
pub struct CachePolicy {
    pub enabled: bool,
    pub max_size: usize,
    pub max_entries: usize,
    pub default_ttl: u64,
    pub strategy: CacheStrategy,
    pub cacheable_content_type_prefixes: Vec<String>,
    pub min_payload_size: usize,
    pub max_payload_size: usize,
}

impl View for CachePolicy {
    type V = PolicyModel;

    open spec fn view(&self) -> PolicyModel {
        PolicyModel {
            enabled: self.enabled,
            max_size: self.max_size,
            max_entries: self.max_entries,
            default_ttl: self.default_ttl,
            strategy: self.strategy,
            prefixes: texts_of(self.cacheable_content_type_prefixes@),
            min_payload_size: self.min_payload_size,
            max_payload_size: self.max_payload_size,
        }
    }
}

/// What a successful read returns: a copy of the payload and its metadata.
#[derive(Debug, Clone)]
pub struct CacheResponse {
    pub data: Vec<u8>,
    pub content_type: Option<String>,
    pub etag: Option<String>,
    pub last_modified: Option<u64>,
    pub is_compressed: bool,
    pub needs_validation: bool,
}

impl View for CacheResponse {
    type V = ResponseModel;

    open spec fn view(&self) -> ResponseModel {
        ResponseModel {
            data: self.data@,
            content_type: text_of(self.content_type),
            etag: text_of(self.etag),
            last_modified: self.last_modified,
            is_compressed: self.is_compressed,
            needs_validation: self.needs_validation,
        }
    }
}

/// A snapshot of the cache's counters.
#[derive(Clone, Copy, Debug, PartialEq, Eq, Structural)]
pub struct CacheStats {
    pub hits: u64,
    pub misses: u64,
    pub puts: u64,
    pub evictions: u64,
    pub current_size: usize,
    pub current_entries: usize,
}

/// Hits per thousand reads, rounded down; zero where nothing was read.
pub open spec fn hit_rate_permille_of(hits: u64, misses: u64) -> int {
    if hits + misses == 0 {
        0
    } else {
        (hits * 1000) / (hits + misses)
    }
}

impl CacheStats {
    /// Hits per thousand reads, rounded down; zero where nothing was read.
    pub fn hit_rate_permille(&self) -> (rate: u64)
        ensures
            rate == hit_rate_permille_of(self.hits, self.misses),
            rate <= 1000,
    {
        let hits: u128 = self.hits as u128;
        let total: u128 = hits + self.misses as u128;
        if total == 0 {
            0
        } else {
            assert(hits * 1000 <= total * 1000) by (nonlinear_arith)
                requires
                    hits <= total,
            ;
            assert((hits * 1000) / (total as int) <= 1000) by (nonlinear_arith)
                requires
                    hits * 1000 <= total * 1000,
                    total > 0,
            ;
            let rate: u128 = (hits * 1000) / total;
            rate as u64
        }
    }
}

/// The content-type prefixes of the usual web content.
pub open spec fn default_prefixes() -> Seq<Seq<char>> {
    seq![
        "text/"@,
        "application/json"@,
        "application/javascript"@,
        "application/xml"@,
        "image/"@,
        "font/"@,
        "application/x-font"@,
    ]
}

/// The content-type prefixes of the usual web content.
pub fn usual_prefixes() -> (prefixes: Vec<String>)
    ensures
        texts_of(prefixes@) == default_prefixes(),
{
    let mut prefixes: Vec<String> = Vec::new();
    prefixes.push(String::from_str("text/"));
    prefixes.push(String::from_str("application/json"));
    prefixes.push(String::from_str("application/javascript"));
    prefixes.push(String::from_str("application/xml"));
    prefixes.push(String::from_str("image/"));
    prefixes.push(String::from_str("font/"));
    prefixes.push(String::from_str("application/x-font"));
    assert(texts_of(prefixes@) =~= default_prefixes());
    prefixes
}

/// The policy that a cache has where none is given: enabled, a hundred
/// mebibytes in at most ten thousand entries, one hour to live, least
/// recently touched entry out first, the usual web content types, and
/// payloads of up to ten mebibytes.
pub open spec fn default_policy() -> PolicyModel {
    PolicyModel {
        enabled: true,
        max_size: 104857600,
        max_entries: 10000,
        default_ttl: 3600000,
        strategy: CacheStrategy::LRU,
        prefixes: default_prefixes(),
        min_payload_size: 0,
        max_payload_size: 10485760,
    }
}

impl Default for CachePolicy {
    fn default() -> (policy: CachePolicy)
        ensures
            policy@ == default_policy(),
    {
        CachePolicy {
            enabled: true,
            max_size: 104857600,
            max_entries: 10000,
            default_ttl: 3600000,
            strategy: CacheStrategy::LRU,
            cacheable_content_type_prefixes: usual_prefixes(),
            min_payload_size: 0,
            max_payload_size: 10485760,
        }
    }
}

} // verus!
