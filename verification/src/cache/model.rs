//! Mathematical model of the cache: entries, policy and the pure functions
//! that say what every operation does to them.

use vstd::prelude::*;

verus! {

/// Which entry leaves when room is needed.
#[derive(Clone, Copy, Debug, PartialEq, Eq, Structural)]
pub enum CacheStrategy {
    /// Least recently touched entry first.
    LRU,
    /// Least often read entry first.
    LFU,
    /// Oldest entry first.
    FIFO,
}

/// Why a cache operation did not succeed.
#[derive(Clone, Copy, Debug, PartialEq, Eq, Structural)]
pub enum CacheError {
    /// The key is not in the store.
    Miss,
    /// The key is in the store but its time to live has elapsed.
    Expired,
    /// The payload cannot be stored even in an empty store.
    Full,
    /// Reserved for malformed identifiers.
    InvalidKey,
    /// The cache is disabled or the payload is not admitted.
    InvalidConfig,
}

/// One stored payload with its metadata, as plain mathematical values.
pub struct EntryModel {
    pub key: Seq<char>,
    pub data: Seq<u8>,
    pub content_type: Option<Seq<char>>,
    pub etag: Option<Seq<char>>,
    pub last_modified: Option<u64>,
    pub created_at: u64,
    pub last_accessed: u64,
    pub access_count: u64,
    pub ttl: u64,
    pub is_compressed: bool,
}

/// The policy parameters, as plain mathematical values.
pub struct PolicyModel {
    pub enabled: bool,
    pub max_size: usize,
    pub max_entries: usize,
    pub default_ttl: u64,
    pub strategy: CacheStrategy,
    pub prefixes: Seq<Seq<char>>,
    pub min_payload_size: usize,
    pub max_payload_size: usize,
}

/// The whole cache: policy, entries in eviction order, cumulative counters.
///
/// Under `LRU` the entries run from the least recently touched (front) to the
/// most recently touched (back); under the other strategies they stay in the
/// order in which they were inserted.
pub struct CacheModel {
    pub policy: PolicyModel,
    pub entries: Seq<EntryModel>,
    pub hits: u64,
    pub misses: u64,
    pub puts: u64,
    pub evictions: u64,
}

/// A counter after one more event; it stays at the machine limit once there.
pub open spec fn bump(c: u64) -> u64 {
    if c < u64::MAX {
        (c + 1) as u64
    } else {
        c
    }
}

/// A counter after `n` more events, saturating at the machine limit.
pub open spec fn bump_by(c: u64, n: nat) -> u64 {
    if c + n <= u64::MAX {
        (c + n) as u64
    } else {
        u64::MAX
    }
}

/// Sum of the payload lengths of `s`.
pub open spec fn total_size(s: Seq<EntryModel>) -> nat
    decreases s.len(),
{
    if s.len() == 0 {
        0
    } else {
        total_size(s.drop_last()) + s.last().data.len()
    }
}

/// No key occurs twice in `s`.
pub open spec fn distinct_keys(s: Seq<EntryModel>) -> bool {
    forall|i: int, j: int| 0 <= i < j < s.len() ==> s[i].key != s[j].key
}

/// Some entry of `s` is stored under `key`.
pub open spec fn has_key(s: Seq<EntryModel>, key: Seq<char>) -> bool {
    exists|i: int| 0 <= i < s.len() && #[trigger] s[i].key == key
}

/// Position of the entry stored under `key`, where there is one.
pub open spec fn index_of_key(s: Seq<EntryModel>, key: Seq<char>) -> int {
    choose|i: int| 0 <= i < s.len() && #[trigger] s[i].key == key
}

/// `s` without the entry stored under `key`, if any.
pub open spec fn without_key(s: Seq<EntryModel>, key: Seq<char>) -> Seq<EntryModel> {
    if has_key(s, key) {
        s.remove(index_of_key(s, key))
    } else {
        s
    }
}

/// An entry is fresh while its age is strictly below its time to live.
pub open spec fn is_fresh(e: EntryModel, now: u64) -> bool {
    now - e.created_at < e.ttl
}

/// `p` is a prefix of `s`.
pub open spec fn starts_with(s: Seq<char>, p: Seq<char>) -> bool {
    p.len() <= s.len() && s.subrange(0, p.len() as int) == p
}

/// The content type is allowed: the allowlist is empty or one of its
/// prefixes matches.
pub open spec fn type_allowed(prefixes: Seq<Seq<char>>, content_type: Seq<char>) -> bool {
    prefixes.len() == 0 || exists|i: int|
        0 <= i < prefixes.len() && starts_with(content_type, #[trigger] prefixes[i])
}

/// The payload may enter the cache at all, whatever the store holds.
pub open spec fn admits(p: PolicyModel, len: nat, content_type: Option<Seq<char>>) -> bool {
    &&& p.enabled
    &&& content_type matches Some(t) ==> type_allowed(p.prefixes, t)
    &&& len > 0 ==> p.min_payload_size <= len <= p.max_payload_size
}

/// An empty store would have room for a payload of `len` bytes.
pub open spec fn can_ever_fit(p: PolicyModel, len: nat) -> bool {
    p.max_entries > 0 && len <= p.max_size
}

/// The store has room for one more entry of `len` bytes.
pub open spec fn has_room(p: PolicyModel, s: Seq<EntryModel>, len: nat) -> bool {
    s.len() < p.max_entries && total_size(s) + len <= p.max_size
}

/// The model is well formed: keys are distinct and both limits hold.
pub open spec fn model_wf(m: CacheModel) -> bool {
    &&& distinct_keys(m.entries)
    &&& m.entries.len() <= m.policy.max_entries
    &&& total_size(m.entries) <= m.policy.max_size
}

/// What the strategy orders entries by; the entry of least rank leaves first.
pub open spec fn rank(strategy: CacheStrategy, e: EntryModel) -> int {
    match strategy {
        CacheStrategy::LRU => 0,
        CacheStrategy::LFU => e.access_count as int,
        CacheStrategy::FIFO => e.created_at as int,
    }
}

/// `i` is the position of the eviction victim: the first entry of least
/// rank. Under `LRU` all ranks are equal, so the victim is the front entry.
pub open spec fn is_victim(strategy: CacheStrategy, s: Seq<EntryModel>, i: int) -> bool {
    &&& 0 <= i < s.len()
    &&& forall|j: int| 0 <= j < s.len() ==> rank(strategy, s[i]) <= rank(strategy, #[trigger] s[j])
    &&& forall|j: int| 0 <= j < i ==> rank(strategy, s[i]) < rank(strategy, #[trigger] s[j])
}

/// Position of the eviction victim of a non-empty store.
pub open spec fn victim_index(strategy: CacheStrategy, s: Seq<EntryModel>) -> int {
    choose|i: int| is_victim(strategy, s, i)
}

/// Evicts one victim at a time until the store has room for `len` more bytes
/// in one more entry, or is empty.
pub open spec fn evict_until_room(p: PolicyModel, s: Seq<EntryModel>, len: nat) -> Seq<EntryModel>
    decreases s.len(),
{
    if s.len() == 0 || has_room(p, s, len) {
        s
    } else {
        let v = victim_index(p.strategy, s);
        if 0 <= v < s.len() {
            evict_until_room(p, s.remove(v), len)
        } else {
            s
        }
    }
}

/// The entry that a `put` stores.
pub open spec fn new_entry(
    p: PolicyModel,
    key: Seq<char>,
    data: Seq<u8>,
    content_type: Option<Seq<char>>,
    etag: Option<Seq<char>>,
    last_modified: Option<u64>,
    ttl: Option<u64>,
    now: u64,
) -> EntryModel {
    EntryModel {
        key,
        data,
        content_type,
        etag,
        last_modified,
        created_at: now,
        last_accessed: now,
        access_count: 0,
        ttl: match ttl {
            Some(t) => t,
            None => p.default_ttl,
        },
        is_compressed: false,
    }
}

/// The error with which a `put` of such a payload is refused, if it is.
pub open spec fn put_refusal(p: PolicyModel, len: nat, content_type: Option<Seq<char>>) -> Option<
    CacheError,
> {
    if !admits(p, len, content_type) {
        Some(CacheError::InvalidConfig)
    } else if !can_ever_fit(p, len) {
        Some(CacheError::Full)
    } else {
        None
    }
}

/// The cache after a successful `put` of `e`: an entry under the same key is
/// dropped, victims are evicted until there is room, and `e` goes to the back.
pub open spec fn put_model(m: CacheModel, e: EntryModel) -> CacheModel {
    let base = without_key(m.entries, e.key);
    let kept = evict_until_room(m.policy, base, e.data.len());
    CacheModel {
        entries: kept.push(e),
        puts: bump(m.puts),
        evictions: bump_by(m.evictions, (base.len() - kept.len()) as nat),
        ..m
    }
}

/// The entry after one successful read at time `now`.
pub open spec fn touched(e: EntryModel, now: u64) -> EntryModel {
    EntryModel { last_accessed: now, access_count: bump(e.access_count), ..e }
}

/// The entries after a successful read of the entry at `i`: it is marked as
/// read, and under `LRU` it moves to the back.
pub open spec fn touch_entries(
    strategy: CacheStrategy,
    s: Seq<EntryModel>,
    i: int,
    now: u64,
) -> Seq<EntryModel> {
    match strategy {
        CacheStrategy::LRU => s.remove(i).push(touched(s[i], now)),
        _ => s.update(i, touched(s[i], now)),
    }
}

/// The error with which a read of `key` at time `now` fails, if it does:
/// a disabled cache serves nothing, an absent key is a miss, and an entry
/// whose time to live has elapsed is expired.
pub open spec fn get_refusal(m: CacheModel, key: Seq<char>, now: u64) -> Option<CacheError> {
    if !m.policy.enabled {
        Some(CacheError::InvalidConfig)
    } else if !has_key(m.entries, key) {
        Some(CacheError::Miss)
    } else if !is_fresh(m.entries[index_of_key(m.entries, key)], now) {
        Some(CacheError::Expired)
    } else {
        None
    }
}

/// The cache after a read of `key` at time `now`: a hit touches the entry
/// and counts a hit; a miss or an expired entry counts a miss and leaves the
/// entries as they were; a disabled cache changes nothing and counts
/// nothing.
pub open spec fn get_model(m: CacheModel, key: Seq<char>, now: u64) -> CacheModel {
    if !m.policy.enabled {
        m
    } else if get_refusal(m, key, now).is_none() {
        CacheModel {
            entries: touch_entries(m.policy.strategy, m.entries, index_of_key(m.entries, key), now),
            hits: bump(m.hits),
            ..m
        }
    } else {
        CacheModel { misses: bump(m.misses), ..m }
    }
}

/// The request's conditional headers match the entry, so the caller may
/// answer "not modified".
pub open spec fn needs_validation(
    e: EntryModel,
    if_none_match: Option<Seq<char>>,
    if_modified_since: Option<u64>,
) -> bool {
    ||| (if_none_match matches Some(t) && e.etag == Some(t))
    ||| (if_modified_since matches Some(since) && e.last_modified matches Some(lm) && lm <= since)
}

/// What a successful read hands back.
pub struct ResponseModel {
    pub data: Seq<u8>,
    pub content_type: Option<Seq<char>>,
    pub etag: Option<Seq<char>>,
    pub last_modified: Option<u64>,
    pub is_compressed: bool,
    pub needs_validation: bool,
}

/// The response built from entry `e` for the given conditional headers.
pub open spec fn response_for(
    e: EntryModel,
    if_none_match: Option<Seq<char>>,
    if_modified_since: Option<u64>,
) -> ResponseModel {
    ResponseModel {
        data: e.data,
        content_type: e.content_type,
        etag: e.etag,
        last_modified: e.last_modified,
        is_compressed: e.is_compressed,
        needs_validation: needs_validation(e, if_none_match, if_modified_since),
    }
}

/// The cache after `key` was removed.
pub open spec fn remove_model(m: CacheModel, key: Seq<char>) -> CacheModel {
    CacheModel { entries: without_key(m.entries, key), ..m }
}

/// The entries of `s` that are still fresh at `now`, in their order.
pub open spec fn fresh_entries(s: Seq<EntryModel>, now: u64) -> Seq<EntryModel> {
    s.filter(|e: EntryModel| is_fresh(e, now))
}

/// The cache after every expired entry was swept out.
pub open spec fn cleanup_model(m: CacheModel, now: u64) -> CacheModel {
    CacheModel { entries: fresh_entries(m.entries, now), ..m }
}

/// The cache after all entries were dropped: the counts of hits, misses
/// and evictions start again at zero, and the count of puts is kept.
pub open spec fn clear_model(m: CacheModel) -> CacheModel {
    CacheModel { entries: Seq::empty(), hits: 0, misses: 0, evictions: 0, ..m }
}

} // verus!
