//! The store: entries in eviction order, the running size and the counters.

use vstd::prelude::*;
use vstd::string::StringExecFns;
use crate::cache::lemmas::{
    lemma_evict_until_room, lemma_index_of_key, lemma_push_keeps_distinct,
    lemma_remove_keeps_distinct, lemma_total_size_push, lemma_total_size_remove,
    lemma_total_size_update, lemma_victim_exists, lemma_victim_unique, lemma_without_key,
    lemma_bump_by_step, lemma_fresh_entries_empty, lemma_fresh_entries_push,
    lemma_update_keeps_distinct,
};
use crate::cache::model::{
    CacheError, CacheModel, CacheStrategy, PolicyModel, admits, bump, bump_by, cleanup_model,
    clear_model, distinct_keys, evict_until_room, fresh_entries, get_model, get_refusal, has_key,
    index_of_key, is_fresh, is_victim, model_wf, needs_validation, new_entry, put_model,
    put_refusal, rank, remove_model, response_for, starts_with, total_size, touched, type_allowed,
    victim_index, without_key,
};
use crate::cache::types::{
    CacheEntry, CachePolicy, CacheResponse, CacheStats, default_prefixes, entries_of,
    usual_prefixes,
};
use crate::text::{clone_bytes, clone_text, slice_text_of, text_of, text_starts_with};

verus! {

/// A counter after one more event, saturating at the machine limit.
fn bump_counter(c: u64) -> (next: u64)
    ensures
        next == bump(c),
{
    if c < u64::MAX {
        c + 1
    } else {
        c
    }
}

/// The policy of a cache built by `Cache::new`.
pub open spec fn basic_policy(
    max_size: usize,
    max_entries: usize,
    min_file_size: usize,
    max_file_size: usize,
    default_ttl: u64,
) -> PolicyModel {
    PolicyModel {
        enabled: true,
        max_size,
        max_entries,
        default_ttl,
        strategy: CacheStrategy::LRU,
        prefixes: default_prefixes(),
        min_payload_size: min_file_size,
        max_payload_size: max_file_size,
    }
}

/// An empty cache under policy `p` with all counters at zero.
pub open spec fn empty_cache(p: PolicyModel) -> CacheModel {
    CacheModel { policy: p, entries: Seq::empty(), hits: 0, misses: 0, puts: 0, evictions: 0 }
}

/// A bounded, HTTP-aware store of byte payloads keyed by strings.
#[derive(Debug)]
pub struct Cache {
    policy: CachePolicy,
    entries: Vec<CacheEntry>,
    current_size: usize,
    hits: u64,
    misses: u64,
    puts: u64,
    evictions: u64,
}

impl View for Cache {
    type V = CacheModel;

    closed spec fn view(&self) -> CacheModel {
        CacheModel {
            policy: self.policy@,
            entries: entries_of(self.entries@),
            hits: self.hits,
            misses: self.misses,
            puts: self.puts,
            evictions: self.evictions,
        }
    }
}

impl Cache {
    /// The cache is well formed: its model is, and the running size is the
    /// sum of the stored payload lengths.
    pub closed spec fn wf(&self) -> bool {
        &&& model_wf(self@)
        &&& self.current_size == total_size(self@.entries)
    }

    /// The running size, as the cache keeps it.
    pub closed spec fn spec_current_size(&self) -> usize {
        self.current_size
    }

    /// In a well-formed cache the running size is the sum of the stored
    /// payload lengths, and both limits of the policy hold.
    pub proof fn lemma_size_invariant(&self)
        requires
            self.wf(),
        ensures
            self.spec_current_size() == total_size(self@.entries),
            self.spec_current_size() <= self@.policy.max_size,
            self@.entries.len() <= self@.policy.max_entries,
            distinct_keys(self@.entries),
    {
    }

    /// An empty, enabled cache that evicts the least recently touched entry
    /// and admits the usual web content types.
    pub fn new(
        max_size: usize,
        max_entries: usize,
        min_file_size: usize,
        max_file_size: usize,
        default_ttl: u64,
    ) -> (cache: Cache)
        ensures
            cache.wf(),
            cache@ == empty_cache(
                basic_policy(max_size, max_entries, min_file_size, max_file_size, default_ttl),
            ),
    {
        let prefixes = usual_prefixes();
        let policy = CachePolicy {
            enabled: true,
            max_size,
            max_entries,
            default_ttl,
            strategy: CacheStrategy::LRU,
            cacheable_content_type_prefixes: prefixes,
            min_payload_size: min_file_size,
            max_payload_size: max_file_size,
        };
        Cache::with_config(policy)
    }

    /// An empty cache under the given policy.
    pub fn with_config(policy: CachePolicy) -> (cache: Cache)
        ensures
            cache.wf(),
            cache@ == empty_cache(policy@),
    {
        let cache = Cache {
            policy,
            entries: Vec::new(),
            current_size: 0,
            hits: 0,
            misses: 0,
            puts: 0,
            evictions: 0,
        };
        assert(cache@.entries =~= Seq::empty());
        cache
    }

    /// Switches admission of new payloads on or off.
    pub fn set_enabled(&mut self, enabled: bool)
        requires
            old(self).wf(),
        ensures
            final(self).wf(),
            final(self)@ == (CacheModel {
                policy: PolicyModel { enabled, ..old(self)@.policy },
                ..old(self)@
            }),
    {
        self.policy.enabled = enabled;
    }

    /// A snapshot of the counters.
    pub fn get_stats(&self) -> (stats: CacheStats)
        requires
            self.wf(),
        ensures
            stats.hits == self@.hits,
            stats.misses == self@.misses,
            stats.puts == self@.puts,
            stats.evictions == self@.evictions,
            stats.current_size == total_size(self@.entries),
            stats.current_entries == self@.entries.len(),
            stats.current_size <= self@.policy.max_size,
            stats.current_entries <= self@.policy.max_entries,
    {
        CacheStats {
            hits: self.hits,
            misses: self.misses,
            puts: self.puts,
            evictions: self.evictions,
            current_size: self.current_size,
            current_entries: self.entries.len(),
        }
    }

    /// Whether the content type matches the allowlist; an empty allowlist
    /// matches every type.
    pub fn is_cacheable_type(&self, content_type: &str) -> (allowed: bool)
        ensures
            allowed == type_allowed(self@.policy.prefixes, content_type@),
    {
        let n = self.policy.cacheable_content_type_prefixes.len();
        if n == 0 {
            return true;
        }
        let mut i: usize = 0;
        while i < n
            invariant
                i <= n,
                n == self.policy.cacheable_content_type_prefixes.len(),
                forall|j: int|
                    0 <= j < i ==> !starts_with(
                        content_type@,
                        #[trigger] self@.policy.prefixes[j],
                    ),
            decreases n - i,
        {
            if text_starts_with(
                content_type,
                self.policy.cacheable_content_type_prefixes[i].as_str(),
            ) {
                assert(starts_with(content_type@, self@.policy.prefixes[i as int]));
                return true;
            }
            i += 1;
        }
        false
    }

    /// Position of the entry stored under `key`, if there is one.
    fn find(&self, key: &str) -> (found: Option<usize>)
        requires
            self.wf(),
        ensures
            found.is_some() == has_key(self@.entries, key@),
            found matches Some(i) ==> i < self.entries.len() && i == index_of_key(
                self@.entries,
                key@,
            ),
    {
        let wanted = String::from_str(key);
        let mut i: usize = 0;
        while i < self.entries.len()
            invariant
                self.wf(),
                i <= self.entries.len(),
                wanted@ == key@,
                forall|j: int| 0 <= j < i ==> (#[trigger] self@.entries[j]).key != key@,
            decreases self.entries.len() - i,
        {
            if self.entries[i].key == wanted {
                proof {
                    assert(self@.entries[i as int].key == key@);
                    lemma_index_of_key(self@.entries, i as int);
                }
                return Some(i);
            }
            i += 1;
        }
        proof {
            if has_key(self@.entries, key@) {
                let j = index_of_key(self@.entries, key@);
                assert(self@.entries[j].key == key@);
            }
        }
        None
    }

    /// The value by which the strategy orders the entry at `i`.
    fn rank_of(&self, i: usize) -> (r: u64)
        requires
            i < self.entries.len(),
        ensures
            r == rank(self@.policy.strategy, self@.entries[i as int]),
    {
        match self.policy.strategy {
            CacheStrategy::LRU => 0,
            CacheStrategy::LFU => self.entries[i].access_count,
            CacheStrategy::FIFO => self.entries[i].created_at,
        }
    }

    /// Position of the entry that the strategy evicts next: the first entry
    /// of least rank; none in an empty store.
    pub fn select_eviction_candidate(&self) -> (victim: Option<usize>)
        ensures
            victim.is_some() == (self@.entries.len() > 0),
            victim matches Some(i) ==> is_victim(self@.policy.strategy, self@.entries, i as int)
                && i == victim_index(self@.policy.strategy, self@.entries),
    {
        let n = self.entries.len();
        if n == 0 {
            return None;
        }
        let ghost strategy = self@.policy.strategy;
        let ghost s = self@.entries;
        let mut best: usize = 0;
        let mut best_rank: u64 = self.rank_of(0);
        let mut i: usize = 1;
        while i < n
            invariant
                n == self.entries.len(),
                s == self@.entries,
                strategy == self@.policy.strategy,
                best < i <= n,
                best_rank == rank(strategy, s[best as int]),
                forall|j: int| 0 <= j < i ==> rank(strategy, s[best as int]) <= rank(
                    strategy,
                    #[trigger] s[j],
                ),
                forall|j: int| 0 <= j < best ==> rank(strategy, s[best as int]) < rank(
                    strategy,
                    #[trigger] s[j],
                ),
            decreases n - i,
        {
            let r = self.rank_of(i);
            if r < best_rank {
                best = i;
                best_rank = r;
            }
            i += 1;
        }
        proof {
            assert(is_victim(strategy, s, best as int));
            lemma_victim_exists(strategy, s);
            lemma_victim_unique(strategy, s, best as int, victim_index(strategy, s));
        }
        Some(best)
    }

    /// Takes the entry at `i` out of the store and off the running size.
    fn take_at(&mut self, i: usize) -> (e: CacheEntry)
        requires
            old(self).wf(),
            i < old(self)@.entries.len(),
        ensures
            final(self).wf(),
            e@ == old(self)@.entries[i as int],
            final(self)@ == (CacheModel {
                entries: old(self)@.entries.remove(i as int),
                ..old(self)@
            }),
    {
        proof {
            lemma_total_size_remove(self@.entries, i as int);
            lemma_remove_keeps_distinct(self@.entries, i as int);
        }
        let e = self.entries.remove(i);
        self.current_size = self.current_size - e.data.len();
        assert(entries_of(self.entries@) =~= entries_of(old(self).entries@).remove(i as int));
        e
    }

    /// Stores a payload without validators, under the default time to live.
    pub fn put(&mut self, key: String, data: Vec<u8>, content_type: Option<String>, now: u64) -> (res:
        Result<(), CacheError>)
        requires
            old(self).wf(),
        ensures
            final(self).wf(),
            res.is_ok() <==> put_refusal(
                old(self)@.policy,
                data@.len(),
                text_of(content_type),
            ).is_none(),
            res matches Ok(_) ==> final(self)@ == put_model(
                old(self)@,
                new_entry(
                    old(self)@.policy,
                    key@,
                    data@,
                    text_of(content_type),
                    None,
                    None,
                    None,
                    now,
                ),
            ),
            res matches Err(e) ==> final(self)@ == old(self)@ && put_refusal(
                old(self)@.policy,
                data@.len(),
                text_of(content_type),
            ) == Some(e),
    {
        self.put_with_metadata(key, data, content_type, None, None, None, now)
    }

    /// Stores a payload with its validators and time to live.
    ///
    /// The payload is refused with `InvalidConfig` where the cache is
    /// disabled, the content type is not allowed or a non-empty payload is
    /// outside the size bounds, and with `Full` where even an empty store
    /// could not hold it; a refusal changes nothing. Otherwise an entry under
    /// the same key is replaced, and victims are evicted one at a time until
    /// there is room.
    pub fn put_with_metadata(
        &mut self,
        key: String,
        data: Vec<u8>,
        content_type: Option<String>,
        etag: Option<String>,
        last_modified: Option<u64>,
        ttl: Option<u64>,
        now: u64,
    ) -> (res: Result<(), CacheError>)
        requires
            old(self).wf(),
        ensures
            final(self).wf(),
            res.is_ok() <==> put_refusal(
                old(self)@.policy,
                data@.len(),
                text_of(content_type),
            ).is_none(),
            res matches Ok(_) ==> final(self)@ == put_model(
                old(self)@,
                new_entry(
                    old(self)@.policy,
                    key@,
                    data@,
                    text_of(content_type),
                    text_of(etag),
                    last_modified,
                    ttl,
                    now,
                ),
            ),
            res matches Err(e) ==> final(self)@ == old(self)@ && put_refusal(
                old(self)@.policy,
                data@.len(),
                text_of(content_type),
            ) == Some(e),
    {
        let len = data.len();
        if !self.policy.enabled {
            return Err(CacheError::InvalidConfig);
        }
        let type_ok = match &content_type {
            Some(t) => self.is_cacheable_type(t.as_str()),
            None => true,
        };
        if !type_ok {
            return Err(CacheError::InvalidConfig);
        }
        if len > 0 && (len < self.policy.min_payload_size || len > self.policy.max_payload_size) {
            return Err(CacheError::InvalidConfig);
        }
        if self.policy.max_entries == 0 || len > self.policy.max_size {
            return Err(CacheError::Full);
        }
        let ghost before = self@;
        let ghost p = before.policy;
        proof {
            lemma_without_key(before.entries, key@);
        }
        match self.find(key.as_str()) {
            Some(i) => {
                let _ = self.take_at(i);
            },
            None => {},
        }
        let ghost base = self@.entries;
        assert(base == without_key(before.entries, key@));
        proof {
            lemma_bump_by_step(before.evictions, 0);
        }
        while self.entries.len() > 0 && !(self.entries.len() < self.policy.max_entries
            && self.current_size <= self.policy.max_size - len)
            invariant
                self.wf(),
                len <= self.policy.max_size,
                self@.policy == p,
                self@.hits == before.hits,
                self@.misses == before.misses,
                self@.puts == before.puts,
                self@.entries.len() <= base.len(),
                self@.evictions == bump_by(
                    before.evictions,
                    (base.len() - self@.entries.len()) as nat,
                ),
                evict_until_room(p, self@.entries, len as nat) == evict_until_room(
                    p,
                    base,
                    len as nat,
                ),
                !has_key(self@.entries, key@),
            decreases self.entries.len(),
        {
            let ghost cur = self@.entries;
            proof {
                lemma_victim_exists(p.strategy, cur);
                lemma_remove_keeps_distinct(cur, victim_index(p.strategy, cur));
                lemma_bump_by_step(before.evictions, (base.len() - cur.len()) as nat);
            }
            let victim = self.select_eviction_candidate();
            match victim {
                Some(v) => {
                    let _ = self.take_at(v);
                    self.evictions = bump_counter(self.evictions);
                    proof {
                        if has_key(self@.entries, key@) {
                            let j = index_of_key(self@.entries, key@);
                            let j2 = if j < v { j } else { j + 1 };
                            assert(self@.entries[j] == cur[j2]);
                            assert(cur[j2].key == key@);
                        }
                    }
                },
                None => {},
            }
        }
        let ghost kept = self@.entries;
        assert(kept == evict_until_room(p, base, len as nat));
        proof {
            lemma_evict_until_room(p, base, len as nat);
            if kept.len() == 0 {
                assert(total_size(kept) == 0);
            }
        }
        let entry = CacheEntry {
            key,
            data,
            content_type,
            etag,
            last_modified,
            created_at: now,
            last_accessed: now,
            access_count: 0,
            ttl: match ttl {
                Some(t) => t,
                None => self.policy.default_ttl,
            },
            is_compressed: false,
        };
        proof {
            lemma_total_size_push(kept, entry@);
            lemma_push_keeps_distinct(kept, entry@);
        }
        self.current_size = self.current_size + len;
        self.entries.push(entry);
        self.puts = bump_counter(self.puts);
        assert(entries_of(self.entries@) =~= kept.push(entry@));
        Ok(())
    }

    /// Whether the request's conditional headers match the entry.
    fn check_validation(
        entry: &CacheEntry,
        if_none_match: Option<&str>,
        if_modified_since: Option<u64>,
    ) -> (matched: bool)
        ensures
            matched == needs_validation(entry@, slice_text_of(if_none_match), if_modified_since),
    {
        let tag_matches = match if_none_match {
            Some(t) => match &entry.etag {
                Some(stored) => {
                    let wanted = String::from_str(t);
                    *stored == wanted
                },
                None => false,
            },
            None => false,
        };
        let date_matches = match if_modified_since {
            Some(since) => match entry.last_modified {
                Some(lm) => lm <= since,
                None => false,
            },
            None => false,
        };
        tag_matches || date_matches
    }

    /// Reads the payload stored under `key`.
    ///
    /// A fresh entry is returned as a copy and marked as read; an entry whose
    /// time to live has elapsed gives `Expired` and stays in the store; an
    /// absent key gives `Miss`. Both failures count one miss. A disabled
    /// cache gives `InvalidConfig`, changes nothing and counts nothing.
    pub fn get(&mut self, key: &str, now: u64) -> (res: Result<CacheResponse, CacheError>)
        requires
            old(self).wf(),
        ensures
            final(self).wf(),
            final(self)@ == get_model(old(self)@, key@, now),
            !old(self)@.policy.enabled ==> res.is_err() && final(self)@ == old(self)@,
            res.is_ok() <==> get_refusal(old(self)@, key@, now).is_none(),
            res matches Ok(r) ==> r@ == response_for(
                old(self)@.entries[index_of_key(old(self)@.entries, key@)],
                None,
                None,
            ),
            res matches Err(e) ==> get_refusal(old(self)@, key@, now) == Some(e),
    {
        self.get_conditional(key, None, None, now)
    }

    /// Reads the payload stored under `key` and says whether the request's
    /// conditional headers match it.
    ///
    /// The freshness rule is that of `get`, and so is the answer of a
    /// disabled cache. The flag of the response is set where `if_none_match`
    /// equals the entry's tag, or the entry was last modified no later than
    /// `if_modified_since`; the payload is returned either way.
    pub fn get_conditional(
        &mut self,
        key: &str,
        if_none_match: Option<&str>,
        if_modified_since: Option<u64>,
        now: u64,
    ) -> (res: Result<CacheResponse, CacheError>)
        requires
            old(self).wf(),
        ensures
            final(self).wf(),
            final(self)@ == get_model(old(self)@, key@, now),
            !old(self)@.policy.enabled ==> res.is_err() && final(self)@ == old(self)@,
            res.is_ok() <==> get_refusal(old(self)@, key@, now).is_none(),
            res matches Ok(r) ==> r@ == response_for(
                old(self)@.entries[index_of_key(old(self)@.entries, key@)],
                slice_text_of(if_none_match),
                if_modified_since,
            ),
            res matches Err(e) ==> get_refusal(old(self)@, key@, now) == Some(e),
    {
        let ghost before = self@;
        if !self.policy.enabled {
            return Err(CacheError::InvalidConfig);
        }
        let i = match self.find(key) {
            Some(i) => i,
            None => {
                self.misses = bump_counter(self.misses);
                return Err(CacheError::Miss);
            },
        };
        let created_at = self.entries[i].created_at;
        let fresh = now < created_at || now - created_at < self.entries[i].ttl;
        assert(fresh == is_fresh(before.entries[i as int], now));
        if !fresh {
            self.misses = bump_counter(self.misses);
            return Err(CacheError::Expired);
        }
        proof {
            lemma_total_size_remove(before.entries, i as int);
            lemma_remove_keeps_distinct(before.entries, i as int);
            lemma_total_size_update(
                before.entries,
                i as int,
                touched(before.entries[i as int], now),
            );
            lemma_update_keeps_distinct(
                before.entries,
                i as int,
                touched(before.entries[i as int], now),
            );
        }
        let mut entry = self.entries.remove(i);
        assert(entry@ == before.entries[i as int]);
        assert(entries_of(self.entries@) =~= before.entries.remove(i as int));
        let response = CacheResponse {
            data: clone_bytes(&entry.data),
            content_type: clone_text(&entry.content_type),
            etag: clone_text(&entry.etag),
            last_modified: entry.last_modified,
            is_compressed: entry.is_compressed,
            needs_validation: Self::check_validation(&entry, if_none_match, if_modified_since),
        };
        entry.last_accessed = now;
        entry.access_count = bump_counter(entry.access_count);
        assert(entry@ == touched(before.entries[i as int], now));
        proof {
            lemma_total_size_push(before.entries.remove(i as int), entry@);
            lemma_push_keeps_distinct(before.entries.remove(i as int), entry@);
        }
        match self.policy.strategy {
            CacheStrategy::LRU => {
                self.entries.push(entry);
                assert(entries_of(self.entries@) =~= before.entries.remove(i as int).push(
                    touched(before.entries[i as int], now),
                ));
            },
            _ => {
                self.entries.insert(i, entry);
                assert(entries_of(self.entries@) =~= before.entries.update(
                    i as int,
                    touched(before.entries[i as int], now),
                ));
            },
        }
        self.hits = bump_counter(self.hits);
        Ok(response)
    }

    /// Removes the entry stored under `key`; `Miss` where there is none.
    pub fn remove(&mut self, key: &str) -> (res: Result<(), CacheError>)
        requires
            old(self).wf(),
        ensures
            final(self).wf(),
            final(self)@ == remove_model(old(self)@, key@),
            res.is_ok() <==> has_key(old(self)@.entries, key@),
            res matches Err(e) ==> e == CacheError::Miss,
    {
        match self.find(key) {
            Some(i) => {
                let _ = self.take_at(i);
                Ok(())
            },
            None => Err(CacheError::Miss),
        }
    }

    /// Drops every entry and sets the counts of hits, misses and evictions
    /// back to zero. The count of successful puts is kept: it says how much
    /// was ever stored, not what the store holds.
    pub fn clear(&mut self)
        requires
            old(self).wf(),
        ensures
            final(self).wf(),
            final(self)@ == clear_model(old(self)@),
            final(self)@ == (CacheModel {
                entries: Seq::empty(),
                hits: 0,
                misses: 0,
                evictions: 0,
                ..old(self)@
            }),
    {
        self.entries.clear();
        self.current_size = 0;
        self.hits = 0;
        self.misses = 0;
        self.evictions = 0;
        assert(entries_of(self.entries@) =~= Seq::empty());
    }

    /// Removes every entry whose time to live has elapsed at `now`, keeping
    /// the others in their order.
    pub fn cleanup_expired(&mut self, now: u64)
        requires
            old(self).wf(),
        ensures
            final(self).wf(),
            final(self)@ == cleanup_model(old(self)@, now),
    {
        let ghost before = self@;
        let ghost orig = before.entries;
        let ghost mut k: int = 0;
        let mut i: usize = 0;
        proof {
            lemma_fresh_entries_empty(now);
            assert(orig.subrange(0, 0) =~= Seq::empty());
            assert(self@.entries.subrange(0, 0) =~= Seq::empty());
            assert(self@.entries.subrange(0, self@.entries.len() as int) =~= orig.subrange(
                0,
                orig.len() as int,
            ));
        }
        while i < self.entries.len()
            invariant
                self.wf(),
                0 <= k <= orig.len(),
                i <= self.entries.len(),
                self.entries.len() - i == orig.len() - k,
                self@.entries.subrange(0, i as int) == fresh_entries(orig.subrange(0, k), now),
                self@.entries.subrange(i as int, self@.entries.len() as int) == orig.subrange(
                    k,
                    orig.len() as int,
                ),
                self@.policy == before.policy,
                self@.hits == before.hits,
                self@.misses == before.misses,
                self@.puts == before.puts,
                self@.evictions == before.evictions,
            decreases self.entries.len() - i,
        {
            let ghost cur = self@.entries;
            let created_at = self.entries[i].created_at;
            let fresh = now < created_at || now - created_at < self.entries[i].ttl;
            proof {
                assert(cur[i as int] == cur.subrange(i as int, cur.len() as int)[0]);
                assert(cur[i as int] == orig[k]);
                assert(fresh == is_fresh(orig[k], now));
                lemma_fresh_entries_push(orig.subrange(0, k), orig[k], now);
                assert(orig.subrange(0, k + 1) =~= orig.subrange(0, k).push(orig[k]));
            }
            if fresh {
                i += 1;
                proof {
                    assert(cur.subrange(0, i as int) =~= cur.subrange(0, i - 1).push(
                        cur[i - 1],
                    ));
                    assert(cur.subrange(i as int, cur.len() as int) =~= cur.subrange(
                        i - 1,
                        cur.len() as int,
                    ).subrange(1, cur.len() - (i - 1)));
                    assert(orig.subrange(k + 1, orig.len() as int) =~= orig.subrange(
                        k,
                        orig.len() as int,
                    ).subrange(1, orig.len() - k));
                }
            } else {
                let _ = self.take_at(i);
                proof {
                    let next = self@.entries;
                    assert(next.subrange(0, i as int) =~= cur.subrange(0, i as int));
                    assert(next.subrange(i as int, next.len() as int) =~= cur.subrange(
                        i as int,
                        cur.len() as int,
                    ).subrange(1, cur.len() - i));
                    assert(orig.subrange(k + 1, orig.len() as int) =~= orig.subrange(
                        k,
                        orig.len() as int,
                    ).subrange(1, orig.len() - k));
                }
            }
            proof {
                k = k + 1;
            }
        }
        proof {
            assert(orig.subrange(0, orig.len() as int) =~= orig);
            assert(self@.entries.subrange(0, self@.entries.len() as int) =~= self@.entries);
        }
    }
}

} // verus!
