//! What holds of the cache whatever is stored in it, stated over the model
//! that the contracts of the operations use.

use vstd::prelude::*;
use crate::cache::lemmas::{
    lemma_evict_until_room, lemma_fresh_entries_empty, lemma_fresh_entries_push,
    lemma_push_keeps_distinct, lemma_remove_keeps_distinct, lemma_total_size_push,
    lemma_total_size_remove, lemma_total_size_update, lemma_update_keeps_distinct,
    lemma_victim_exists, lemma_victim_unique, lemma_without_key,
};
use crate::cache::model::{
    CacheError, CacheModel, CacheStrategy, EntryModel, PolicyModel, can_ever_fit, cleanup_model,
    clear_model, distinct_keys, evict_until_room, fresh_entries, get_model, get_refusal, has_key,
    has_room, index_of_key, is_fresh, is_victim, model_wf, put_model, put_refusal, remove_model,
    total_size, touch_entries, touched, victim_index, without_key,
};

verus! {

/// A successful `put` keeps the keys distinct and both limits of the
/// policy, and the new entry is the one stored under its key.
pub proof fn law_put_keeps_limits(m: CacheModel, e: EntryModel)
    requires
        model_wf(m),
        put_refusal(m.policy, e.data.len(), e.content_type).is_none(),
    ensures
        model_wf(put_model(m, e)),
        put_model(m, e).entries.last() == e,
        has_key(put_model(m, e).entries, e.key),
        put_model(m, e).policy == m.policy,
{
    let base = without_key(m.entries, e.key);
    lemma_without_key(m.entries, e.key);
    lemma_evict_until_room(m.policy, base, e.data.len());
    let kept = evict_until_room(m.policy, base, e.data.len());
    lemma_total_size_push(kept, e);
    lemma_push_keeps_distinct(kept, e);
}

/// A payload whose length is outside the size bounds of the policy is
/// refused as an invalid configuration, as is any payload while the cache is
/// disabled.
pub proof fn law_out_of_bounds_is_refused(p: PolicyModel, len: nat, content_type: Option<Seq<char>>)
    requires
        !p.enabled || (len > 0 && (len < p.min_payload_size || len > p.max_payload_size)),
    ensures
        put_refusal(p, len, content_type) == Some(CacheError::InvalidConfig),
{
}

/// A read keeps the keys distinct and both limits of the policy, whether it
/// hits or misses, and keeps the set of stored keys.
pub proof fn law_get_keeps_limits(m: CacheModel, key: Seq<char>, now: u64)
    requires
        model_wf(m),
    ensures
        model_wf(get_model(m, key, now)),
        total_size(get_model(m, key, now).entries) == total_size(m.entries),
        get_model(m, key, now).entries.len() == m.entries.len(),
        forall|k: Seq<char>| has_key(get_model(m, key, now).entries, k) <==> has_key(m.entries, k),
{
    if get_refusal(m, key, now).is_none() {
        let s = m.entries;
        let i = index_of_key(s, key);
        let t = touched(s[i], now);
        let out = touch_entries(m.policy.strategy, s, i, now);
        lemma_total_size_remove(s, i);
        lemma_remove_keeps_distinct(s, i);
        lemma_total_size_push(s.remove(i), t);
        lemma_push_keeps_distinct(s.remove(i), t);
        lemma_total_size_update(s, i, t);
        lemma_update_keeps_distinct(s, i, t);
        assert forall|k: Seq<char>| has_key(out, k) <==> has_key(s, k) by {
            if m.policy.strategy == CacheStrategy::LRU {
                if k == key {
                    assert(out[out.len() - 1].key == key);
                } else {
                    if has_key(s.remove(i), k) {
                        let j = index_of_key(s.remove(i), k);
                        assert(out[j].key == k);
                    }
                    if has_key(out, k) {
                        let j = index_of_key(out, k);
                        assert(j < s.remove(i).len());
                        assert(s.remove(i)[j].key == k);
                    }
                }
            } else {
                if has_key(s, k) {
                    let j = index_of_key(s, k);
                    assert(out[j].key == k);
                }
                if has_key(out, k) {
                    let j = index_of_key(out, k);
                    assert(s[j].key == k);
                }
            }
        }
    }
}

/// Removing a key keeps the keys distinct and both limits of the policy,
/// and the key is absent afterwards.
pub proof fn law_remove_keeps_limits(m: CacheModel, key: Seq<char>)
    requires
        model_wf(m),
    ensures
        model_wf(remove_model(m, key)),
        !has_key(remove_model(m, key).entries, key),
{
    lemma_without_key(m.entries, key);
}

/// Sweeping keeps the keys distinct, never grows the store, and leaves
/// exactly the entries that are fresh.
pub proof fn lemma_fresh_entries(s: Seq<EntryModel>, now: u64)
    requires
        distinct_keys(s),
    ensures
        distinct_keys(fresh_entries(s, now)),
        fresh_entries(s, now).len() <= s.len(),
        total_size(fresh_entries(s, now)) <= total_size(s),
        forall|k: Seq<char>| has_key(fresh_entries(s, now), k) ==> has_key(s, k),
        forall|i: int|
            0 <= i < fresh_entries(s, now).len() ==> is_fresh(
                #[trigger] fresh_entries(s, now)[i],
                now,
            ),
        forall|i: int|
            0 <= i < s.len() && is_fresh(s[i], now) ==> has_key(
                fresh_entries(s, now),
                (#[trigger] s[i]).key,
            ),
    decreases s.len(),
{
    if s.len() == 0 {
        assert(s =~= Seq::empty());
        lemma_fresh_entries_empty(now);
    } else {
        let t = s.drop_last();
        let e = s.last();
        assert(s =~= t.push(e));
        assert forall|a: int, b: int| 0 <= a < b < t.len() implies t[a].key != t[b].key by {
            assert(t[a] == s[a] && t[b] == s[b]);
        }
        lemma_fresh_entries(t, now);
        lemma_fresh_entries_push(t, e, now);
        let ft = fresh_entries(t, now);
        let fs = fresh_entries(s, now);
        assert forall|k: Seq<char>| has_key(t, k) implies has_key(s, k) by {
            let j = index_of_key(t, k);
            assert(s[j].key == k);
        }
        if is_fresh(e, now) {
            if has_key(ft, e.key) {
                assert(has_key(t, e.key));
                let j = index_of_key(t, e.key);
                assert(s[j].key == s[s.len() - 1].key);
            }
            lemma_push_keeps_distinct(ft, e);
            lemma_total_size_push(ft, e);
            lemma_total_size_push(t, e);
            assert forall|k: Seq<char>| has_key(fs, k) implies has_key(s, k) by {
                let j = index_of_key(fs, k);
                if j < ft.len() {
                    assert(ft[j].key == k);
                    assert(has_key(ft, k));
                } else {
                    assert(s[s.len() - 1].key == k);
                }
            }
            assert forall|i: int| 0 <= i < s.len() && is_fresh(s[i], now) implies has_key(
                fs,
                (#[trigger] s[i]).key,
            ) by {
                if i < t.len() {
                    assert(t[i] == s[i]);
                    assert(has_key(ft, t[i].key));
                    let j = index_of_key(ft, t[i].key);
                    assert(fs[j].key == s[i].key);
                } else {
                    assert(fs[fs.len() - 1].key == s[i].key);
                }
            }
        } else {
            lemma_total_size_push(t, e);
            assert forall|i: int| 0 <= i < s.len() && is_fresh(s[i], now) implies has_key(
                fs,
                (#[trigger] s[i]).key,
            ) by {
                assert(t[i] == s[i]);
            }
        }
    }
}

/// A sweep keeps the keys distinct and both limits of the policy, and every
/// entry that is left is fresh.
pub proof fn law_cleanup_keeps_limits(m: CacheModel, now: u64)
    requires
        model_wf(m),
    ensures
        model_wf(cleanup_model(m, now)),
        forall|i: int|
            0 <= i < cleanup_model(m, now).entries.len() ==> is_fresh(
                #[trigger] cleanup_model(m, now).entries[i],
                now,
            ),
{
    lemma_fresh_entries(m.entries, now);
}

/// Clearing leaves an empty store within both limits and sets the counts
/// of hits, misses and evictions back to zero, while the count of puts is
/// kept. Clearing twice is clearing once, and clearing an empty cache that
/// has counted nothing changes nothing.
pub proof fn law_clear_is_idempotent(m: CacheModel)
    ensures
        model_wf(clear_model(m)),
        total_size(clear_model(m).entries) == 0,
        clear_model(m).entries.len() == 0,
        clear_model(m).hits == 0,
        clear_model(m).misses == 0,
        clear_model(m).evictions == 0,
        clear_model(m).puts == m.puts,
        clear_model(m).policy == m.policy,
        clear_model(clear_model(m)) == clear_model(m),
        m.entries.len() == 0 && m.hits == 0 && m.misses == 0 && m.evictions == 0 ==> clear_model(m)
            == m,
{
    if m.entries.len() == 0 {
        assert(m.entries =~= Seq::empty());
    }
}

/// A disabled cache serves nothing and stores nothing: every read and
/// every put is refused as an invalid configuration, and a read leaves the
/// entries and all counters as they were.
pub proof fn law_disabled_cache_is_inert(
    m: CacheModel,
    key: Seq<char>,
    now: u64,
    len: nat,
    content_type: Option<Seq<char>>,
)
    requires
        !m.policy.enabled,
    ensures
        get_refusal(m, key, now) == Some(CacheError::InvalidConfig),
        get_model(m, key, now) == m,
        put_refusal(m.policy, len, content_type) == Some(CacheError::InvalidConfig),
{
}

/// Switching a cache off and on again leaves every read as it was before:
/// the entries and counters do not change with the switch.
pub proof fn law_enabling_restores_reads(m: CacheModel, key: Seq<char>, now: u64)
    requires
        m.policy.enabled,
    ensures
        ({
            let off = CacheModel { policy: PolicyModel { enabled: false, ..m.policy }, ..m };
            let read_off = get_model(off, key, now);
            let on = CacheModel {
                policy: PolicyModel { enabled: true, ..read_off.policy },
                ..read_off
            };
            on == m && get_refusal(on, key, now) == get_refusal(m, key, now) && get_model(
                on,
                key,
                now,
            ) == get_model(m, key, now)
        }),
{
}

/// Under `LRU` the victim is the front entry.
pub proof fn law_recency_victim_is_front(s: Seq<EntryModel>)
    requires
        s.len() > 0,
    ensures
        victim_index(CacheStrategy::LRU, s) == 0,
{
    assert(is_victim(CacheStrategy::LRU, s, 0));
    lemma_victim_exists(CacheStrategy::LRU, s);
    lemma_victim_unique(CacheStrategy::LRU, s, 0, victim_index(CacheStrategy::LRU, s));
}

/// Under `LRU`, storing a new key in a store that is full by count, with
/// room for the bytes, evicts exactly the least recently touched entry: the
/// front one.
pub proof fn law_recency_evicts_oldest(m: CacheModel, e: EntryModel)
    requires
        model_wf(m),
        m.policy.strategy == CacheStrategy::LRU,
        put_refusal(m.policy, e.data.len(), e.content_type).is_none(),
        !has_key(m.entries, e.key),
        m.entries.len() == m.policy.max_entries,
        total_size(m.entries) + e.data.len() <= m.policy.max_size,
    ensures
        put_model(m, e).entries == m.entries.drop_first().push(e),
        !has_key(put_model(m, e).entries, m.entries[0].key),
        forall|i: int|
            1 <= i < m.entries.len() ==> has_key(
                put_model(m, e).entries,
                (#[trigger] m.entries[i]).key,
            ),
{
    let s = m.entries;
    let p = m.policy;
    let len = e.data.len();
    law_recency_victim_is_front(s);
    let r = s.remove(0);
    lemma_total_size_remove(s, 0);
    lemma_remove_keeps_distinct(s, 0);
    assert(has_room(p, r, len));
    assert(evict_until_room(p, r, len) == r);
    assert(evict_until_room(p, s, len) == r);
    assert(r =~= s.drop_first());
    let out = put_model(m, e).entries;
    assert(out == r.push(e));
    if has_key(out, s[0].key) {
        let j = index_of_key(out, s[0].key);
        if j < r.len() {
            assert(r[j].key == s[0].key);
            assert(has_key(r, s[0].key));
        } else {
            assert(s[0].key == e.key);
        }
    }
    assert forall|i: int| 1 <= i < s.len() implies has_key(out, (#[trigger] s[i]).key) by {
        assert(out[i - 1] == s[i]);
    }
}

/// Under `LRU`, a successful read moves the entry to the back, so it is the
/// most recently touched one.
pub proof fn law_recency_read_moves_to_back(m: CacheModel, key: Seq<char>, now: u64)
    requires
        model_wf(m),
        m.policy.strategy == CacheStrategy::LRU,
        get_refusal(m, key, now).is_none(),
    ensures
        get_model(m, key, now).entries.len() == m.entries.len(),
        get_model(m, key, now).entries.last().key == key,
{
}

/// Under `LRU`, reading a key protects it: where the store holds at least
/// two entries and is full by count, the next new key evicts another entry
/// and the key that was read stays.
pub proof fn law_recency_read_protects(m: CacheModel, key: Seq<char>, now: u64, e: EntryModel)
    requires
        model_wf(m),
        m.policy.strategy == CacheStrategy::LRU,
        get_refusal(m, key, now).is_none(),
        m.entries.len() >= 2,
        put_refusal(m.policy, e.data.len(), e.content_type).is_none(),
        !has_key(m.entries, e.key),
        m.entries.len() == m.policy.max_entries,
        total_size(m.entries) + e.data.len() <= m.policy.max_size,
    ensures
        has_key(put_model(get_model(m, key, now), e).entries, key),
        put_model(get_model(m, key, now), e).entries.len() == m.entries.len(),
{
    let g = get_model(m, key, now);
    law_get_keeps_limits(m, key, now);
    law_recency_read_moves_to_back(m, key, now);
    law_recency_evicts_oldest(g, e);
    let n = g.entries.len() - 1;
    assert(g.entries[n].key == key);
}

/// Eviction stops as soon as there is room: a store that has room loses
/// nothing, and one that loses an entry had no room with it.
pub proof fn law_eviction_is_minimal(p: PolicyModel, s: Seq<EntryModel>, len: nat)
    requires
        distinct_keys(s),
    ensures
        has_room(p, s, len) ==> evict_until_room(p, s, len) == s,
        evict_until_room(p, s, len).len() < s.len() ==> !has_room(p, s, len),
        can_ever_fit(p, len) ==> has_room(p, evict_until_room(p, s, len), len),
{
    lemma_evict_until_room(p, s, len);
}

} // verus!
