//! Facts about the model that the proofs of the cache operations rest on.

use vstd::prelude::*;
use crate::cache::model::{
    CacheStrategy, EntryModel, PolicyModel, distinct_keys, evict_until_room, has_key, has_room,
    index_of_key, is_victim, rank, total_size, victim_index, without_key, can_ever_fit, bump,
    bump_by, fresh_entries, is_fresh,
};

verus! {

/// Appending an entry adds its payload length to the total.
pub proof fn lemma_total_size_push(s: Seq<EntryModel>, e: EntryModel)
    ensures
        total_size(s.push(e)) == total_size(s) + e.data.len(),
{
    assert(s.push(e).drop_last() =~= s);
}

/// Removing the entry at `i` takes its payload length off the total.
pub proof fn lemma_total_size_remove(s: Seq<EntryModel>, i: int)
    requires
        0 <= i < s.len(),
    ensures
        total_size(s.remove(i)) + s[i].data.len() == total_size(s),
    decreases s.len(),
{
    if i == s.len() - 1 {
        assert(s.remove(i) =~= s.drop_last());
    } else {
        lemma_total_size_remove(s.drop_last(), i);
        assert(s.remove(i).drop_last() =~= s.drop_last().remove(i));
        assert(s.remove(i).last() == s.last());
    }
}

/// Replacing an entry by one with the same payload keeps the total.
pub proof fn lemma_total_size_update(s: Seq<EntryModel>, i: int, e: EntryModel)
    requires
        0 <= i < s.len(),
        e.data.len() == s[i].data.len(),
    ensures
        total_size(s.update(i, e)) == total_size(s),
    decreases s.len(),
{
    if i == s.len() - 1 {
        assert(s.update(i, e).drop_last() =~= s.drop_last());
    } else {
        lemma_total_size_update(s.drop_last(), i, e);
        assert(s.update(i, e).drop_last() =~= s.drop_last().update(i, e));
    }
}

/// With distinct keys, the position of a key is the one place that holds it.
pub proof fn lemma_index_of_key(s: Seq<EntryModel>, i: int)
    requires
        distinct_keys(s),
        0 <= i < s.len(),
    ensures
        has_key(s, s[i].key),
        index_of_key(s, s[i].key) == i,
{
    let key = s[i].key;
    assert(s[i].key == key);
    let j = index_of_key(s, key);
    assert(0 <= j < s.len() && s[j].key == key);
    if j < i {
        assert(s[j].key != s[i].key);
    } else if i < j {
        assert(s[i].key != s[j].key);
    }
}

/// Removing an entry keeps the keys distinct, and its own key is gone.
pub proof fn lemma_remove_keeps_distinct(s: Seq<EntryModel>, i: int)
    requires
        distinct_keys(s),
        0 <= i < s.len(),
    ensures
        distinct_keys(s.remove(i)),
        !has_key(s.remove(i), s[i].key),
        forall|k: Seq<char>| k != s[i].key ==> (has_key(s.remove(i), k) <==> has_key(s, k)),
{
    let r = s.remove(i);
    assert forall|a: int, b: int| 0 <= a < b < r.len() implies r[a].key != r[b].key by {
        let a2 = if a < i { a } else { a + 1 };
        let b2 = if b < i { b } else { b + 1 };
        assert(r[a] == s[a2] && r[b] == s[b2]);
    }
    assert forall|a: int| 0 <= a < r.len() implies r[a].key != s[i].key by {
        let a2 = if a < i { a } else { a + 1 };
        assert(r[a] == s[a2]);
        if a2 < i {
            assert(s[a2].key != s[i].key);
        } else {
            assert(s[i].key != s[a2].key);
        }
    }
    assert forall|k: Seq<char>| k != s[i].key implies (has_key(r, k) <==> has_key(s, k)) by {
        if has_key(r, k) {
            let a = index_of_key(r, k);
            let a2 = if a < i { a } else { a + 1 };
            assert(r[a] == s[a2]);
            assert(s[a2].key == k);
        }
        if has_key(s, k) {
            let a = index_of_key(s, k);
            let a2 = if a < i { a } else { a - 1 };
            assert(r[a2] == s[a]);
            assert(r[a2].key == k);
        }
    }
}

/// Dropping a key keeps the keys distinct and leaves the key absent.
pub proof fn lemma_without_key(s: Seq<EntryModel>, key: Seq<char>)
    requires
        distinct_keys(s),
    ensures
        distinct_keys(without_key(s, key)),
        !has_key(without_key(s, key), key),
        without_key(s, key).len() <= s.len(),
        total_size(without_key(s, key)) <= total_size(s),
        forall|k: Seq<char>| k != key ==> (has_key(without_key(s, key), k) <==> has_key(s, k)),
{
    if has_key(s, key) {
        let i = index_of_key(s, key);
        lemma_remove_keeps_distinct(s, i);
        lemma_total_size_remove(s, i);
    }
}

/// Appending an entry under a key that is absent keeps the keys distinct.
pub proof fn lemma_push_keeps_distinct(s: Seq<EntryModel>, e: EntryModel)
    requires
        distinct_keys(s),
        !has_key(s, e.key),
    ensures
        distinct_keys(s.push(e)),
        has_key(s.push(e), e.key),
{
    let r = s.push(e);
    assert forall|a: int, b: int| 0 <= a < b < r.len() implies r[a].key != r[b].key by {
        if b == s.len() {
            assert(r[a] == s[a]);
            if s[a].key == e.key {
                assert(has_key(s, e.key));
            }
        } else {
            assert(r[a] == s[a] && r[b] == s[b]);
        }
    }
    assert(r[s.len() as int].key == e.key);
}

/// A non-empty store has exactly one victim.
pub proof fn lemma_victim_exists(strategy: CacheStrategy, s: Seq<EntryModel>)
    requires
        s.len() > 0,
    ensures
        is_victim(strategy, s, victim_index(strategy, s)),
    decreases s.len(),
{
    if s.len() == 1 {
        assert(is_victim(strategy, s, 0));
    } else {
        let t = s.drop_last();
        lemma_victim_exists(strategy, t);
        let b = victim_index(strategy, t);
        assert(forall|j: int| 0 <= j < t.len() ==> t[j] == s[j]);
        if rank(strategy, s.last()) < rank(strategy, s[b]) {
            let n = s.len() - 1;
            assert forall|j: int| 0 <= j < n implies rank(strategy, s[n]) < rank(
                strategy,
                #[trigger] s[j],
            ) by {
                assert(rank(strategy, t[b]) <= rank(strategy, t[j]));
            }
            assert(is_victim(strategy, s, n));
        } else {
            assert forall|j: int| 0 <= j < s.len() implies rank(strategy, s[b]) <= rank(
                strategy,
                #[trigger] s[j],
            ) by {
                if j < t.len() {
                    assert(rank(strategy, t[b]) <= rank(strategy, t[j]));
                }
            }
            assert forall|j: int| 0 <= j < b implies rank(strategy, s[b]) < rank(
                strategy,
                #[trigger] s[j],
            ) by {
                assert(rank(strategy, t[b]) < rank(strategy, t[j]));
            }
            assert(is_victim(strategy, s, b));
        }
    }
}

/// Two positions that both qualify as the victim are the same position.
pub proof fn lemma_victim_unique(strategy: CacheStrategy, s: Seq<EntryModel>, i: int, j: int)
    requires
        is_victim(strategy, s, i),
        is_victim(strategy, s, j),
    ensures
        i == j,
{
    if i < j {
        assert(rank(strategy, s[j]) < rank(strategy, s[i]));
        assert(rank(strategy, s[i]) <= rank(strategy, s[j]));
    } else if j < i {
        assert(rank(strategy, s[i]) < rank(strategy, s[j]));
        assert(rank(strategy, s[j]) <= rank(strategy, s[i]));
    }
}

/// Eviction keeps keys distinct, only ever drops entries, and ends with room
/// for the payload whenever an empty store would have room for it.
pub proof fn lemma_evict_until_room(p: PolicyModel, s: Seq<EntryModel>, len: nat)
    requires
        distinct_keys(s),
    ensures
        distinct_keys(evict_until_room(p, s, len)),
        evict_until_room(p, s, len).len() <= s.len(),
        total_size(evict_until_room(p, s, len)) <= total_size(s),
        can_ever_fit(p, len) ==> has_room(p, evict_until_room(p, s, len), len),
        has_room(p, s, len) ==> evict_until_room(p, s, len) == s,
        forall|k: Seq<char>| has_key(evict_until_room(p, s, len), k) ==> has_key(s, k),
    decreases s.len(),
{
    if s.len() == 0 || has_room(p, s, len) {
        if s.len() == 0 {
            assert(total_size(s) == 0);
        }
    } else {
        lemma_victim_exists(p.strategy, s);
        let v = victim_index(p.strategy, s);
        let r = s.remove(v);
        lemma_remove_keeps_distinct(s, v);
        lemma_total_size_remove(s, v);
        lemma_evict_until_room(p, r, len);
        let out = evict_until_room(p, r, len);
        assert forall|k: Seq<char>| has_key(out, k) implies has_key(s, k) by {
            assert(has_key(r, k));
            if k == s[v].key {
                assert(false);
            }
        }
    }
}

/// Replacing an entry by one with the same key keeps the keys distinct.
pub proof fn lemma_update_keeps_distinct(s: Seq<EntryModel>, i: int, e: EntryModel)
    requires
        distinct_keys(s),
        0 <= i < s.len(),
        e.key == s[i].key,
    ensures
        distinct_keys(s.update(i, e)),
{
    let r = s.update(i, e);
    assert forall|a: int, b: int| 0 <= a < b < r.len() implies r[a].key != r[b].key by {
        assert(r[a].key == s[a].key && r[b].key == s[b].key);
    }
}

/// One more event after `n` events is `n + 1` events.
pub proof fn lemma_bump_by_step(c: u64, n: nat)
    ensures
        bump(bump_by(c, n)) == bump_by(c, n + 1),
        bump_by(c, 0) == c,
{
}

/// Sweeping a store extended by one entry keeps that entry exactly when it
/// is fresh.
pub proof fn lemma_fresh_entries_push(s: Seq<EntryModel>, e: EntryModel, now: u64)
    ensures
        fresh_entries(s.push(e), now) == if is_fresh(e, now) {
            fresh_entries(s, now).push(e)
        } else {
            fresh_entries(s, now)
        },
{
    reveal(Seq::filter);
    assert(s.push(e).drop_last() =~= s);
}

/// Sweeping an empty store leaves it empty.
pub proof fn lemma_fresh_entries_empty(now: u64)
    ensures
        fresh_entries(Seq::<EntryModel>::empty(), now) == Seq::<EntryModel>::empty(),
{
    reveal(Seq::filter);
}

} // verus!
