use anx_core::cache::{Cache, CacheError, CachePolicy, CacheStrategy};

fn policy(max_size: usize, max_entries: usize, strategy: CacheStrategy) -> CachePolicy {
    CachePolicy {
        enabled: true,
        max_size,
        max_entries,
        default_ttl: 60_000,
        strategy,
        cacheable_content_type_prefixes: Vec::new(),
        min_payload_size: 0,
        max_payload_size: max_size,
    }
}

fn payload(n: usize) -> Vec<u8> {
    vec![7u8; n]
}

#[test]
fn size_matches_stored_payloads() {
    let mut cache = Cache::with_config(policy(100, 10, CacheStrategy::LRU));
    cache.put("a".to_string(), payload(10), None, 0).unwrap();
    cache.put("b".to_string(), payload(20), None, 0).unwrap();
    cache.put("c".to_string(), payload(30), None, 0).unwrap();
    let stats = cache.get_stats();
    assert_eq!(stats.current_size, 60);
    assert_eq!(stats.current_entries, 3);
    cache.remove("b").unwrap();
    let stats = cache.get_stats();
    assert_eq!(stats.current_size, 40);
    assert_eq!(stats.current_entries, 2);
    cache.put("a".to_string(), payload(5), None, 0).unwrap();
    let stats = cache.get_stats();
    assert_eq!(stats.current_size, 35);
    assert_eq!(stats.current_entries, 2);
    cache.clear();
    let stats = cache.get_stats();
    assert_eq!(stats.current_size, 0);
    assert_eq!(stats.current_entries, 0);
}

#[test]
fn size_limit_forces_eviction() {
    let mut cache = Cache::with_config(policy(50, 10, CacheStrategy::LRU));
    cache.put("a".to_string(), payload(20), None, 0).unwrap();
    cache.put("b".to_string(), payload(20), None, 1).unwrap();
    cache.put("c".to_string(), payload(20), None, 2).unwrap();
    let stats = cache.get_stats();
    assert_eq!(stats.current_size, 40);
    assert_eq!(stats.current_entries, 2);
    assert_eq!(stats.evictions, 1);
    assert_eq!(cache.get("a", 3).unwrap_err(), CacheError::Miss);
    assert!(cache.get("b", 3).is_ok());
    assert!(cache.get("c", 3).is_ok());
}

#[test]
fn eviction_stops_when_there_is_room() {
    let mut cache = Cache::with_config(policy(100, 10, CacheStrategy::LRU));
    cache.put("a".to_string(), payload(40), None, 0).unwrap();
    cache.put("b".to_string(), payload(40), None, 1).unwrap();
    cache.put("c".to_string(), payload(20), None, 2).unwrap();
    cache.put("d".to_string(), payload(30), None, 3).unwrap();
    let stats = cache.get_stats();
    assert_eq!(stats.evictions, 1);
    assert_eq!(stats.current_size, 90);
    assert_eq!(stats.current_entries, 3);
}

#[test]
fn recency_evicts_least_recently_touched() {
    let mut cache = Cache::with_config(policy(1000, 3, CacheStrategy::LRU));
    cache.put("a".to_string(), payload(1), None, 0).unwrap();
    cache.put("b".to_string(), payload(1), None, 1).unwrap();
    cache.put("c".to_string(), payload(1), None, 2).unwrap();
    cache.put("d".to_string(), payload(1), None, 3).unwrap();
    assert_eq!(cache.get("a", 4).unwrap_err(), CacheError::Miss);
    assert!(cache.get("b", 4).is_ok());
    assert!(cache.get("c", 4).is_ok());
    assert!(cache.get("d", 4).is_ok());
    assert_eq!(cache.get_stats().evictions, 1);
}

#[test]
fn recency_read_protects_key() {
    let mut cache = Cache::with_config(policy(1000, 3, CacheStrategy::LRU));
    cache.put("a".to_string(), payload(1), None, 0).unwrap();
    cache.put("b".to_string(), payload(1), None, 1).unwrap();
    cache.put("c".to_string(), payload(1), None, 2).unwrap();
    assert!(cache.get("a", 3).is_ok());
    cache.put("d".to_string(), payload(1), None, 4).unwrap();
    assert!(cache.get("a", 5).is_ok());
    assert_eq!(cache.get("b", 5).unwrap_err(), CacheError::Miss);
    assert!(cache.get("c", 5).is_ok());
    assert!(cache.get("d", 5).is_ok());
}

#[test]
fn frequency_evicts_least_read() {
    let mut cache = Cache::with_config(policy(1000, 3, CacheStrategy::LFU));
    cache.put("a".to_string(), payload(1), None, 0).unwrap();
    cache.put("b".to_string(), payload(1), None, 1).unwrap();
    cache.put("c".to_string(), payload(1), None, 2).unwrap();
    assert!(cache.get("a", 3).is_ok());
    assert!(cache.get("a", 3).is_ok());
    assert!(cache.get("c", 3).is_ok());
    cache.put("d".to_string(), payload(1), None, 4).unwrap();
    assert_eq!(cache.get("b", 5).unwrap_err(), CacheError::Miss);
    assert!(cache.get("a", 5).is_ok());
    assert!(cache.get("c", 5).is_ok());
    assert!(cache.get("d", 5).is_ok());
}

#[test]
fn frequency_tie_goes_to_first_entry() {
    let mut cache = Cache::with_config(policy(1000, 2, CacheStrategy::LFU));
    cache.put("a".to_string(), payload(1), None, 0).unwrap();
    cache.put("b".to_string(), payload(1), None, 1).unwrap();
    assert_eq!(cache.select_eviction_candidate(), Some(0));
    cache.put("c".to_string(), payload(1), None, 2).unwrap();
    assert_eq!(cache.get("a", 3).unwrap_err(), CacheError::Miss);
    assert!(cache.get("b", 3).is_ok());
}

#[test]
fn insertion_order_evicts_oldest_despite_reads() {
    let mut cache = Cache::with_config(policy(1000, 3, CacheStrategy::FIFO));
    cache.put("a".to_string(), payload(1), None, 10).unwrap();
    cache.put("b".to_string(), payload(1), None, 20).unwrap();
    cache.put("c".to_string(), payload(1), None, 30).unwrap();
    assert!(cache.get("a", 31).is_ok());
    assert!(cache.get("a", 32).is_ok());
    cache.put("d".to_string(), payload(1), None, 40).unwrap();
    assert_eq!(cache.get("a", 41).unwrap_err(), CacheError::Miss);
    assert!(cache.get("b", 41).is_ok());
}

#[test]
fn select_candidate_on_empty_store_is_none() {
    let cache = Cache::with_config(policy(1000, 3, CacheStrategy::FIFO));
    assert_eq!(cache.select_eviction_candidate(), None);
}

#[test]
fn entry_expires_after_ttl() {
    let mut cache = Cache::with_config(policy(1000, 3, CacheStrategy::LRU));
    cache
        .put_with_metadata("k".to_string(), payload(4), None, None, None, Some(100), 1_000)
        .unwrap();
    assert!(cache.get("k", 1_000).is_ok());
    assert!(cache.get("k", 1_099).is_ok());
    assert_eq!(cache.get("k", 1_150).unwrap_err(), CacheError::Expired);
    assert_eq!(cache.get_stats().current_entries, 1);
}

#[test]
fn age_equal_to_ttl_is_expired() {
    let mut cache = Cache::with_config(policy(1000, 3, CacheStrategy::LRU));
    cache
        .put_with_metadata("k".to_string(), payload(4), None, None, None, Some(100), 0)
        .unwrap();
    assert_eq!(cache.get("k", 100).unwrap_err(), CacheError::Expired);
}

#[test]
fn default_ttl_applies_when_none_given() {
    let mut cache = Cache::with_config(policy(1000, 3, CacheStrategy::LRU));
    cache.put("k".to_string(), payload(4), None, 0).unwrap();
    assert!(cache.get("k", 59_999).is_ok());
    assert_eq!(cache.get("k", 60_000).unwrap_err(), CacheError::Expired);
}

#[test]
fn conditional_validation_by_etag() {
    let mut cache = Cache::with_config(policy(1000, 3, CacheStrategy::LRU));
    cache
        .put_with_metadata(
            "k".to_string(),
            payload(4),
            Some("text/html".to_string()),
            Some("\"abc\"".to_string()),
            None,
            None,
            0,
        )
        .unwrap();
    let hit = cache.get_conditional("k", Some("\"abc\""), None, 1).unwrap();
    assert!(hit.needs_validation);
    assert_eq!(hit.data, payload(4));
    assert_eq!(hit.etag, Some("\"abc\"".to_string()));
    assert_eq!(hit.content_type, Some("text/html".to_string()));
    let other = cache.get_conditional("k", Some("\"xyz\""), None, 1).unwrap();
    assert!(!other.needs_validation);
    assert_eq!(other.data, payload(4));
    let plain = cache.get("k", 1).unwrap();
    assert!(!plain.needs_validation);
}

#[test]
fn conditional_validation_by_date() {
    let mut cache = Cache::with_config(policy(1000, 3, CacheStrategy::LRU));
    cache
        .put_with_metadata("k".to_string(), payload(4), None, None, Some(500), None, 0)
        .unwrap();
    assert!(cache.get_conditional("k", None, Some(500), 1).unwrap().needs_validation);
    assert!(cache.get_conditional("k", None, Some(600), 1).unwrap().needs_validation);
    assert!(!cache.get_conditional("k", None, Some(499), 1).unwrap().needs_validation);
    assert_eq!(cache.get_conditional("k", None, Some(499), 1).unwrap().last_modified, Some(500));
    cache.put("n".to_string(), payload(4), None, 0).unwrap();
    assert!(!cache.get_conditional("n", None, Some(600), 1).unwrap().needs_validation);
    assert!(!cache.get_conditional("n", Some("\"abc\""), None, 1).unwrap().needs_validation);
}

#[test]
fn etag_is_deterministic() {
    let a = Cache::generate_etag(b"hello", None);
    let b = Cache::generate_etag(b"hello", None);
    let c = Cache::generate_etag(b"world", None);
    assert_eq!(a, b);
    assert_ne!(a, c);
    assert_eq!(a, "\"5d41402abc4b2a76b9719d911017c592\"");
}

#[test]
fn etag_of_empty_content() {
    assert_eq!(Cache::generate_etag(b"", None), "\"d41d8cd98f00b204e9800998ecf8427e\"");
}

#[test]
fn etag_with_modification_time() {
    let a = Cache::generate_etag(b"hello", Some(255));
    assert_eq!(a, "\"5d41402abc4b2a76b9719d911017c592-00000000000000ff\"");
    assert_eq!(a, Cache::generate_etag(b"hello", Some(255)));
    assert_ne!(a, Cache::generate_etag(b"hello", Some(256)));
    assert_ne!(a, Cache::generate_etag(b"hello", None));
}

#[test]
fn format_etag_writes_hex_digits() {
    assert_eq!(anx_core::cache::format_etag(&[0x00, 0x0f, 0xa5, 0xff], None), "\"000fa5ff\"");
    assert_eq!(
        anx_core::cache::format_etag(&[0x12], Some(0x0123_4567_89ab_cdef)),
        "\"12-0123456789abcdef\""
    );
    assert_eq!(anx_core::cache::format_etag(&[], None), "\"\"");
}

#[test]
fn stats_accounting() {
    let mut cache = Cache::with_config(policy(1000, 3, CacheStrategy::LRU));
    cache.put("k".to_string(), payload(4), None, 0).unwrap();
    assert!(cache.get("k", 1).is_ok());
    assert_eq!(cache.get("missing", 1).unwrap_err(), CacheError::Miss);
    let stats = cache.get_stats();
    assert_eq!(stats.puts, 1);
    assert_eq!(stats.hits, 1);
    assert_eq!(stats.misses, 1);
    assert_eq!(stats.evictions, 0);
    assert_eq!(stats.hit_rate_permille(), 500);
    let rate = stats.hits as f64 / (stats.hits + stats.misses) as f64;
    assert_eq!(rate, 0.5);
}

#[test]
fn hit_rate_of_unused_cache_is_zero() {
    let cache = Cache::with_config(policy(1000, 3, CacheStrategy::LRU));
    assert_eq!(cache.get_stats().hit_rate_permille(), 0);
}

#[test]
fn hit_rate_rounds_down() {
    let mut cache = Cache::with_config(policy(1000, 3, CacheStrategy::LRU));
    cache.put("k".to_string(), payload(4), None, 0).unwrap();
    assert!(cache.get("k", 1).is_ok());
    assert!(cache.get("x", 1).is_err());
    assert!(cache.get("y", 1).is_err());
    assert_eq!(cache.get_stats().hit_rate_permille(), 333);
}

#[test]
fn payload_below_minimum_is_rejected() {
    let mut p = policy(1000, 3, CacheStrategy::LRU);
    p.min_payload_size = 10;
    p.max_payload_size = 20;
    let mut cache = Cache::with_config(p);
    cache.put("ok".to_string(), payload(10), None, 0).unwrap();
    let before = cache.get_stats();
    assert_eq!(cache.put("k".to_string(), payload(9), None, 0), Err(CacheError::InvalidConfig));
    assert_eq!(cache.get_stats(), before);
}

#[test]
fn payload_above_maximum_is_rejected() {
    let mut p = policy(1000, 3, CacheStrategy::LRU);
    p.min_payload_size = 10;
    p.max_payload_size = 20;
    let mut cache = Cache::with_config(p);
    cache.put("ok".to_string(), payload(20), None, 0).unwrap();
    let before = cache.get_stats();
    assert_eq!(cache.put("k".to_string(), payload(21), None, 0), Err(CacheError::InvalidConfig));
    assert_eq!(cache.get_stats(), before);
    assert_eq!(before.current_size, 20);
    assert_eq!(before.current_entries, 1);
}

#[test]
fn empty_payload_bypasses_size_bounds() {
    let mut p = policy(1000, 3, CacheStrategy::LRU);
    p.min_payload_size = 10;
    let mut cache = Cache::with_config(p);
    assert_eq!(cache.put("redirect".to_string(), Vec::new(), None, 0), Ok(()));
    assert_eq!(cache.get_stats().current_entries, 1);
    assert_eq!(cache.get_stats().current_size, 0);
    assert_eq!(cache.get("redirect", 1).unwrap().data, Vec::<u8>::new());
}

#[test]
fn disabled_cache_rejects_put() {
    let mut cache = Cache::with_config(policy(1000, 3, CacheStrategy::LRU));
    cache.set_enabled(false);
    assert_eq!(cache.put("k".to_string(), payload(4), None, 0), Err(CacheError::InvalidConfig));
    assert_eq!(cache.get_stats().puts, 0);
    cache.set_enabled(true);
    assert_eq!(cache.put("k".to_string(), payload(4), None, 0), Ok(()));
}

#[test]
fn content_type_allowlist() {
    let mut p = policy(1000, 3, CacheStrategy::LRU);
    p.cacheable_content_type_prefixes = vec!["text/".to_string(), "image/png".to_string()];
    let mut cache = Cache::with_config(p);
    assert!(cache.is_cacheable_type("text/html"));
    assert!(cache.is_cacheable_type("image/png"));
    assert!(!cache.is_cacheable_type("image/jpeg"));
    assert!(!cache.is_cacheable_type("tex"));
    assert_eq!(
        cache.put("a".to_string(), payload(4), Some("text/css".to_string()), 0),
        Ok(())
    );
    assert_eq!(
        cache.put("b".to_string(), payload(4), Some("video/mp4".to_string()), 0),
        Err(CacheError::InvalidConfig)
    );
    assert_eq!(cache.put("c".to_string(), payload(4), None, 0), Ok(()));
    assert_eq!(cache.get_stats().current_entries, 2);
}

#[test]
fn empty_allowlist_accepts_every_type() {
    let mut cache = Cache::with_config(policy(1000, 3, CacheStrategy::LRU));
    assert!(cache.is_cacheable_type("video/mp4"));
    assert_eq!(
        cache.put("b".to_string(), payload(4), Some("video/mp4".to_string()), 0),
        Ok(())
    );
}

#[test]
fn basic_cache_admits_web_types_only() {
    let mut cache = Cache::new(1000, 3, 0, 1000, 60_000);
    assert!(cache.is_cacheable_type("text/html"));
    assert!(cache.is_cacheable_type("application/json"));
    assert!(cache.is_cacheable_type("application/javascript"));
    assert!(cache.is_cacheable_type("application/xml"));
    assert!(cache.is_cacheable_type("image/png"));
    assert!(cache.is_cacheable_type("font/woff2"));
    assert!(cache.is_cacheable_type("application/x-font-ttf"));
    assert!(!cache.is_cacheable_type("video/mp4"));
    assert_eq!(
        cache.put("v".to_string(), payload(4), Some("video/mp4".to_string()), 0),
        Err(CacheError::InvalidConfig)
    );
    assert_eq!(
        cache.put("t".to_string(), payload(4), Some("text/plain".to_string()), 0),
        Ok(())
    );
}

#[test]
fn payload_larger_than_cache_is_full() {
    let mut cache = Cache::with_config(policy(10, 3, CacheStrategy::LRU));
    let mut p = policy(10, 3, CacheStrategy::LRU);
    p.max_payload_size = 1000;
    let mut big = Cache::with_config(p);
    big.put("a".to_string(), payload(5), None, 0).unwrap();
    let before = big.get_stats();
    assert_eq!(big.put("k".to_string(), payload(11), None, 0), Err(CacheError::Full));
    assert_eq!(big.get_stats(), before);
    assert!(big.get("a", 1).is_ok());
    assert_eq!(cache.put("k".to_string(), payload(10), None, 0), Ok(()));
}

#[test]
fn cache_without_entries_allowed_is_full() {
    let mut cache = Cache::with_config(policy(10, 0, CacheStrategy::LRU));
    assert_eq!(cache.put("k".to_string(), payload(1), None, 0), Err(CacheError::Full));
    assert_eq!(cache.get_stats().current_entries, 0);
}

#[test]
fn put_replaces_entry_under_same_key() {
    let mut cache = Cache::with_config(policy(1000, 3, CacheStrategy::LRU));
    cache.put("k".to_string(), vec![1, 2, 3], None, 0).unwrap();
    cache.put("k".to_string(), vec![9, 9], None, 1).unwrap();
    let stats = cache.get_stats();
    assert_eq!(stats.current_entries, 1);
    assert_eq!(stats.current_size, 2);
    assert_eq!(stats.puts, 2);
    assert_eq!(stats.evictions, 0);
    assert_eq!(cache.get("k", 2).unwrap().data, vec![9, 9]);
}

#[test]
fn remove_reports_miss_for_absent_key() {
    let mut cache = Cache::with_config(policy(1000, 3, CacheStrategy::LRU));
    cache.put("k".to_string(), payload(4), None, 0).unwrap();
    assert_eq!(cache.remove("other"), Err(CacheError::Miss));
    assert_eq!(cache.remove("k"), Ok(()));
    assert_eq!(cache.remove("k"), Err(CacheError::Miss));
    assert_eq!(cache.get_stats().current_size, 0);
}

#[test]
fn cleanup_removes_only_expired_entries() {
    let mut cache = Cache::with_config(policy(1000, 10, CacheStrategy::LRU));
    cache.put_with_metadata("a".to_string(), payload(1), None, None, None, Some(10), 0).unwrap();
    cache.put_with_metadata("b".to_string(), payload(2), None, None, None, Some(100), 0).unwrap();
    cache.put_with_metadata("c".to_string(), payload(4), None, None, None, Some(50), 0).unwrap();
    cache.put_with_metadata("d".to_string(), payload(8), None, None, None, Some(51), 0).unwrap();
    cache.cleanup_expired(50);
    let stats = cache.get_stats();
    assert_eq!(stats.current_entries, 2);
    assert_eq!(stats.current_size, 10);
    assert_eq!(stats.evictions, 0);
    assert_eq!(cache.get("a", 50).unwrap_err(), CacheError::Miss);
    assert_eq!(cache.get("c", 50).unwrap_err(), CacheError::Miss);
    assert!(cache.get("b", 50).is_ok());
    assert!(cache.get("d", 50).is_ok());
}

#[test]
fn clear_on_empty_cache_changes_nothing() {
    let mut cache = Cache::with_config(policy(1000, 3, CacheStrategy::LRU));
    let before = cache.get_stats();
    cache.clear();
    assert_eq!(cache.get_stats(), before);
    assert_eq!(cache.get_stats().current_size, 0);
    assert_eq!(cache.get_stats().current_entries, 0);
}

#[test]
fn clear_resets_hits_misses_and_evictions() {
    let mut cache = Cache::new(1000, 10, 0, 1000, 60_000);
    cache.put("k".to_string(), vec![1, 2, 3], Some("text/plain".to_string()), 0).unwrap();
    assert!(cache.get("k", 1).is_ok());
    assert_eq!(cache.get("absent", 1).unwrap_err(), CacheError::Miss);
    let before = cache.get_stats();
    assert_eq!(before.hits, 1);
    assert_eq!(before.misses, 1);
    cache.clear();
    let once = cache.get_stats();
    assert_eq!(once.current_entries, 0);
    assert_eq!(once.current_size, 0);
    assert_eq!(once.hits, 0);
    assert_eq!(once.misses, 0);
    assert_eq!(once.evictions, 0);
    assert_eq!(once.puts, 1);
    cache.clear();
    assert_eq!(cache.get_stats(), once);
}

#[test]
fn clear_resets_eviction_count() {
    let mut cache = Cache::with_config(policy(1000, 1, CacheStrategy::LRU));
    cache.put("a".to_string(), payload(1), None, 0).unwrap();
    cache.put("b".to_string(), payload(1), None, 1).unwrap();
    assert_eq!(cache.get_stats().evictions, 1);
    cache.clear();
    let stats = cache.get_stats();
    assert_eq!(stats.evictions, 0);
    assert_eq!(stats.puts, 2);
    assert_eq!(cache.get("b", 2).unwrap_err(), CacheError::Miss);
    assert_eq!(cache.get_stats().misses, 1);
}

#[test]
fn disabled_cache_serves_nothing_and_counts_nothing() {
    let mut cache = Cache::with_config(policy(1000, 3, CacheStrategy::LRU));
    cache.put("k".to_string(), vec![4, 5, 6], None, 0).unwrap();
    assert!(cache.get("k", 1).is_ok());
    assert!(cache.get("absent", 1).is_err());
    let before = cache.get_stats();
    cache.set_enabled(false);
    assert_eq!(cache.put("n".to_string(), payload(1), None, 2), Err(CacheError::InvalidConfig));
    assert_eq!(cache.get("k", 2).unwrap_err(), CacheError::InvalidConfig);
    assert_eq!(cache.get("absent", 2).unwrap_err(), CacheError::InvalidConfig);
    assert_eq!(
        cache.get_conditional("k", Some("\"abc\""), Some(5), 2).unwrap_err(),
        CacheError::InvalidConfig
    );
    assert_eq!(cache.get_stats(), before);
    cache.set_enabled(true);
    let again = cache.get("k", 3).unwrap();
    assert_eq!(again.data, vec![4, 5, 6]);
    let after = cache.get_stats();
    assert_eq!(after.hits, before.hits + 1);
    assert_eq!(after.misses, before.misses);
    assert_eq!(after.current_entries, before.current_entries);
    assert_eq!(after.current_size, before.current_size);
}

#[test]
fn disabled_read_does_not_touch_recency() {
    let mut cache = Cache::with_config(policy(1000, 2, CacheStrategy::LRU));
    cache.put("a".to_string(), payload(1), None, 0).unwrap();
    cache.put("b".to_string(), payload(1), None, 1).unwrap();
    cache.set_enabled(false);
    assert!(cache.get("a", 2).is_err());
    cache.set_enabled(true);
    cache.put("c".to_string(), payload(1), None, 3).unwrap();
    assert_eq!(cache.get("a", 4).unwrap_err(), CacheError::Miss);
    assert!(cache.get("b", 4).is_ok());
}

#[test]
fn disabled_cache_still_removes_and_sweeps() {
    let mut cache = Cache::with_config(policy(1000, 3, CacheStrategy::LRU));
    cache.put_with_metadata("a".to_string(), payload(1), None, None, None, Some(10), 0).unwrap();
    cache.put("b".to_string(), payload(2), None, 0).unwrap();
    cache.set_enabled(false);
    cache.cleanup_expired(10);
    assert_eq!(cache.get_stats().current_entries, 1);
    assert_eq!(cache.remove("b"), Ok(()));
    assert_eq!(cache.get_stats().current_size, 0);
}

#[test]
fn strategy_identifiers() {
    assert_eq!(anx_core::cache::strategy_from_id(0), CacheStrategy::LRU);
    assert_eq!(anx_core::cache::strategy_from_id(1), CacheStrategy::LFU);
    assert_eq!(anx_core::cache::strategy_from_id(2), CacheStrategy::FIFO);
    assert_eq!(anx_core::cache::strategy_from_id(3), CacheStrategy::LRU);
    assert_eq!(anx_core::cache::strategy_from_id(-1), CacheStrategy::LRU);
    assert_eq!(anx_core::cache::strategy_from_id(i32::MAX), CacheStrategy::LRU);
}

#[test]
fn zero_stands_for_no_time() {
    assert_eq!(anx_core::cache::time_from_wire(0), None);
    assert_eq!(anx_core::cache::time_from_wire(1), Some(1));
    assert_eq!(anx_core::cache::time_from_wire(u64::MAX), Some(u64::MAX));
    assert_eq!(anx_core::cache::time_to_wire(None), 0);
    assert_eq!(anx_core::cache::time_to_wire(Some(1_700_000_000)), 1_700_000_000);
    assert_eq!(anx_core::cache::ttl_from_wire(0), None);
    assert_eq!(anx_core::cache::ttl_from_wire(60), Some(60_000));
    assert_eq!(anx_core::cache::ttl_from_wire(u64::MAX), Some(u64::MAX));
}

#[test]
fn seconds_to_milliseconds_saturate() {
    assert_eq!(anx_core::cache::secs_to_millis(0), 0);
    assert_eq!(anx_core::cache::secs_to_millis(3600), 3_600_000);
    assert_eq!(anx_core::cache::secs_to_millis(u64::MAX / 1000), u64::MAX / 1000 * 1000);
    assert_eq!(anx_core::cache::secs_to_millis(u64::MAX / 1000 + 1), u64::MAX);
}

#[test]
fn policy_from_four_settings() {
    let p = anx_core::cache::policy_from_parts(500, 7, 30, 2);
    assert_eq!(p.max_size, 500);
    assert_eq!(p.max_entries, 7);
    assert_eq!(p.default_ttl, 30_000);
    assert_eq!(p.strategy, CacheStrategy::FIFO);
    let d = CachePolicy::default();
    assert_eq!(p.enabled, d.enabled);
    assert_eq!(p.min_payload_size, d.min_payload_size);
    assert_eq!(p.max_payload_size, d.max_payload_size);
    assert_eq!(p.cacheable_content_type_prefixes, d.cacheable_content_type_prefixes);
    assert_eq!(anx_core::cache::policy_from_parts(1, 1, 1, 9).strategy, CacheStrategy::LRU);
}

#[test]
fn default_policy_values() {
    let d = CachePolicy::default();
    assert!(d.enabled);
    assert_eq!(d.max_size, 100 * 1024 * 1024);
    assert_eq!(d.max_entries, 10_000);
    assert_eq!(d.default_ttl, 3_600_000);
    assert_eq!(d.strategy, CacheStrategy::LRU);
    assert_eq!(d.min_payload_size, 0);
    assert_eq!(d.max_payload_size, 10 * 1024 * 1024);
    assert_eq!(d.cacheable_content_type_prefixes.len(), 7);
}
