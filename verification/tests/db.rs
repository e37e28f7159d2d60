use fetchless::db::{cache_key, compute_stats, fresh_entry, CacheRow, DataTotals, PromptTotals};

fn row(payload: &str, fetched_at: i64, ttl_sec: i64) -> CacheRow {
    CacheRow { payload: payload.to_string(), original_tokens: 100, cleaned_tokens: 10, fetched_at, ttl_sec }
}

#[test]
fn cache_key_is_sha256_prefix() {
    // SHA-256("abc") = ba7816bf8f01cfea414140de5dae2223b00361a396177a9cb410ff61f20015ad
    assert_eq!(cache_key("abc"), "ba7816bf8f01cfea");
    assert_eq!(cache_key("https://example.com").len(), 16);
    assert_eq!(cache_key("https://example.com"), cache_key("https://example.com"));
    assert_ne!(cache_key("https://example.com"), cache_key("https://example.org"));
}

#[test]
fn entry_fresh_within_ttl() {
    let e = fresh_entry(row("content", 1000, 300), 1299).unwrap();
    assert_eq!(e.payload, "content");
    assert_eq!(e.original_tokens, 100);
    assert_eq!(e.cleaned_tokens, 10);
}

#[test]
fn entry_expired_at_ttl() {
    assert!(fresh_entry(row("content", 1000, 300), 1300).is_none());
}

#[test]
fn zero_ttl_never_fresh() {
    assert!(fresh_entry(row("old", 50, 0), 50).is_none());
}

#[test]
fn stats_subtract_per_layer() {
    let stats = compute_stats(
        &PromptTotals { count: 1, original_tokens: 200, optimized_tokens: 150 },
        &DataTotals { count: 2, original_tokens: 1500, cleaned_tokens: 150, cache_hits: 1 },
    );
    assert_eq!(stats.layer1_refine_requests, 1);
    assert_eq!(stats.layer1_tokens_saved, 50);
    assert_eq!(stats.layer2_fetch_requests, 2);
    assert_eq!(stats.layer2_tokens_saved, 1350);
    assert_eq!(stats.layer2_cache_hits, 1);
    assert_eq!(stats.total_tokens_saved, 1400);
}

#[test]
fn stats_of_empty_logs_are_zero() {
    let stats = compute_stats(
        &PromptTotals { count: 0, original_tokens: 0, optimized_tokens: 0 },
        &DataTotals { count: 0, original_tokens: 0, cleaned_tokens: 0, cache_hits: 0 },
    );
    assert_eq!(stats.total_tokens_saved, 0);
}
