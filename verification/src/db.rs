//! The rules of the response cache and of the usage statistics; the
//! SQLite storage itself is driven by the application around them.

use vstd::prelude::*;
use sha2::{Digest, Sha256};
use crate::text::push_char;

verus! {

/// A cached cleaned response with its token counts.
#[derive(Debug, Clone)]
pub struct CacheEntry {
    pub payload: String,
    pub original_tokens: i64,
    pub cleaned_tokens: i64,
}

/// A row of the cache table as read back: the entry, when it was fetched
/// and for how many seconds it stays valid.
pub struct CacheRow {
    pub payload: String,
    pub original_tokens: i64,
    pub cleaned_tokens: i64,
    pub fetched_at: i64,
    pub ttl_sec: i64,
}

/// What SHA-256 (the `sha2` crate) computes of a byte string.
pub uninterp spec fn sha256(data: Seq<u8>) -> Seq<u8>;

/// Calls `sha2::Sha256::digest`: the 32-byte SHA-256 digest, named by
/// `sha256`.
#[verifier::external_body]
fn sha256_digest(data: &[u8]) -> (r: Vec<u8>)
    ensures
        r@ == sha256(data@),
        r@.len() == 32,
{
    Sha256::digest(data).to_vec()
}

pub open spec fn hex_digit_of(d: nat) -> char {
    if d < 10 {
        crate::text::digit_char(d)
    } else if d == 10 { 'a' }
    else if d == 11 { 'b' }
    else if d == 12 { 'c' }
    else if d == 13 { 'd' }
    else if d == 14 { 'e' }
    else { 'f' }
}

/// Lowercase hexadecimal, two digits per byte (what `{:x}` prints for a
/// digest).
pub open spec fn hex_pairs(bytes: Seq<u8>) -> Seq<char>
    decreases bytes.len(),
{
    if bytes.len() == 0 {
        Seq::empty()
    } else {
        hex_pairs(bytes.drop_last()) + seq![
            hex_digit_of((bytes.last() / 16) as nat),
            hex_digit_of((bytes.last() % 16) as nat),
        ]
    }
}

/// The cache key of a URL: the first 16 hexadecimal digits of the SHA-256
/// digest of its UTF-8 bytes.
pub open spec fn spec_cache_key(url: Seq<char>) -> Seq<char> {
    hex_pairs(sha256(vstd::utf8::encode_utf8(url))).take(16)
}

proof fn lemma_hex_pairs_len(bytes: Seq<u8>)
    ensures
        hex_pairs(bytes).len() == 2 * bytes.len(),
    decreases bytes.len(),
{
    if bytes.len() > 0 {
        lemma_hex_pairs_len(bytes.drop_last());
    }
}

/// The hexadecimal text of a prefix is a prefix of the hexadecimal text.
proof fn lemma_hex_pairs_prefix(bytes: Seq<u8>, n: int)
    requires
        0 <= n <= bytes.len(),
    ensures
        hex_pairs(bytes.take(n)) == hex_pairs(bytes).take(2 * n),
    decreases bytes.len(),
{
    lemma_hex_pairs_len(bytes);
    lemma_hex_pairs_len(bytes.take(n));
    if n == bytes.len() {
        assert(bytes.take(n) =~= bytes);
        assert(hex_pairs(bytes).take(2 * n) =~= hex_pairs(bytes));
    } else {
        lemma_hex_pairs_prefix(bytes.drop_last(), n);
        assert(bytes.drop_last().take(n) =~= bytes.take(n));
        lemma_hex_pairs_len(bytes.drop_last());
        assert(hex_pairs(bytes).take(2 * n) =~= hex_pairs(bytes.drop_last()).take(2 * n));
    }
}

fn hex_digit_char_of(d: u8) -> (c: char)
    requires
        d < 16,
    ensures
        c == hex_digit_of(d as nat),
{
    if d < 10 {
        crate::text::digit(d as u128)
    } else if d == 10 { 'a' }
    else if d == 11 { 'b' }
    else if d == 12 { 'c' }
    else if d == 13 { 'd' }
    else if d == 14 { 'e' }
    else { 'f' }
}

/// The cache key of a URL: the first 16 lowercase hexadecimal digits of
/// the SHA-256 digest of the URL.
pub fn cache_key(url: &str) -> (r: String)
    ensures
        r@ == spec_cache_key(url@),
        r@.len() == 16,
{
    let digest = sha256_digest(url.as_bytes());
    let mut key = String::new();
    let mut i: usize = 0;
    while i < 8
        invariant
            i <= 8,
            digest@.len() == 32,
            key@ == hex_pairs(digest@.take(i as int)),
        decreases 8 - i,
    {
        proof {
            assert(digest@.take(i + 1).drop_last() =~= digest@.take(i as int));
        }
        push_char(&mut key, hex_digit_char_of(digest[i] / 16));
        push_char(&mut key, hex_digit_char_of(digest[i] % 16));
        i = i + 1;
    }
    proof {
        lemma_hex_pairs_prefix(digest@, 8);
        lemma_hex_pairs_len(digest@.take(8));
    }
    key
}

/// A cached row is still valid: less than `ttl_sec` seconds have passed
/// since it was fetched.
pub open spec fn is_fresh(now: int, fetched_at: int, ttl_sec: int) -> bool {
    now - fetched_at < ttl_sec
}

/// The entry of a cached row read at `now`: the stored payload and
/// counts while the row is valid, nothing after.
pub open spec fn spec_fresh_entry(row: CacheRow, now: int) -> Option<CacheEntry> {
    if is_fresh(now, row.fetched_at as int, row.ttl_sec as int) {
        Some(CacheEntry { payload: row.payload, original_tokens: row.original_tokens, cleaned_tokens: row.cleaned_tokens })
    } else {
        None
    }
}

/// The entry of a cached row when it is still valid at `now`.
pub fn fresh_entry(row: CacheRow, now: i64) -> (r: Option<CacheEntry>)
    requires
        i64::MIN <= now - row.fetched_at <= i64::MAX,
    ensures
        r == spec_fresh_entry(row, now as int),
        r is Some <==> is_fresh(now as int, row.fetched_at as int, row.ttl_sec as int),
{
    if now - row.fetched_at < row.ttl_sec {
        Some(CacheEntry {
            payload: row.payload,
            original_tokens: row.original_tokens,
            cleaned_tokens: row.cleaned_tokens,
        })
    } else {
        None
    }
}

/// A time to live of zero seconds never keeps anything: a row is never
/// valid at or after the moment it was fetched.
pub proof fn lemma_zero_ttl_never_fresh(now: int, fetched_at: int)
    requires
        now >= fetched_at,
    ensures
        !is_fresh(now, fetched_at, 0),
{
}

/// Within its time to live a row stays valid, and it expires for good.
pub proof fn lemma_freshness_window(now: int, later: int, fetched_at: int, ttl_sec: int)
    requires
        now <= later,
    ensures
        is_fresh(later, fetched_at, ttl_sec) ==> is_fresh(now, fetched_at, ttl_sec),
        !is_fresh(now, fetched_at, ttl_sec) ==> !is_fresh(later, fetched_at, ttl_sec),
{
}

/// Usage statistics: refinements (layer 1), fetches (layer 2), cache hits
/// and tokens saved.
#[derive(Debug)]
pub struct Stats {
    pub layer1_refine_requests: i64,
    pub layer1_tokens_saved: i64,
    pub layer2_fetch_requests: i64,
    pub layer2_tokens_saved: i64,
    pub layer2_cache_hits: i64,
    pub total_tokens_saved: i64,
}

/// Totals read from the prompt log: requests, original tokens, refined tokens.
pub struct PromptTotals {
    pub count: i64,
    pub original_tokens: i64,
    pub optimized_tokens: i64,
}

/// Totals read from the fetch log: requests, original tokens, cleaned
/// tokens, cache hits.
pub struct DataTotals {
    pub count: i64,
    pub original_tokens: i64,
    pub cleaned_tokens: i64,
    pub cache_hits: i64,
}

/// The statistics of the two logs: tokens saved are original minus
/// resulting tokens, per layer and in total.
pub fn compute_stats(prompt: &PromptTotals, data: &DataTotals) -> (r: Stats)
    requires
        i64::MIN <= prompt.original_tokens - prompt.optimized_tokens <= i64::MAX,
        i64::MIN <= data.original_tokens - data.cleaned_tokens <= i64::MAX,
        i64::MIN <= (prompt.original_tokens - prompt.optimized_tokens) + (data.original_tokens
            - data.cleaned_tokens) <= i64::MAX,
    ensures
        r.layer1_refine_requests == prompt.count,
        r.layer1_tokens_saved == prompt.original_tokens - prompt.optimized_tokens,
        r.layer2_fetch_requests == data.count,
        r.layer2_tokens_saved == data.original_tokens - data.cleaned_tokens,
        r.layer2_cache_hits == data.cache_hits,
        r.total_tokens_saved == r.layer1_tokens_saved + r.layer2_tokens_saved,
{
    let prompt_saved = prompt.original_tokens - prompt.optimized_tokens;
    let data_saved = data.original_tokens - data.cleaned_tokens;
    Stats {
        layer1_refine_requests: prompt.count,
        layer1_tokens_saved: prompt_saved,
        layer2_fetch_requests: data.count,
        layer2_tokens_saved: data_saved,
        layer2_cache_hits: data.cache_hits,
        total_tokens_saved: prompt_saved + data_saved,
    }
}

} // verus!
