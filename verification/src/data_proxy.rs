//! Fetching and cleaning one URL: the decisions of the fetch, as a state
//! machine. The application performs each action (URL admission, cache
//! lookup, download) and hands back what came of it.

use vstd::prelude::*;
use crate::db::{spec_fresh_entry, CacheEntry, CacheRow};
use crate::html_cleaner::{clean_html, spec_clean_html};
use crate::json_cleaner::{clean_json_response, spec_clean_json};
use crate::text::{has_substring, str_contains, str_trim, str_trim_start, str_chars, trim_spec, trim_start_spec};
use crate::token::{estimate_tokens, spec_estimate_tokens, utf8_len};

verus! {

/// The outcome of fetching one URL.
#[derive(Debug, Clone)]
pub struct DataResult {
    pub url: String,
    pub original_size: usize,
    pub cleaned_size: usize,
    pub original_tokens: usize,
    pub cleaned_tokens: usize,
    pub from_cache: bool,
    pub content: String,
    pub content_type: String,
    pub error: String,
}

pub struct DataResultView {
    pub url: Seq<char>,
    pub original_size: nat,
    pub cleaned_size: nat,
    pub original_tokens: nat,
    pub cleaned_tokens: nat,
    pub from_cache: bool,
    pub content: Seq<char>,
    pub content_type: Seq<char>,
    pub error: Seq<char>,
}

impl View for DataResult {
    type V = DataResultView;

    open spec fn view(&self) -> DataResultView {
        DataResultView {
            url: self.url@,
            original_size: self.original_size as nat,
            cleaned_size: self.cleaned_size as nat,
            original_tokens: self.original_tokens as nat,
            cleaned_tokens: self.cleaned_tokens as nat,
            from_cache: self.from_cache,
            content: self.content@,
            content_type: self.content_type@,
            error: self.error@,
        }
    }
}

/// One line of the fetch log.
#[derive(Debug)]
pub struct FetchLog {
    pub url: String,
    pub original_tokens: usize,
    pub cleaned_tokens: usize,
    pub from_cache: bool,
    pub error: String,
}

pub struct FetchLogView {
    pub url: Seq<char>,
    pub original_tokens: nat,
    pub cleaned_tokens: nat,
    pub from_cache: bool,
    pub error: Seq<char>,
}

impl View for FetchLog {
    type V = FetchLogView;

    open spec fn view(&self) -> FetchLogView {
        FetchLogView {
            url: self.url@,
            original_tokens: self.original_tokens as nat,
            cleaned_tokens: self.cleaned_tokens as nat,
            from_cache: self.from_cache,
            error: self.error@,
        }
    }
}

/// A cleaned response to store in the cache.
#[derive(Debug)]
pub struct CacheWrite {
    pub url: String,
    pub payload: String,
    pub original_tokens: usize,
    pub cleaned_tokens: usize,
    pub ttl: u64,
}

pub struct CacheWriteView {
    pub url: Seq<char>,
    pub payload: Seq<char>,
    pub original_tokens: nat,
    pub cleaned_tokens: nat,
    pub ttl: nat,
}

impl View for CacheWrite {
    type V = CacheWriteView;

    open spec fn view(&self) -> CacheWriteView {
        CacheWriteView {
            url: self.url@,
            payload: self.payload@,
            original_tokens: self.original_tokens as nat,
            cleaned_tokens: self.cleaned_tokens as nat,
            ttl: self.ttl as nat,
        }
    }
}

/// A downloaded response: its `content-type` header (empty when absent)
/// and its body.
#[derive(Debug)]
pub struct Download {
    pub content_type: String,
    pub body: String,
}

/// Where a fetch stands.
pub enum FetchStage {
    /// The URL is being admitted.
    Validating,
    /// The cache is being consulted.
    CheckingCache,
    /// The response is being downloaded.
    Downloading,
    /// The fetch is over.
    Done,
}

/// A fetch in progress: the URL, the cache lifetime asked for, the stage.
pub struct FetchState {
    pub url: String,
    pub ttl: u64,
    pub stage: FetchStage,
}

/// What the application reports back.
pub enum FetchEvent {
    /// Admission of the URL: accepted, or the rejection's message.
    Validated(Result<(), String>),
    /// The cache lookup: a valid entry, or none.
    CacheLooked(Option<CacheEntry>),
    /// The download: the response, or the failure's message.
    Downloaded(Result<Download, String>),
}

/// What the application is to do next.
pub enum FetchAction {
    /// Admit the URL (SSRF checks).
    Validate,
    /// Look the URL up in the cache.
    LookupCache,
    /// Download the URL.
    Download,
    /// Log, store in the cache when asked, and return the result.
    Finish(DataResult, FetchLog, Option<CacheWrite>),
}

/// The event is the answer to what the stage waits for.
pub open spec fn event_fits(stage: FetchStage, event: FetchEvent) -> bool {
    match (stage, event) {
        (FetchStage::Validating, FetchEvent::Validated(_)) => true,
        (FetchStage::CheckingCache, FetchEvent::CacheLooked(_)) => true,
        (FetchStage::Downloading, FetchEvent::Downloaded(_)) => true,
        _ => false,
    }
}

/// The token counts of a cache entry can be turned back into sizes.
pub open spec fn entry_fits(entry: CacheEntry) -> bool {
    (entry.original_tokens as usize) * 4 <= usize::MAX && (entry.cleaned_tokens as usize) * 4 <= usize::MAX
}

pub open spec fn error_result_view(url: Seq<char>, error: Seq<char>) -> DataResultView {
    DataResultView {
        url,
        original_size: 0,
        cleaned_size: 0,
        original_tokens: 0,
        cleaned_tokens: 0,
        from_cache: false,
        content: Seq::empty(),
        content_type: "error"@,
        error,
    }
}

pub open spec fn log_view(url: Seq<char>, original_tokens: nat, cleaned_tokens: nat, from_cache: bool, error: Seq<char>) -> FetchLogView {
    FetchLogView { url, original_tokens, cleaned_tokens, from_cache, error }
}

/// The result answered from a cache entry: the stored content and token
/// counts, sizes estimated as four bytes per token.
pub open spec fn cached_result_view(url: Seq<char>, entry: CacheEntry) -> DataResultView {
    DataResultView {
        url,
        original_size: ((entry.original_tokens as usize) * 4) as nat,
        cleaned_size: ((entry.cleaned_tokens as usize) * 4) as nat,
        original_tokens: (entry.original_tokens as usize) as nat,
        cleaned_tokens: (entry.cleaned_tokens as usize) as nat,
        from_cache: true,
        content: entry.payload@,
        content_type: "cached"@,
        error: Seq::empty(),
    }
}

/// The log line of an answer from the cache.
pub open spec fn cached_log_view(url: Seq<char>, entry: CacheEntry) -> FetchLogView {
    log_view(url, (entry.original_tokens as usize) as nat, (entry.cleaned_tokens as usize) as nat, true, Seq::empty())
}

/// The row stored for a cache write made at time `now`: the token counts
/// and the lifetime as signed 64-bit integers.
pub open spec fn spec_cache_row(write: CacheWrite, now: i64) -> CacheRow {
    CacheRow {
        payload: write.payload,
        original_tokens: write.original_tokens as i64,
        cleaned_tokens: write.cleaned_tokens as i64,
        fetched_at: now,
        ttl_sec: write.ttl as i64,
    }
}

/// The body looks like markup: its first non-blank character is `<`.
pub open spec fn looks_like_markup(body: Seq<char>) -> bool {
    let t = trim_start_spec(body);
    t.len() > 0 && t[0] == '<'
}

/// A JSON response, by its content type.
pub open spec fn is_json_type(content_type: Seq<char>) -> bool {
    has_substring(content_type, "json"@)
}

/// An HTML response, by its content type or its body.
pub open spec fn is_html(content_type: Seq<char>, body: Seq<char>) -> bool {
    has_substring(content_type, "html"@) || looks_like_markup(body)
}

/// The result of a fresh download once cleaned.
pub open spec fn fresh_result_view(url: Seq<char>, size: nat, tokens: nat, cleaned: Seq<char>, kind: Seq<char>) -> DataResultView {
    DataResultView {
        url,
        original_size: size,
        cleaned_size: utf8_len(cleaned) as nat,
        original_tokens: tokens,
        cleaned_tokens: spec_estimate_tokens(cleaned),
        from_cache: false,
        content: cleaned,
        content_type: kind,
        error: Seq::empty(),
    }
}

pub open spec fn fresh_write_view(url: Seq<char>, ttl: nat, tokens: nat, cleaned: Seq<char>) -> CacheWriteView {
    CacheWriteView {
        url,
        payload: cleaned,
        original_tokens: tokens,
        cleaned_tokens: spec_estimate_tokens(cleaned),
        ttl,
    }
}

/// The action finishes with this result, this log line and this cache
/// write (or none).
pub open spec fn finishes_with(
    action: FetchAction,
    result: DataResultView,
    log: FetchLogView,
    write: Option<CacheWriteView>,
) -> bool {
    match action {
        FetchAction::Finish(r, l, w) => r@ == result && l@ == log && match (w, write) {
            (Some(a), Some(b)) => a@ == b,
            (None, None) => true,
            _ => false,
        },
        _ => false,
    }
}

/// A fresh download finishes with the cleaned content, logged and stored.
pub open spec fn finishes_fresh(
    action: FetchAction,
    url: Seq<char>,
    ttl: nat,
    size: nat,
    tokens: nat,
    cleaned: Seq<char>,
    kind: Seq<char>,
) -> bool {
    finishes_with(
        action,
        fresh_result_view(url, size, tokens, cleaned, kind),
        log_view(url, tokens, spec_estimate_tokens(cleaned), false, Seq::empty()),
        Some(fresh_write_view(url, ttl, tokens, cleaned)),
    )
}

} // verus!

verus! {

/// Begins fetching `url`: its admission comes first.
pub fn start_fetch(url: &str, ttl: u64) -> (r: (FetchState, FetchAction))
    ensures
        r.0.url@ == url@,
        r.0.ttl == ttl,
        r.0.stage is Validating,
        r.1 is Validate,
{
    (FetchState { url: String::from_str(url), ttl, stage: FetchStage::Validating }, FetchAction::Validate)
}

fn error_finish(url: &String, error: String) -> (r: FetchAction)
    ensures
        finishes_with(r, error_result_view(url@, error@), log_view(url@, 0, 0, false, error@), None),
{
    let result = DataResult {
        url: url.clone(),
        original_size: 0,
        cleaned_size: 0,
        original_tokens: 0,
        cleaned_tokens: 0,
        from_cache: false,
        content: String::new(),
        content_type: String::from_str("error"),
        error: error.clone(),
    };
    let log = FetchLog { url: url.clone(), original_tokens: 0, cleaned_tokens: 0, from_cache: false, error };
    FetchAction::Finish(result, log, None)
}

fn fresh_finish(url: &String, ttl: u64, size: usize, tokens: usize, cleaned: String, kind: &str) -> (r: FetchAction)
    ensures
        finishes_fresh(r, url@, ttl as nat, size as nat, tokens as nat, cleaned@, kind@),
{
    let cleaned_tokens = estimate_tokens(cleaned.as_str());
    let cleaned_size = cleaned.as_str().len();
    let result = DataResult {
        url: url.clone(),
        original_size: size,
        cleaned_size,
        original_tokens: tokens,
        cleaned_tokens,
        from_cache: false,
        content: cleaned.clone(),
        content_type: String::from_str(kind),
        error: String::new(),
    };
    let log = FetchLog { url: url.clone(), original_tokens: tokens, cleaned_tokens, from_cache: false, error: String::new() };
    let write = CacheWrite { url: url.clone(), payload: cleaned, original_tokens: tokens, cleaned_tokens, ttl };
    FetchAction::Finish(result, log, Some(write))
}

/// The row to store for a cache write made at time `now`.
pub fn cache_row(write: CacheWrite, now: i64) -> (r: CacheRow)
    ensures
        r == spec_cache_row(write, now),
{
    CacheRow {
        payload: write.payload,
        original_tokens: write.original_tokens as i64,
        cleaned_tokens: write.cleaned_tokens as i64,
        fetched_at: now,
        ttl_sec: write.ttl as i64,
    }
}

/// Whether the body's first non-blank character is `<`.
fn starts_with_markup(body: &str) -> (r: bool)
    ensures
        r == looks_like_markup(body@),
{
    let chars = str_chars(str_trim_start(body));
    chars.len() > 0 && chars[0] == '<'
}

/// One decision of a fetch: given where it stands and what the last action
/// gave, the next stage and action.
///
/// A request with a time to live of zero skips the cache and downloads
/// afresh. A rejected URL or a failed download finishes with an error result
/// (logged, not cached). A valid cache entry finishes with the cached
/// content (logged as a cache hit). A downloaded JSON body (by content type) is
/// cleaned of junk keys and pretty-printed; an HTML body (by content type, or a body starting with `<`)
/// is cleaned as HTML, anything else is trimmed; the cleaned content is
/// logged, cached and returned.
pub fn fetch_step(state: FetchState, event: FetchEvent) -> (r: (FetchState, FetchAction))
    requires
        event_fits(state.stage, event),
        event matches FetchEvent::CacheLooked(Some(e)) ==> entry_fits(e),
    ensures
        r.0.url == state.url,
        r.0.ttl == state.ttl,
        r.1 matches FetchAction::Finish(res, log, write) ==> {
            &&& r.0.stage is Done
            &&& log.url@ == res.url@
            &&& log.original_tokens == res.original_tokens
            &&& log.cleaned_tokens == res.cleaned_tokens
            &&& log.from_cache == res.from_cache
            &&& log.error@ == res.error@
            &&& write matches Some(w) ==> {
                &&& res.error@ == Seq::<char>::empty()
                &&& !res.from_cache
                &&& w.url@ == res.url@
                &&& w.payload@ == res.content@
                &&& w.original_tokens == res.original_tokens
                &&& w.cleaned_tokens == res.cleaned_tokens
            }
        },
        match (state.stage, event) {
            (FetchStage::Validating, FetchEvent::Validated(Err(e))) => r.0.stage is Done && finishes_with(
                r.1,
                error_result_view(state.url@, e@),
                log_view(state.url@, 0, 0, false, e@),
                None,
            ),
            (FetchStage::Validating, FetchEvent::Validated(Ok(()))) => if state.ttl == 0 {
                r.0.stage is Downloading && r.1 is Download
            } else {
                r.0.stage is CheckingCache && r.1 is LookupCache
            },
            (FetchStage::CheckingCache, FetchEvent::CacheLooked(Some(entry))) => r.0.stage is Done && finishes_with(
                r.1,
                cached_result_view(state.url@, entry),
                cached_log_view(state.url@, entry),
                None,
            ),
            (FetchStage::CheckingCache, FetchEvent::CacheLooked(None)) => r.0.stage is Downloading && r.1 is Download,
            (FetchStage::Downloading, FetchEvent::Downloaded(Err(e))) => r.0.stage is Done && finishes_with(
                r.1,
                error_result_view(state.url@, e@),
                log_view(state.url@, 0, 0, false, e@),
                None,
            ),
            (FetchStage::Downloading, FetchEvent::Downloaded(Ok(d))) => {
                let size = utf8_len(d.body@) as nat;
                let tokens = spec_estimate_tokens(d.body@);
                if has_substring(d.content_type@, "json"@) {
                    r.0.stage is Done && finishes_fresh(
                        r.1,
                        state.url@,
                        state.ttl as nat,
                        size,
                        tokens,
                        spec_clean_json(d.body@),
                        "json"@,
                    )
                } else if has_substring(d.content_type@, "html"@) || (trim_start_spec(d.body@).len() > 0
                    && trim_start_spec(d.body@)[0] == '<') {
                    r.0.stage is Done && finishes_fresh(
                        r.1,
                        state.url@,
                        state.ttl as nat,
                        size,
                        tokens,
                        spec_clean_html(d.body@),
                        "html"@,
                    )
                } else {
                    r.0.stage is Done && finishes_fresh(
                        r.1,
                        state.url@,
                        state.ttl as nat,
                        size,
                        tokens,
                        trim_spec(d.body@),
                        "text"@,
                    )
                }
            },
            _ => false,
        },
{
    let url = state.url;
    let ttl = state.ttl;
    match (state.stage, event) {
        (FetchStage::Validating, FetchEvent::Validated(Err(e))) => {
            let action = error_finish(&url, e);
            (FetchState { url, ttl, stage: FetchStage::Done }, action)
        },
        (FetchStage::Validating, FetchEvent::Validated(Ok(()))) => {
            if ttl == 0 {
                (FetchState { url, ttl, stage: FetchStage::Downloading }, FetchAction::Download)
            } else {
                (FetchState { url, ttl, stage: FetchStage::CheckingCache }, FetchAction::LookupCache)
            }
        },
        (FetchStage::CheckingCache, FetchEvent::CacheLooked(Some(entry))) => {
            let original_tokens = entry.original_tokens as usize;
            let cleaned_tokens = entry.cleaned_tokens as usize;
            let result = DataResult {
                url: url.clone(),
                original_size: original_tokens * 4,
                cleaned_size: cleaned_tokens * 4,
                original_tokens,
                cleaned_tokens,
                from_cache: true,
                content: entry.payload,
                content_type: String::from_str("cached"),
                error: String::new(),
            };
            let log = FetchLog { url: url.clone(), original_tokens, cleaned_tokens, from_cache: true, error: String::new() };
            (FetchState { url, ttl, stage: FetchStage::Done }, FetchAction::Finish(result, log, None))
        },
        (FetchStage::CheckingCache, FetchEvent::CacheLooked(None)) => {
            (FetchState { url, ttl, stage: FetchStage::Downloading }, FetchAction::Download)
        },
        (FetchStage::Downloading, FetchEvent::Downloaded(Err(e))) => {
            let action = error_finish(&url, e);
            (FetchState { url, ttl, stage: FetchStage::Done }, action)
        },
        (FetchStage::Downloading, FetchEvent::Downloaded(Ok(d))) => {
            let size = d.body.as_str().len();
            let tokens = estimate_tokens(d.body.as_str());
            if str_contains(d.content_type.as_str(), "json") {
                let cleaned = clean_json_response(d.body.as_str());
                let action = fresh_finish(&url, ttl, size, tokens, cleaned, "json");
                (FetchState { url, ttl, stage: FetchStage::Done }, action)
            } else if str_contains(d.content_type.as_str(), "html") || starts_with_markup(d.body.as_str()) {
                let cleaned = clean_html(d.body.as_str());
                let action = fresh_finish(&url, ttl, size, tokens, cleaned, "html");
                (FetchState { url, ttl, stage: FetchStage::Done }, action)
            } else {
                let cleaned = String::from_str(str_trim(d.body.as_str()));
                let action = fresh_finish(&url, ttl, size, tokens, cleaned, "text");
                (FetchState { url, ttl, stage: FetchStage::Done }, action)
            }
        },
        _ => {
            (FetchState { url, ttl, stage: FetchStage::Done }, FetchAction::Validate)
        },
    }
}

} // verus!

verus! {

/// What the cache gives back of a write: the row stored for a fetch's
/// cache write at time `fetched_at` is read back, at any time `now` before
/// its lifetime runs out, as an entry holding the written payload and
/// counts; a fetch of the URL that finds it answers from the cache with
/// exactly that content and those token counts.
pub proof fn lemma_cache_gives_back_write(url: Seq<char>, write: CacheWrite, fetched_at: i64, now: i64)
    requires
        write.original_tokens * 4 <= usize::MAX,
        write.cleaned_tokens * 4 <= usize::MAX,
        write.ttl <= i64::MAX,
        fetched_at <= now,
        now - fetched_at < write.ttl,
    ensures
        spec_fresh_entry(spec_cache_row(write, fetched_at), now as int) matches Some(entry) && {
            &&& entry_fits(entry)
            &&& entry.payload@ == write.payload@
            &&& cached_result_view(url, entry).from_cache
            &&& cached_result_view(url, entry).content == write.payload@
            &&& cached_result_view(url, entry).original_tokens == write.original_tokens
            &&& cached_result_view(url, entry).cleaned_tokens == write.cleaned_tokens
            &&& cached_result_view(url, entry).error.len() == 0
        },
{
}

} // verus!

verus! {

/// A response is routed to JSON cleaning exactly when its content type
/// contains `json` anywhere (as in `application/json; charset=utf-8`).
pub proof fn lemma_json_routing(content_type: Seq<char>)
    ensures
        is_json_type(content_type) <==> has_substring(content_type, "json"@),
{
}

/// A response is cleaned as HTML exactly when its content type contains
/// `html` anywhere or its first non-blank character is `<`.
pub proof fn lemma_html_routing(content_type: Seq<char>, body: Seq<char>)
    ensures
        is_html(content_type, body) <==> (has_substring(content_type, "html"@) || (trim_start_spec(body).len() > 0
            && trim_start_spec(body)[0] == '<')),
{
}

} // verus!

verus! {

/// A failed fetch answers with empty content labelled `error` and the
/// failure's message; an answer from the cache is labelled `cached`,
/// carries the stored content and token counts, and sizes of four bytes
/// per token.
pub proof fn lemma_result_labels(url: Seq<char>, error: Seq<char>, entry: CacheEntry)
    ensures
        error_result_view(url, error).content_type == "error"@,
        error_result_view(url, error).content.len() == 0,
        error_result_view(url, error).error == error,
        !error_result_view(url, error).from_cache,
        cached_result_view(url, entry).content_type == "cached"@,
        cached_result_view(url, entry).content == entry.payload@,
        cached_result_view(url, entry).from_cache,
        cached_result_view(url, entry).original_size == 4 * cached_result_view(url, entry).original_tokens,
        cached_result_view(url, entry).cleaned_size == 4 * cached_result_view(url, entry).cleaned_tokens,
{
}

} // verus!
