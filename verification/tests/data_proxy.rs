use fetchless::data_proxy::{cache_row, fetch_step, start_fetch, Download, FetchAction, FetchEvent, FetchStage};
use fetchless::db::{fresh_entry, CacheEntry};

fn finish(action: FetchAction) -> (fetchless::data_proxy::DataResult, fetchless::data_proxy::FetchLog, Option<fetchless::data_proxy::CacheWrite>) {
    match action {
        FetchAction::Finish(r, l, w) => (r, l, w),
        _ => panic!("expected the fetch to finish"),
    }
}

#[test]
fn rejected_url_finishes_with_error() {
    let (state, action) = start_fetch("http://example.com", 300);
    assert!(matches!(action, FetchAction::Validate));
    let (state, action) = fetch_step(state, FetchEvent::Validated(Err("Only HTTPS".to_string())));
    assert!(matches!(state.stage, FetchStage::Done));
    let (result, log, write) = finish(action);
    assert_eq!(result.content_type, "error");
    assert_eq!(result.error, "Only HTTPS");
    assert_eq!(result.content, "");
    assert_eq!(result.original_tokens, 0);
    assert_eq!(log.error, "Only HTTPS");
    assert!(!log.from_cache);
    assert!(write.is_none());
}

#[test]
fn cache_hit_finishes_from_cache() {
    let (state, _) = start_fetch("https://example.com", 300);
    let (state, action) = fetch_step(state, FetchEvent::Validated(Ok(())));
    assert!(matches!(action, FetchAction::LookupCache));
    let entry = CacheEntry { payload: "cached text".to_string(), original_tokens: 100, cleaned_tokens: 10 };
    let (_, action) = fetch_step(state, FetchEvent::CacheLooked(Some(entry)));
    let (result, log, write) = finish(action);
    assert!(result.from_cache);
    assert_eq!(result.content, "cached text");
    assert_eq!(result.content_type, "cached");
    assert_eq!(result.original_size, 400);
    assert_eq!(result.cleaned_size, 40);
    assert_eq!(log.original_tokens, 100);
    assert!(log.from_cache);
    assert!(write.is_none());
}

fn download(content_type: &str, body: &str) -> FetchAction {
    let (state, _) = start_fetch("https://example.com/page", 60);
    let (state, _) = fetch_step(state, FetchEvent::Validated(Ok(())));
    let (state, action) = fetch_step(state, FetchEvent::CacheLooked(None));
    assert!(matches!(action, FetchAction::Download));
    let (_, action) = fetch_step(
        state,
        FetchEvent::Downloaded(Ok(Download { content_type: content_type.to_string(), body: body.to_string() })),
    );
    action
}

#[test]
fn html_download_cleaned_and_cached() {
    let body = "<html><body><nav>menu</nav><p>Hello there</p></body></html>";
    let (result, log, write) = finish(download("text/html; charset=utf-8", body));
    assert_eq!(result.content, "Hello there");
    assert_eq!(result.content_type, "html");
    assert_eq!(result.original_size, body.len());
    assert_eq!(result.cleaned_size, 11);
    assert_eq!(result.original_tokens, body.len() / 4);
    assert_eq!(result.cleaned_tokens, 2);
    assert!(!result.from_cache);
    assert_eq!(log.cleaned_tokens, 2);
    let write = write.unwrap();
    assert_eq!(write.payload, "Hello there");
    assert_eq!(write.ttl, 60);
}

#[test]
fn markup_body_without_type_is_html() {
    let (result, _, _) = finish(download("", "   <p>Tagged</p>"));
    assert_eq!(result.content_type, "html");
    assert_eq!(result.content, "Tagged");
}

#[test]
fn plain_text_trimmed() {
    let (result, _, write) = finish(download("text/plain", "  just text \n"));
    assert_eq!(result.content_type, "text");
    assert_eq!(result.content, "just text");
    assert_eq!(write.unwrap().payload, "just text");
}

#[test]
fn json_goes_to_json_cleaning() {
    let (state, _) = start_fetch("https://api.example.com", 30);
    let (state, _) = fetch_step(state, FetchEvent::Validated(Ok(())));
    let (state, _) = fetch_step(state, FetchEvent::CacheLooked(None));
    let body = "{\"data\": 1, \"meta\": {}}";
    let (_, action) = fetch_step(
        state,
        FetchEvent::Downloaded(Ok(Download { content_type: "application/json".to_string(), body: body.to_string() })),
    );
    let (result, _, write) = finish(action);
    assert_eq!(result.content_type, "json");
    assert_eq!(result.original_size, body.len());
    assert_eq!(result.content, "{\n  \"data\": 1\n}");
    assert!(write.is_some());
}

#[test]
fn failed_download_not_cached() {
    let (state, _) = start_fetch("https://example.com", 300);
    let (state, _) = fetch_step(state, FetchEvent::Validated(Ok(())));
    let (state, _) = fetch_step(state, FetchEvent::CacheLooked(None));
    let (_, action) = fetch_step(state, FetchEvent::Downloaded(Err("timed out".to_string())));
    let (result, _, write) = finish(action);
    assert_eq!(result.error, "timed out");
    assert!(write.is_none());
}

#[test]
fn second_fetch_within_ttl_answers_from_cache() {
    let body = "<html><body><main><p>Stored article text</p></main></body></html>";
    let (first, _, write) = finish(download("text/html", body));
    let write = write.unwrap();
    let row = cache_row(write, 1_000);
    assert_eq!(row.ttl_sec, 60);
    assert_eq!(row.fetched_at, 1_000);

    // Within the lifetime the row is read back and answered from.
    let entry = fresh_entry(cache_row(finish(download("text/html", body)).2.unwrap(), 1_000), 1_059).unwrap();
    let (state, _) = start_fetch("https://example.com/page", 60);
    let (state, _) = fetch_step(state, FetchEvent::Validated(Ok(())));
    let (_, action) = fetch_step(state, FetchEvent::CacheLooked(Some(entry)));
    let (second, log, write) = finish(action);
    assert!(second.from_cache);
    assert_eq!(second.content, first.content);
    assert_eq!(second.original_tokens, first.original_tokens);
    assert_eq!(second.cleaned_tokens, first.cleaned_tokens);
    assert!(log.from_cache);
    assert!(write.is_none());

    // Once the lifetime has run out, nothing is read back.
    assert!(fresh_entry(row, 1_060).is_none());
}

#[test]
fn zero_ttl_skips_the_cache() {
    let (state, _) = start_fetch("https://example.com/news", 0);
    let (state, action) = fetch_step(state, FetchEvent::Validated(Ok(())));
    assert!(matches!(action, FetchAction::Download));
    assert!(matches!(state.stage, FetchStage::Downloading));
    let (_, action) = fetch_step(
        state,
        FetchEvent::Downloaded(Ok(Download { content_type: "text/plain".to_string(), body: " fresh ".to_string() })),
    );
    let (result, _, _) = finish(action);
    assert!(!result.from_cache);
    assert_eq!(result.content, "fresh");
}
