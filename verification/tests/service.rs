use fetchless::config::Config;
use fetchless::data_proxy::DataResult;
use fetchless::optimizer::optimize_prompt_default;
use fetchless::service::{
    batch_totals, confidence_hundredths, fetch_failure, render_fetch_batch, render_fetch_clean,
    render_refine, resolve_ttl, select_batch_urls, select_fetch_url, select_refine_text,
};

fn result(url: &str, content: &str, original: usize, cleaned: usize, from_cache: bool, error: &str) -> DataResult {
    DataResult {
        url: url.to_string(),
        original_size: original * 4,
        cleaned_size: cleaned * 4,
        original_tokens: original,
        cleaned_tokens: cleaned,
        from_cache,
        content: content.to_string(),
        content_type: "html".to_string(),
        error: error.to_string(),
    }
}

#[test]
fn refine_text_falls_back_to_prompt() {
    assert_eq!(select_refine_text(None, Some("hello".to_string())).unwrap(), "hello");
    assert_eq!(select_refine_text(Some("a".to_string()), Some("b".to_string())).unwrap(), "a");
    assert!(select_refine_text(Some(String::new()), Some("b".to_string())).is_err());
    assert!(select_refine_text(None, None).is_err());
}

#[test]
fn fetch_url_must_be_present() {
    assert!(select_fetch_url(None).is_err());
    assert!(select_fetch_url(Some(String::new())).unwrap_err().is_validation());
    assert_eq!(select_fetch_url(Some("https://x".to_string())).unwrap(), "https://x");
}

#[test]
fn batch_urls_must_not_be_empty() {
    assert!(select_batch_urls(Some(vec![])).is_err());
    assert!(select_batch_urls(None).is_err());
    assert_eq!(select_batch_urls(Some(vec!["a".to_string()])).unwrap().len(), 1);
}

#[test]
fn ttl_default_applies() {
    assert_eq!(resolve_ttl(None, 300), 300);
    assert_eq!(resolve_ttl(Some(0), 300), 0);
}

#[test]
fn failed_fetch_becomes_fetch_error() {
    assert!(fetch_failure(&result("u", "c", 1, 1, false, "")).is_none());
    let e = fetch_failure(&result("u", "", 0, 0, false, "boom")).unwrap();
    assert!(!e.is_validation());
    assert_eq!(e.to_string(), "boom");
}

#[test]
fn confidence_rounded_to_hundredths() {
    assert_eq!(confidence_hundredths(1_000_000), 100);
    assert_eq!(confidence_hundredths(925_000), 93);
    assert_eq!(confidence_hundredths(924_999), 92);
}

#[test]
fn totals_sum_results() {
    let rs = vec![result("a", "x", 8000, 650, false, ""), result("b", "y", 9200, 720, false, "")];
    assert_eq!(batch_totals(&rs), (17200, 1370));
}

#[test]
fn fetch_clean_text_header() {
    let r = result("https://a", "Body", 1000, 100, false, "");
    assert_eq!(render_fetch_clean("https://a", &r, "90"), "[Fetchless] 1000 -> 100 tokens (90% reduced)\n\nBody");
    let r = result("https://a", "Body", 1000, 123, true, "");
    assert_eq!(render_fetch_clean("https://a", &r, "87.7"), "[Fetchless] 1000 -> 123 tokens (87.7% reduced) [cached]\n\nBody");
    let r = result("https://a", "", 0, 0, false, "bad");
    assert_eq!(render_fetch_clean("https://a", &r, "0"), "Error fetching https://a: bad");
}

#[test]
fn negative_zero_reduction_shows_sign() {
    let r = result("https://a", "B", 3000, 3001, false, "");
    let f = ((1.0 - 3001f64 / 3000f64) * 1000.0).round() / 10.0;
    assert_eq!(render_fetch_clean("https://a", &r, &f.to_string()), format!("[Fetchless] 3000 -> 3001 tokens ({f}% reduced)\n\nB"));
}

#[test]
fn fetch_batch_text_lists_parts() {
    let urls = vec!["https://a".to_string(), "https://b".to_string()];
    let rs = vec![result("https://a", "A", 100, 50, false, ""), result("https://b", "", 0, 0, false, "oops")];
    assert_eq!(
        render_fetch_batch(&urls, &rs, "50"),
        "[Fetchless] 2 URLs | 100 -> 50 tokens (50% reduced)\n\n--- https://a ---\nA\n\n--- https://b ---\nError: oops\n"
    );
}

#[test]
fn refine_text_reports_skip() {
    let r = optimize_prompt_default("Hello world.");
    assert_eq!(render_refine(&r, "0"), "Original (3 tokens):\nHello world.\n\nNo optimization needed. Reason: below_min_tokens");
}

#[test]
fn refine_text_reports_suggestion() {
    let text = "Hi, I would really like you to compare the performance of AAPL, MSFT, GOOGL, and AMZN over the last year. Specifically, which one had the best return if I invested $10,000 in each? Also, what's the YTD performance? I'd appreciate it, thanks!";
    let r = optimize_prompt_default(text);
    assert!(r.sent_optimized);
    let out = render_refine(&r, "48.5");
    assert!(out.starts_with(&format!("Original ({} tokens):\n{}\n\nSuggested ({} tokens, 48.5% smaller):\n", r.original_tokens, text, r.optimized_tokens)));
    assert!(out.contains("Protected: AAPL, MSFT, GOOGL, AMZN"));
    assert!(out.ends_with("Confidence: 100%"));
}

#[test]
fn listen_address_joins_bind_and_port() {
    let c = Config { port: 8080, bind: "127.0.0.1".to_string(), db_path: "agent_proxy.db".to_string(), default_ttl: 300, mcp: false };
    assert_eq!(c.listen_address(), "127.0.0.1:8080");
}
