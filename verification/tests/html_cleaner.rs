use fetchless::html_cleaner::{clean_events, clean_html, HtmlEvent, HtmlNode};

use fetchless::html_cleaner;

#[test]
fn test_removes_script_and_style() {
    let html = r#"<html><body><script>alert('xss')</script><style>.x{}</style><p>Hello</p></body></html>"#;
    let result = clean_html(html);
    assert!(result.contains("Hello"));
    assert!(!result.contains("alert"));
    assert!(!result.contains(".x{}"));
}

#[test]
fn test_removes_nav_footer() {
    let html = r#"<html><body><nav>Menu items</nav><main><p>Content here</p></main><footer>Copyright</footer></body></html>"#;
    let result = clean_html(html);
    assert!(result.contains("Content here"));
    assert!(!result.contains("Menu items"));
    assert!(!result.contains("Copyright"));
}

#[test]
fn test_removes_noise_classes() {
    let html = r#"<html><body><article><p>Good content</p><div class="ad-banner">Buy now!</div></article></body></html>"#;
    let result = clean_html(html);
    assert!(result.contains("Good content"));
    assert!(!result.contains("Buy now!"));
}

#[test]
fn test_prefers_article_container() {
    let html = r#"<html><body><div class="sidebar">Side content</div><article><p>Main article</p></article></body></html>"#;
    let result = clean_html(html);
    assert!(result.contains("Main article"));
}

#[test]
fn test_empty_html() {
    let result = clean_html("<html><body></body></html>");
    assert!(result.trim().is_empty());
}

#[test]
fn test_plain_text_in_html() {
    let html = "<html><body><p>Just some plain text here.</p></body></html>";
    let result = clean_html(html);
    assert!(result.contains("Just some plain text here."));
}

fn wikipedia_like_html() -> &'static str {
    r#"<!DOCTYPE html>
<html>
<head><title>Rust (programming language) - Wikipedia</title></head>
<body class="mediawiki ltr sitedir-ltr">
  <header id="mw-header" class="vector-header">
    <nav class="vector-main-menu-container">
      <div class="vector-main-menu">Navigation links here</div>
    </nav>
  </header>
  <div id="mw-page-base" class="noprint"></div>
  <div id="mw-navigation">
    <div id="mw-panel">
      <div class="portal">
        <ul><li>Main page</li><li>Contents</li></ul>
      </div>
    </div>
  </div>
  <div id="content" class="mw-body" role="main">
    <h1 id="firstHeading" class="firstHeading">Rust (programming language)</h1>
    <div id="bodyContent" class="vector-body">
      <div id="siteSub" class="noprint">From Wikipedia, the free encyclopedia</div>
      <div id="mw-content-text" class="mw-body-content">
        <div class="mw-parser-output">
          <p>Rust is a multi-paradigm, general-purpose programming language that emphasizes performance, type safety, and concurrency.</p>
          <p>It enforces memory safety, meaning that all references point to valid memory.</p>
          <h2><span class="mw-headline">History</span></h2>
          <p>Rust was originally designed by Graydon Hoare at Mozilla Research in 2010.</p>
          <h2><span class="mw-headline">Features</span></h2>
          <p>Rust features include ownership, borrowing, and lifetimes.</p>
          <div class="navbox">
            <table><tr><td>Navigation box — should be filtered</td></tr></table>
          </div>
          <div class="mw-references-wrap">
            <ol class="references">
              <li>Reference 1</li>
              <li>Reference 2</li>
            </ol>
          </div>
        </div>
      </div>
    </div>
  </div>
  <footer id="footer" role="contentinfo">
    <div id="footer-info">Footer content here</div>
  </footer>
</body>
</html>"#
}

#[test]
fn test_html_cleaner_wikipedia_article_has_content() {
    let result = html_cleaner::clean_html(wikipedia_like_html());
    assert!(
        !result.trim().is_empty(),
        "Wikipedia-like HTML should produce non-empty content after cleaning"
    );
}

#[test]
fn test_html_cleaner_wikipedia_preserves_article_text() {
    let result = html_cleaner::clean_html(wikipedia_like_html());
    assert!(
        result.contains("multi-paradigm"),
        "Main article paragraph should be preserved.\nGot: {result}"
    );
    assert!(
        result.contains("memory safety"),
        "Second paragraph should be preserved.\nGot: {result}"
    );
    assert!(
        result.contains("Graydon Hoare"),
        "History section text should be preserved.\nGot: {result}"
    );
}

#[test]
fn test_html_cleaner_wikipedia_removes_navbox() {
    let result = html_cleaner::clean_html(wikipedia_like_html());
    assert!(
        !result.contains("Navigation box — should be filtered"),
        "navbox element should be filtered out.\nGot: {result}"
    );
}

#[test]
fn test_html_cleaner_wikipedia_removes_footer() {
    let result = html_cleaner::clean_html(wikipedia_like_html());
    assert!(
        !result.contains("Footer content here"),
        "Footer should be filtered out.\nGot: {result}"
    );
}

#[test]
fn test_html_cleaner_wikipedia_removes_navigation() {
    let result = html_cleaner::clean_html(wikipedia_like_html());
    assert!(
        !result.contains("Navigation links here"),
        "Navigation links should be filtered out.\nGot: {result}"
    );
}

#[test]
fn test_html_cleaner_wikipedia_has_meaningful_reduction() {
    let raw = wikipedia_like_html();
    let cleaned = html_cleaner::clean_html(raw);
    let original_len = raw.len();
    let cleaned_len = cleaned.len();
    assert!(
        cleaned_len < original_len / 2,
        "Cleaned content ({cleaned_len} chars) should be significantly smaller than raw HTML ({original_len} chars)"
    );
}


#[test]
fn blank_texts_dropped_and_lines_trimmed() {
    let html = "<html><body><main><p>  first  </p><p>   </p><p>second</p></main></body></html>";
    assert_eq!(clean_html(html), "first\nsecond");
}

#[test]
fn content_div_preferred_over_article() {
    let html = r#"<html><body><article>Article text</article><div id="main-content">Main text</div></body></html>"#;
    assert_eq!(clean_html(html), "Main text");
}

#[test]
fn role_main_used_when_nothing_else() {
    let html = r#"<html><body><div>Outside</div><div role="main"><p>Inside</p></div></body></html>"#;
    assert_eq!(clean_html(html), "Inside");
}

#[test]
fn noise_inside_container_skipped_but_container_kept() {
    let html = r#"<html><body><article class="social-article"><p>Kept</p><div id="comments">Dropped</div></article></body></html>"#;
    assert_eq!(clean_html(html), "Kept");
}

#[test]
fn body_used_without_container() {
    let html = "<html><body><div>One</div><script>var x;</script><div>Two</div></body></html>";
    assert_eq!(clean_html(html), "One\nTwo");
}

#[test]
fn inner_line_breaks_collapsed() {
    let html = "<html><body><pre>a\n\n\n\nb</pre></body></html>";
    assert_eq!(clean_html(html), "a\n\nb");
}

#[test]
fn cleaning_walk_events() {
    let el = |name: &str| HtmlNode::Element(name.to_string(), None, vec![], None);
    let events = vec![
        HtmlEvent::Open(0, HtmlNode::Other),
        HtmlEvent::Open(1, el("html")),
        HtmlEvent::Open(2, el("body")),
        HtmlEvent::Open(3, el("nav")),
        HtmlEvent::Open(4, HtmlNode::Text("menu".to_string())),
        HtmlEvent::Close,
        HtmlEvent::Close,
        HtmlEvent::Open(5, el("p")),
        HtmlEvent::Open(6, HtmlNode::Text("  Hello  ".to_string())),
        HtmlEvent::Close,
        HtmlEvent::Close,
        HtmlEvent::Close,
        HtmlEvent::Close,
        HtmlEvent::Close,
    ];
    assert_eq!(clean_events(&events), "Hello");
}

#[test]
fn cleaned_text_is_trimmed_and_collapsed() {
    let out = clean_html("<html><body><p>\n a\n\n\n\n\nb \n</p><p> c </p></body></html>");
    assert_eq!(out, "a\n\nb\nc");
    assert_eq!(out.trim(), out);
    assert!(!out.contains("\n\n\n"));
}
