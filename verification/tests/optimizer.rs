use fetchless::matching::RegexMatch;
use fetchless::optimizer::{calculate_confidence, decide_refinement, protected_from_matches, extract_protected, is_code_or_json, optimize_prompt, optimize_prompt_default, ProtectedEntity};

#[test]
fn test_verbose_financial_query_optimized() {
    let text = "Hey, so I was wondering if you could maybe look at Apple's \
        latest earnings report and tell me how they did compared to \
        last quarter, especially the services revenue part because \
        I've been tracking that, and also what analysts are saying. \
        Thanks in advance, I really appreciate it!";
    let result = optimize_prompt_default(text);
    assert!(result.sent_optimized);
    assert!(result.optimized_tokens < result.original_tokens);
}

#[test]
fn test_negations_preserved() {
    let text = "Hi there, could you please analyze TSLA stock performance \
        but don't include any crypto-related comparisons. Also, \
        remember what we discussed last time about the $45 price \
        target — I want to revisit that. Thank you so much!";
    let result = optimize_prompt_default(text);
    assert!(result.sent_optimized);
    let opt_lower = result.optimized.to_lowercase();
    assert!(opt_lower.contains("don't") || opt_lower.contains("don't"));
}

#[test]
fn test_short_prompt_skipped() {
    let text = "Compare AAPL and MSFT Q3 earnings.";
    let result = optimize_prompt_default(text);
    assert!(!result.sent_optimized);
    assert_eq!(result.skip_reason, "below_min_tokens");
}

#[test]
fn test_code_skipped() {
    let text = "def calculate_roi(investment, returns):\n    import numpy as np\n    return np.sum(returns) / investment\nFix this function to handle edge cases.";
    let result = optimize_prompt_default(text);
    assert!(!result.sent_optimized);
    assert_eq!(result.skip_reason, "code_or_json");
}

#[test]
fn test_heavy_filler_optimized() {
    let text = "Okay so basically I was just thinking, honestly, could you \
        kind of like help me understand what the PE ratio actually \
        means for a company like NVDA? I mean, I know it's sort of \
        important but I don't really get why it matters so much. \
        If it's not too much trouble, that would be awesome. Cheers!";
    let result = optimize_prompt_default(text);
    assert!(result.sent_optimized);
    assert!(result.optimized_tokens < result.original_tokens);
}

#[test]
fn test_conversation_refs_preserved() {
    let text = "Hey, so going back to what we discussed earlier about my \
        portfolio allocation, I think I want to shift more into \
        bonds. Like I mentioned last time, I'm not comfortable with \
        the 80/20 split anymore. Can you suggest a more conservative \
        approach? Thanks!";
    let result = optimize_prompt_default(text);
    assert!(result.sent_optimized);
    let opt_lower = result.optimized.to_lowercase();
    assert!(
        opt_lower.contains("what we discussed")
            || opt_lower.contains("like i mentioned")
            || opt_lower.contains("my portfolio")
    );
}

#[test]
fn test_multiple_tickers_and_money() {
    let text = "Hi, I would really like you to compare the performance of \
        AAPL, MSFT, GOOGL, and AMZN over the last year. Specifically, \
        which one had the best return if I invested $10,000 in each? \
        Also, what's the YTD performance? I'd appreciate it, thanks!";
    let result = optimize_prompt_default(text);
    assert!(result.sent_optimized);
    assert!(result.protected_entities.iter().any(|e| e == "AAPL"));
    assert!(result.protected_entities.iter().any(|e| e == "$10,000"));
}

#[test]
fn test_is_code_or_json() {
    assert!(is_code_or_json("{ \"key\": \"val\" } import foo class Bar"));
    assert!(!is_code_or_json("Tell me about AAPL stock"));
}

#[test]
fn test_extract_protected_filler_negations_excluded() {
    let text = "If it's not too much trouble, don't skip AAPL";
    let protected = extract_protected(text);
    let negation_texts: Vec<&str> = protected
        .iter()
        .filter(|e| e.kind == "negation")
        .map(|e| e.text.as_str())
        .collect();
    // "not" inside filler phrase should be excluded, but "don't" should remain
    assert!(negation_texts.contains(&"don't"));
}


#[test]
fn optimizer_test_verbose_financial_query_optimized() {
    let text = "Hey, so I was wondering if you could maybe look at Apple's \
        latest earnings report and tell me how they did compared to \
        last quarter, especially the services revenue part because \
        I've been tracking that, and also what analysts are saying. \
        Thanks in advance, I really appreciate it!";
    let result = optimize_prompt_default(text);
    assert!(result.sent_optimized);
    assert!(result.optimized_tokens < result.original_tokens);
}

#[test]
fn optimizer_test_negations_preserved() {
    let text = "Hi there, could you please analyze TSLA stock performance \
        but don't include any crypto-related comparisons. Also, \
        remember what we discussed last time about the $45 price \
        target — I want to revisit that. Thank you so much!";
    let result = optimize_prompt_default(text);
    assert!(result.sent_optimized);
    let opt_lower = result.optimized.to_lowercase();
    assert!(opt_lower.contains("don't") || opt_lower.contains("don't"));
}

#[test]
fn optimizer_test_short_prompt_skipped() {
    let text = "Compare AAPL and MSFT Q3 earnings.";
    let result = optimize_prompt_default(text);
    assert!(!result.sent_optimized);
    assert_eq!(result.skip_reason, "below_min_tokens");
}

#[test]
fn optimizer_test_code_skipped() {
    let text = "def calculate_roi(investment, returns):\n    import numpy as np\n    return np.sum(returns) / investment\nFix this function to handle edge cases.";
    let result = optimize_prompt_default(text);
    assert!(!result.sent_optimized);
    assert_eq!(result.skip_reason, "code_or_json");
}

#[test]
fn optimizer_test_heavy_filler_optimized() {
    let text = "Okay so basically I was just thinking, honestly, could you \
        kind of like help me understand what the PE ratio actually \
        means for a company like NVDA? I mean, I know it's sort of \
        important but I don't really get why it matters so much. \
        If it's not too much trouble, that would be awesome. Cheers!";
    let result = optimize_prompt_default(text);
    assert!(result.sent_optimized);
    assert!(result.optimized_tokens < result.original_tokens);
}

#[test]
fn optimizer_test_conversation_refs_preserved() {
    let text = "Hey, so going back to what we discussed earlier about my \
        portfolio allocation, I think I want to shift more into \
        bonds. Like I mentioned last time, I'm not comfortable with \
        the 80/20 split anymore. Can you suggest a more conservative \
        approach? Thanks!";
    let result = optimize_prompt_default(text);
    assert!(result.sent_optimized);
    let opt_lower = result.optimized.to_lowercase();
    assert!(
        opt_lower.contains("what we discussed")
            || opt_lower.contains("like i mentioned")
            || opt_lower.contains("my portfolio")
    );
}

#[test]
fn optimizer_test_multiple_tickers_and_money() {
    let text = "Hi, I would really like you to compare the performance of \
        AAPL, MSFT, GOOGL, and AMZN over the last year. Specifically, \
        which one had the best return if I invested $10,000 in each? \
        Also, what's the YTD performance? I'd appreciate it, thanks!";
    let result = optimize_prompt_default(text);
    assert!(result.sent_optimized);
    assert!(result.protected_entities.iter().any(|e| e == "AAPL"));
    assert!(result.protected_entities.iter().any(|e| e == "$10,000"));
}

#[test]
fn optimizer_test_is_code_or_json() {
    assert!(is_code_or_json("{ \"key\": \"val\" } import foo class Bar"));
    assert!(!is_code_or_json("Tell me about AAPL stock"));
}

#[test]
fn optimizer_test_extract_protected_filler_negations_excluded() {
    let text = "If it's not too much trouble, don't skip AAPL";
    let protected = extract_protected(text);
    let negation_texts: Vec<&str> = protected
        .iter()
        .filter(|e| e.kind == "negation")
        .map(|e| e.text.as_str())
        .collect();
    // "not" inside filler phrase should be excluded, but "don't" should remain
    assert!(negation_texts.contains(&"don't"));
}

fn entity(text: &str, kind: &str) -> ProtectedEntity {
    ProtectedEntity { text: text.to_string(), kind: kind.to_string() }
}

#[test]
fn confidence_of_identical_entities_is_full() {
    let es = vec![entity("AAPL", "ticker"), entity("don't", "negation"), entity("what", "question")];
    assert_eq!(calculate_confidence(&es, &es), 1_000_000);
}

#[test]
fn confidence_drops_when_ticker_lost() {
    let before = vec![entity("AAPL", "ticker"), entity("MSFT", "ticker")];
    let after = vec![entity("AAPL", "ticker")];
    // entity score 0.4 * 1/2, question and negation absent: 0.3 + 0.3
    assert_eq!(calculate_confidence(&before, &after), 200_000 + 600_000);
}

#[test]
fn confidence_compares_lowercased_distinct_texts() {
    let before = vec![entity("Never", "negation"), entity("never", "negation"), entity("not", "negation")];
    let after = vec![entity("NEVER", "negation")];
    // distinct lowercased negations: {never, not}; one survives
    assert_eq!(calculate_confidence(&before, &after), 400_000 + 300_000 + 150_000);
}

#[test]
fn confidence_takes_worst_critical_kind() {
    let before = vec![entity("AAPL", "ticker"), entity("$5", "money"), entity("$6", "money"), entity("$7", "money")];
    let after = vec![entity("AAPL", "ticker"), entity("$5", "money")];
    // ticker 1.0, money 1/3 -> 0.4 * 1/3 rounded down
    assert_eq!(calculate_confidence(&before, &after), 133_333 + 600_000);
}

#[test]
fn extract_protected_kinds_in_order() {
    let es = extract_protected("Compare AAPL with $5 today, don't skip");
    let kinds: Vec<&str> = es.iter().map(|e| e.kind.as_str()).collect();
    let texts: Vec<&str> = es.iter().map(|e| e.text.as_str()).collect();
    assert_eq!(texts[0], "AAPL");
    assert_eq!(kinds[0], "ticker");
    assert!(texts.contains(&"$5"));
    assert!(texts.contains(&"today"));
    assert!(texts.contains(&"don't"));
    assert!(texts.contains(&"skip"));
    assert_eq!(*kinds.last().unwrap(), "question");
}

#[test]
fn code_needs_three_indicators() {
    assert!(!is_code_or_json("{ }"));
    assert!(is_code_or_json("{ } ```"));
    assert!(is_code_or_json("let x === y !== z"));
}

#[test]
fn skipped_text_keeps_full_confidence() {
    let r = optimize_prompt_default("Hello world.");
    assert!(!r.sent_optimized);
    assert_eq!(r.skip_reason, "below_min_tokens");
    assert_eq!(r.confidence, 1_000_000);
    assert_eq!(r.optimized, "Hello world.");
    assert_eq!(r.optimized_tokens, r.original_tokens);
    assert!(r.protected_entities.is_empty());
}

#[test]
fn unreachable_threshold_reports_low_confidence() {
    let text = "Hey, so I was wondering if you could maybe look at Apple's latest earnings report and tell me how they did compared to last quarter, especially the services revenue part because I've been tracking that, and also what analysts are saying. Thanks in advance, I really appreciate it!";
    let r = optimize_prompt(text, 1_000_001, 50);
    assert!(!r.sent_optimized);
    assert_eq!(r.optimized, text);
    assert!(r.skip_reason.starts_with("low_confidence ("));
    assert!(r.skip_reason.ends_with(")"));
    assert_eq!(r.skip_reason, "low_confidence (1.00)");
}

#[test]
fn negligible_savings_reported() {
    let text = "Explain how the quarterly revenue of the services segment developed over the past three fiscal periods and which drivers stood out in the reports";
    let r = optimize_prompt(text, 0, 10);
    assert!(!r.sent_optimized);
    assert!(r.skip_reason.starts_with("negligible_savings ("), "{}", r.skip_reason);
    assert_eq!(r.skip_reason, "negligible_savings (1.00)");
}

#[test]
fn sent_result_is_capitalised_and_shorter() {
    let text = "Basically, I just wanted to ask you about using Rust for our new project, honestly it seems like a really good fit, thanks in advance!";
    let r = optimize_prompt(text, 0, 1);
    assert!(r.sent_optimized, "{:?}", r.skip_reason);
    assert!(r.optimized.chars().next().unwrap().is_uppercase());
    assert!(r.optimized_tokens * 20 <= r.original_tokens * 19);
    assert!(!r.optimized.to_lowercase().contains("basically"));
}

#[test]
fn losing_every_negation_caps_confidence() {
    let before = vec![entity("AAPL", "ticker"), entity("not", "negation"), entity("what", "question")];
    let after = vec![entity("AAPL", "ticker"), entity("what", "question")];
    assert_eq!(calculate_confidence(&before, &after), 700_000);
}

#[test]
fn losing_every_ticker_caps_confidence() {
    let before = vec![entity("AAPL", "ticker"), entity("$5", "money"), entity("not", "negation")];
    let after = vec![entity("$5", "money"), entity("not", "negation")];
    assert_eq!(calculate_confidence(&before, &after), 600_000);
}

#[test]
fn decision_on_a_given_candidate() {
    let text = "a".repeat(200);
    let refined = "b".repeat(100);
    let r = decide_refinement(&text, vec![entity("AAPL", "ticker")], refined.clone(), &vec![], 900_000);
    assert!(!r.sent_optimized);
    assert_eq!(r.optimized, text);
    assert_eq!(r.confidence, 600_000);
    assert_eq!(r.skip_reason, "low_confidence (0.60)");
    let r = decide_refinement(&text, vec![entity("AAPL", "ticker")], refined.clone(), &vec![entity("aapl", "ticker")], 900_000);
    assert!(r.sent_optimized);
    assert_eq!(r.optimized, refined);
    assert_eq!((r.original_tokens, r.optimized_tokens), (50, 25));
    assert_eq!(r.protected_entities, vec!["AAPL".to_string()]);
    let r = decide_refinement(&text, vec![], "c".repeat(196), &vec![], 900_000);
    assert!(!r.sent_optimized);
    assert_eq!(r.skip_reason, "negligible_savings (0.98)");
}

#[test]
fn more_surviving_entities_never_lower_confidence() {
    let before = vec![entity("AAPL", "ticker"), entity("MSFT", "ticker"), entity("not", "negation")];
    let fewer = vec![entity("AAPL", "ticker")];
    let more = vec![entity("AAPL", "ticker"), entity("msft", "ticker"), entity("NOT", "negation")];
    assert!(calculate_confidence(&before, &fewer) <= calculate_confidence(&before, &more));
    assert_eq!(calculate_confidence(&before, &more), 1_000_000);
}

fn m(start: usize, end: usize, text: &str) -> RegexMatch {
    RegexMatch { start, end, text: text.to_string() }
}

#[test]
fn entities_from_given_matches() {
    let es = protected_from_matches(
        &vec![m(0, 4, "AAPL")],
        &vec![m(10, 13, "$5B")],
        &vec![],
        &vec![],
        &vec![m(20, 23, "not"), m(40, 42, "no")],
        &vec![m(38, 48, "no worries")],
        &vec![m(50, 54, "what")],
    );
    let got: Vec<(String, String)> = es.into_iter().map(|e| (e.text, e.kind)).collect();
    assert_eq!(
        got,
        vec![
            ("AAPL".to_string(), "ticker".to_string()),
            ("$5B".to_string(), "money".to_string()),
            ("not".to_string(), "negation".to_string()),
            ("what".to_string(), "question".to_string()),
        ]
    );
}
