use fetchless::token::estimate_tokens;

#[test]
fn tokens_are_a_quarter_of_the_bytes() {
    assert_eq!(estimate_tokens("abcdefgh"), 2);
    assert_eq!(estimate_tokens("abcdefghijk"), 2);
}

#[test]
fn short_texts_have_no_tokens() {
    assert_eq!(estimate_tokens(""), 0);
    assert_eq!(estimate_tokens("abc"), 0);
    assert_eq!(estimate_tokens("abcd"), 1);
}

#[test]
fn tokens_count_utf8_bytes() {
    // four two-byte characters: eight bytes
    assert_eq!(estimate_tokens("éééé"), 2);
}
