use vstd::prelude::*;

verus! {

/// Number of bytes of the UTF-8 encoding of `text`, as `str::len` reports it.
pub open spec fn utf8_len(text: Seq<char>) -> usize {
    vstd::utf8::encode_utf8(text).len() as usize
}

/// A quarter of the UTF-8 byte length, rounded down.
pub open spec fn spec_estimate_tokens(text: Seq<char>) -> nat {
    (utf8_len(text) / 4) as nat
}

/// Rough token estimate: about four bytes per token (`len / 4`).
pub fn estimate_tokens(text: &str) -> (n: usize)
    ensures
        n == spec_estimate_tokens(text@),
{
    text.len() / 4
}

} // verus!

verus! {

/// The estimate is the number of whole four-byte groups in the text's
/// UTF-8 encoding.
pub proof fn lemma_tokens_are_four_byte_groups(text: Seq<char>)
    ensures
        4 * spec_estimate_tokens(text) <= utf8_len(text) < 4 * spec_estimate_tokens(text) + 4,
{
}

} // verus!
