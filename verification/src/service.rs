//! What the HTTP and MCP front ends decide and write: which request
//! fields are accepted, the cache lifetime, batch totals and the texts
//! returned to agents. Percentages computed in floating point reach these
//! texts already displayed.
use vstd::prelude::*;
use crate::data_proxy::DataResult;
use crate::error::AppError;
use crate::optimizer::{round_half_even, round_half_even_div, OptimizationResult};
use crate::text::{join, join_strings, strs_view, decimal, push_decimal, push_str};

verus! {

// ============================================================
//  REQUEST FIELDS
// ============================================================

pub open spec fn opt_string_view(o: Option<String>) -> Option<Seq<char>> {
    match o {
        Some(s) => Some(s@),
        None => None,
    }
}

/// The text to refine: `text`, else `prompt`; it must not be empty.
pub fn select_refine_text(text: Option<String>, prompt: Option<String>) -> (r: Result<String, AppError>)
    ensures
        match (if text is Some { opt_string_view(text) } else { opt_string_view(prompt) }) {
            Some(t) => if t.len() > 0 {
                r matches Ok(s) && s@ == t
            } else {
                r matches Err(e) && e is Validation && e.message_view() == "Send {\"text\": \"your prompt\"}"@
            },
            None => r matches Err(e) && e is Validation && e.message_view() == "Send {\"text\": \"your prompt\"}"@,
        },
{
    let chosen = match text {
        Some(t) => Some(t),
        None => prompt,
    };
    match chosen {
        Some(t) => {
            if t.as_str().is_empty() {
                Err(AppError::Validation(String::from_str("Send {\"text\": \"your prompt\"}")))
            } else {
                Ok(t)
            }
        },
        None => Err(AppError::Validation(String::from_str("Send {\"text\": \"your prompt\"}"))),
    }
}

/// The URL to fetch; it must be present and not empty.
pub fn select_fetch_url(url: Option<String>) -> (r: Result<String, AppError>)
    ensures
        match url {
            Some(u) => if u@.len() > 0 {
                r matches Ok(s) && s@ == u@
            } else {
                r matches Err(e) && e is Validation && e.message_view() == "Send {\"url\": \"https://...\"}"@
            },
            None => r matches Err(e) && e is Validation && e.message_view() == "Send {\"url\": \"https://...\"}"@,
        },
{
    match url {
        Some(u) => {
            if u.as_str().is_empty() {
                Err(AppError::Validation(String::from_str("Send {\"url\": \"https://...\"}")))
            } else {
                Ok(u)
            }
        },
        None => Err(AppError::Validation(String::from_str("Send {\"url\": \"https://...\"}"))),
    }
}

/// The URLs of a batch; the list must be present and not empty.
pub fn select_batch_urls(urls: Option<Vec<String>>) -> (r: Result<Vec<String>, AppError>)
    ensures
        match urls {
            Some(u) => if u@.len() > 0 {
                r matches Ok(v) && v@ == u@
            } else {
                r matches Err(e) && e is Validation && e.message_view() == "Send {\"urls\": [\"https://...\", ...]}"@
            },
            None => r matches Err(e) && e is Validation && e.message_view() == "Send {\"urls\": [\"https://...\", ...]}"@,
        },
{
    match urls {
        Some(u) => {
            if u.len() == 0 {
                Err(AppError::Validation(String::from_str("Send {\"urls\": [\"https://...\", ...]}")))
            } else {
                Ok(u)
            }
        },
        None => Err(AppError::Validation(String::from_str("Send {\"urls\": [\"https://...\", ...]}"))),
    }
}

/// The cache lifetime asked for, else the default.
pub fn resolve_ttl(ttl: Option<u64>, default_ttl: u64) -> (r: u64)
    ensures
        r == match ttl {
            Some(t) => t,
            None => default_ttl,
        },
{
    match ttl {
        Some(t) => t,
        None => default_ttl,
    }
}

/// The error a fetch request answers with when the fetch failed.
pub fn fetch_failure(result: &DataResult) -> (r: Option<AppError>)
    ensures
        r is Some <==> result.error@.len() > 0,
        r matches Some(e) ==> e is Fetch && e.message_view() == result.error@,
{
    if result.error.as_str().is_empty() {
        None
    } else {
        Some(AppError::Fetch(result.error.clone()))
    }
}

// ============================================================
//  REDUCTIONS
// ============================================================

/// `n / d` rounded to the nearest integer, halves away from zero.
pub open spec fn round_half_away(n: int, d: int) -> int
    recommends
        d > 0,
{
    if n >= 0 {
        (2 * n + d) / (2 * d)
    } else {
        -((2 * (-n) + d) / (2 * d))
    }
}

/// Rounds a confidence in parts per million to hundredths (halves away
/// from zero), as the refine endpoint reports it.
pub fn confidence_hundredths(ppm: u64) -> (r: u64)
    ensures
        r == round_half_away(ppm as int, 10000),
{
    ((2 * (ppm as u128) + 10000) / 20000) as u64
}

// ============================================================
//  BATCH TOTALS
// ============================================================

pub open spec fn sum_original(rs: Seq<DataResult>) -> nat
    decreases rs.len(),
{
    if rs.len() == 0 {
        0
    } else {
        sum_original(rs.drop_last()) + rs.last().original_tokens as nat
    }
}

pub open spec fn sum_cleaned(rs: Seq<DataResult>) -> nat
    decreases rs.len(),
{
    if rs.len() == 0 {
        0
    } else {
        sum_cleaned(rs.drop_last()) + rs.last().cleaned_tokens as nat
    }
}

/// The token totals of a batch: original and cleaned tokens summed over
/// the results.
pub fn batch_totals(results: &Vec<DataResult>) -> (r: (usize, usize))
    requires
        sum_original(results@) <= usize::MAX,
        sum_cleaned(results@) <= usize::MAX,
    ensures
        r.0 == sum_original(results@),
        r.1 == sum_cleaned(results@),
{
    let mut total_original: usize = 0;
    let mut total_cleaned: usize = 0;
    let mut i: usize = 0;
    while i < results.len()
        invariant
            i <= results.len(),
            sum_original(results@) <= usize::MAX,
            sum_cleaned(results@) <= usize::MAX,
            total_original == sum_original(results@.take(i as int)),
            total_cleaned == sum_cleaned(results@.take(i as int)),
        decreases results.len() - i,
    {
        proof {
            assert(results@.take(i + 1).drop_last() =~= results@.take(i as int));
            lemma_sums_prefix(results@, i + 1);
        }
        total_original = total_original + results[i].original_tokens;
        total_cleaned = total_cleaned + results[i].cleaned_tokens;
        i = i + 1;
    }
    proof {
        assert(results@.take(results@.len() as int) =~= results@);
    }
    (total_original, total_cleaned)
}

/// The sums over a prefix do not exceed the sums over the whole list.
proof fn lemma_sums_prefix(rs: Seq<DataResult>, n: int)
    requires
        0 <= n <= rs.len(),
    ensures
        sum_original(rs.take(n)) <= sum_original(rs),
        sum_cleaned(rs.take(n)) <= sum_cleaned(rs),
    decreases rs.len(),
{
    if n < rs.len() {
        assert(rs.drop_last().take(n) =~= rs.take(n));
        lemma_sums_prefix(rs.drop_last(), n);
    } else {
        assert(rs.take(n) =~= rs);
    }
}

} // verus!

verus! {

// ============================================================
//  MCP TEXTS
// ============================================================

/// The text answered for one fetched URL: the error, or a header with the
/// token counts and the reduction percentage as displayed (and whether it
/// came from the cache), a blank line and the content.
pub open spec fn fetch_clean_text(url: Seq<char>, r: DataResult, reduction: Seq<char>) -> Seq<char> {
    if r.error@.len() > 0 {
        "Error fetching "@ + url + ": "@ + r.error@
    } else {
        "[Fetchless] "@ + decimal(r.original_tokens as nat) + " -> "@ + decimal(r.cleaned_tokens as nat)
            + " tokens ("@ + reduction + "% reduced)"@ + (if r.from_cache { " [cached]"@ } else { Seq::empty() }) + "\n\n"@
            + r.content@
    }
}

/// Writes the text answered for one fetched URL; `reduction` is the
/// reduction percentage as displayed.
pub fn render_fetch_clean(url: &str, result: &DataResult, reduction: &str) -> (r: String)
    ensures
        r@ == fetch_clean_text(url@, *result, reduction@),
{
    let mut out = String::new();
    if !result.error.as_str().is_empty() {
        push_str(&mut out, "Error fetching ");
        push_str(&mut out, url);
        push_str(&mut out, ": ");
        push_str(&mut out, result.error.as_str());
        return out;
    }
    push_str(&mut out, "[Fetchless] ");
    push_decimal(&mut out, result.original_tokens as u128);
    push_str(&mut out, " -> ");
    push_decimal(&mut out, result.cleaned_tokens as u128);
    push_str(&mut out, " tokens (");
    push_str(&mut out, reduction);
    push_str(&mut out, "% reduced)");
    let ghost before_tag = out@;
    if result.from_cache {
        push_str(&mut out, " [cached]");
    } else {
        assert(out@ =~= before_tag + Seq::<char>::empty());
    }
    push_str(&mut out, "\n\n");
    push_str(&mut out, result.content.as_str());
    out
}

/// One part of a batch answer: the URL between dashes, then the error or
/// the content.
pub open spec fn batch_part(url: Seq<char>, r: DataResult) -> Seq<char> {
    "--- "@ + url + " ---\n"@ + (if r.error@.len() > 0 { "Error: "@ + r.error@ } else { r.content@ }) + "\n"@
}

pub open spec fn batch_parts(urls: Seq<String>, results: Seq<DataResult>) -> Seq<Seq<char>> {
    Seq::new(urls.len(), |i: int| batch_part(urls[i]@, results[i]))
}

/// The text answered for a batch: a header with the count, token totals
/// and the total reduction percentage as displayed, then the parts
/// separated by blank lines.
pub open spec fn fetch_batch_text(urls: Seq<String>, results: Seq<DataResult>, reduction: Seq<char>) -> Seq<char> {
    let total_original = sum_original(results);
    let total_cleaned = sum_cleaned(results);
    "[Fetchless] "@ + decimal(urls.len()) + " URLs | "@ + decimal(total_original) + " -> "@ + decimal(
        total_cleaned,
    ) + " tokens ("@ + reduction + "% reduced)\n\n"@
        + join(batch_parts(urls, results), "\n"@)
}

/// Writes the text answered for a batch; `results[i]` is the outcome of
/// `urls[i]`, `reduction` the total reduction percentage as displayed.
pub fn render_fetch_batch(urls: &Vec<String>, results: &Vec<DataResult>, reduction: &str) -> (r: String)
    requires
        urls@.len() == results@.len(),
        sum_original(results@) <= usize::MAX,
        sum_cleaned(results@) <= usize::MAX,
    ensures
        r@ == fetch_batch_text(urls@, results@, reduction@),
{
    let (total_original, total_cleaned) = batch_totals(results);
    let mut parts: Vec<String> = Vec::new();
    let mut i: usize = 0;
    while i < urls.len()
        invariant
            i <= urls@.len(),
            urls@.len() == results@.len(),
            strs_view(parts@) == batch_parts(urls@, results@).take(i as int),
        decreases urls@.len() - i,
    {
        let mut part = String::new();
        push_str(&mut part, "--- ");
        push_str(&mut part, urls[i].as_str());
        push_str(&mut part, " ---\n");
        if !results[i].error.as_str().is_empty() {
            push_str(&mut part, "Error: ");
            push_str(&mut part, results[i].error.as_str());
        } else {
            push_str(&mut part, results[i].content.as_str());
        }
        push_str(&mut part, "\n");
        let ghost before = strs_view(parts@);
        parts.push(part);
        proof {
            assert(strs_view(parts@) =~= before.push(part@));
            assert(part@ =~= batch_part(urls@[i as int]@, results@[i as int]));
            assert(batch_parts(urls@, results@).take(i + 1) =~= batch_parts(urls@, results@).take(i as int).push(
                batch_part(urls@[i as int]@, results@[i as int]),
            ));
        }
        i = i + 1;
    }
    proof {
        assert(batch_parts(urls@, results@).take(urls@.len() as int) =~= batch_parts(urls@, results@));
    }
    let mut out = String::new();
    push_str(&mut out, "[Fetchless] ");
    push_decimal(&mut out, urls.len() as u128);
    push_str(&mut out, " URLs | ");
    push_decimal(&mut out, total_original as u128);
    push_str(&mut out, " -> ");
    push_decimal(&mut out, total_cleaned as u128);
    push_str(&mut out, " tokens (");
    push_str(&mut out, reduction);
    push_str(&mut out, "% reduced)\n\n");
    let body = join_strings(&parts, "\n");
    push_str(&mut out, body.as_str());
    out
}

/// At most the first eight protected entities.
pub open spec fn shown_entities(es: Seq<Seq<char>>) -> Seq<Seq<char>> {
    if es.len() <= 8 {
        es
    } else {
        es.take(8)
    }
}

/// The text answered for a refinement: the original with its tokens,
/// then the suggestion with its tokens, savings (the percentage as
/// displayed), up to eight protected entities and the confidence in
/// percent, or why nothing was suggested.
pub open spec fn refine_text(r: OptimizationResult, savings: Seq<char>) -> Seq<char> {
    let head = "Original ("@ + decimal(r.original_tokens as nat) + " tokens):\n"@ + r.original@ + "\n\n"@;
    if r.sent_optimized {
        head + "Suggested ("@ + decimal(r.optimized_tokens as nat) + " tokens, "@ + savings + "% smaller):\n"@ + r.optimized@ + "\n\n"@ + "Protected: "@ + join(
            shown_entities(strs_view(r.protected_entities@)),
            ", "@,
        ) + "\n"@ + "Confidence: "@ + decimal(round_half_even(r.confidence as nat, 10000)) + "%"@
    } else {
        head + "No optimization needed. Reason: "@ + r.skip_reason@
    }
}

/// Writes the text answered for a refinement; `savings` is the savings
/// percentage as displayed.
pub fn render_refine(result: &OptimizationResult, savings: &str) -> (r: String)
    ensures
        r@ == refine_text(*result, savings@),
{
    let mut out = String::new();
    push_str(&mut out, "Original (");
    push_decimal(&mut out, result.original_tokens as u128);
    push_str(&mut out, " tokens):\n");
    push_str(&mut out, result.original.as_str());
    push_str(&mut out, "\n\n");
    if result.sent_optimized {
        push_str(&mut out, "Suggested (");
        push_decimal(&mut out, result.optimized_tokens as u128);
        push_str(&mut out, " tokens, ");
        push_str(&mut out, savings);
        push_str(&mut out, "% smaller):\n");
        push_str(&mut out, result.optimized.as_str());
        push_str(&mut out, "\n\n");
        let mut shown: Vec<String> = Vec::new();
        let mut i: usize = 0;
        while i < result.protected_entities.len() && i < 8
            invariant
                i <= result.protected_entities@.len(),
                i <= 8,
                strs_view(shown@) == strs_view(result.protected_entities@).take(i as int),
            decreases 8 - i,
        {
            let ghost before = strs_view(shown@);
            shown.push(result.protected_entities[i].clone());
            proof {
                assert(strs_view(shown@) =~= before.push(result.protected_entities@[i as int]@));
                assert(strs_view(result.protected_entities@).take(i + 1) =~= strs_view(
                    result.protected_entities@,
                ).take(i as int).push(result.protected_entities@[i as int]@));
            }
            i = i + 1;
        }
        proof {
            let all = strs_view(result.protected_entities@);
            if all.len() <= 8 {
                assert(all.take(i as int) =~= all);
            }
            assert(strs_view(shown@) == shown_entities(all));
        }
        push_str(&mut out, "Protected: ");
        let listed = join_strings(&shown, ", ");
        push_str(&mut out, listed.as_str());
        push_str(&mut out, "\n");
        push_str(&mut out, "Confidence: ");
        push_decimal(&mut out, round_half_even_div(result.confidence as u128, 10000));
        push_str(&mut out, "%");
    } else {
        push_str(&mut out, "No optimization needed. Reason: ");
        push_str(&mut out, result.skip_reason.as_str());
    }
    out
}

} // verus!
