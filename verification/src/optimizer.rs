//! Prompt refinement: filler removal guarded by the protection of
//! entities (tickers, money, time and conversation references, negations,
//! question words).
//!
//! Confidence is a fraction kept in parts per million: 1_000_000 stands
//! for 1.0.

use vstd::prelude::*;
use crate::matching::{
    fancy_find_all_matches, find_all_or_empty, matches_view, RegexMatch, replace_all_or_same, replace_first,
    fancy_find_all, found_or_empty, regex_find_all, regex_replace_all, regex_replace_first,
    replaced_or_same,
};
use crate::text::{strs_view, str_contains, str_trim, str_chars, is_lowercase_char, uppercase_char, push_char, push_str, push_decimal, digit, str_to_lowercase, char_is_lowercase, char_uppercase, decimal, digit_char, has_substring, lowercase, trim_spec};
use crate::token::{estimate_tokens, spec_estimate_tokens};

verus! {

// ============================================================
//  PROTECTED PATTERNS
// ============================================================

pub const TICKER_PATTERN: &'static str = r"\b[A-Z]{2,5}\b(?=\s|,|\.|$|\))";

pub const MONEY_PATTERN: &'static str = r"\$[\d,.]+[BMKbmk]?|\d+\.?\d*\s*%|\d+[xX]\b";

pub const TIME_REFS: &'static str = r"(?i)\b(today|yesterday|tomorrow|last\s+(?:week|month|quarter|year)|next\s+(?:week|month|quarter|year)|this\s+(?:week|month|quarter|year)|Q[1-4]\s*\d{2,4}|FY\s*\d{2,4}|\d{4}|\d{1,2}/\d{1,2}/\d{2,4}|since\s+\w+|before\s+\w+|after\s+\w+|YTD|MTD|QTD)\b";

pub const CONVO_REFS: &'static str = r"(?i)\b(what we discussed|as I said|like I mentioned|my portfolio|we talked about|you said|you mentioned|earlier|previously|last time|before this|our conversation|what you told me|remember when|as we agreed|my account|my positions?)\b";

pub const NEGATIONS: &'static str = r"(?i)\b(don'?t|do not|not|never|no|exclude|ignore|without|isn'?t|aren'?t|won'?t|can'?t|shouldn'?t|wouldn'?t|doesn'?t|haven'?t|hasn'?t|avoid|skip|except)\b";

pub const QUESTION_ANCHORS: &'static str = r"(?i)\b(who|what|when|where|why|how|which|compare|difference|versus|vs\.?|better|worse|rank|list|explain|summarize|analyze|recommend|suggest|should I|is it)\b";

pub const FILLER_NEGATION_PHRASES: &'static str = r"(?i)(?:not too much trouble|not a problem|no worries|not at all|no rush|not urgent|if it's not)";

/// Leading punctuation and white space left over after filler removal.
pub const LEADING_CLEAN: &'static str = r"^[,.\s]+";

pub const KIND_TICKER: &'static str = "ticker";

pub const KIND_MONEY: &'static str = "money";

pub const KIND_TIME_REF: &'static str = "time_ref";

pub const KIND_CONVO_REF: &'static str = "convo_ref";

pub const KIND_NEGATION: &'static str = "negation";

pub const KIND_QUESTION: &'static str = "question";

// ============================================================
//  TYPES
// ============================================================

/// A span of text that filler removal must not lose, with its kind.
#[derive(Debug, Clone)]
pub struct ProtectedEntity {
    pub text: String,
    pub kind: String,
}

impl View for ProtectedEntity {
    type V = (Seq<char>, Seq<char>);

    open spec fn view(&self) -> (Seq<char>, Seq<char>) {
        (self.text@, self.kind@)
    }
}

/// The outcome of a refinement, as plain values.
pub struct OptimizationOutcome {
    pub original: Seq<char>,
    pub optimized: Seq<char>,
    pub original_tokens: nat,
    pub optimized_tokens: nat,
    pub confidence: nat,
    pub protected_entities: Seq<Seq<char>>,
    pub sent_optimized: bool,
    pub skip_reason: Seq<char>,
}

/// The outcome of a refinement. `confidence` is in parts per million.
#[derive(Debug, Clone)]
pub struct OptimizationResult {
    pub original: String,
    pub optimized: String,
    pub original_tokens: usize,
    pub optimized_tokens: usize,
    pub confidence: u64,
    pub protected_entities: Vec<String>,
    pub sent_optimized: bool,
    pub skip_reason: String,
}

impl View for OptimizationResult {
    type V = OptimizationOutcome;

    open spec fn view(&self) -> OptimizationOutcome {
        OptimizationOutcome {
            original: self.original@,
            optimized: self.optimized@,
            original_tokens: self.original_tokens as nat,
            optimized_tokens: self.optimized_tokens as nat,
            confidence: self.confidence as nat,
            protected_entities: strs_view(self.protected_entities@),
            sent_optimized: self.sent_optimized,
            skip_reason: self.skip_reason@,
        }
    }
}

/// A filler pattern and what replaces each of its matches.
pub struct FillerPattern {
    pub pattern: &'static str,
    pub replacement: &'static str,
}

impl View for FillerPattern {
    type V = (Seq<char>, Seq<char>);

    open spec fn view(&self) -> (Seq<char>, Seq<char>) {
        (self.pattern@, self.replacement@)
    }
}


pub open spec fn entities_view(v: Seq<ProtectedEntity>) -> Seq<(Seq<char>, Seq<char>)> {
    v.map_values(|e: ProtectedEntity| e@)
}

// ============================================================
//  SPECIFICATION
// ============================================================

/// Each match, tagged with `kind`.
pub open spec fn tag_matches(ms: Seq<(usize, usize, Seq<char>)>, kind: Seq<char>) -> Seq<(Seq<char>, Seq<char>)> {
    ms.map_values(|m: (usize, usize, Seq<char>)| (m.2, kind))
}

/// The match lies inside one of the spans.
pub open spec fn inside_some(m: (usize, usize, Seq<char>), spans: Seq<(usize, usize, Seq<char>)>) -> bool {
    exists|k: int| 0 <= k < spans.len() && #[trigger] spans[k].0 <= m.0 && m.1 <= spans[k].1
}

/// The protected entities given the matches of each search: tickers,
/// money, time references, conversation references, negations (those not
/// inside a polite filler phrase), question words; within a kind in the
/// order the search found them.
pub open spec fn spec_protected_from_matches(
    tickers: Seq<(usize, usize, Seq<char>)>,
    money: Seq<(usize, usize, Seq<char>)>,
    time_refs: Seq<(usize, usize, Seq<char>)>,
    convo_refs: Seq<(usize, usize, Seq<char>)>,
    negations: Seq<(usize, usize, Seq<char>)>,
    filler_phrases: Seq<(usize, usize, Seq<char>)>,
    questions: Seq<(usize, usize, Seq<char>)>,
) -> Seq<(Seq<char>, Seq<char>)> {
    tag_matches(tickers, KIND_TICKER@) + tag_matches(money, KIND_MONEY@) + tag_matches(time_refs, KIND_TIME_REF@)
        + tag_matches(convo_refs, KIND_CONVO_REF@) + tag_matches(
        negations.filter(outside_fillers(filler_phrases)),
        KIND_NEGATION@,
    ) + tag_matches(questions, KIND_QUESTION@)
}

/// The protected entities of a text, in the order of the kinds: tickers,
/// money, time references, conversation references, negations, question
/// words; within a kind in the order the search found them.
pub open spec fn spec_extract_protected(text: Seq<char>) -> Seq<(Seq<char>, Seq<char>)> {
    spec_protected_from_matches(
        found_or_empty(fancy_find_all(TICKER_PATTERN@, text)),
        found_or_empty(regex_find_all(MONEY_PATTERN@, text)),
        found_or_empty(regex_find_all(TIME_REFS@, text)),
        found_or_empty(regex_find_all(CONVO_REFS@, text)),
        found_or_empty(regex_find_all(NEGATIONS@, text)),
        found_or_empty(regex_find_all(FILLER_NEGATION_PHRASES@, text)),
        found_or_empty(regex_find_all(QUESTION_ANCHORS@, text)),
    )
}

/// The set of lowercased texts of the entities of one kind.
pub open spec fn kind_set(es: Seq<(Seq<char>, Seq<char>)>, kind: Seq<char>) -> Set<Seq<char>> {
    es.filter(of_kind(kind)).map_values(lowered_text()).to_set()
}

/// The entity is of the given kind.
pub open spec fn of_kind(kind: Seq<char>) -> spec_fn((Seq<char>, Seq<char>)) -> bool {
    |e: (Seq<char>, Seq<char>)| e.1 == kind
}

/// The entity's text, lowercased.
pub open spec fn lowered_text() -> spec_fn((Seq<char>, Seq<char>)) -> Seq<char> {
    |e: (Seq<char>, Seq<char>)| lowercase(e.0)
}

/// `weight` times the share of the original kind's texts that survive
/// (rounded down); the full weight when the original has none.
pub open spec fn match_rate(
    orig: Seq<(Seq<char>, Seq<char>)>,
    opt: Seq<(Seq<char>, Seq<char>)>,
    kind: Seq<char>,
    weight: nat,
) -> nat {
    let o = kind_set(orig, kind);
    if o.len() == 0 {
        weight
    } else {
        weight * o.intersect(kind_set(opt, kind)).len() / o.len()
    }
}

/// Folds one critical kind into the running minimum: kinds absent from the
/// original do not count.
pub open spec fn min_with_rate(
    acc: Option<nat>,
    orig: Seq<(Seq<char>, Seq<char>)>,
    opt: Seq<(Seq<char>, Seq<char>)>,
    kind: Seq<char>,
) -> Option<nat> {
    if kind_set(orig, kind).len() == 0 {
        acc
    } else {
        let r = match_rate(orig, opt, kind, 400000);
        match acc {
            None => Some(r),
            Some(a) => Some(if r < a { r } else { a }),
        }
    }
}

/// Weighted entity score: the worst survival rate among the critical
/// kinds present in the original, weighted 0.4.
pub open spec fn entity_score(orig: Seq<(Seq<char>, Seq<char>)>, opt: Seq<(Seq<char>, Seq<char>)>) -> nat {
    let m = min_with_rate(
        min_with_rate(
            min_with_rate(min_with_rate(None, orig, opt, KIND_TICKER@), orig, opt, KIND_MONEY@),
            orig,
            opt,
            KIND_TIME_REF@,
        ),
        orig,
        opt,
        KIND_CONVO_REF@,
    );
    match m {
        None => 400000,
        Some(x) => x,
    }
}

/// Confidence in parts per million: entity score weighted 0.4, question
/// words 0.3, negations 0.3.
pub open spec fn spec_calculate_confidence(
    orig: Seq<(Seq<char>, Seq<char>)>,
    opt: Seq<(Seq<char>, Seq<char>)>,
) -> nat {
    entity_score(orig, opt) + match_rate(orig, opt, KIND_QUESTION@, 300000) + match_rate(
        orig,
        opt,
        KIND_NEGATION@,
        300000,
    )
}

pub open spec fn code_indicators_spec() -> Seq<Seq<char>> {
    seq![
        "{"@, "}"@, "def "@, "class "@, "import "@, "function "@, "const "@, "var "@, "let "@,
        "```"@, "==="@, "!=="@,
    ]
}

/// At least three of the code indicators occur in the text.
pub open spec fn spec_is_code_or_json(text: Seq<char>) -> bool {
    code_indicators_spec().filter(|i: Seq<char>| has_substring(text, i)).len() >= 3
}

pub open spec fn filler_table() -> Seq<(Seq<char>, Seq<char>)> {
    seq![
        (r"(?i)\bI was wondering if (?:you could |maybe )?"@, ""@),
        (r"(?i)\bcould you (?:please |maybe |possibly )?"@, ""@),
        (r"(?i)\bwould you (?:be able to |mind )?"@, ""@),
        (r"(?i)\bI would (?:really )?like (?:you )?to "@, ""@),
        (r"(?i)\bcan you (?:please )?"@, ""@),
        (r"(?i)\bdo you think you could "@, ""@),
        (r"(?i)\bif (?:it's )?(?:not too much trouble|possible),?\s*"@, ""@),
        (r"(?i)\b(?:please|thanks|thank you|thx|pls)\b[,.]?\s*"@, ""@),
        (r"(?i)^(?:hey|hi|hello|yo|sup)(?:\s+there)?[,.\s]+"@, ""@),
        (r"(?i)^(?:so|ok so|okay so|alright so|okay)\s+"@, ""@),
        (r"(?i)\b(?:basically|actually|honestly|really|just|very|quite|pretty much|kind of|sort of|literally|obviously|clearly|simply|definitely|certainly|absolutely|essentially|fundamentally|in my opinion|I think that|I believe that|it seems like|to be honest|as you know|you know|I mean|if you know what I mean|at the end of the day|needless to say)\b,?\s*"@, ""@),
        (r"(?i)\s*(?:thanks in advance|thank you so much|I really appreciate it|that would be great|that would be awesome|I'd appreciate it|much appreciated|cheers)\.?\s*$"@, ""@),
        (r"  +"@, " "@),
        (r"\n\s*\n\s*\n+"@, "\n\n"@),
    ]
}

/// The text after each filler pattern in turn has replaced all its matches.
pub open spec fn apply_fillers(pats: Seq<(Seq<char>, Seq<char>)>, text: Seq<char>) -> Seq<char>
    decreases pats.len(),
{
    if pats.len() == 0 {
        text
    } else {
        let before = apply_fillers(pats.drop_last(), text);
        replaced_or_same(regex_replace_all(pats.last().0, before, pats.last().1), before)
    }
}

/// The first character upper-cased when it is lowercase.
pub open spec fn capitalize_first(s: Seq<char>) -> Seq<char> {
    if s.len() > 0 && char_is_lowercase(s[0]) {
        char_uppercase(s[0]) + s.drop_first()
    } else {
        s
    }
}

/// The refined candidate: fillers removed, edges trimmed, leading
/// punctuation dropped, first letter capitalised.
pub open spec fn spec_refined(text: Seq<char>) -> Seq<char> {
    let trimmed = trim_spec(apply_fillers(filler_table(), text));
    let cleaned = replaced_or_same(regex_replace_first(LEADING_CLEAN@, trimmed, ""@), trimmed);
    capitalize_first(cleaned)
}

/// `n / d` rounded to the nearest integer, ties to even.
pub open spec fn round_half_even(n: nat, d: nat) -> nat
    recommends
        d > 0,
{
    let q = n / d;
    let r = n % d;
    if 2 * r > d {
        q + 1
    } else if 2 * r < d {
        q
    } else if q % 2 == 0 {
        q
    } else {
        q + 1
    }
}

/// A count of hundredths written with two decimals, as `{:.2}` shows it.
pub open spec fn fixed2(h: nat) -> Seq<char> {
    decimal(h / 100) + seq!['.', digit_char((h % 100) / 10), digit_char(h % 10)]
}

pub open spec fn low_confidence_reason(confidence: nat) -> Seq<char> {
    "low_confidence ("@ + fixed2(round_half_even(confidence, 10000)) + ")"@
}

/// The share of tokens that remain, in hundredths: 1.0 when the original
/// has no tokens.
pub open spec fn remaining_hundredths(refined_tokens: nat, original_tokens: nat) -> nat {
    if original_tokens > 0 {
        round_half_even(100 * refined_tokens, original_tokens)
    } else {
        100
    }
}

/// Too little is saved: more than 95% of the tokens remain (all of them
/// count as remaining when the original has none).
pub open spec fn negligible(refined_tokens: nat, original_tokens: nat) -> bool {
    if original_tokens > 0 {
        20 * refined_tokens > 19 * original_tokens
    } else {
        true
    }
}

pub open spec fn negligible_savings_reason(refined_tokens: nat, original_tokens: nat) -> Seq<char> {
    "negligible_savings ("@ + fixed2(remaining_hundredths(refined_tokens, original_tokens)) + ")"@
}

/// A result that leaves the text as it is.
pub open spec fn skipped_outcome(text: Seq<char>, reason: Seq<char>) -> OptimizationOutcome {
    OptimizationOutcome {
        original: text,
        optimized: text,
        original_tokens: spec_estimate_tokens(text),
        optimized_tokens: spec_estimate_tokens(text),
        confidence: 1000000,
        protected_entities: Seq::empty(),
        sent_optimized: false,
        skip_reason: reason,
    }
}

/// What refining `text` gives: code and short texts are left alone;
/// otherwise the refined candidate is sent when its confidence reaches the
/// threshold and it keeps at most 95% of the tokens.
pub open spec fn spec_optimize_prompt(text: Seq<char>, threshold: nat, min_tokens: nat) -> OptimizationOutcome {
    let original_tokens = spec_estimate_tokens(text);
    if spec_is_code_or_json(text) {
        skipped_outcome(text, "code_or_json"@)
    } else if original_tokens < min_tokens {
        skipped_outcome(text, "below_min_tokens"@)
    } else {
        spec_decide_refinement(text, spec_extract_protected(text), spec_refined(text), spec_extract_protected(spec_refined(text)), threshold)
    }
}

/// The decision on a refined candidate, given the protected entities of
/// the text (`before`) and of the candidate (`after`): the candidate is
/// sent when its confidence reaches the threshold and it keeps at most 95%
/// of the tokens; otherwise the text is kept and the reason given.
pub open spec fn spec_decide_refinement(
    text: Seq<char>,
    before: Seq<(Seq<char>, Seq<char>)>,
    refined: Seq<char>,
    after: Seq<(Seq<char>, Seq<char>)>,
    threshold: nat,
) -> OptimizationOutcome {
    let original_tokens = spec_estimate_tokens(text);
    let refined_tokens = spec_estimate_tokens(refined);
    let confidence = spec_calculate_confidence(before, after);
    let not_worth_it = negligible(refined_tokens, original_tokens);
    let confident_enough = confidence >= threshold;
    let sent = confident_enough && !not_worth_it;
    OptimizationOutcome {
        original: text,
        optimized: if sent { refined } else { text },
        original_tokens,
        optimized_tokens: if sent { refined_tokens } else { original_tokens },
        confidence,
        protected_entities: before.map_values(|e: (Seq<char>, Seq<char>)| e.0),
        sent_optimized: sent,
        skip_reason: if !confident_enough {
            low_confidence_reason(confidence)
        } else if not_worth_it {
            negligible_savings_reason(refined_tokens, original_tokens)
        } else {
            Seq::empty()
        },
    }
}

} // verus!

verus! {

/// The match is the spanned by neither of the filler phrases.
pub open spec fn outside_fillers(fillers: Seq<(usize, usize, Seq<char>)>) -> spec_fn((usize, usize, Seq<char>)) -> bool {
    |m: (usize, usize, Seq<char>)| !inside_some(m, fillers)
}

/// The indicator occurs in the text.
pub open spec fn occurs_in(text: Seq<char>) -> spec_fn(Seq<char>) -> bool {
    |i: Seq<char>| has_substring(text, i)
}

proof fn lemma_tag_push(ms: Seq<(usize, usize, Seq<char>)>, m: (usize, usize, Seq<char>), kind: Seq<char>)
    ensures
        tag_matches(ms.push(m), kind) == tag_matches(ms, kind).push((m.2, kind)),
{
    assert(tag_matches(ms.push(m), kind) =~= tag_matches(ms, kind).push((m.2, kind)));
}

/// Appends each match, tagged with `kind`.
fn push_tagged(out: &mut Vec<ProtectedEntity>, ms: &Vec<RegexMatch>, kind: &str)
    ensures
        entities_view(final(out)@) == entities_view(old(out)@) + tag_matches(matches_view(ms@), kind@),
{
    let ghost start = entities_view(out@);
    let mut i: usize = 0;
    while i < ms.len()
        invariant
            i <= ms.len(),
            entities_view(out@) == start + tag_matches(matches_view(ms@).take(i as int), kind@),
        decreases ms.len() - i,
    {
        let ghost before = entities_view(out@);
        out.push(ProtectedEntity { text: ms[i].text.clone(), kind: String::from_str(kind) });
        proof {
            assert(matches_view(ms@).take(i + 1) =~= matches_view(ms@).take(i as int).push(ms@[i as int]@));
            lemma_tag_push(matches_view(ms@).take(i as int), ms@[i as int]@, kind@);
            assert(entities_view(out@) =~= before.push((ms@[i as int].text@, kind@)));
        }
        i = i + 1;
    }
    proof {
        assert(matches_view(ms@).take(ms@.len() as int) =~= matches_view(ms@));
    }
}

/// The match lies inside one of the filler spans.
fn inside_any(m: &RegexMatch, spans: &Vec<RegexMatch>) -> (r: bool)
    ensures
        r == inside_some(m@, matches_view(spans@)),
{
    let mut k: usize = 0;
    while k < spans.len()
        invariant
            k <= spans.len(),
            forall|j: int| 0 <= j < k ==> !(spans@[j].start <= m.start && m.end <= spans@[j].end),
        decreases spans.len() - k,
    {
        if spans[k].start <= m.start && m.end <= spans[k].end {
            assert(matches_view(spans@)[k as int].0 <= m@.0 && m@.1 <= matches_view(spans@)[k as int].1);
            return true;
        }
        k = k + 1;
    }
    assert forall|j: int| 0 <= j < matches_view(spans@).len() implies !(#[trigger] matches_view(spans@)[j].0
        <= m@.0 && m@.1 <= matches_view(spans@)[j].1) by {
        assert(matches_view(spans@)[j] == spans@[j]@);
    }
    false
}

/// Appends the matches that no filler span contains, tagged with `kind`.
fn push_tagged_outside(
    out: &mut Vec<ProtectedEntity>,
    ms: &Vec<RegexMatch>,
    fillers: &Vec<RegexMatch>,
    kind: &str,
)
    ensures
        entities_view(final(out)@) == entities_view(old(out)@) + tag_matches(
            matches_view(ms@).filter(outside_fillers(matches_view(fillers@))),
            kind@,
        ),
{
    let ghost start = entities_view(out@);
    let ghost keep = outside_fillers(matches_view(fillers@));
    let mut i: usize = 0;
    while i < ms.len()
        invariant
            i <= ms.len(),
            keep == outside_fillers(matches_view(fillers@)),
            entities_view(out@) == start + tag_matches(matches_view(ms@).take(i as int).filter(keep), kind@),
        decreases ms.len() - i,
    {
        let ghost before = entities_view(out@);
        proof {
            assert(matches_view(ms@).take(i + 1) =~= matches_view(ms@).take(i as int).push(ms@[i as int]@));
            matches_view(ms@).take(i as int).lemma_filter_push(ms@[i as int]@, keep);
        }
        if !inside_any(&ms[i], fillers) {
            out.push(ProtectedEntity { text: ms[i].text.clone(), kind: String::from_str(kind) });
            proof {
                lemma_tag_push(matches_view(ms@).take(i as int).filter(keep), ms@[i as int]@, kind@);
                assert(entities_view(out@) =~= before.push((ms@[i as int].text@, kind@)));
            }
        }
        i = i + 1;
    }
    proof {
        assert(matches_view(ms@).take(ms@.len() as int) =~= matches_view(ms@));
    }
}

/// Finds the protected entities of a text: tickers, money amounts and
/// percentages, time references, conversation references, negations
/// (except those inside polite filler phrases) and question words.
pub fn extract_protected(text: &str) -> (r: Vec<ProtectedEntity>)
    ensures
        entities_view(r@) == spec_extract_protected(text@),
{
    let tickers = match fancy_find_all_matches(TICKER_PATTERN, text) {
        Some(ms) => ms,
        None => Vec::new(),
    };
    let money = find_all_or_empty(MONEY_PATTERN, text);
    let time_refs = find_all_or_empty(TIME_REFS, text);
    let convo_refs = find_all_or_empty(CONVO_REFS, text);
    let negations = find_all_or_empty(NEGATIONS, text);
    let fillers = find_all_or_empty(FILLER_NEGATION_PHRASES, text);
    let questions = find_all_or_empty(QUESTION_ANCHORS, text);
    proof {
        assert(matches_view(tickers@) == found_or_empty(fancy_find_all(TICKER_PATTERN@, text@)));
    }
    protected_from_matches(&tickers, &money, &time_refs, &convo_refs, &negations, &fillers, &questions)
}

/// The protected entities given the matches of each search (see
/// `extract_protected`); negations inside one of `filler_phrases` do not
/// count.
pub fn protected_from_matches(
    tickers: &Vec<RegexMatch>,
    money: &Vec<RegexMatch>,
    time_refs: &Vec<RegexMatch>,
    convo_refs: &Vec<RegexMatch>,
    negations: &Vec<RegexMatch>,
    filler_phrases: &Vec<RegexMatch>,
    questions: &Vec<RegexMatch>,
) -> (r: Vec<ProtectedEntity>)
    ensures
        entities_view(r@) == spec_protected_from_matches(
            matches_view(tickers@),
            matches_view(money@),
            matches_view(time_refs@),
            matches_view(convo_refs@),
            matches_view(negations@),
            matches_view(filler_phrases@),
            matches_view(questions@),
        ),
{
    let mut protected: Vec<ProtectedEntity> = Vec::new();
    push_tagged(&mut protected, tickers, KIND_TICKER);
    push_tagged(&mut protected, money, KIND_MONEY);
    push_tagged(&mut protected, time_refs, KIND_TIME_REF);
    push_tagged(&mut protected, convo_refs, KIND_CONVO_REF);
    push_tagged_outside(&mut protected, negations, filler_phrases, KIND_NEGATION);
    push_tagged(&mut protected, questions, KIND_QUESTION);
    proof {
        assert(entities_view(protected@) =~= spec_protected_from_matches(
            matches_view(tickers@),
            matches_view(money@),
            matches_view(time_refs@),
            matches_view(convo_refs@),
            matches_view(negations@),
            matches_view(filler_phrases@),
            matches_view(questions@),
        ));
    }
    protected
}

fn code_indicators() -> (r: Vec<&'static str>)
    ensures
        r@.map_values(|s: &'static str| s@) == code_indicators_spec(),
{
    let r = vec!["{", "}", "def ", "class ", "import ", "function ", "const ", "var ", "let ", "```", "===", "!=="];
    assert(r@.map_values(|s: &'static str| s@) =~= code_indicators_spec());
    r
}

/// True when at least three code indicators (braces, keywords, fences,
/// strict comparisons) occur in the text.
pub fn is_code_or_json(text: &str) -> (r: bool)
    ensures
        r == spec_is_code_or_json(text@),
{
    let indicators = code_indicators();
    let ghost ind = indicators@.map_values(|s: &'static str| s@);
    let ghost p = occurs_in(text@);
    let mut count: usize = 0;
    let mut i: usize = 0;
    while i < indicators.len()
        invariant
            i <= indicators.len(),
            ind == indicators@.map_values(|s: &'static str| s@),
            ind == code_indicators_spec(),
            p == occurs_in(text@),
            count == ind.take(i as int).filter(p).len(),
            count <= i,
        decreases indicators.len() - i,
    {
        proof {
            assert(ind.take(i + 1) =~= ind.take(i as int).push(ind[i as int]));
            ind.take(i as int).lemma_filter_push(ind[i as int], p);
        }
        if str_contains(text, indicators[i]) {
            count = count + 1;
        }
        i = i + 1;
    }
    proof {
        assert(ind.take(indicators@.len() as int) =~= ind);
        assert(p == (|i: Seq<char>| has_substring(text@, i)));
    }
    count >= 3
}

} // verus!

verus! {

/// Adding one entity to the end adds its lowercased text to its kind's set.
proof fn lemma_kind_set_push(es: Seq<(Seq<char>, Seq<char>)>, e: (Seq<char>, Seq<char>), kind: Seq<char>)
    ensures
        kind_set(es.push(e), kind) == (if e.1 == kind {
            kind_set(es, kind).insert(lowercase(e.0))
        } else {
            kind_set(es, kind)
        }),
{
    let p = of_kind(kind);
    let f = lowered_text();
    es.lemma_filter_push(e, p);
    if e.1 == kind {
        let fs = es.filter(p);
        assert(fs.push(e).map_values(f) =~= fs.map_values(f) + seq![lowercase(e.0)]);
        Seq::lemma_to_set_insert_commutes(fs.map_values(f), lowercase(e.0));
    }
}

/// Adding a fresh element to the first set of an intersection.
proof fn lemma_intersect_insert(a: Set<Seq<char>>, b: Set<Seq<char>>, x: Seq<char>)
    requires
        a.finite(),
        !a.contains(x),
    ensures
        a.insert(x).intersect(b).len() == a.intersect(b).len() + (if b.contains(x) { 1int } else { 0int }),
{
    if b.contains(x) {
        assert(a.insert(x).intersect(b) =~= a.intersect(b).insert(x));
    } else {
        assert(a.insert(x).intersect(b) =~= a.intersect(b));
    }
}

/// Whether `x` is among the strings of `v`.
fn contains_string(v: &Vec<String>, x: &String) -> (r: bool)
    ensures
        r == strs_view(v@).contains(x@),
{
    let mut i: usize = 0;
    while i < v.len()
        invariant
            i <= v.len(),
            forall|j: int| 0 <= j < i ==> strs_view(v@)[j] != x@,
        decreases v.len() - i,
    {
        if v[i] == *x {
            assert(strs_view(v@)[i as int] == x@);
            return true;
        }
        i = i + 1;
    }
    false
}

/// The distinct lowercased texts of the entities of one kind.
fn kind_texts(es: &[ProtectedEntity], kind: &str) -> (r: Vec<String>)
    ensures
        strs_view(r@).no_duplicates(),
        strs_view(r@).to_set() == kind_set(entities_view(es@), kind@),
{
    let kind_s = String::from_str(kind);
    let mut r: Vec<String> = Vec::new();
    let mut i: usize = 0;
    while i < es.len()
        invariant
            i <= es.len(),
            kind_s@ == kind@,
            strs_view(r@).no_duplicates(),
            strs_view(r@).to_set() == kind_set(entities_view(es@).take(i as int), kind@),
        decreases es.len() - i,
    {
        proof {
            assert(entities_view(es@).take(i + 1) =~= entities_view(es@).take(i as int).push(es@[i as int]@));
            lemma_kind_set_push(entities_view(es@).take(i as int), es@[i as int]@, kind@);
        }
        if es[i].kind == kind_s {
            let lowered = str_to_lowercase(es[i].text.as_str());
            if !contains_string(&r, &lowered) {
                let ghost before = strs_view(r@);
                r.push(lowered);
                proof {
                    assert(strs_view(r@) =~= before.push(lowered@));
                    assert(strs_view(r@) =~= before + seq![lowered@]);
                    Seq::lemma_to_set_insert_commutes(before, lowered@);
                }
            } else {
                proof {
                    assert(strs_view(r@).to_set().insert(lowered@) =~= strs_view(r@).to_set());
                }
            }
        }
        i = i + 1;
    }
    proof {
        assert(entities_view(es@).take(es@.len() as int) =~= entities_view(es@));
    }
    r
}

/// How many of the (distinct) strings of `a` also occur in `b`.
fn count_common(a: &Vec<String>, b: &Vec<String>) -> (r: usize)
    requires
        strs_view(a@).no_duplicates(),
    ensures
        r == strs_view(a@).to_set().intersect(strs_view(b@).to_set()).len(),
        r <= a.len(),
{
    broadcast use vstd::seq_lib::seq_to_set_is_finite;
    let ghost sa = strs_view(a@);
    let ghost sb = strs_view(b@).to_set();
    let mut count: usize = 0;
    let mut i: usize = 0;
    proof {
        assert(sa.take(0).to_set().intersect(sb) =~= Set::empty());
    }
    while i < a.len()
        invariant
            i <= a.len(),
            sa == strs_view(a@),
            sa.no_duplicates(),
            sb == strs_view(b@).to_set(),
            count == sa.take(i as int).to_set().intersect(sb).len(),
            count <= i,
        decreases a.len() - i,
    {
        proof {
            assert(sa.take(i + 1) =~= sa.take(i as int) + seq![sa[i as int]]);
            Seq::lemma_to_set_insert_commutes(sa.take(i as int), sa[i as int]);
            if sa.take(i as int).to_set().contains(sa[i as int]) {
                let k = choose|k: int| 0 <= k < i && sa.take(i as int)[k] == sa[i as int];
                assert(sa[k] == sa[i as int]);
            }
            lemma_intersect_insert(sa.take(i as int).to_set(), sb, sa[i as int]);
        }
        if contains_string(b, &a[i]) {
            count = count + 1;
        }
        i = i + 1;
    }
    proof {
        assert(sa.take(a@.len() as int) =~= sa);
    }
    count
}

/// `weight` times the share of `orig`'s strings found in `opt`, rounded
/// down; the full weight when `orig` is empty.
fn rate_ppm(orig: &Vec<String>, opt: &Vec<String>, weight: u64) -> (r: u64)
    requires
        strs_view(orig@).no_duplicates(),
        weight <= 400000,
    ensures
        r == (if strs_view(orig@).to_set().len() == 0 {
            weight as nat
        } else {
            (weight as nat) * strs_view(orig@).to_set().intersect(strs_view(opt@).to_set()).len()
                / strs_view(orig@).to_set().len()
        }),
        r <= weight,
{
    proof {
        strs_view(orig@).unique_seq_to_set();
    }
    if orig.len() == 0 {
        weight
    } else {
        let common = count_common(orig, opt);
        assert((weight as u128) * (common as u128) <= 400000u128 * 0x1_0000_0000_0000_0000u128) by (nonlinear_arith)
            requires
                weight <= 400000,
                common < 0x1_0000_0000_0000_0000u128,
        ;
        let scaled: u128 = (weight as u128) * (common as u128);
        proof {
            assert(scaled <= (weight as u128) * (orig.len() as u128)) by (nonlinear_arith)
                requires
                    common <= orig.len(),
                    scaled == (weight as u128) * (common as u128),
            ;
            assert(scaled / (orig.len() as u128) <= weight as u128) by (nonlinear_arith)
                requires
                    scaled <= (weight as u128) * (orig.len() as u128),
                    orig.len() > 0,
            ;
        }
        (scaled / (orig.len() as u128)) as u64
    }
}

pub open spec fn as_nat(o: Option<u64>) -> Option<nat> {
    match o {
        Some(a) => Some(a as nat),
        None => None,
    }
}

/// Lowers the running minimum with one critical kind's rate, when that kind
/// occurs in the original.
fn fold_min_rate(acc: Option<u64>, orig: &[ProtectedEntity], opt: &[ProtectedEntity], kind: &str) -> (r: Option<u64>)
    requires
        acc matches Some(a) ==> a <= 400000,
    ensures
        as_nat(r) == min_with_rate(as_nat(acc), entities_view(orig@), entities_view(opt@), kind@),
        r matches Some(x) ==> x <= 400000,
{
    let o = kind_texts(orig, kind);
    let p = kind_texts(opt, kind);
    proof {
        strs_view(o@).unique_seq_to_set();
    }
    if o.len() == 0 {
        acc
    } else {
        let rate = rate_ppm(&o, &p, 400000);
        match acc {
            None => Some(rate),
            Some(a) => Some(if rate < a { rate } else { a }),
        }
    }
}

/// Confidence, in parts per million, that refinement kept what matters:
/// 0.4 for the worst-kept critical kind (tickers, money, time and
/// conversation references), 0.3 for question words, 0.3 for negations.
/// Each part is the share of the original's distinct (lowercased) texts of
/// that kind found again; a kind the original lacks counts in full.
pub fn calculate_confidence(original_protected: &[ProtectedEntity], optimized_protected: &[ProtectedEntity]) -> (r: u64)
    ensures
        r == spec_calculate_confidence(entities_view(original_protected@), entities_view(optimized_protected@)),
        r <= 1000000,
{
    let m1 = fold_min_rate(None, original_protected, optimized_protected, KIND_TICKER);
    let m2 = fold_min_rate(m1, original_protected, optimized_protected, KIND_MONEY);
    let m3 = fold_min_rate(m2, original_protected, optimized_protected, KIND_TIME_REF);
    let m4 = fold_min_rate(m3, original_protected, optimized_protected, KIND_CONVO_REF);
    let entity: u64 = match m4 {
        Some(x) => x,
        None => 400000,
    };
    let qo = kind_texts(original_protected, KIND_QUESTION);
    let qp = kind_texts(optimized_protected, KIND_QUESTION);
    let intent = rate_ppm(&qo, &qp, 300000);
    let no = kind_texts(original_protected, KIND_NEGATION);
    let np = kind_texts(optimized_protected, KIND_NEGATION);
    let negation = rate_ppm(&no, &np, 300000);
    entity + intent + negation
}

} // verus!

verus! {

// ============================================================
//  FILLER REMOVAL
// ============================================================

/// A filler pattern with its replacement.
pub fn fp(pattern: &'static str, replacement: &'static str) -> (r: FillerPattern)
    ensures
        r.pattern == pattern,
        r.replacement == replacement,
{
    FillerPattern { pattern, replacement }
}

/// The filler patterns, in the order they are applied: hedging openers,
/// politeness padding, filler words, redundant closers, white space.
pub fn filler_patterns() -> (r: Vec<FillerPattern>)
    ensures
        r@.map_values(|f: FillerPattern| f@) == filler_table(),
{
    let r = vec![
        // Hedging openers
        fp(r"(?i)\bI was wondering if (?:you could |maybe )?", ""),
        fp(r"(?i)\bcould you (?:please |maybe |possibly )?", ""),
        fp(r"(?i)\bwould you (?:be able to |mind )?", ""),
        fp(r"(?i)\bI would (?:really )?like (?:you )?to ", ""),
        fp(r"(?i)\bcan you (?:please )?", ""),
        fp(r"(?i)\bdo you think you could ", ""),
        fp(r"(?i)\bif (?:it's )?(?:not too much trouble|possible),?\s*", ""),
        // Politeness padding
        fp(r"(?i)\b(?:please|thanks|thank you|thx|pls)\b[,.]?\s*", ""),
        fp(r"(?i)^(?:hey|hi|hello|yo|sup)(?:\s+there)?[,.\s]+", ""),
        fp(r"(?i)^(?:so|ok so|okay so|alright so|okay)\s+", ""),
        // Filler words
        fp(r"(?i)\b(?:basically|actually|honestly|really|just|very|quite|pretty much|kind of|sort of|literally|obviously|clearly|simply|definitely|certainly|absolutely|essentially|fundamentally|in my opinion|I think that|I believe that|it seems like|to be honest|as you know|you know|I mean|if you know what I mean|at the end of the day|needless to say)\b,?\s*", ""),
        // Redundant closers
        fp(r"(?i)\s*(?:thanks in advance|thank you so much|I really appreciate it|that would be great|that would be awesome|I'd appreciate it|much appreciated|cheers)\.?\s*$", ""),
        // Whitespace cleanup
        fp(r"  +", " "),
        fp(r"\n\s*\n\s*\n+", "\n\n"),
    ];
    assert(r@.map_values(|f: FillerPattern| f@) =~= filler_table());
    r
}

/// Applies every filler pattern in turn.
fn remove_fillers(text: &str) -> (r: String)
    ensures
        r@ == apply_fillers(filler_table(), text@),
{
    let pats = filler_patterns();
    let ghost table = pats@.map_values(|f: FillerPattern| f@);
    let mut current = String::from_str(text);
    let mut i: usize = 0;
    while i < pats.len()
        invariant
            i <= pats.len(),
            table == pats@.map_values(|f: FillerPattern| f@),
            table == filler_table(),
            current@ == apply_fillers(table.take(i as int), text@),
        decreases pats.len() - i,
    {
        proof {
            assert(table.take(i + 1).drop_last() =~= table.take(i as int));
            assert(table.take(i + 1).last() == table[i as int]);
        }
        current = replace_all_or_same(pats[i].pattern, current.as_str(), pats[i].replacement);
        i = i + 1;
    }
    proof {
        assert(table.take(pats@.len() as int) =~= table);
    }
    current
}

/// Upper-cases the first character when it is lowercase.
fn capitalized(s: String) -> (r: String)
    ensures
        r@ == capitalize_first(s@),
{
    let chars = str_chars(s.as_str());
    if chars.len() > 0 && is_lowercase_char(chars[0]) {
        let mut out = uppercase_char(chars[0]);
        let ghost head = out@;
        let mut i: usize = 1;
        while i < chars.len()
            invariant
                1 <= i <= chars.len(),
                chars@ == s@,
                out@ == head + chars@.subrange(1, i as int),
            decreases chars.len() - i,
        {
            push_char(&mut out, chars[i]);
            proof {
                assert(chars@.subrange(1, i + 1) =~= chars@.subrange(1, i as int).push(chars@[i as int]));
            }
            i = i + 1;
        }
        proof {
            assert(chars@.subrange(1, chars@.len() as int) =~= s@.drop_first());
        }
        out
    } else {
        s
    }
}

/// The refined candidate of a text.
fn refine(text: &str) -> (r: String)
    ensures
        r@ == spec_refined(text@),
{
    let without_fillers = remove_fillers(text);
    let trimmed = String::from_str(str_trim(without_fillers.as_str()));
    let cleaned = match replace_first(LEADING_CLEAN, trimmed.as_str(), "") {
        Some(c) => c,
        None => trimmed,
    };
    capitalized(cleaned)
}

// ============================================================
//  DECISION
// ============================================================

/// `n / d` rounded to the nearest integer, ties to even.
pub fn round_half_even_div(n: u128, d: u128) -> (r: u128)
    requires
        d > 0,
    ensures
        r == round_half_even(n as nat, d as nat),
{
    let q = n / d;
    let rem = n % d;
    assert(q <= n) by (nonlinear_arith)
        requires
            d > 0,
            q == n / d,
    ;
    if rem > d - rem {
        assert(q < n) by (nonlinear_arith)
            requires
                d > 0,
                q == n / d,
                rem == n % d,
                rem > 0,
        ;
        q + 1
    } else if rem < d - rem {
        q
    } else if q % 2 == 0 {
        q
    } else {
        assert(q < n) by (nonlinear_arith)
            requires
                d > 0,
                q == n / d,
                rem == n % d,
                rem > 0,
        ;
        q + 1
    }
}

/// Appends a count of hundredths with two decimals.
pub fn push_fixed2(out: &mut String, h: u128)
    ensures
        final(out)@ == old(out)@ + fixed2(h as nat),
{
    push_decimal(out, h / 100);
    push_char(out, '.');
    push_char(out, digit((h % 100) / 10));
    push_char(out, digit(h % 10));
}

/// A result that leaves the text unchanged.
fn skipped(text: &str, tokens: usize, reason: &str) -> (r: OptimizationResult)
    requires
        tokens == spec_estimate_tokens(text@),
    ensures
        r@ == skipped_outcome(text@, reason@),
{
    let r = OptimizationResult {
        original: String::from_str(text),
        optimized: String::from_str(text),
        original_tokens: tokens,
        optimized_tokens: tokens,
        confidence: 1000000,
        protected_entities: Vec::new(),
        sent_optimized: false,
        skip_reason: String::from_str(reason),
    };
    assert(r@.protected_entities =~= Seq::<Seq<char>>::empty());
    r
}

/// The texts of the entities, in order.
fn entity_texts(es: &Vec<ProtectedEntity>) -> (r: Vec<String>)
    ensures
        strs_view(r@) == entities_view(es@).map_values(|e: (Seq<char>, Seq<char>)| e.0),
{
    let mut r: Vec<String> = Vec::new();
    let mut i: usize = 0;
    while i < es.len()
        invariant
            i <= es.len(),
            strs_view(r@) == entities_view(es@).take(i as int).map_values(|e: (Seq<char>, Seq<char>)| e.0),
        decreases es.len() - i,
    {
        let ghost before = strs_view(r@);
        r.push(es[i].text.clone());
        proof {
            let ev = entities_view(es@);
            assert(ev.take(i + 1) =~= ev.take(i as int).push(ev[i as int]));
            assert(ev.take(i + 1).map_values(|e: (Seq<char>, Seq<char>)| e.0) =~= ev.take(i as int).map_values(
                |e: (Seq<char>, Seq<char>)| e.0,
            ).push(ev[i as int].0));
            assert(strs_view(r@) =~= before.push(es@[i as int].text@));
        }
        i = i + 1;
    }
    proof {
        assert(entities_view(es@).take(es@.len() as int) =~= entities_view(es@));
    }
    r
}

/// Refines a prompt: removes filler words and phrases, then keeps the
/// result only when the protected entities survived well enough
/// (`confidence_threshold`, in parts per million) and at least 5% of the
/// tokens were saved. Code-like texts and texts under `min_tokens` are
/// left alone.
pub fn optimize_prompt(text: &str, confidence_threshold: u64, min_tokens: usize) -> (r: OptimizationResult)
    ensures
        r@ == spec_optimize_prompt(text@, confidence_threshold as nat, min_tokens as nat),
{
    let original_tokens = estimate_tokens(text);
    if is_code_or_json(text) {
        return skipped(text, original_tokens, "code_or_json");
    }
    if original_tokens < min_tokens {
        return skipped(text, original_tokens, "below_min_tokens");
    }
    let protected_before = extract_protected(text);
    let refined = refine(text);
    let protected_after = extract_protected(refined.as_str());
    decide_refinement(text, protected_before, refined, &protected_after, confidence_threshold)
}

/// Decides on a refined candidate of `text`, given the protected entities
/// of the text (`protected_before`) and of the candidate
/// (`protected_after`): the candidate is sent when its confidence reaches
/// `confidence_threshold` (parts per million) and it keeps at most 95% of
/// the tokens; otherwise the text is kept and the reason is given.
pub fn decide_refinement(
    text: &str,
    protected_before: Vec<ProtectedEntity>,
    refined: String,
    protected_after: &Vec<ProtectedEntity>,
    confidence_threshold: u64,
) -> (r: OptimizationResult)
    ensures
        r@ == spec_decide_refinement(
            text@,
            entities_view(protected_before@),
            refined@,
            entities_view(protected_after@),
            confidence_threshold as nat,
        ),
{
    let original_tokens = estimate_tokens(text);
    let refined_tokens = estimate_tokens(refined.as_str());
    let confidence = calculate_confidence(protected_before.as_slice(), protected_after.as_slice());
    let not_worth_it = original_tokens == 0 || (refined_tokens as u128) * 20 > (original_tokens as u128) * 19;
    let confident_enough = confidence >= confidence_threshold;
    let sent_optimized = confident_enough && !not_worth_it;
    let mut skip_reason = String::new();
    if !confident_enough {
        push_str(&mut skip_reason, "low_confidence (");
        push_fixed2(&mut skip_reason, round_half_even_div(confidence as u128, 10000));
        push_str(&mut skip_reason, ")");
    } else if not_worth_it {
        push_str(&mut skip_reason, "negligible_savings (");
        let remaining = if original_tokens > 0 {
            round_half_even_div((refined_tokens as u128) * 100, original_tokens as u128)
        } else {
            100
        };
        push_fixed2(&mut skip_reason, remaining);
        push_str(&mut skip_reason, ")");
    }
    let protected_entities = entity_texts(&protected_before);
    let r = OptimizationResult {
        original: String::from_str(text),
        optimized: if sent_optimized { refined } else { String::from_str(text) },
        original_tokens,
        optimized_tokens: if sent_optimized { refined_tokens } else { original_tokens },
        confidence,
        protected_entities,
        sent_optimized,
        skip_reason,
    };
    proof {
        if !confident_enough {
            assert(r.skip_reason@ =~= low_confidence_reason(confidence as nat));
        } else if not_worth_it {
            assert(r.skip_reason@ =~= negligible_savings_reason(refined_tokens as nat, original_tokens as nat));
        } else {
            assert(r.skip_reason@ =~= Seq::<char>::empty());
        }
    }
    r
}

/// Refinement with the usual settings: confidence at least 0.90, texts of
/// at least 50 tokens.
pub fn optimize_prompt_default(text: &str) -> (r: OptimizationResult)
    ensures
        r@ == spec_optimize_prompt(text@, 900000, 50),
{
    optimize_prompt(text, 900000, 50)
}

} // verus!

verus! {

/// Refinement never makes a prompt longer: the reported tokens of the
/// result never exceed those of the original. The text is replaced only
/// when confidence reaches the threshold and at most 95% of the tokens
/// remain; otherwise it is handed back unchanged.
pub proof fn lemma_refinement_never_grows(text: Seq<char>, threshold: nat, min_tokens: nat)
    ensures
        spec_optimize_prompt(text, threshold, min_tokens).original == text,
        spec_optimize_prompt(text, threshold, min_tokens).optimized_tokens
            <= spec_optimize_prompt(text, threshold, min_tokens).original_tokens,
        !spec_optimize_prompt(text, threshold, min_tokens).sent_optimized ==> {
            &&& spec_optimize_prompt(text, threshold, min_tokens).optimized == text
            &&& spec_optimize_prompt(text, threshold, min_tokens).optimized_tokens
                == spec_optimize_prompt(text, threshold, min_tokens).original_tokens
        },
        spec_optimize_prompt(text, threshold, min_tokens).sent_optimized ==> {
            &&& spec_optimize_prompt(text, threshold, min_tokens).confidence >= threshold
            &&& 20 * spec_optimize_prompt(text, threshold, min_tokens).optimized_tokens
                <= 19 * spec_optimize_prompt(text, threshold, min_tokens).original_tokens
        },
{
}

/// A survival rate of a list against itself is the full weight.
proof fn lemma_rate_of_same(es: Seq<(Seq<char>, Seq<char>)>, kind: Seq<char>, weight: nat)
    ensures
        match_rate(es, es, kind, weight) == weight,
{
    let o = kind_set(es, kind);
    assert(o.intersect(o) =~= o);
    if o.len() != 0 {
        let n = o.len();
        assert((weight * n) / n == weight) by (nonlinear_arith)
            requires
                n > 0,
        ;
    }
}

/// Comparing a list of entities with itself gives full confidence.
pub proof fn lemma_confidence_of_unchanged(es: Seq<(Seq<char>, Seq<char>)>)
    ensures
        spec_calculate_confidence(es, es) == 1000000,
{
    lemma_rate_of_same(es, KIND_TICKER@, 400000);
    lemma_rate_of_same(es, KIND_MONEY@, 400000);
    lemma_rate_of_same(es, KIND_TIME_REF@, 400000);
    lemma_rate_of_same(es, KIND_CONVO_REF@, 400000);
    lemma_rate_of_same(es, KIND_QUESTION@, 300000);
    lemma_rate_of_same(es, KIND_NEGATION@, 300000);
}

/// Confidence never exceeds 1.0.
pub proof fn lemma_confidence_at_most_one(orig: Seq<(Seq<char>, Seq<char>)>, opt: Seq<(Seq<char>, Seq<char>)>)
    ensures
        spec_calculate_confidence(orig, opt) <= 1000000,
{
    lemma_rate_bounded(orig, opt, KIND_TICKER@, 400000);
    lemma_rate_bounded(orig, opt, KIND_MONEY@, 400000);
    lemma_rate_bounded(orig, opt, KIND_TIME_REF@, 400000);
    lemma_rate_bounded(orig, opt, KIND_CONVO_REF@, 400000);
    lemma_rate_bounded(orig, opt, KIND_QUESTION@, 300000);
    lemma_rate_bounded(orig, opt, KIND_NEGATION@, 300000);
}

proof fn lemma_rate_bounded(
    orig: Seq<(Seq<char>, Seq<char>)>,
    opt: Seq<(Seq<char>, Seq<char>)>,
    kind: Seq<char>,
    weight: nat,
)
    ensures
        match_rate(orig, opt, kind, weight) <= weight,
{
    let o = kind_set(orig, kind);
    if o.len() != 0 {
        let f = orig.filter(of_kind(kind)).map_values(lowered_text());
        vstd::seq_lib::seq_to_set_is_finite(f);
        vstd::set_lib::lemma_len_intersect(o, kind_set(opt, kind));
        let n = o.len();
        let c = o.intersect(kind_set(opt, kind)).len();
        assert((weight * c) / n <= weight) by (nonlinear_arith)
            requires
                n > 0,
                c <= n,
        ;
    }
}

/// A kind whose texts all disappear contributes nothing.
proof fn lemma_rate_of_lost(
    orig: Seq<(Seq<char>, Seq<char>)>,
    opt: Seq<(Seq<char>, Seq<char>)>,
    kind: Seq<char>,
    weight: nat,
)
    requires
        kind_set(orig, kind).len() > 0,
        kind_set(orig, kind).intersect(kind_set(opt, kind)).len() == 0,
    ensures
        match_rate(orig, opt, kind, weight) == 0,
{
}

/// The entity score is at most the rate of any critical kind that the
/// original has, and at most its full weight.
proof fn lemma_entity_score_bounds(
    orig: Seq<(Seq<char>, Seq<char>)>,
    opt: Seq<(Seq<char>, Seq<char>)>,
    kind: Seq<char>,
)
    requires
        kind == KIND_TICKER@ || kind == KIND_MONEY@ || kind == KIND_TIME_REF@ || kind == KIND_CONVO_REF@,
        kind_set(orig, kind).len() > 0,
    ensures
        entity_score(orig, opt) <= match_rate(orig, opt, kind, 400000),
{
}

/// Losing every negation of the original caps the confidence at 0.7, and
/// losing every entity of a critical kind (ticker, money, time or
/// conversation reference) caps it at 0.6. Texts are compared lowercased.
pub proof fn lemma_lost_entities_cap_confidence(
    orig: Seq<(Seq<char>, Seq<char>)>,
    opt: Seq<(Seq<char>, Seq<char>)>,
    kind: Seq<char>,
)
    requires
        kind_set(orig, kind).len() > 0,
        kind_set(orig, kind).intersect(kind_set(opt, kind)).len() == 0,
    ensures
        kind == KIND_NEGATION@ ==> spec_calculate_confidence(orig, opt) <= 700000,
        kind == KIND_TICKER@ || kind == KIND_MONEY@ || kind == KIND_TIME_REF@ || kind == KIND_CONVO_REF@
            ==> spec_calculate_confidence(orig, opt) <= 600000,
{
    lemma_rate_bounded(orig, opt, KIND_TICKER@, 400000);
    lemma_rate_bounded(orig, opt, KIND_MONEY@, 400000);
    lemma_rate_bounded(orig, opt, KIND_TIME_REF@, 400000);
    lemma_rate_bounded(orig, opt, KIND_CONVO_REF@, 400000);
    lemma_rate_bounded(orig, opt, KIND_QUESTION@, 300000);
    lemma_rate_bounded(orig, opt, KIND_NEGATION@, 300000);
    if kind == KIND_NEGATION@ {
        lemma_rate_of_lost(orig, opt, kind, 300000);
    }
    if kind == KIND_TICKER@ || kind == KIND_MONEY@ || kind == KIND_TIME_REF@ || kind == KIND_CONVO_REF@ {
        lemma_rate_of_lost(orig, opt, kind, 400000);
        lemma_entity_score_bounds(orig, opt, kind);
    }
}

/// A refinement is suggested, at any threshold above 0.7 (the default is
/// 0.9), only when it keeps at least one of the original's negations and
/// at least one entity of each critical kind that the original has.
pub proof fn lemma_suggestion_keeps_entities(text: Seq<char>, threshold: nat, min_tokens: nat, kind: Seq<char>)
    requires
        threshold > 700000,
        kind == KIND_NEGATION@ || kind == KIND_TICKER@ || kind == KIND_MONEY@ || kind == KIND_TIME_REF@
            || kind == KIND_CONVO_REF@,
    ensures
        ({
            let outcome = spec_optimize_prompt(text, threshold, min_tokens);
            let before = spec_extract_protected(text);
            let after = spec_extract_protected(outcome.optimized);
            outcome.sent_optimized && kind_set(before, kind).len() > 0 ==> kind_set(before, kind).intersect(
                kind_set(after, kind),
            ).len() > 0
        }),
{
    let outcome = spec_optimize_prompt(text, threshold, min_tokens);
    let before = spec_extract_protected(text);
    let after = spec_extract_protected(outcome.optimized);
    if outcome.sent_optimized && kind_set(before, kind).len() > 0 && kind_set(before, kind).intersect(
        kind_set(after, kind),
    ).len() == 0 {
        lemma_lost_entities_cap_confidence(before, after, kind);
    }
}

/// Every entity of `a` is one of `b`: each kind's lowercased texts of `a`
/// are among those of `b`.
proof fn lemma_kind_set_grows(a: Seq<(Seq<char>, Seq<char>)>, b: Seq<(Seq<char>, Seq<char>)>, kind: Seq<char>)
    requires
        forall|e: (Seq<char>, Seq<char>)| a.contains(e) ==> b.contains(e),
    ensures
        kind_set(a, kind).subset_of(kind_set(b, kind)),
{
    let fa = a.filter(of_kind(kind));
    let fb = b.filter(of_kind(kind));
    let ma = fa.map_values(lowered_text());
    let mb = fb.map_values(lowered_text());
    assert forall|x: Seq<char>| kind_set(a, kind).contains(x) implies kind_set(b, kind).contains(x) by {
        assert(ma.contains(x));
        let i = choose|i: int| 0 <= i < ma.len() && ma[i] == x;
        let e = fa[i];
        a.lemma_filter_pred(of_kind(kind), i);
        assert(fa.contains(e));
        a.lemma_filter_contains_rev(of_kind(kind), e);
        assert(b.contains(e));
        let j = choose|j: int| 0 <= j < b.len() && b[j] == e;
        b.lemma_filter_contains(of_kind(kind), j);
        assert(fb.contains(e));
        let k = choose|k: int| 0 <= k < fb.len() && fb[k] == e;
        assert(mb[k] == x);
        assert(mb.contains(x));
    }
}

/// A kind's survival rate grows with the texts that survive.
proof fn lemma_rate_grows(
    orig: Seq<(Seq<char>, Seq<char>)>,
    a: Seq<(Seq<char>, Seq<char>)>,
    b: Seq<(Seq<char>, Seq<char>)>,
    kind: Seq<char>,
    weight: nat,
)
    requires
        kind_set(a, kind).subset_of(kind_set(b, kind)),
    ensures
        match_rate(orig, a, kind, weight) <= match_rate(orig, b, kind, weight),
{
    let o = kind_set(orig, kind);
    if o.len() != 0 {
        vstd::seq_lib::seq_to_set_is_finite(orig.filter(of_kind(kind)).map_values(lowered_text()));
        let ia = o.intersect(kind_set(a, kind));
        let ib = o.intersect(kind_set(b, kind));
        assert(ia.subset_of(ib));
        vstd::set_lib::lemma_len_subset(ib, o);
        vstd::set_lib::lemma_len_subset(ia, ib);
        let n = o.len();
        let ca = ia.len();
        let cb = ib.len();
        assert(weight * ca <= weight * cb) by (nonlinear_arith)
            requires
                ca <= cb,
        ;
        vstd::arithmetic::div_mod::lemma_div_is_ordered((weight * ca) as int, (weight * cb) as int, n as int);
    }
}

/// Adding entities to the refined side never lowers the confidence.
pub proof fn lemma_confidence_monotone(
    orig: Seq<(Seq<char>, Seq<char>)>,
    a: Seq<(Seq<char>, Seq<char>)>,
    b: Seq<(Seq<char>, Seq<char>)>,
)
    requires
        forall|e: (Seq<char>, Seq<char>)| a.contains(e) ==> b.contains(e),
    ensures
        spec_calculate_confidence(orig, a) <= spec_calculate_confidence(orig, b),
{
    lemma_kind_set_grows(a, b, KIND_TICKER@);
    lemma_kind_set_grows(a, b, KIND_MONEY@);
    lemma_kind_set_grows(a, b, KIND_TIME_REF@);
    lemma_kind_set_grows(a, b, KIND_CONVO_REF@);
    lemma_kind_set_grows(a, b, KIND_QUESTION@);
    lemma_kind_set_grows(a, b, KIND_NEGATION@);
    lemma_rate_grows(orig, a, b, KIND_TICKER@, 400000);
    lemma_rate_grows(orig, a, b, KIND_MONEY@, 400000);
    lemma_rate_grows(orig, a, b, KIND_TIME_REF@, 400000);
    lemma_rate_grows(orig, a, b, KIND_CONVO_REF@, 400000);
    lemma_rate_grows(orig, a, b, KIND_QUESTION@, 300000);
    lemma_rate_grows(orig, a, b, KIND_NEGATION@, 300000);
}

/// Confidence depends only on which lowercased texts of each kind occur
/// on either side: not on their order, their repetition, or letter case
/// that lowercasing removes.
pub proof fn lemma_confidence_by_kind_sets(
    orig1: Seq<(Seq<char>, Seq<char>)>,
    orig2: Seq<(Seq<char>, Seq<char>)>,
    opt1: Seq<(Seq<char>, Seq<char>)>,
    opt2: Seq<(Seq<char>, Seq<char>)>,
)
    requires
        forall|k: Seq<char>| #[trigger] kind_set(orig1, k) == kind_set(orig2, k),
        forall|k: Seq<char>| #[trigger] kind_set(opt1, k) == kind_set(opt2, k),
    ensures
        spec_calculate_confidence(orig1, opt1) == spec_calculate_confidence(orig2, opt2),
{
    assert(kind_set(orig1, KIND_TICKER@) == kind_set(orig2, KIND_TICKER@));
    assert(kind_set(orig1, KIND_MONEY@) == kind_set(orig2, KIND_MONEY@));
    assert(kind_set(orig1, KIND_TIME_REF@) == kind_set(orig2, KIND_TIME_REF@));
    assert(kind_set(orig1, KIND_CONVO_REF@) == kind_set(orig2, KIND_CONVO_REF@));
    assert(kind_set(orig1, KIND_QUESTION@) == kind_set(orig2, KIND_QUESTION@));
    assert(kind_set(orig1, KIND_NEGATION@) == kind_set(orig2, KIND_NEGATION@));
    assert(kind_set(opt1, KIND_TICKER@) == kind_set(opt2, KIND_TICKER@));
    assert(kind_set(opt1, KIND_MONEY@) == kind_set(opt2, KIND_MONEY@));
    assert(kind_set(opt1, KIND_TIME_REF@) == kind_set(opt2, KIND_TIME_REF@));
    assert(kind_set(opt1, KIND_CONVO_REF@) == kind_set(opt2, KIND_CONVO_REF@));
    assert(kind_set(opt1, KIND_QUESTION@) == kind_set(opt2, KIND_QUESTION@));
    assert(kind_set(opt1, KIND_NEGATION@) == kind_set(opt2, KIND_NEGATION@));
}

/// One when the indicator occurs in the text, else zero.
pub open spec fn occurrence(text: Seq<char>, indicator: Seq<char>) -> int {
    if has_substring(text, indicator) {
        1
    } else {
        0
    }
}

/// A text is taken for code (and left alone) exactly when at least three
/// of these twelve indicators occur in it: `{`, `}`, `def `, `class `,
/// `import `, `function `, `const `, `var `, `let `, three backticks,
/// `===` and `!==`.
pub proof fn lemma_code_indicators(text: Seq<char>)
    ensures
        spec_is_code_or_json(text) <==> occurrence(text, "{"@) + occurrence(text, "}"@) + occurrence(text, "def "@) + occurrence(text, "class "@) + occurrence(text, "import "@) + occurrence(text, "function "@) + occurrence(text, "const "@) + occurrence(text, "var "@) + occurrence(text, "let "@) + occurrence(text, "```"@) + occurrence(text, "==="@) + occurrence(text, "!=="@) >= 3,
{
    let p = occurs_in(text);
    assert(p == (|i: Seq<char>| has_substring(text, i)));
    let s0 = Seq::<Seq<char>>::empty();
    let s1 = s0.push("{"@);
    s0.lemma_filter_len_push(p, "{"@);
    let s2 = s1.push("}"@);
    s1.lemma_filter_len_push(p, "}"@);
    let s3 = s2.push("def "@);
    s2.lemma_filter_len_push(p, "def "@);
    let s4 = s3.push("class "@);
    s3.lemma_filter_len_push(p, "class "@);
    let s5 = s4.push("import "@);
    s4.lemma_filter_len_push(p, "import "@);
    let s6 = s5.push("function "@);
    s5.lemma_filter_len_push(p, "function "@);
    let s7 = s6.push("const "@);
    s6.lemma_filter_len_push(p, "const "@);
    let s8 = s7.push("var "@);
    s7.lemma_filter_len_push(p, "var "@);
    let s9 = s8.push("let "@);
    s8.lemma_filter_len_push(p, "let "@);
    let s10 = s9.push("```"@);
    s9.lemma_filter_len_push(p, "```"@);
    let s11 = s10.push("==="@);
    s10.lemma_filter_len_push(p, "==="@);
    let s12 = s11.push("!=="@);
    s11.lemma_filter_len_push(p, "!=="@);
    assert(s0.filter(p).len() == 0);
    assert(code_indicators_spec() =~= s12);
}

/// A text recognised as code is handed back unchanged, with the reason
/// `code_or_json`, whatever the settings.
pub proof fn lemma_code_left_alone(text: Seq<char>, threshold: nat, min_tokens: nat)
    requires
        spec_is_code_or_json(text),
    ensures
        spec_optimize_prompt(text, threshold, min_tokens).optimized == text,
        !spec_optimize_prompt(text, threshold, min_tokens).sent_optimized,
        spec_optimize_prompt(text, threshold, min_tokens).skip_reason == "code_or_json"@,
        spec_optimize_prompt(text, threshold, min_tokens).confidence == 1000000,
{
}

/// A match tagged with a kind is among the tagged matches.
proof fn lemma_in_tagged(ms: Seq<(usize, usize, Seq<char>)>, kind: Seq<char>, m: (usize, usize, Seq<char>))
    requires
        ms.contains(m),
    ensures
        tag_matches(ms, kind).contains((m.2, kind)),
{
    let k = choose|k: int| 0 <= k < ms.len() && ms[k] == m;
    assert(tag_matches(ms, kind)[k] == (m.2, kind));
}

/// What either part holds, the concatenation holds.
proof fn lemma_add_contains<A>(x: Seq<A>, y: Seq<A>, e: A)
    ensures
        x.contains(e) || y.contains(e) ==> (x + y).contains(e),
{
    if x.contains(e) {
        let k = choose|k: int| 0 <= k < x.len() && x[k] == e;
        assert((x + y)[k] == e);
    } else if y.contains(e) {
        let k = choose|k: int| 0 <= k < y.len() && y[k] == e;
        assert((x + y)[x.len() + k] == e);
    }
}

/// Every match of each search is protected, with its kind: tickers,
/// money amounts and percentages, time references, conversation
/// references and question words; negations too, unless they lie inside a
/// polite filler phrase.
pub proof fn lemma_matches_protected(text: Seq<char>)
    ensures
        forall|m: (usize, usize, Seq<char>)|
            #![trigger found_or_empty(fancy_find_all(TICKER_PATTERN@, text)).contains(m)]
            found_or_empty(fancy_find_all(TICKER_PATTERN@, text)).contains(m) ==> spec_extract_protected(text).contains(
                (m.2, "ticker"@),
            ),
        forall|m: (usize, usize, Seq<char>)|
            #![trigger found_or_empty(regex_find_all(MONEY_PATTERN@, text)).contains(m)]
            found_or_empty(regex_find_all(MONEY_PATTERN@, text)).contains(m) ==> spec_extract_protected(text).contains(
                (m.2, "money"@),
            ),
        forall|m: (usize, usize, Seq<char>)|
            #![trigger found_or_empty(regex_find_all(TIME_REFS@, text)).contains(m)]
            found_or_empty(regex_find_all(TIME_REFS@, text)).contains(m) ==> spec_extract_protected(text).contains(
                (m.2, "time_ref"@),
            ),
        forall|m: (usize, usize, Seq<char>)|
            #![trigger found_or_empty(regex_find_all(CONVO_REFS@, text)).contains(m)]
            found_or_empty(regex_find_all(CONVO_REFS@, text)).contains(m) ==> spec_extract_protected(text).contains(
                (m.2, "convo_ref"@),
            ),
        forall|m: (usize, usize, Seq<char>)|
            #![trigger found_or_empty(regex_find_all(NEGATIONS@, text)).contains(m)]
            found_or_empty(regex_find_all(NEGATIONS@, text)).contains(m) && !inside_some(
                m,
                found_or_empty(regex_find_all(FILLER_NEGATION_PHRASES@, text)),
            ) ==> spec_extract_protected(text).contains((m.2, "negation"@)),
        forall|m: (usize, usize, Seq<char>)|
            #![trigger found_or_empty(regex_find_all(QUESTION_ANCHORS@, text)).contains(m)]
            found_or_empty(regex_find_all(QUESTION_ANCHORS@, text)).contains(m) ==> spec_extract_protected(
                text,
            ).contains((m.2, "question"@)),
{
    let tk = found_or_empty(fancy_find_all(TICKER_PATTERN@, text));
    let mo = found_or_empty(regex_find_all(MONEY_PATTERN@, text));
    let ti = found_or_empty(regex_find_all(TIME_REFS@, text));
    let co = found_or_empty(regex_find_all(CONVO_REFS@, text));
    let ne = found_or_empty(regex_find_all(NEGATIONS@, text));
    let fi = found_or_empty(regex_find_all(FILLER_NEGATION_PHRASES@, text));
    let qu = found_or_empty(regex_find_all(QUESTION_ANCHORS@, text));
    let a = tag_matches(tk, "ticker"@);
    let b = tag_matches(mo, "money"@);
    let c = tag_matches(ti, "time_ref"@);
    let d = tag_matches(co, "convo_ref"@);
    let e = tag_matches(ne.filter(outside_fillers(fi)), "negation"@);
    let f = tag_matches(qu, "question"@);
    let all = spec_extract_protected(text);
    assert(all == a + b + c + d + e + f);
    assert forall|m: (usize, usize, Seq<char>)| tk.contains(m) implies all.contains((m.2, "ticker"@)) by {
        lemma_in_tagged(tk, "ticker"@, m);
        lemma_add_contains(a, b, (m.2, "ticker"@));
        lemma_add_contains(a + b, c, (m.2, "ticker"@));
        lemma_add_contains(a + b + c, d, (m.2, "ticker"@));
        lemma_add_contains(a + b + c + d, e, (m.2, "ticker"@));
        lemma_add_contains(a + b + c + d + e, f, (m.2, "ticker"@));
    }
    assert forall|m: (usize, usize, Seq<char>)| mo.contains(m) implies all.contains((m.2, "money"@)) by {
        lemma_in_tagged(mo, "money"@, m);
        lemma_add_contains(a, b, (m.2, "money"@));
        lemma_add_contains(a + b, c, (m.2, "money"@));
        lemma_add_contains(a + b + c, d, (m.2, "money"@));
        lemma_add_contains(a + b + c + d, e, (m.2, "money"@));
        lemma_add_contains(a + b + c + d + e, f, (m.2, "money"@));
    }
    assert forall|m: (usize, usize, Seq<char>)| ti.contains(m) implies all.contains((m.2, "time_ref"@)) by {
        lemma_in_tagged(ti, "time_ref"@, m);
        lemma_add_contains(a + b, c, (m.2, "time_ref"@));
        lemma_add_contains(a + b + c, d, (m.2, "time_ref"@));
        lemma_add_contains(a + b + c + d, e, (m.2, "time_ref"@));
        lemma_add_contains(a + b + c + d + e, f, (m.2, "time_ref"@));
    }
    assert forall|m: (usize, usize, Seq<char>)| co.contains(m) implies all.contains((m.2, "convo_ref"@)) by {
        lemma_in_tagged(co, "convo_ref"@, m);
        lemma_add_contains(a + b + c, d, (m.2, "convo_ref"@));
        lemma_add_contains(a + b + c + d, e, (m.2, "convo_ref"@));
        lemma_add_contains(a + b + c + d + e, f, (m.2, "convo_ref"@));
    }
    assert forall|m: (usize, usize, Seq<char>)| ne.contains(m) && !inside_some(m, fi) implies all.contains(
        (m.2, "negation"@),
    ) by {
        let k = choose|k: int| 0 <= k < ne.len() && ne[k] == m;
        ne.lemma_filter_contains(outside_fillers(fi), k);
        lemma_in_tagged(ne.filter(outside_fillers(fi)), "negation"@, m);
        lemma_add_contains(a + b + c + d, e, (m.2, "negation"@));
        lemma_add_contains(a + b + c + d + e, f, (m.2, "negation"@));
    }
    assert forall|m: (usize, usize, Seq<char>)| qu.contains(m) implies all.contains((m.2, "question"@)) by {
        lemma_in_tagged(qu, "question"@, m);
        lemma_add_contains(a + b + c + d + e, f, (m.2, "question"@));
    }
}

} // verus!
