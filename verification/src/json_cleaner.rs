//! Removal of bookkeeping keys (metadata, tracking, paging, links, ...)
//! from JSON API responses, at every depth.

use vstd::prelude::*;
use crate::text::{lowercase, str_to_lowercase};

verus! {

/// A JSON value. Numbers are kept as their text, as the parser printed
/// them; object entries in the order the parser gave them.
#[derive(Debug)]
pub enum JsonValue {
    Null,
    Bool(bool),
    Number(String),
    Text(String),
    Array(Vec<JsonValue>),
    Object(Vec<(String, JsonValue)>),
}

/// A JSON value as plain data.
pub enum JsonView {
    Null,
    Bool(bool),
    Number(Seq<char>),
    Text(Seq<char>),
    Array(Seq<JsonView>),
    Object(Seq<(Seq<char>, JsonView)>),
}

pub open spec fn json_view(v: JsonValue) -> JsonView
    decreases v,
{
    match v {
        JsonValue::Null => JsonView::Null,
        JsonValue::Bool(b) => JsonView::Bool(b),
        JsonValue::Number(n) => JsonView::Number(n@),
        JsonValue::Text(t) => JsonView::Text(t@),
        JsonValue::Array(items) => {
            proof {
                assert forall|i: int| 0 <= i < items@.len() implies decreases_to!(v => items@[i]) by {
                    assert(decreases_to!(v => items));
                    assert(decreases_to!(items => items@));
                    assert(decreases_to!(items@ => items@[i]));
                }
            }
            JsonView::Array(
                Seq::new(
                    items@.len(),
                    |i: int|
                        if 0 <= i < items@.len() {
                            json_view(items@[i])
                        } else {
                            JsonView::Null
                        },
                ),
            )
        },
        JsonValue::Object(entries) => {
            proof {
                assert forall|i: int| 0 <= i < entries@.len() implies decreases_to!(v => entries@[i].1) by {
                    assert(decreases_to!(v => entries));
                    assert(decreases_to!(entries => entries@));
                    assert(decreases_to!(entries@ => entries@[i]));
                    assert(decreases_to!(entries@[i] => entries@[i].1));
                }
            }
            JsonView::Object(
                Seq::new(
                    entries@.len(),
                    |i: int|
                        if 0 <= i < entries@.len() {
                            (entries@[i].0@, json_view(entries@[i].1))
                        } else {
                            (Seq::empty(), JsonView::Null)
                        },
                ),
            )
        },
    }
}

/// Keys considered junk in JSON API responses.
pub open spec fn junk_keys() -> Seq<Seq<char>> {
    seq![
        "meta"@, "metadata"@, "tracking"@, "ads"@, "advertisement"@, "pagination"@, "paging"@, "links"@,
        "_links"@, "debug"@, "request_id"@, "trace_id"@, "server"@, "timing"@, "disclaimer"@,
        "copyright"@, "legal"@,
    ]
}

/// A key is junk when its lowercase form is one of the junk keys.
pub open spec fn is_junk(key: Seq<char>) -> bool {
    junk_keys().contains(lowercase(key))
}

/// The value with every junk entry removed, at every depth.
pub open spec fn strip_view(v: JsonView) -> JsonView
    decreases v, 0nat,
{
    match v {
        JsonView::Array(items) => {
            proof {
                assert forall|i: int| 0 <= i < items.len() implies decreases_to!(v => items[i]) by {
                    assert(decreases_to!(v => items));
                    assert(decreases_to!(items => items[i]));
                }
            }
            JsonView::Array(
                Seq::new(
                    items.len(),
                    |i: int|
                        if 0 <= i < items.len() {
                            strip_view(items[i])
                        } else {
                            JsonView::Null
                        },
                ),
            )
        },
        JsonView::Object(entries) => JsonView::Object(strip_entries(entries)),
        _ => v,
    }
}

/// The entries whose keys are not junk, with their values stripped, in
/// order.
pub open spec fn strip_entries(entries: Seq<(Seq<char>, JsonView)>) -> Seq<(Seq<char>, JsonView)>
    decreases entries, 1nat,
{
    if entries.len() == 0 {
        Seq::empty()
    } else {
        proof {
            assert(decreases_to!(entries => entries.drop_last()));
            assert(decreases_to!(entries => entries[entries.len() - 1]));
            assert(decreases_to!(entries[entries.len() - 1] => entries[entries.len() - 1].1));
        }
        let rest = strip_entries(entries.drop_last());
        let last = entries[entries.len() - 1];
        if is_junk(last.0) {
            rest
        } else {
            rest.push((last.0, strip_view(last.1)))
        }
    }
}

} // verus!

verus! {

fn junk_key_list() -> (r: Vec<&'static str>)
    ensures
        r@.map_values(|s: &'static str| s@) == junk_keys(),
{
    let r = vec![
        "meta", "metadata", "tracking", "ads", "advertisement", "pagination", "paging", "links", "_links",
        "debug", "request_id", "trace_id", "server", "timing", "disclaimer", "copyright", "legal",
    ];
    assert(r@.map_values(|s: &'static str| s@) =~= junk_keys());
    r
}

/// Whether a key is junk (compared in lowercase).
pub fn is_junk_key(key: &String) -> (r: bool)
    ensures
        r == is_junk(key@),
{
    let lowered = str_to_lowercase(key.as_str());
    is_junk_lowercase(&lowered)
}

/// Whether an already lowercased key is one of the junk keys.
pub fn is_junk_lowercase(lowered: &String) -> (r: bool)
    ensures
        r == junk_keys().contains(lowered@),
{
    let keys = junk_key_list();
    let ghost kv = keys@.map_values(|s: &'static str| s@);
    let mut i: usize = 0;
    while i < keys.len()
        invariant
            i <= keys.len(),
            kv == keys@.map_values(|s: &'static str| s@),
            kv == junk_keys(),
            forall|j: int| 0 <= j < i ==> kv[j] != lowered@,
        decreases keys.len() - i,
    {
        let candidate = String::from_str(keys[i]);
        if *lowered == candidate {
            assert(kv[i as int] == lowered@);
            return true;
        }
        i = i + 1;
    }
    false
}

/// A copy of the value with every junk entry removed, at every depth.
fn strip_copy(value: &JsonValue) -> (r: JsonValue)
    ensures
        json_view(r) == strip_view(json_view(*value)),
    decreases *value,
{
    match value {
        JsonValue::Null => JsonValue::Null,
        JsonValue::Bool(b) => JsonValue::Bool(*b),
        JsonValue::Number(n) => JsonValue::Number(n.clone()),
        JsonValue::Text(t) => JsonValue::Text(t.clone()),
        JsonValue::Array(items) => {
            let mut out: Vec<JsonValue> = Vec::new();
            let mut i: usize = 0;
            while i < items.len()
                invariant
                    *value == JsonValue::Array(*items),
                    i <= items@.len(),
                    out@.len() == i,
                    forall|k: int|
                        0 <= k < i ==> json_view(#[trigger] out@[k]) == strip_view(json_view(items@[k])),
                decreases items@.len() - i,
            {
                proof {
                    assert(decreases_to!(*value => (*value)->Array_0));
                    assert(decreases_to!((*value)->Array_0 => (*value)->Array_0@));
                    assert(decreases_to!((*value)->Array_0@ => (*value)->Array_0@[i as int]));
                }
                let stripped = strip_copy(&items[i]);
                out.push(stripped);
                i = i + 1;
            }
            let r = JsonValue::Array(out);
            proof {
                let iv = json_view(*value)->Array_0;
                let rv = json_view(r)->Array_0;
                assert(iv.len() == items@.len());
                assert forall|k: int| 0 <= k < items@.len() implies iv[k] == json_view(items@[k]) by {}
                assert(rv =~= strip_view(json_view(*value))->Array_0) by {
                    assert forall|k: int| 0 <= k < rv.len() implies rv[k] == strip_view(json_view(*value))->Array_0[k] by {
                        assert(rv[k] == json_view(out@[k]));
                    }
                }
            }
            r
        },
        JsonValue::Object(entries) => {
            assert(*value == JsonValue::Object(*entries));
            let ghost ev = json_view(*value)->Object_0;
            assert(ev.len() == entries@.len());
            assert forall|k: int| 0 <= k < entries@.len() implies #[trigger] ev[k] == (entries@[k].0@, json_view(entries@[k].1)) by {}
            let mut out: Vec<(String, JsonValue)> = Vec::new();
            let mut i: usize = 0;
            proof {
                assert(json_view(JsonValue::Object(out))->Object_0 =~= Seq::empty());
                assert(ev.take(0) =~= Seq::empty());
                assert(strip_entries(ev.take(0)) =~= Seq::empty());
            }
            while i < entries.len()
                invariant
                    *value == JsonValue::Object(*entries),
                    i <= entries@.len(),
                    ev.len() == entries@.len(),
                    forall|k: int|
                        0 <= k < entries@.len() ==> #[trigger] ev[k] == (entries@[k].0@, json_view(entries@[k].1)),
                    json_view(JsonValue::Object(out)) == JsonView::Object(strip_entries(ev.take(i as int))),
                decreases entries@.len() - i,
            {
                proof {
                    assert(ev.take(i + 1).drop_last() =~= ev.take(i as int));
                    assert(ev.take(i + 1)[i as int] == ev[i as int]);
                    assert(decreases_to!(*value => (*value)->Object_0));
                    assert(decreases_to!((*value)->Object_0 => (*value)->Object_0@));
                    assert(decreases_to!((*value)->Object_0@ => (*value)->Object_0@[i as int]));
                    assert(decreases_to!((*value)->Object_0@[i as int] => (*value)->Object_0@[i as int].1));
                }
                let ghost before = strip_entries(ev.take(i as int));
                if !is_junk_key(&entries[i].0) {
                    let stripped = strip_copy(&entries[i].1);
                    let ghost old_vec = out;
                    let ghost old_out = out@;
                    out.push((entries[i].0.clone(), stripped));
                    proof {
                        let ov = json_view(JsonValue::Object(out));
                        if let JsonView::Object(os) = ov {
                            assert(os =~= before.push((entries@[i as int].0@, strip_view(json_view(entries@[i as int].1)))))
                                by {
                                if let JsonView::Object(olds) = json_view(JsonValue::Object(old_vec)) {
                                    assert(olds == before);
                                    assert forall|k: int| 0 <= k < old_out.len() implies os[k] == olds[k] by {
                                        assert(out@[k] == old_out[k]);
                                    }
                                }
                            }
                        }
                    }
                }
                i = i + 1;
            }
            proof {
                assert(ev.take(entries@.len() as int) =~= ev);
                assert(json_view(*value) == JsonView::Object(ev));
            }
            JsonValue::Object(out)
        },
    }
}

/// Removes junk entries (metadata, tracking, ads, paging, links, debug and
/// request information, legal text) from a JSON value, at every depth.
/// Keys are compared in lowercase.
pub fn strip_junk(value: JsonValue) -> (r: JsonValue)
    ensures
        json_view(r) == strip_view(json_view(value)),
{
    strip_copy(&value)
}

} // verus!

verus! {

/// No junk key occurs anywhere in the value.
pub open spec fn junk_free(v: JsonView) -> bool
    decreases v, 0nat,
{
    match v {
        JsonView::Array(items) => items_junk_free(items),
        JsonView::Object(entries) => entries_junk_free(entries),
        _ => true,
    }
}

pub open spec fn items_junk_free(items: Seq<JsonView>) -> bool
    decreases items, 1nat,
{
    if items.len() == 0 {
        true
    } else {
        proof {
            assert(decreases_to!(items => items.drop_last()));
            assert(decreases_to!(items => items[items.len() - 1]));
        }
        items_junk_free(items.drop_last()) && junk_free(items[items.len() - 1])
    }
}

pub open spec fn entries_junk_free(entries: Seq<(Seq<char>, JsonView)>) -> bool
    decreases entries, 1nat,
{
    if entries.len() == 0 {
        true
    } else {
        proof {
            assert(decreases_to!(entries => entries.drop_last()));
            assert(decreases_to!(entries => entries[entries.len() - 1]));
            assert(decreases_to!(entries[entries.len() - 1] => entries[entries.len() - 1].1));
        }
        entries_junk_free(entries.drop_last()) && !is_junk(entries[entries.len() - 1].0) && junk_free(
            entries[entries.len() - 1].1,
        )
    }
}

proof fn lemma_items_junk_free(items: Seq<JsonView>)
    requires
        forall|i: int| 0 <= i < items.len() ==> junk_free(#[trigger] items[i]),
    ensures
        items_junk_free(items),
    decreases items.len(),
{
    if items.len() > 0 {
        assert forall|i: int| 0 <= i < items.drop_last().len() implies junk_free(#[trigger] items.drop_last()[i]) by {
            assert(items.drop_last()[i] == items[i]);
        }
        lemma_items_junk_free(items.drop_last());
    }
}

/// Stripping leaves no junk key at any depth.
pub proof fn lemma_strip_leaves_no_junk(v: JsonView)
    ensures
        junk_free(strip_view(v)),
    decreases v, 0nat,
{
    match v {
        JsonView::Array(items) => {
            let s = strip_view(v)->Array_0;
            assert forall|i: int| 0 <= i < s.len() implies junk_free(#[trigger] s[i]) by {
                assert(decreases_to!(v => items));
                assert(decreases_to!(items => items[i]));
                lemma_strip_leaves_no_junk(items[i]);
            }
            lemma_items_junk_free(s);
        },
        JsonView::Object(entries) => {
            assert(decreases_to!(v => entries));
            lemma_strip_entries_leave_no_junk(entries);
        },
        _ => {},
    }
}

proof fn lemma_strip_entries_leave_no_junk(entries: Seq<(Seq<char>, JsonView)>)
    ensures
        entries_junk_free(strip_entries(entries)),
    decreases entries, 1nat,
{
    if entries.len() > 0 {
        assert(decreases_to!(entries => entries.drop_last()));
        assert(decreases_to!(entries => entries[entries.len() - 1]));
        assert(decreases_to!(entries[entries.len() - 1] => entries[entries.len() - 1].1));
        lemma_strip_entries_leave_no_junk(entries.drop_last());
        let last = entries[entries.len() - 1];
        if !is_junk(last.0) {
            lemma_strip_leaves_no_junk(last.1);
            let rest = strip_entries(entries.drop_last());
            let out = rest.push((last.0, strip_view(last.1)));
            assert(out.drop_last() =~= rest);
        }
    }
}

/// A value without junk keys is left as it is.
pub proof fn lemma_strip_keeps_junk_free(v: JsonView)
    requires
        junk_free(v),
    ensures
        strip_view(v) == v,
    decreases v, 0nat,
{
    match v {
        JsonView::Array(items) => {
            let s = strip_view(v)->Array_0;
            assert forall|i: int| 0 <= i < items.len() implies s[i] == items[i] by {
                assert(decreases_to!(v => items));
                assert(decreases_to!(items => items[i]));
                lemma_items_junk_free_at(items, i);
                lemma_strip_keeps_junk_free(items[i]);
            }
            assert(s =~= items);
        },
        JsonView::Object(entries) => {
            assert(decreases_to!(v => entries));
            lemma_strip_entries_keep_junk_free(entries);
        },
        _ => {},
    }
}

proof fn lemma_items_junk_free_at(items: Seq<JsonView>, i: int)
    requires
        items_junk_free(items),
        0 <= i < items.len(),
    ensures
        junk_free(items[i]),
    decreases items.len(),
{
    if i < items.len() - 1 {
        assert(items.drop_last()[i] == items[i]);
        lemma_items_junk_free_at(items.drop_last(), i);
    }
}

proof fn lemma_strip_entries_keep_junk_free(entries: Seq<(Seq<char>, JsonView)>)
    requires
        entries_junk_free(entries),
    ensures
        strip_entries(entries) == entries,
    decreases entries, 1nat,
{
    if entries.len() > 0 {
        assert(decreases_to!(entries => entries.drop_last()));
        assert(decreases_to!(entries => entries[entries.len() - 1]));
        assert(decreases_to!(entries[entries.len() - 1] => entries[entries.len() - 1].1));
        lemma_strip_entries_keep_junk_free(entries.drop_last());
        lemma_strip_keeps_junk_free(entries[entries.len() - 1].1);
        assert(strip_entries(entries) =~= entries);
    }
}

/// Stripping twice is the same as stripping once.
pub proof fn lemma_strip_idempotent(v: JsonView)
    ensures
        strip_view(strip_view(v)) == strip_view(v),
{
    lemma_strip_leaves_no_junk(v);
    lemma_strip_keeps_junk_free(strip_view(v));
}

} // verus!

verus! {

// ============================================================
//  JSON TEXT
// ============================================================

#[verifier::external_type_specification]
#[verifier::external_body]
pub struct ExJsonValue(serde_json::Value);

/// What a `serde_json::Value` holds: numbers as their `Display` text,
/// object entries in the order its map iterates them.
pub uninterp spec fn json_content(v: serde_json::Value) -> JsonView;

/// What `serde_json::from_str::<serde_json::Value>` makes of a text: `None`
/// when it rejects the text, else the content of the value.
pub uninterp spec fn json_parse(text: Seq<char>) -> Option<JsonView>;

/// What `serde_json::to_string_pretty` writes for a value with this
/// content: `None` when it reports an error.
pub uninterp spec fn json_pretty(v: JsonView) -> Option<Seq<char>>;

/// `a` comes before `b` in the order of `String` (bytewise, which for
/// UTF-8 is the order of the characters' scalar values).
pub open spec fn text_lt(a: Seq<char>, b: Seq<char>) -> bool
    decreases a.len(),
{
    if a.len() == 0 {
        b.len() > 0
    } else if b.len() == 0 {
        false
    } else if a[0] == b[0] {
        text_lt(a.drop_first(), b.drop_first())
    } else {
        (a[0] as u32) < (b[0] as u32)
    }
}

/// The keys of the entries strictly increase.
pub open spec fn keys_increasing(es: Seq<(Seq<char>, JsonView)>) -> bool {
    forall|i: int, j: int| 0 <= i < j < es.len() ==> text_lt(#[trigger] es[i].0, #[trigger] es[j].0)
}

pub open spec fn contents(items: Seq<serde_json::Value>) -> Seq<JsonView> {
    items.map_values(|x: serde_json::Value| json_content(x))
}

pub open spec fn entry_contents(es: Seq<(String, serde_json::Value)>) -> Seq<(Seq<char>, JsonView)> {
    es.map_values(|e: (String, serde_json::Value)| (e.0@, json_content(e.1)))
}

/// The children of an array or an object.
pub enum JsonChildren {
    Array(Vec<serde_json::Value>),
    Object(Vec<(String, serde_json::Value)>),
}

/// Calls `serde_json::from_str` for a `serde_json::Value`; the outcome is
/// named by `json_parse` and `json_content`.
#[verifier::external_body]
fn parse_value(text: &str) -> (r: Option<serde_json::Value>)
    ensures
        match r {
            Some(v) => json_parse(text@) == Some(json_content(v)),
            None => json_parse(text@) is None,
        },
{
    serde_json::from_str(text).ok()
}

/// Calls `serde_json::to_string_pretty`; the outcome is named by
/// `json_pretty`.
#[verifier::external_body]
fn pretty_value(v: &serde_json::Value) -> (r: Option<String>)
    ensures
        match r {
            Some(t) => json_pretty(json_content(*v)) == Some(t@),
            None => json_pretty(json_content(*v)) is None,
        },
{
    serde_json::to_string_pretty(v).ok()
}

/// Takes an array or an object apart (the object's entries as its map
/// iterates them: by increasing key, each key once); any other value is
/// handed back.
#[verifier::external_body]
fn split_value(v: serde_json::Value) -> (r: Result<JsonChildren, serde_json::Value>)
    ensures
        match r {
            Ok(JsonChildren::Array(items)) => json_content(v) == JsonView::Array(contents(items@)),
            Ok(JsonChildren::Object(es)) => json_content(v) == JsonView::Object(entry_contents(es@))
                && keys_increasing(entry_contents(es@)),
            Err(w) => w == v && !(json_content(v) is Array) && !(json_content(v) is Object),
        },
{
    match v {
        serde_json::Value::Array(items) => Ok(JsonChildren::Array(items)),
        serde_json::Value::Object(map) => Ok(JsonChildren::Object(map.into_iter().collect())),
        other => Err(other),
    }
}

/// Builds `serde_json::Value::Array` from the items.
#[verifier::external_body]
fn array_value(items: Vec<serde_json::Value>) -> (r: serde_json::Value)
    ensures
        json_content(r) == JsonView::Array(contents(items@)),
{
    serde_json::Value::Array(items)
}

/// Builds `serde_json::Value::Object` from entries whose keys increase;
/// its map then iterates them in the same order.
#[verifier::external_body]
fn object_value(es: Vec<(String, serde_json::Value)>) -> (r: serde_json::Value)
    requires
        keys_increasing(entry_contents(es@)),
    ensures
        json_content(r) == JsonView::Object(entry_contents(es@)),
{
    serde_json::Value::Object(es.into_iter().collect())
}

/// The elements in reverse order.
fn reversed<T>(v: Vec<T>) -> (r: Vec<T>)
    ensures
        r@.len() == v@.len(),
        forall|i: int| 0 <= i < v@.len() ==> #[trigger] r@[i] == v@[v@.len() - 1 - i],
{
    let ghost orig = v@;
    let mut v = v;
    let mut r: Vec<T> = Vec::new();
    while v.len() > 0
        invariant
            v@ == orig.take(v@.len() as int),
            r@.len() + v@.len() == orig.len(),
            forall|i: int| 0 <= i < r@.len() ==> #[trigger] r@[i] == orig[orig.len() - 1 - i],
        decreases v@.len(),
    {
        let x = v.pop().unwrap();
        proof {
            assert(v@ =~= orig.take(v@.len() as int));
        }
        r.push(x);
    }
    r
}

/// The entries of a stripped object are among the original entries, in
/// order, so their keys still increase.
proof fn lemma_strip_keeps_keys_increasing(es: Seq<(Seq<char>, JsonView)>)
    requires
        keys_increasing(es),
    ensures
        keys_increasing(strip_entries(es)),
        forall|j: int|
            0 <= j < strip_entries(es).len() ==> exists|i: int|
                0 <= i < es.len() && (#[trigger] strip_entries(es)[j]).0 == es[i].0,
    decreases es.len(),
{
    if es.len() > 0 {
        let init = es.drop_last();
        assert(keys_increasing(init)) by {
            assert forall|i: int, j: int| 0 <= i < j < init.len() implies text_lt(#[trigger] init[i].0, #[trigger] init[j].0) by {
                assert(init[i] == es[i] && init[j] == es[j]);
            }
        }
        lemma_strip_keeps_keys_increasing(init);
        let s = strip_entries(init);
        let last = es[es.len() - 1];
        if !is_junk(last.0) {
            let t = s.push((last.0, strip_view(last.1)));
            assert(strip_entries(es) == t);
            assert forall|j: int| 0 <= j < s.len() implies text_lt(#[trigger] s[j].0, last.0) by {
                let i = choose|i: int| 0 <= i < init.len() && s[j].0 == init[i].0;
                assert(init[i] == es[i]);
            }
            assert forall|a: int, b: int| 0 <= a < b < t.len() implies text_lt(#[trigger] t[a].0, #[trigger] t[b].0) by {
                if b == t.len() - 1 {
                    assert(t[a] == s[a]);
                } else {
                    assert(t[a] == s[a] && t[b] == s[b]);
                }
            }
            assert forall|j: int| 0 <= j < t.len() implies exists|i: int|
                0 <= i < es.len() && (#[trigger] t[j]).0 == es[i].0 by {
                if j == t.len() - 1 {
                    assert(t[j].0 == es[es.len() - 1].0);
                } else {
                    assert(t[j] == s[j]);
                    let i = choose|i: int| 0 <= i < init.len() && s[j].0 == init[i].0;
                    assert(init[i] == es[i]);
                }
            }
        } else {
            assert(strip_entries(es) == s);
            assert forall|j: int| 0 <= j < s.len() implies exists|i: int|
                0 <= i < es.len() && (#[trigger] s[j]).0 == es[i].0 by {
                let i = choose|i: int| 0 <= i < init.len() && s[j].0 == init[i].0;
                assert(init[i] == es[i]);
            }
        }
    }
}

/// The value with every junk entry removed, at every depth.
fn strip_value(v: serde_json::Value) -> (r: serde_json::Value)
    ensures
        json_content(r) == strip_view(json_content(v)),
    decreases json_content(v),
{
    let ghost cv = json_content(v);
    match split_value(v) {
        Err(w) => w,
        Ok(JsonChildren::Array(items)) => {
            let ghost orig = items@;
            let ghost s = contents(orig);
            let n = items.len();
            let mut items = items;
            let mut rev: Vec<serde_json::Value> = Vec::new();
            while items.len() > 0
                invariant
                    cv == json_content(v),
                    cv == JsonView::Array(s),
                    s == contents(orig),
                    n == orig.len(),
                    items@ == orig.take(items@.len() as int),
                    rev@.len() + items@.len() == n,
                    forall|k: int|
                        0 <= k < rev@.len() ==> json_content(#[trigger] rev@[k]) == strip_view(s[n - 1 - k]),
                decreases items@.len(),
            {
                let ghost m = items@.len() as int;
                let item = items.pop().unwrap();
                proof {
                    assert(items@ =~= orig.take(items@.len() as int));
                    assert(item == orig[m - 1]);
                    assert(s[m - 1] == json_content(item));
                    assert(cv->Array_0 == s);
                    assert(decreases_to!(cv => cv->Array_0));
                    assert(decreases_to!(cv->Array_0 => cv->Array_0[m - 1]));
                }
                let stripped = strip_value(item);
                rev.push(stripped);
            }
            let out = reversed(rev);
            let r = array_value(out);
            proof {
                let want = strip_view(cv)->Array_0;
                assert(contents(out@) =~= want) by {
                    assert forall|i: int| 0 <= i < n implies contents(out@)[i] == want[i] by {
                        assert(out@[i] == rev@[n - 1 - i]);
                    }
                }
            }
            r
        },
        Ok(JsonChildren::Object(es)) => {
            let ghost orig = es@;
            let ghost ev = entry_contents(orig);
            let n = es.len();
            let mut es = es;
            let mut rev: Vec<(String, serde_json::Value)> = Vec::new();
            proof {
                assert(ev.take(n as int) =~= ev);
            }
            while es.len() > 0
                invariant
                    cv == json_content(v),
                    cv == JsonView::Object(ev),
                    ev == entry_contents(orig),
                    n == orig.len(),
                    es@.len() <= n,
                    es@ == orig.take(es@.len() as int),
                    strip_entries(ev) == strip_entries(ev.take(es@.len() as int)) + Seq::new(
                        rev@.len(),
                        |i: int| entry_contents(rev@)[rev@.len() - 1 - i],
                    ),
                decreases es@.len(),
            {
                let ghost m = es@.len() as int;
                let ghost tail = Seq::new(rev@.len(), |i: int| entry_contents(rev@)[rev@.len() - 1 - i]);
                let entry = es.pop().unwrap();
                proof {
                    assert(es@ =~= orig.take(es@.len() as int));
                    assert(orig[m - 1] == entry);
                }
                let (key, value) = entry;
                proof {
                    assert(orig[m - 1] == (key, value));
                    assert(ev[m - 1] == (key@, json_content(value)));
                    assert(ev.take(m).drop_last() =~= ev.take(m - 1));
                    assert(ev.take(m)[m - 1] == ev[m - 1]);
                    assert(cv->Object_0 == ev);
                    assert(decreases_to!(cv => cv->Object_0));
                    assert(decreases_to!(cv->Object_0 => cv->Object_0[m - 1]));
                    assert(decreases_to!(cv->Object_0[m - 1] => cv->Object_0[m - 1].1));
                }
                if !is_junk_key(&key) {
                    let stripped = strip_value(value);
                    let ghost old_rev = entry_contents(rev@);
                    rev.push((key, stripped));
                    proof {
                        let nr = entry_contents(rev@);
                        assert(nr =~= old_rev.push((key@, strip_view(ev[m - 1].1))));
                        let new_tail = Seq::new(rev@.len(), |i: int| entry_contents(rev@)[rev@.len() - 1 - i]);
                        assert(strip_entries(ev.take(m)) == strip_entries(ev.take(m - 1)).push(
                            (key@, strip_view(ev[m - 1].1)),
                        ));
                        assert(strip_entries(ev.take(m)) + tail =~= strip_entries(ev.take(m - 1)) + new_tail);
                    }
                } else {
                    proof {
                        assert(strip_entries(ev.take(m)) == strip_entries(ev.take(m - 1)));
                    }
                }
            }
            let out = reversed(rev);
            proof {
                let tail = Seq::new(rev@.len(), |i: int| entry_contents(rev@)[rev@.len() - 1 - i]);
                assert(ev.take(0) =~= Seq::<(Seq<char>, JsonView)>::empty());
                assert(strip_entries(ev) =~= tail);
                assert(entry_contents(out@) =~= tail);
                lemma_strip_keeps_keys_increasing(ev);
            }
            object_value(out)
        },
    }
}

/// What cleaning a JSON response gives: the text pretty-printed with every
/// junk entry removed; the text unchanged when it is not JSON (or cannot
/// be printed back).
pub open spec fn spec_clean_json(raw: Seq<char>) -> Seq<char> {
    match json_parse(raw) {
        None => raw,
        Some(v) => match json_pretty(strip_view(v)) {
            Some(t) => t,
            None => raw,
        },
    }
}

/// Removes common junk keys from a JSON API response and pretty-prints
/// it; text that does not parse as JSON is returned unchanged.
pub fn clean_json_response(raw_json: &str) -> (r: String)
    ensures
        r@ == spec_clean_json(raw_json@),
{
    match parse_value(raw_json) {
        None => String::from_str(raw_json),
        Some(v) => {
            let cleaned = strip_value(v);
            match pretty_value(&cleaned) {
                Some(t) => t,
                None => String::from_str(raw_json),
            }
        },
    }
}

} // verus!

verus! {

/// The junk keys: meta, metadata, tracking, ads, advertisement,
/// pagination, paging, links, _links, debug, request_id, trace_id, server,
/// timing, disclaimer, copyright and legal. A key whose lowercase form is
/// one of them is junk, so no entry with it survives stripping.
pub proof fn lemma_junk_keys_listed(key: Seq<char>)
    requires
        lowercase(key) == "meta"@ || lowercase(key) == "metadata"@ || lowercase(key) == "tracking"@ || lowercase(key)
            == "ads"@ || lowercase(key) == "advertisement"@ || lowercase(key) == "pagination"@ || lowercase(key)
            == "paging"@ || lowercase(key) == "links"@ || lowercase(key) == "_links"@ || lowercase(key) == "debug"@
            || lowercase(key) == "request_id"@ || lowercase(key) == "trace_id"@ || lowercase(key) == "server"@
            || lowercase(key) == "timing"@ || lowercase(key) == "disclaimer"@ || lowercase(key) == "copyright"@
            || lowercase(key) == "legal"@,
    ensures
        is_junk(key),
        forall|v: JsonView, i: int|
            #![trigger strip_view(v)->Object_0[i]]
            strip_view(v) is Object && 0 <= i < strip_view(v)->Object_0.len() ==> strip_view(v)->Object_0[i].0 != key,
{
    let t = junk_keys();
    let l = lowercase(key);
    if l == "meta"@ {
        assert(t[0] == l);
    } else if l == "metadata"@ {
        assert(t[1] == l);
    } else if l == "tracking"@ {
        assert(t[2] == l);
    } else if l == "ads"@ {
        assert(t[3] == l);
    } else if l == "advertisement"@ {
        assert(t[4] == l);
    } else if l == "pagination"@ {
        assert(t[5] == l);
    } else if l == "paging"@ {
        assert(t[6] == l);
    } else if l == "links"@ {
        assert(t[7] == l);
    } else if l == "_links"@ {
        assert(t[8] == l);
    } else if l == "debug"@ {
        assert(t[9] == l);
    } else if l == "request_id"@ {
        assert(t[10] == l);
    } else if l == "trace_id"@ {
        assert(t[11] == l);
    } else if l == "server"@ {
        assert(t[12] == l);
    } else if l == "timing"@ {
        assert(t[13] == l);
    } else if l == "disclaimer"@ {
        assert(t[14] == l);
    } else if l == "copyright"@ {
        assert(t[15] == l);
    } else {
        assert(t[16] == l);
    }
    assert forall|v: JsonView, i: int|
        #![trigger strip_view(v)->Object_0[i]]
        strip_view(v) is Object && 0 <= i < strip_view(v)->Object_0.len() implies strip_view(v)->Object_0[i].0 != key by {
        lemma_strip_leaves_no_junk(v);
        let es = strip_view(v)->Object_0;
        lemma_entries_junk_free_at(es, i);
    }
}

proof fn lemma_entries_junk_free_at(entries: Seq<(Seq<char>, JsonView)>, i: int)
    requires
        entries_junk_free(entries),
        0 <= i < entries.len(),
    ensures
        !is_junk(entries[i].0),
    decreases entries.len(),
{
    if i < entries.len() - 1 {
        lemma_entries_junk_free_at(entries.drop_last(), i);
        assert(entries.drop_last()[i] == entries[i]);
    }
}

} // verus!

verus! {

/// Cleaning hands back text that does not parse as JSON unchanged;
/// parsed JSON comes back as the pretty-printed value without a junk key
/// at any depth.
pub proof fn lemma_clean_json_outcome(raw: Seq<char>)
    ensures
        json_parse(raw) is None ==> spec_clean_json(raw) == raw,
        json_parse(raw) matches Some(v) ==> {
            &&& junk_free(strip_view(v))
            &&& json_pretty(strip_view(v)) matches Some(t) ==> spec_clean_json(raw) == t
            &&& json_pretty(strip_view(v)) is None ==> spec_clean_json(raw) == raw
        },
{
    if let Some(v) = json_parse(raw) {
        lemma_strip_leaves_no_junk(v);
    }
}

} // verus!
