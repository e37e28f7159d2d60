//! HTML to readable text: find the main content container, drop noise
//! elements (scripts, navigation, ads, ...) and keep the remaining text,
//! one trimmed line per text node.
//!
//! The document is parsed by `scraper`; its tree reaches the logic here
//! as the sequence of open and close events of a depth-first walk from
//! the document root.

use vstd::prelude::*;
use std::collections::HashMap;
use ego_tree::iter::Edge;
use scraper::{Html, Node};
use crate::html_cleaner::HtmlEvent::{Close, Open};
use crate::html_cleaner::HtmlNode::{Element, Other, Text};
use crate::matching::{is_match, newline_runs_collapsed, regex_is_match, regex_replace_all, replace_all_or_same, replaced_or_same};
use crate::text::{is_white_space, join, join_strings, str_trim, strs_view, trim_end_spec, trim_spec, trim_start_spec, push_str};

verus! {

// ============================================================
//  DOCUMENT MODEL
// ============================================================

/// A node of the document: an element (its local name, `id` attribute,
/// classes and `role` attribute), a text, or anything else (document
/// root, doctype, comment, ...).
pub enum HtmlNode {
    Element(String, Option<String>, Vec<String>, Option<String>),
    Text(String),
    Other,
}

/// One step of a depth-first walk: entering a node (with its position in
/// the order the parser created the nodes) or leaving the last entered one.
pub enum HtmlEvent {
    Open(usize, HtmlNode),
    Close,
}

pub struct ElementView {
    pub name: Seq<char>,
    pub id: Option<Seq<char>>,
    pub classes: Seq<Seq<char>>,
    pub role: Option<Seq<char>>,
}

pub enum NodeView {
    Element(ElementView),
    Text(Seq<char>),
    Other,
}

pub enum EventView {
    Open(nat, NodeView),
    Close,
}

pub open spec fn opt_view(o: Option<String>) -> Option<Seq<char>> {
    match o {
        Some(s) => Some(s@),
        None => None,
    }
}

impl View for HtmlNode {
    type V = NodeView;

    open spec fn view(&self) -> NodeView {
        match self {
            HtmlNode::Element(name, id, classes, role) => NodeView::Element(
                ElementView {
                    name: name@,
                    id: opt_view(*id),
                    classes: classes@.map_values(|c: String| c@),
                    role: opt_view(*role),
                },
            ),
            HtmlNode::Text(t) => NodeView::Text(t@),
            HtmlNode::Other => NodeView::Other,
        }
    }
}

impl View for HtmlEvent {
    type V = EventView;

    open spec fn view(&self) -> EventView {
        match self {
            HtmlEvent::Open(rank, node) => EventView::Open(*rank as nat, node@),
            HtmlEvent::Close => EventView::Close,
        }
    }
}

pub open spec fn events_view(v: Seq<HtmlEvent>) -> Seq<EventView> {
    v.map_values(|e: HtmlEvent| e@)
}

/// The events of a depth-first walk, from the document root, of the tree
/// that `scraper::Html::parse_document` builds from a text.
pub uninterp spec fn html_events(raw: Seq<char>) -> Seq<EventView>;

/// Calls `scraper::Html::parse_document` and converts the tree's
/// `traverse()` from the root into events: each node with its position in
/// insertion order (`nodes()`), elements with their name, `id`, classes and
/// `role`. The result is named by `html_events`.
#[verifier::external_body]
fn parse_html_events(raw: &str) -> (r: Vec<HtmlEvent>)
    ensures
        events_view(r@) == html_events(raw@),
{
    let doc = Html::parse_document(raw);
    let rank: HashMap<_, _> = doc.tree.nodes().map(|n| n.id()).zip(0..).collect();
    doc.tree.root().traverse().map(|edge| match edge {
        Edge::Open(n) => Open(rank[&n.id()], match n.value() {
            Node::Element(e) => Element(
                e.name().into(),
                e.id().map(Into::into),
                e.classes().map(Into::into).collect(),
                e.attr("role").map(Into::into),
            ),
            Node::Text(t) => Text(t.to_string()),
            _ => Other,
        }),
        _ => Close,
    }).collect()
}

/// The nodes of a walk, in the order they are entered, each as (index of
/// its open event, index of its parent node), and the nodes still open.
pub open spec fn arena(events: Seq<EventView>) -> (Seq<(int, Option<int>)>, Seq<int>)
    decreases events.len(),
{
    if events.len() == 0 {
        (Seq::empty(), Seq::empty())
    } else {
        let (nodes, open) = arena(events.drop_last());
        match events.last() {
            EventView::Open(_, _) => (
                nodes.push((events.len() - 1, if open.len() == 0 { None } else { Some(open.last()) })),
                open.push(nodes.len() as int),
            ),
            EventView::Close => (nodes, if open.len() == 0 { open } else { open.drop_last() }),
        }
    }
}

} // verus!

verus! {

// ============================================================
//  SELECTION RULES
// ============================================================

/// Elements whose content is pure noise.
pub open spec fn remove_tags() -> Seq<Seq<char>> {
    seq![
        "script"@, "style"@, "nav"@, "footer"@, "header"@, "aside"@, "iframe"@, "noscript"@, "svg"@,
        "form"@, "button"@,
    ]
}

/// Class and id fragments that mark noise.
pub const NOISE_PATTERNS: &'static str = r"(?i)(\bad[\w-]*|sidebar|cookie|consent|popup|modal|newsletter|social|share|comment|related|promo|banner|sponsor|disclaimer|footer|nav|menu|breadcrumb)";

/// Three or more consecutive line breaks.
pub const WHITESPACE_COLLAPSE: &'static str = r"\n{3,}";

/// The candidates for the content container and the body, as selectors:
/// `div[id="mw-content-text"], div[id="main-content"]`, `article`, `main`,
/// `div[role="main"]`, `body`.
#[derive(Clone, Copy, PartialEq, Eq, Structural)]
pub enum Target {
    ContentDiv,
    Article,
    Main,
    RoleMain,
    Body,
}

pub open spec fn selects(t: Target, n: NodeView) -> bool {
    match n {
        NodeView::Element(el) => match t {
            Target::ContentDiv => el.name == "div"@ && (el.id == Some("mw-content-text"@) || el.id == Some(
                "main-content"@,
            )),
            Target::Article => el.name == "article"@,
            Target::Main => el.name == "main"@,
            Target::RoleMain => el.name == "div"@ && el.role == Some("main"@),
            Target::Body => el.name == "body"@,
        },
        _ => false,
    }
}

/// The text the noise pattern is tried on: the classes joined by spaces,
/// a space, the id.
pub open spec fn noise_text(el: ElementView) -> Seq<char> {
    join(el.classes, " "@) + " "@ + match el.id {
        Some(i) => i,
        None => Seq::empty(),
    }
}

/// A noise element: a removed tag, or classes/id that match the noise
/// pattern.
pub open spec fn is_noise(n: NodeView) -> bool {
    match n {
        NodeView::Element(el) => remove_tags().contains(el.name) || regex_is_match(NOISE_PATTERNS@, noise_text(el))
            == Some(true),
        _ => false,
    }
}

pub open spec fn node_of(events: Seq<EventView>, e: int) -> NodeView {
    match events[e] {
        EventView::Open(_, n) => n,
        EventView::Close => NodeView::Other,
    }
}

pub open spec fn rank_of(events: Seq<EventView>, e: int) -> nat {
    match events[e] {
        EventView::Open(r, _) => r,
        EventView::Close => 0,
    }
}

/// Among the first `n` nodes, the one that the target selects and that
/// the parser created first (ties: the earlier in the walk).
pub open spec fn first_selected(events: Seq<EventView>, nodes: Seq<(int, Option<int>)>, t: Target, n: int) -> Option<int>
    decreases n,
{
    if n <= 0 {
        None
    } else {
        let prev = first_selected(events, nodes, t, n - 1);
        let k = n - 1;
        if selects(t, node_of(events, nodes[k].0)) {
            match prev {
                None => Some(k),
                Some(b) => if rank_of(events, nodes[k].0) < rank_of(events, nodes[b].0) {
                    Some(k)
                } else {
                    Some(b)
                },
            }
        } else {
            prev
        }
    }
}

/// Node `j` lies below `root`, and no noise element stands between them.
pub open spec fn kept_under(events: Seq<EventView>, nodes: Seq<(int, Option<int>)>, j: int, root: int) -> bool
    decreases j,
{
    if 0 <= j < nodes.len() {
        match nodes[j].1 {
            None => false,
            Some(p) => if p == root {
                true
            } else if !(0 <= p < j) {
                false
            } else if is_noise(node_of(events, nodes[p].0)) {
                false
            } else {
                kept_under(events, nodes, p, root)
            },
        }
    } else {
        false
    }
}

/// The texts of the first `n` nodes that are kept below `root`, in order.
pub open spec fn texts_under(events: Seq<EventView>, nodes: Seq<(int, Option<int>)>, root: int, n: int) -> Seq<Seq<char>>
    decreases n,
{
    if n <= 0 {
        Seq::empty()
    } else {
        let prev = texts_under(events, nodes, root, n - 1);
        match node_of(events, nodes[n - 1].0) {
            NodeView::Text(t) => if kept_under(events, nodes, n - 1, root) {
                prev.push(t)
            } else {
                prev
            },
            _ => prev,
        }
    }
}

/// The texts of the first `n` nodes, in order.
pub open spec fn all_texts(events: Seq<EventView>, nodes: Seq<(int, Option<int>)>, n: int) -> Seq<Seq<char>>
    decreases n,
{
    if n <= 0 {
        Seq::empty()
    } else {
        let prev = all_texts(events, nodes, n - 1);
        match node_of(events, nodes[n - 1].0) {
            NodeView::Text(t) => prev.push(t),
            _ => prev,
        }
    }
}

pub open spec fn non_blank() -> spec_fn(Seq<char>) -> bool {
    |l: Seq<char>| l.len() > 0
}

pub open spec fn trimmed() -> spec_fn(Seq<char>) -> Seq<char> {
    |t: Seq<char>| trim_spec(t)
}

/// The trimmed texts that are not empty.
pub open spec fn lines_of(texts: Seq<Seq<char>>) -> Seq<Seq<char>> {
    texts.map_values(trimmed()).filter(non_blank())
}

/// The node whose text is collected: the content container (first
/// candidate selector that selects anything), else the body.
pub open spec fn content_root(events: Seq<EventView>, nodes: Seq<(int, Option<int>)>) -> Option<int> {
    let n = nodes.len() as int;
    match first_selected(events, nodes, Target::ContentDiv, n) {
        Some(c) => Some(c),
        None => match first_selected(events, nodes, Target::Article, n) {
            Some(c) => Some(c),
            None => match first_selected(events, nodes, Target::Main, n) {
                Some(c) => Some(c),
                None => match first_selected(events, nodes, Target::RoleMain, n) {
                    Some(c) => Some(c),
                    None => first_selected(events, nodes, Target::Body, n),
                },
            },
        },
    }
}

/// The readable text of a document: the texts below the content root
/// (all texts when there is no root), trimmed, blank ones dropped, one per
/// line, with runs of three or more line breaks collapsed to two.
pub open spec fn spec_clean_html(raw: Seq<char>) -> Seq<char> {
    spec_clean_events(html_events(raw))
}

/// The readable text of a document given as the events of its walk.
pub open spec fn spec_clean_events(events: Seq<EventView>) -> Seq<char> {
    let nodes = arena(events).0;
    let texts = match content_root(events, nodes) {
        Some(r) => texts_under(events, nodes, r, nodes.len() as int),
        None => all_texts(events, nodes, nodes.len() as int),
    };
    let joined = join(lines_of(texts), "\n"@);
    replaced_or_same(regex_replace_all(WHITESPACE_COLLAPSE@, joined, "\n\n"@), joined)
}

} // verus!

verus! {

// ============================================================
//  TREE BUILDING AND SELECTION
// ============================================================

pub open spec fn arena_view(v: Seq<(usize, Option<usize>)>) -> Seq<(int, Option<int>)> {
    v.map_values(|n: (usize, Option<usize>)| (n.0 as int, match n.1 {
        Some(p) => Some(p as int),
        None => None,
    }))
}

/// Every node refers to an open event and its parent comes before it.
pub open spec fn arena_ok(events: Seq<EventView>, nodes: Seq<(int, Option<int>)>) -> bool {
    forall|k: int|
        0 <= k < nodes.len() ==> {
            &&& 0 <= (#[trigger] nodes[k]).0 < events.len()
            &&& events[nodes[k].0] is Open
            &&& nodes[k].1 matches Some(p) ==> 0 <= p < k
        }
}

pub open spec fn int_view(v: Seq<usize>) -> Seq<int> {
    v.map_values(|x: usize| x as int)
}

/// Builds the node list of a walk: each node with the index of its open
/// event and the index of its parent.
fn build_arena(events: &Vec<HtmlEvent>) -> (r: Vec<(usize, Option<usize>)>)
    ensures
        arena_view(r@) == arena(events_view(events@)).0,
        arena_ok(events_view(events@), arena_view(r@)),
{
    let ghost ev = events_view(events@);
    let mut nodes: Vec<(usize, Option<usize>)> = Vec::new();
    let mut open: Vec<usize> = Vec::new();
    let mut i: usize = 0;
    while i < events.len()
        invariant
            i <= events.len(),
            ev == events_view(events@),
            arena(ev.take(i as int)) == (arena_view(nodes@), int_view(open@)),
            forall|k: int| 0 <= k < open@.len() ==> (#[trigger] open@[k]) < nodes@.len(),
            arena_ok(ev, arena_view(nodes@)),
            forall|k: int| 0 <= k < nodes@.len() ==> (#[trigger] nodes@[k]).0 < i,
        decreases events.len() - i,
    {
        proof {
            assert(ev.take(i + 1).drop_last() =~= ev.take(i as int));
            assert(ev.take(i + 1).last() == ev[i as int]);
        }
        let ghost old_nodes = nodes@;
        let ghost old_open = open@;
        match &events[i] {
            HtmlEvent::Open(_, _) => {
                let parent = if open.len() == 0 {
                    None
                } else {
                    Some(open[open.len() - 1])
                };
                let index = nodes.len();
                open.push(index);
                nodes.push((i, parent));
                proof {
                    assert(arena_view(nodes@) =~= arena_view(old_nodes).push(
                        (i as int, match parent {
                            Some(p) => Some(p as int),
                            None => None,
                        }),
                    ));
                    assert(int_view(open@) =~= int_view(old_open).push(index as int));
                    assert(ev[i as int] is Open);
                    assert forall|k: int| 0 <= k < nodes@.len() implies {
                        &&& 0 <= (#[trigger] arena_view(nodes@)[k]).0 < ev.len()
                        &&& ev[arena_view(nodes@)[k].0] is Open
                        &&& arena_view(nodes@)[k].1 matches Some(p) ==> 0 <= p < k
                    } by {
                        if k < old_nodes.len() {
                            assert(arena_view(nodes@)[k] == arena_view(old_nodes)[k]);
                        }
                    }
                }
            },
            HtmlEvent::Close => {
                if open.len() > 0 {
                    open.pop();
                    proof {
                        assert(int_view(open@) =~= int_view(old_open).drop_last());
                    }
                }
            },
        }
        i = i + 1;
    }
    proof {
        assert(ev.take(events@.len() as int) =~= ev);
    }
    nodes
}

/// `s` holds exactly the given text.
fn text_is(s: &String, lit: &str) -> (r: bool)
    ensures
        r == (s@ == lit@),
{
    let l = String::from_str(lit);
    *s == l
}

fn opt_text_is(s: &Option<String>, lit: &str) -> (r: bool)
    ensures
        r == (opt_view(*s) == Some(lit@)),
{
    match s {
        Some(v) => text_is(v, lit),
        None => false,
    }
}

/// Whether the target selector selects the node.
fn target_selects(t: Target, node: &HtmlNode) -> (r: bool)
    ensures
        r == selects(t, node@),
{
    match node {
        HtmlNode::Element(name, id, _, role) => match t {
            Target::ContentDiv => text_is(name, "div") && (opt_text_is(id, "mw-content-text") || opt_text_is(
                id,
                "main-content",
            )),
            Target::Article => text_is(name, "article"),
            Target::Main => text_is(name, "main"),
            Target::RoleMain => text_is(name, "div") && opt_text_is(role, "main"),
            Target::Body => text_is(name, "body"),
        },
        _ => false,
    }
}

/// The first node (in creation order) that the target selects.
fn select_first(events: &Vec<HtmlEvent>, nodes: &Vec<(usize, Option<usize>)>, t: Target) -> (r: Option<usize>)
    requires
        arena_ok(events_view(events@), arena_view(nodes@)),
    ensures
        r matches Some(k) ==> k < nodes@.len(),
        match r {
            Some(k) => first_selected(events_view(events@), arena_view(nodes@), t, nodes@.len() as int) == Some(
                k as int,
            ),
            None => first_selected(events_view(events@), arena_view(nodes@), t, nodes@.len() as int) is None,
        },
{
    let ghost ev = events_view(events@);
    let ghost av = arena_view(nodes@);
    let mut best: Option<usize> = None;
    let mut best_rank: usize = 0;
    let mut k: usize = 0;
    while k < nodes.len()
        invariant
            k <= nodes@.len(),
            ev == events_view(events@),
            av == arena_view(nodes@),
            arena_ok(ev, av),
            match best {
                Some(b) => b < k && first_selected(ev, av, t, k as int) == Some(b as int) && best_rank == rank_of(
                    ev,
                    av[b as int].0,
                ),
                None => first_selected(ev, av, t, k as int) is None,
            },
        decreases nodes@.len() - k,
    {
        assert(av[k as int].0 == nodes@[k as int].0 as int);
        let e = nodes[k].0;
        assert(0 <= av[k as int].0 < ev.len());
        match &events[e] {
            HtmlEvent::Open(rank, node) => {
                assert(ev[e as int] == events@[e as int]@);
                if target_selects(t, node) {
                    match best {
                        None => {
                            best = Some(k);
                            best_rank = *rank;
                        },
                        Some(_) => {
                            if *rank < best_rank {
                                best = Some(k);
                                best_rank = *rank;
                            }
                        },
                    }
                }
            },
            HtmlEvent::Close => {
                assert(ev[e as int] == events@[e as int]@);
            },
        }
        k = k + 1;
    }
    best
}

} // verus!

verus! {

// ============================================================
//  NOISE AND TEXT COLLECTION
// ============================================================


fn removed_tags() -> (r: Vec<&'static str>)
    ensures
        r@.map_values(|s: &'static str| s@) == remove_tags(),
{
    let r = vec!["script", "style", "nav", "footer", "header", "aside", "iframe", "noscript", "svg", "form", "button"];
    assert(r@.map_values(|s: &'static str| s@) =~= remove_tags());
    r
}

/// The element name is one of the removed tags.
fn is_removed_tag(name: &String) -> (r: bool)
    ensures
        r == remove_tags().contains(name@),
{
    let tags = removed_tags();
    let ghost tv = tags@.map_values(|s: &'static str| s@);
    let mut i: usize = 0;
    while i < tags.len()
        invariant
            i <= tags.len(),
            tv == tags@.map_values(|s: &'static str| s@),
            tv == remove_tags(),
            forall|j: int| 0 <= j < i ==> tv[j] != name@,
        decreases tags.len() - i,
    {
        if text_is(name, tags[i]) {
            assert(tv[i as int] == name@);
            return true;
        }
        i = i + 1;
    }
    false
}

/// Whether the node is a noise element.
fn noise_node(node: &HtmlNode) -> (r: bool)
    ensures
        r == is_noise(node@),
{
    match node {
        HtmlNode::Element(name, id, classes, _) => {
            if is_removed_tag(name) {
                true
            } else {
                let mut combined = join_strings(classes, " ");
                push_str(&mut combined, " ");
                match id {
                    Some(i) => push_str(&mut combined, i.as_str()),
                    None => {},
                }
                proof {
                    assert(strs_view(classes@) =~= classes@.map_values(|c: String| c@));
                    match id {
                        Some(i) => {},
                        None => {
                            assert(combined@ =~= combined@ + Seq::<char>::empty());
                        },
                    }
                }
                match is_match(NOISE_PATTERNS, combined.as_str()) {
                    Some(b) => b,
                    None => false,
                }
            }
        },
        _ => false,
    }
}

/// The noise flag of every node.
fn noise_flags(events: &Vec<HtmlEvent>, nodes: &Vec<(usize, Option<usize>)>) -> (r: Vec<bool>)
    requires
        arena_ok(events_view(events@), arena_view(nodes@)),
    ensures
        r@.len() == nodes@.len(),
        forall|k: int|
            0 <= k < nodes@.len() ==> r@[k] == is_noise(node_of(events_view(events@), arena_view(nodes@)[k].0)),
{
    let ghost ev = events_view(events@);
    let ghost av = arena_view(nodes@);
    let mut flags: Vec<bool> = Vec::new();
    let mut k: usize = 0;
    while k < nodes.len()
        invariant
            k <= nodes@.len(),
            ev == events_view(events@),
            av == arena_view(nodes@),
            arena_ok(ev, av),
            flags@.len() == k,
            forall|j: int| 0 <= j < k ==> flags@[j] == is_noise(node_of(ev, av[j].0)),
        decreases nodes@.len() - k,
    {
        assert(av[k as int].0 == nodes@[k as int].0 as int);
        let e = nodes[k].0;
        assert(ev[e as int] == events@[e as int]@);
        let flag = match &events[e] {
            HtmlEvent::Open(_, node) => noise_node(node),
            HtmlEvent::Close => false,
        };
        flags.push(flag);
        k = k + 1;
    }
    flags
}

/// Whether node `j` lies below `root` with no noise element between.
fn kept_below(
    events: &Vec<HtmlEvent>,
    nodes: &Vec<(usize, Option<usize>)>,
    noise: &Vec<bool>,
    j: usize,
    root: usize,
) -> (r: bool)
    requires
        arena_ok(events_view(events@), arena_view(nodes@)),
        noise@.len() == nodes@.len(),
        forall|k: int|
            0 <= k < nodes@.len() ==> noise@[k] == is_noise(node_of(events_view(events@), arena_view(nodes@)[k].0)),
        j < nodes@.len(),
    ensures
        r == kept_under(events_view(events@), arena_view(nodes@), j as int, root as int),
{
    let ghost ev = events_view(events@);
    let ghost av = arena_view(nodes@);
    let mut cur = j;
    loop
        invariant
            ev == events_view(events@),
            av == arena_view(nodes@),
            arena_ok(ev, av),
            noise@.len() == nodes@.len(),
            forall|k: int| 0 <= k < nodes@.len() ==> noise@[k] == is_noise(node_of(ev, av[k].0)),
            cur < nodes@.len(),
            kept_under(ev, av, j as int, root as int) == kept_under(ev, av, cur as int, root as int),
        decreases cur,
    {
        assert(av[cur as int] == arena_view(nodes@)[cur as int]);
        match nodes[cur].1 {
            None => {
                return false;
            },
            Some(p) => {
                assert(av[cur as int].1 == Some(p as int));
                if p == root {
                    return true;
                }
                if noise[p] {
                    return false;
                }
                cur = p;
            },
        }
    }
}

/// The texts kept below `root`, in walk order.
fn collect_text_from_element(
    events: &Vec<HtmlEvent>,
    nodes: &Vec<(usize, Option<usize>)>,
    noise: &Vec<bool>,
    root: usize,
) -> (r: Vec<String>)
    requires
        arena_ok(events_view(events@), arena_view(nodes@)),
        noise@.len() == nodes@.len(),
        forall|k: int|
            0 <= k < nodes@.len() ==> noise@[k] == is_noise(node_of(events_view(events@), arena_view(nodes@)[k].0)),
    ensures
        strs_view(r@) == texts_under(events_view(events@), arena_view(nodes@), root as int, nodes@.len() as int),
{
    let ghost ev = events_view(events@);
    let ghost av = arena_view(nodes@);
    let mut texts: Vec<String> = Vec::new();
    let mut k: usize = 0;
    while k < nodes.len()
        invariant
            k <= nodes@.len(),
            ev == events_view(events@),
            av == arena_view(nodes@),
            arena_ok(ev, av),
            noise@.len() == nodes@.len(),
            forall|i: int| 0 <= i < nodes@.len() ==> noise@[i] == is_noise(node_of(ev, av[i].0)),
            strs_view(texts@) == texts_under(ev, av, root as int, k as int),
        decreases nodes@.len() - k,
    {
        assert(av[k as int].0 == nodes@[k as int].0 as int);
        let e = nodes[k].0;
        assert(ev[e as int] == events@[e as int]@);
        let ghost before = strs_view(texts@);
        match &events[e] {
            HtmlEvent::Open(_, HtmlNode::Text(t)) => {
                if kept_below(events, nodes, noise, k, root) {
                    texts.push(t.clone());
                    assert(strs_view(texts@) =~= before.push(t@));
                }
            },
            _ => {},
        }
        k = k + 1;
    }
    texts
}

/// All texts of the document, in walk order.
fn collect_all_text(events: &Vec<HtmlEvent>, nodes: &Vec<(usize, Option<usize>)>) -> (r: Vec<String>)
    requires
        arena_ok(events_view(events@), arena_view(nodes@)),
    ensures
        strs_view(r@) == all_texts(events_view(events@), arena_view(nodes@), nodes@.len() as int),
{
    let ghost ev = events_view(events@);
    let ghost av = arena_view(nodes@);
    let mut texts: Vec<String> = Vec::new();
    let mut k: usize = 0;
    while k < nodes.len()
        invariant
            k <= nodes@.len(),
            ev == events_view(events@),
            av == arena_view(nodes@),
            arena_ok(ev, av),
            strs_view(texts@) == all_texts(ev, av, k as int),
        decreases nodes@.len() - k,
    {
        assert(av[k as int].0 == nodes@[k as int].0 as int);
        let e = nodes[k].0;
        assert(ev[e as int] == events@[e as int]@);
        let ghost before = strs_view(texts@);
        match &events[e] {
            HtmlEvent::Open(_, HtmlNode::Text(t)) => {
                texts.push(t.clone());
                assert(strs_view(texts@) =~= before.push(t@));
            },
            _ => {},
        }
        k = k + 1;
    }
    texts
}

/// The trimmed texts that are not blank.
fn non_blank_lines(texts: &Vec<String>) -> (r: Vec<String>)
    ensures
        strs_view(r@) == lines_of(strs_view(texts@)),
{
    let ghost tv = strs_view(texts@);
    let mut lines: Vec<String> = Vec::new();
    let mut i: usize = 0;
    while i < texts.len()
        invariant
            i <= texts.len(),
            tv == strs_view(texts@),
            strs_view(lines@) == tv.take(i as int).map_values(trimmed()).filter(non_blank()),
        decreases texts.len() - i,
    {
        let ghost before = strs_view(lines@);
        let ghost mapped = tv.take(i as int).map_values(trimmed());
        proof {
            assert(tv.take(i + 1).map_values(trimmed()) =~= mapped.push(trim_spec(tv[i as int])));
            mapped.lemma_filter_push(trim_spec(tv[i as int]), non_blank());
        }
        let trimmed_text = str_trim(texts[i].as_str());
        if !trimmed_text.is_empty() {
            lines.push(String::from_str(trimmed_text));
            assert(strs_view(lines@) =~= before.push(trimmed_text@));
        }
        i = i + 1;
    }
    proof {
        assert(tv.take(texts@.len() as int) =~= tv);
    }
    lines
}

/// Strips an HTML document down to its readable text: the text of the
/// main content container (or the body), without scripts, styles,
/// navigation, forms and elements whose classes or id mark noise, one
/// trimmed non-blank text per line.
pub fn clean_html(raw_html: &str) -> (r: String)
    ensures
        r@ == spec_clean_html(raw_html@),
        trim_spec(r@) == r@,
        forall|i: int| #![trigger r@[i]] 0 <= i && i + 3 <= r@.len() ==> !(r@[i] == '\n' && r@[i + 1] == '\n' && r@[i + 2] == '\n'),
{
    let events = parse_html_events(raw_html);
    clean_events(&events)
}

/// The readable text of a document given as the events of a depth-first
/// walk from its root (what `clean_html` gets from the parser).
pub fn clean_events(events: &Vec<HtmlEvent>) -> (r: String)
    ensures
        r@ == spec_clean_events(events_view(events@)),
        trim_spec(r@) == r@,
        forall|i: int| #![trigger r@[i]] 0 <= i && i + 3 <= r@.len() ==> !(r@[i] == '\n' && r@[i + 1] == '\n' && r@[i + 2] == '\n'),
{
    let nodes = build_arena(events);
    let mut root = select_first(events, &nodes, Target::ContentDiv);
    if root.is_none() {
        root = select_first(events, &nodes, Target::Article);
    }
    if root.is_none() {
        root = select_first(events, &nodes, Target::Main);
    }
    if root.is_none() {
        root = select_first(events, &nodes, Target::RoleMain);
    }
    if root.is_none() {
        root = select_first(events, &nodes, Target::Body);
    }
    let texts = match root {
        Some(r) => {
            let noise = noise_flags(events, &nodes);
            collect_text_from_element(events, &nodes, &noise, r)
        },
        None => collect_all_text(events, &nodes),
    };
    let lines = non_blank_lines(&texts);
    let joined = join_strings(&lines, "\n");
    proof {
        reveal_strlit(r"\n{3,}");
        reveal_strlit("\n\n");
        reveal_strlit("\n");
        lemma_lines_edges(strs_view(texts@));
        lemma_join_edges(strs_view(lines@), "\n"@);
        assert(WHITESPACE_COLLAPSE@ =~= seq!['\\', 'n', '{', '3', ',', '}']);
        assert("\n\n"@ =~= seq!['\n', '\n']);
        assert(is_white_space('\n'));
        let j = joined@;
        if j.len() > 0 {
            assert(!is_white_space(j[0]) && !is_white_space(j.last()));
        }
    }
    let r = replace_all_or_same(WHITESPACE_COLLAPSE, joined.as_str(), "\n\n");
    proof {
        lemma_edges_trimmed(r@);
    }
    r
}

} // verus!

verus! {

// ============================================================
//  SHAPE OF THE CLEANED TEXT
// ============================================================

proof fn lemma_trim_start_edge(s: Seq<char>)
    ensures
        trim_start_spec(s).len() > 0 ==> !is_white_space(trim_start_spec(s)[0]),
    decreases s.len(),
{
    if s.len() > 0 && is_white_space(s[0]) {
        lemma_trim_start_edge(s.drop_first());
    }
}

proof fn lemma_trim_end_edges(s: Seq<char>)
    ensures
        trim_end_spec(s).len() <= s.len(),
        trim_end_spec(s) == s.take(trim_end_spec(s).len() as int),
        trim_end_spec(s).len() > 0 ==> !is_white_space(trim_end_spec(s).last()),
    decreases s.len(),
{
    if s.len() > 0 && is_white_space(s.last()) {
        lemma_trim_end_edges(s.drop_last());
        let k = trim_end_spec(s.drop_last()).len() as int;
        assert(s.drop_last().take(k) =~= s.take(k));
    } else {
        assert(s.take(s.len() as int) =~= s);
    }
}

/// A trimmed text that is not empty starts and ends with a character that
/// is not white space.
proof fn lemma_trimmed_edges(t: Seq<char>)
    ensures
        trim_spec(t).len() > 0 ==> !is_white_space(trim_spec(t)[0]) && !is_white_space(trim_spec(t).last()),
{
    let a = trim_start_spec(t);
    lemma_trim_start_edge(t);
    lemma_trim_end_edges(a);
    let u = trim_end_spec(a);
    if u.len() > 0 {
        assert(u[0] == a.take(u.len() as int)[0]);
    }
}

/// Every line is a non-empty text with no white space at either end.
proof fn lemma_lines_edges(texts: Seq<Seq<char>>)
    ensures
        forall|i: int|
            0 <= i < lines_of(texts).len() ==> {
                &&& (#[trigger] lines_of(texts)[i]).len() > 0
                &&& !is_white_space(lines_of(texts)[i][0])
                &&& !is_white_space(lines_of(texts)[i].last())
            },
{
    let m = texts.map_values(trimmed());
    let l = lines_of(texts);
    assert forall|i: int| 0 <= i < l.len() implies {
        &&& (#[trigger] l[i]).len() > 0
        &&& !is_white_space(l[i][0])
        &&& !is_white_space(l[i].last())
    } by {
        m.lemma_filter_pred(non_blank(), i);
        assert(m.filter(non_blank()).contains(l[i]));
        m.lemma_filter_contains_rev(non_blank(), l[i]);
        let j = choose|j: int| 0 <= j < m.len() && m[j] == l[i];
        assert(m[j] == trim_spec(texts[j]));
        lemma_trimmed_edges(texts[j]);
    }
}

/// Joining non-empty parts keeps the first character of the first part
/// and the last character of the last.
proof fn lemma_join_edges(parts: Seq<Seq<char>>, sep: Seq<char>)
    requires
        forall|i: int| 0 <= i < parts.len() ==> (#[trigger] parts[i]).len() > 0,
    ensures
        parts.len() == 0 ==> join(parts, sep).len() == 0,
        parts.len() > 0 ==> {
            &&& join(parts, sep).len() > 0
            &&& join(parts, sep)[0] == parts[0][0]
            &&& join(parts, sep).last() == parts.last().last()
        },
    decreases parts.len(),
{
    if parts.len() > 1 {
        let init = parts.drop_last();
        assert forall|i: int| 0 <= i < init.len() implies (#[trigger] init[i]).len() > 0 by {
            assert(init[i] == parts[i]);
        }
        lemma_join_edges(init, sep);
        assert(init[0] == parts[0]);
    }
}

/// A non-empty text whose first and last characters are not white space
/// is its own trimmed form; so is the empty text.
proof fn lemma_edges_trimmed(t: Seq<char>)
    requires
        t.len() > 0 ==> !is_white_space(t[0]) && !is_white_space(t.last()),
    ensures
        trim_spec(t) == t,
{
}

} // verus!

verus! {

/// Scripts, styles, navigation, footers, headers, asides, iframes,
/// noscript blocks, SVG images, forms and buttons are noise, whatever
/// their classes, id and role: no text below one of them inside the
/// content root is kept.
pub proof fn lemma_noise_elements(el: ElementView)
    requires
        el.name == "script"@ || el.name == "style"@ || el.name == "nav"@ || el.name == "footer"@ || el.name
            == "header"@ || el.name == "aside"@ || el.name == "iframe"@ || el.name == "noscript"@ || el.name
            == "svg"@ || el.name == "form"@ || el.name == "button"@,
    ensures
        is_noise(NodeView::Element(el)),
{
    let t = remove_tags();
    if el.name == "script"@ {
        assert(t[0] == el.name);
    } else if el.name == "style"@ {
        assert(t[1] == el.name);
    } else if el.name == "nav"@ {
        assert(t[2] == el.name);
    } else if el.name == "footer"@ {
        assert(t[3] == el.name);
    } else if el.name == "header"@ {
        assert(t[4] == el.name);
    } else if el.name == "aside"@ {
        assert(t[5] == el.name);
    } else if el.name == "iframe"@ {
        assert(t[6] == el.name);
    } else if el.name == "noscript"@ {
        assert(t[7] == el.name);
    } else if el.name == "svg"@ {
        assert(t[8] == el.name);
    } else if el.name == "form"@ {
        assert(t[9] == el.name);
    } else {
        assert(t[10] == el.name);
    }
}

/// A node with a noise element between it and the content root is not
/// kept: its text is left out of the cleaned output.
pub proof fn lemma_noise_ancestor_drops(
    events: Seq<EventView>,
    nodes: Seq<(int, Option<int>)>,
    j: int,
    root: int,
    p: int,
)
    requires
        kept_under(events, nodes, j, root),
        0 <= j < nodes.len(),
        nodes[j].1 == Some(p),
        p != root,
    ensures
        !is_noise(node_of(events, nodes[p].0)),
{
}

} // verus!

verus! {

/// The candidates for the content container: a `div` with id
/// `mw-content-text` or `main-content`, an `article`, a `main`, a `div`
/// with role `main`; the body as the fallback.
pub proof fn lemma_container_targets(el: ElementView)
    ensures
        selects(Target::ContentDiv, NodeView::Element(el)) <==> (el.name == "div"@ && (el.id == Some(
            "mw-content-text"@,
        ) || el.id == Some("main-content"@))),
        selects(Target::Article, NodeView::Element(el)) <==> el.name == "article"@,
        selects(Target::Main, NodeView::Element(el)) <==> el.name == "main"@,
        selects(Target::RoleMain, NodeView::Element(el)) <==> (el.name == "div"@ && el.role == Some("main"@)),
        selects(Target::Body, NodeView::Element(el)) <==> el.name == "body"@,
{
}

/// The content root is the first candidate in the order content `div`,
/// `article`, `main`, `div` with role `main`, body, that selects any node.
pub proof fn lemma_container_preference(events: Seq<EventView>, nodes: Seq<(int, Option<int>)>)
    ensures
        ({
            let n = nodes.len() as int;
            let div = first_selected(events, nodes, Target::ContentDiv, n);
            let article = first_selected(events, nodes, Target::Article, n);
            let main = first_selected(events, nodes, Target::Main, n);
            let role = first_selected(events, nodes, Target::RoleMain, n);
            let body = first_selected(events, nodes, Target::Body, n);
            &&& div is Some ==> content_root(events, nodes) == div
            &&& div is None && article is Some ==> content_root(events, nodes) == article
            &&& div is None && article is None && main is Some ==> content_root(events, nodes) == main
            &&& div is None && article is None && main is None && role is Some ==> content_root(events, nodes) == role
            &&& div is None && article is None && main is None && role is None ==> content_root(events, nodes) == body
        }),
{
}

} // verus!
