//! Structural summary of JSON documents: sampled paths, depth and counts.

use vstd::prelude::*;
use crate::text::{chars_of, decimal, decimal_of, string_from_chars};

verus! {

/// A parsed JSON value. Numbers keep their textual form; object members
/// keep the order in which the parser yields them.
#[derive(Debug)]
pub enum JsonNode {
    Null,
    Bool(bool),
    Number(String),
    Str(String),
    Array(Vec<JsonNode>),
    Object(Vec<(String, JsonNode)>),
}

/// The kind of a JSON value.
#[derive(Debug, Clone, Copy, PartialEq, Eq, Structural)]
pub enum JsonValueType {
    String,
    Number,
    Boolean,
    Null,
    Object,
    Array,
}

/// One recorded JSON path.
#[derive(Debug)]
pub struct JsonPath {
    /// JSONPath-like expression such as `$.users[0].name`.
    pub path: String,
    pub value_type: JsonValueType,
    /// The value's text, for primitives.
    pub sample: Option<String>,
}

pub struct JsonPathView {
    pub path: Seq<char>,
    pub value_type: JsonValueType,
    pub sample: Option<Seq<char>>,
}

impl View for JsonPath {
    type V = JsonPathView;

    open spec fn view(&self) -> JsonPathView {
        JsonPathView {
            path: self.path@,
            value_type: self.value_type,
            sample: match self.sample {
                Some(s) => Some(s@),
                None => None,
            },
        }
    }
}

/// Paths are recorded down to this depth below the root.
pub const MAX_PATH_DEPTH: usize = 20;

/// Elements of an array that are sampled.
pub const ARRAY_SAMPLE: usize = 3;

/// Longest string sample, in characters.
pub const SAMPLE_MAX_CHARS: usize = 100;

pub open spec fn value_type_of(n: JsonNode) -> JsonValueType {
    match n {
        JsonNode::Null => JsonValueType::Null,
        JsonNode::Bool(_) => JsonValueType::Boolean,
        JsonNode::Number(_) => JsonValueType::Number,
        JsonNode::Str(_) => JsonValueType::String,
        JsonNode::Array(_) => JsonValueType::Array,
        JsonNode::Object(_) => JsonValueType::Object,
    }
}

/// A string sample: the string itself, or its first 97 characters and
/// `...` when it is longer than 100 characters.
pub open spec fn string_sample(s: Seq<char>) -> Seq<char> {
    if s.len() > SAMPLE_MAX_CHARS {
        s.subrange(0, 97) + "..."@
    } else {
        s
    }
}

pub open spec fn sample_of(n: JsonNode) -> Option<Seq<char>> {
    match n {
        JsonNode::Null => Some("null"@),
        JsonNode::Bool(b) => Some(
            if b {
                "true"@
            } else {
                "false"@
            },
        ),
        JsonNode::Number(t) => Some(t@),
        JsonNode::Str(s) => Some(string_sample(s@)),
        _ => None,
    }
}

pub open spec fn path_entry(p: Seq<char>, n: JsonNode) -> JsonPathView {
    JsonPathView { path: p, value_type: value_type_of(n), sample: sample_of(n) }
}

/// The path of a member `k` below `base`.
pub open spec fn member_path(base: Seq<char>, k: Seq<char>) -> Seq<char> {
    base + "."@ + k
}

/// The path of element `i` below `base`.
pub open spec fn element_path(base: Seq<char>, i: nat) -> Seq<char> {
    base + "["@ + decimal_of(i) + "]"@
}

/// The paths recorded below `n`, found at `base` and `depth` levels below
/// the root: each object member, and each of the first three elements of
/// each array, in document order, each followed by the paths below it;
/// nothing deeper than `MAX_PATH_DEPTH` levels.
pub open spec fn node_paths(n: JsonNode, base: Seq<char>, depth: nat) -> Seq<JsonPathView>
    decreases n, 1nat, 0nat,
{
    if depth >= MAX_PATH_DEPTH {
        seq![]
    } else {
        match n {
            JsonNode::Object(es) => member_paths(n, base, depth, 0),
            JsonNode::Array(vs) => element_paths(n, base, depth, 0),
            _ => seq![],
        }
    }
}

pub open spec fn member_paths(n: JsonNode, base: Seq<char>, depth: nat, i: nat) -> Seq<JsonPathView>
    decreases n, 0nat, (match n {
        JsonNode::Object(es) => es@.len(),
        _ => 0,
    }) - i,
{
    match n {
        JsonNode::Object(es) => if i < es@.len() {
            let p = member_path(base, es@[i as int].0@);
            seq![path_entry(p, es@[i as int].1)] + node_paths(es@[i as int].1, p, depth + 1)
                + member_paths(n, base, depth, i + 1)
        } else {
            seq![]
        },
        _ => seq![],
    }
}

pub open spec fn element_paths(n: JsonNode, base: Seq<char>, depth: nat, i: nat) -> Seq<JsonPathView>
    decreases n, 0nat, (match n {
        JsonNode::Array(vs) => vs@.len(),
        _ => 0,
    }) - i,
{
    match n {
        JsonNode::Array(vs) => if i < vs@.len() && i < ARRAY_SAMPLE {
            let p = element_path(base, i);
            seq![path_entry(p, vs@[i as int])] + node_paths(vs@[i as int], p, depth + 1)
                + element_paths(n, base, depth, i + 1)
        } else {
            seq![]
        },
        _ => seq![],
    }
}

/// For each path that `node_paths(n, _, depth)` records, in the same order,
/// the number of segments (`.key` or `[i]`) it has after `$`: the depth of
/// the value it names.
pub open spec fn node_levels(n: JsonNode, depth: nat) -> Seq<nat>
    decreases n, 1nat, 0nat,
{
    if depth >= MAX_PATH_DEPTH {
        seq![]
    } else {
        match n {
            JsonNode::Object(es) => member_levels(n, depth, 0),
            JsonNode::Array(vs) => element_levels(n, depth, 0),
            _ => seq![],
        }
    }
}

pub open spec fn member_levels(n: JsonNode, depth: nat, i: nat) -> Seq<nat>
    decreases n, 0nat, (match n {
        JsonNode::Object(es) => es@.len(),
        _ => 0,
    }) - i,
{
    match n {
        JsonNode::Object(es) => if i < es@.len() {
            seq![depth + 1] + node_levels(es@[i as int].1, depth + 1) + member_levels(n, depth, i + 1)
        } else {
            seq![]
        },
        _ => seq![],
    }
}

pub open spec fn element_levels(n: JsonNode, depth: nat, i: nat) -> Seq<nat>
    decreases n, 0nat, (match n {
        JsonNode::Array(vs) => vs@.len(),
        _ => 0,
    }) - i,
{
    match n {
        JsonNode::Array(vs) => if i < vs@.len() && i < ARRAY_SAMPLE {
            seq![depth + 1] + node_levels(vs@[i as int], depth + 1) + element_levels(n, depth, i + 1)
        } else {
            seq![]
        },
        _ => seq![],
    }
}

pub open spec fn levels_within(l: Seq<nat>, lo: nat) -> bool {
    forall|k: int| 0 <= k < l.len() ==> lo < #[trigger] l[k] && l[k] <= MAX_PATH_DEPTH
}

proof fn lemma_node_levels(n: JsonNode, base: Seq<char>, depth: nat)
    ensures
        node_levels(n, depth).len() == node_paths(n, base, depth).len(),
        levels_within(node_levels(n, depth), depth),
    decreases n, 1nat, 0nat,
{
    if depth < MAX_PATH_DEPTH {
        match n {
            JsonNode::Object(es) => lemma_member_levels(n, base, depth, 0),
            JsonNode::Array(vs) => lemma_element_levels(n, base, depth, 0),
            _ => {},
        }
    }
}

proof fn lemma_member_levels(n: JsonNode, base: Seq<char>, depth: nat, i: nat)
    requires
        depth < MAX_PATH_DEPTH,
    ensures
        member_levels(n, depth, i).len() == member_paths(n, base, depth, i).len(),
        levels_within(member_levels(n, depth, i), depth),
    decreases n, 0nat, (match n {
        JsonNode::Object(es) => es@.len(),
        _ => 0,
    }) - i,
{
    match n {
        JsonNode::Object(es) => if i < es@.len() {
            let p = member_path(base, es@[i as int].0@);
            lemma_node_levels(es@[i as int].1, p, depth + 1);
            lemma_member_levels(n, base, depth, i + 1);
            let c = node_levels(es@[i as int].1, depth + 1);
            let r = member_levels(n, depth, i + 1);
            let all = seq![depth + 1] + c + r;
            assert forall|k: int| 0 <= k < all.len() implies depth < #[trigger] all[k] && all[k] <= MAX_PATH_DEPTH by {
                if k == 0 {
                } else if k < 1 + c.len() {
                    assert(all[k] == c[k - 1]);
                } else {
                    assert(all[k] == r[k - 1 - c.len()]);
                }
            }
        },
        _ => {},
    }
}

proof fn lemma_element_levels(n: JsonNode, base: Seq<char>, depth: nat, i: nat)
    requires
        depth < MAX_PATH_DEPTH,
    ensures
        element_levels(n, depth, i).len() == element_paths(n, base, depth, i).len(),
        levels_within(element_levels(n, depth, i), depth),
    decreases n, 0nat, (match n {
        JsonNode::Array(vs) => vs@.len(),
        _ => 0,
    }) - i,
{
    match n {
        JsonNode::Array(vs) => if i < vs@.len() && i < ARRAY_SAMPLE {
            let p = element_path(base, i);
            lemma_node_levels(vs@[i as int], p, depth + 1);
            lemma_element_levels(n, base, depth, i + 1);
            let c = node_levels(vs@[i as int], depth + 1);
            let r = element_levels(n, depth, i + 1);
            let all = seq![depth + 1] + c + r;
            assert forall|k: int| 0 <= k < all.len() implies depth < #[trigger] all[k] && all[k] <= MAX_PATH_DEPTH by {
                if k == 0 {
                } else if k < 1 + c.len() {
                    assert(all[k] == c[k - 1]);
                } else {
                    assert(all[k] == r[k - 1 - c.len()]);
                }
            }
        },
        _ => {},
    }
}

/// Every recorded path of a document has between 1 and 20 segments after
/// `$`: however deep the document, nothing below depth 20 is recorded.
pub proof fn lemma_paths_within_depth(root: JsonNode)
    ensures
        node_levels(root, 0).len() == node_paths(root, "$"@, 0).len(),
        forall|k: int|
            0 <= k < node_levels(root, 0).len() ==> 1 <= #[trigger] node_levels(root, 0)[k] && node_levels(
                root,
                0,
            )[k] <= MAX_PATH_DEPTH,
{
    lemma_node_levels(root, "$"@, 0);
}

/// Height, object count and array count of a JSON tree.
pub open spec fn tree_stats(n: JsonNode) -> (nat, nat, nat)
    decreases n, 1nat, 0nat,
{
    match n {
        JsonNode::Object(_) => {
            let k = kid_stats(n, 0);
            (k.0, 1 + k.1, k.2)
        },
        JsonNode::Array(_) => {
            let k = kid_stats(n, 0);
            (k.0, k.1, 1 + k.2)
        },
        _ => (0, 0, 0),
    }
}

/// The number of children of a container.
pub open spec fn kid_count(n: JsonNode) -> nat {
    match n {
        JsonNode::Object(es) => es@.len(),
        JsonNode::Array(vs) => vs@.len(),
        _ => 0,
    }
}

/// Statistics over the children of `n` from the `i`-th on: the greatest
/// child height plus one, and the summed object and array counts.
pub open spec fn kid_stats(n: JsonNode, i: nat) -> (nat, nat, nat)
    decreases n, 0nat, kid_count(n) - i,
{
    if i < kid_count(n) {
        let c = match n {
            JsonNode::Object(es) => tree_stats(es@[i as int].1),
            JsonNode::Array(vs) => tree_stats(vs@[i as int]),
            _ => (0, 0, 0),
        };
        let r = kid_stats(n, i + 1);
        (if 1 + c.0 > r.0 {
            1 + c.0
        } else {
            r.0
        }, c.1 + r.1, c.2 + r.2)
    } else {
        (0, 0, 0)
    }
}

/// `x`, capped at the largest `u64`.
pub open spec fn capped(x: nat) -> u64 {
    if x > u64::MAX {
        u64::MAX
    } else {
        x as u64
    }
}

fn string_sample_exec(s: &String) -> (r: String)
    ensures
        r@ == string_sample(s@),
{
    let v = chars_of(s.as_str());
    if v.len() > SAMPLE_MAX_CHARS {
        let mut head = string_from_chars(vstd::slice::slice_subrange(v.as_slice(), 0, 97));
        head.append("...");
        head
    } else {
        s.clone()
    }
}

fn entry_for(p: &String, n: &JsonNode) -> (r: JsonPath)
    ensures
        r@ == path_entry(p@, *n),
{
    let (value_type, sample) = match n {
        JsonNode::Null => (JsonValueType::Null, Some("null".to_owned())),
        JsonNode::Bool(b) => (JsonValueType::Boolean, Some(
            if *b {
                "true".to_owned()
            } else {
                "false".to_owned()
            },
        )),
        JsonNode::Number(t) => (JsonValueType::Number, Some(t.clone())),
        JsonNode::Str(s) => (JsonValueType::String, Some(string_sample_exec(s))),
        JsonNode::Array(_) => (JsonValueType::Array, None),
        JsonNode::Object(_) => (JsonValueType::Object, None),
    };
    JsonPath { path: p.clone(), value_type, sample }
}

pub open spec fn views(v: Seq<JsonPath>) -> Seq<JsonPathView> {
    v.map_values(|e: JsonPath| e@)
}

proof fn lemma_views_push(v: Seq<JsonPath>, e: JsonPath)
    ensures
        views(v.push(e)) == views(v) + seq![e@],
{
    assert(views(v.push(e)) =~= views(v) + seq![e@]);
}

fn collect_paths(n: &JsonNode, base: &String, depth: usize, out: &mut Vec<JsonPath>)
    requires
        depth <= MAX_PATH_DEPTH,
    ensures
        views(final(out)@) == views(old(out)@) + node_paths(*n, base@, depth as nat),
    decreases n, 1nat, 0nat,
{
    if depth >= MAX_PATH_DEPTH {
        assert(views(out@) + seq![] =~= views(out@));
        return;
    }
    match n {
        JsonNode::Object(es) => {
            let mut i: usize = 0;
            while i < es.len()
                invariant
                    depth < MAX_PATH_DEPTH,
                    *n == JsonNode::Object(*es),
                    i <= es@.len(),
                    views(old(out)@) + member_paths(*n, base@, depth as nat, 0) == views(out@)
                        + member_paths(*n, base@, depth as nat, i as nat),
                decreases es.len() - i,
            {
                let mut p = base.clone();
                p.append(".");
                p.append(es[i].0.as_str());
                let ghost before = views(out@);
                let e = entry_for(&p, &es[i].1);
                proof {
                    lemma_views_push(out@, e);
                }
                out.push(e);
                collect_paths(&es[i].1, &p, depth + 1, out);
                assert(views(out@) + member_paths(*n, base@, depth as nat, (i + 1) as nat) =~= before
                    + member_paths(*n, base@, depth as nat, i as nat));
                i = i + 1;
            }
            assert(views(out@) + member_paths(*n, base@, depth as nat, i as nat) =~= views(out@));
        },
        JsonNode::Array(vs) => {
            let mut i: usize = 0;
            while i < vs.len() && i < ARRAY_SAMPLE
                invariant
                    depth < MAX_PATH_DEPTH,
                    *n == JsonNode::Array(*vs),
                    i <= vs@.len(),
                    i <= ARRAY_SAMPLE,
                    views(old(out)@) + element_paths(*n, base@, depth as nat, 0) == views(out@)
                        + element_paths(*n, base@, depth as nat, i as nat),
                decreases vs.len() - i,
            {
                let mut p = base.clone();
                p.append("[");
                let d = decimal(i as u64);
                p.append(d.as_str());
                p.append("]");
                let ghost before = views(out@);
                let e = entry_for(&p, &vs[i]);
                proof {
                    lemma_views_push(out@, e);
                }
                out.push(e);
                collect_paths(&vs[i], &p, depth + 1, out);
                assert(views(out@) + element_paths(*n, base@, depth as nat, (i + 1) as nat) =~= before
                    + element_paths(*n, base@, depth as nat, i as nat));
                i = i + 1;
            }
            assert(views(out@) + element_paths(*n, base@, depth as nat, i as nat) =~= views(out@));
        },
        _ => {
            assert(views(out@) + seq![] =~= views(out@));
        },
    }
}

/// Height, object count and array count of `n`, each capped at `u64::MAX`.
pub fn analyze(n: &JsonNode) -> (r: (u64, u64, u64))
    ensures
        r == (capped(tree_stats(*n).0), capped(tree_stats(*n).1), capped(tree_stats(*n).2)),
    decreases n, 1nat, 0nat,
{
    match n {
        JsonNode::Object(es) => {
            let mut acc: (u64, u64, u64) = (0, 0, 0);
            let mut i: usize = es.len();
            while i > 0
                invariant
                    *n == JsonNode::Object(*es),
                    i <= es@.len(),
                    kid_count(*n) == es@.len(),
                    acc == (capped(kid_stats(*n, i as nat).0), capped(kid_stats(*n, i as nat).1), capped(
                        kid_stats(*n, i as nat).2,
                    )),
                decreases i,
            {
                i = i - 1;
                let c = analyze(&es[i].1);
                let h = c.0.saturating_add(1);
                acc = (if h > acc.0 {
                    h
                } else {
                    acc.0
                }, c.1.saturating_add(acc.1), c.2.saturating_add(acc.2));
            }
            (acc.0, 1u64.saturating_add(acc.1), acc.2)
        },
        JsonNode::Array(vs) => {
            let mut acc: (u64, u64, u64) = (0, 0, 0);
            let mut i: usize = vs.len();
            while i > 0
                invariant
                    *n == JsonNode::Array(*vs),
                    i <= vs@.len(),
                    kid_count(*n) == vs@.len(),
                    acc == (capped(kid_stats(*n, i as nat).0), capped(kid_stats(*n, i as nat).1), capped(
                        kid_stats(*n, i as nat).2,
                    )),
                decreases i,
            {
                i = i - 1;
                let c = analyze(&vs[i]);
                let h = c.0.saturating_add(1);
                acc = (if h > acc.0 {
                    h
                } else {
                    acc.0
                }, c.1.saturating_add(acc.1), c.2.saturating_add(acc.2));
            }
            (acc.0, acc.1, 1u64.saturating_add(acc.2))
        },
        _ => (0, 0, 0),
    }
}

/// The recorded paths of a document, from the root `$`.
pub fn extract_paths(root: &JsonNode) -> (r: Vec<JsonPath>)
    ensures
        views(r@) == node_paths(*root, "$"@, 0),
{
    let mut out: Vec<JsonPath> = Vec::new();
    let base = "$".to_owned();
    collect_paths(root, &base, 0, &mut out);
    assert(views(Seq::<JsonPath>::empty()) =~= Seq::<JsonPathView>::empty());
    assert(Seq::<JsonPathView>::empty() + node_paths(*root, "$"@, 0) =~= node_paths(*root, "$"@, 0));
    out
}

} // verus!
