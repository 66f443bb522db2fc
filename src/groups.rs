//! User-defined groups of documents, kept in an auxiliary key-value store
//! under keys of the form `g-<escaped name>-<color>`.

use vstd::prelude::*;
use crate::extractors::{lemma_segment_len, segment_len};
use crate::text::{chars_of, starts_with, starts_with_text, string_from_chars};

verus! {

/// A named, colored collection of `(document id, annotation)` pairs.
#[derive(Debug)]
pub struct Group {
    pub name: String,
    pub color: String,
    pub content: Vec<(String, String)>,
}

/// `s` with every `a` replaced by `b`.
pub open spec fn swapped(s: Seq<char>, a: char, b: char) -> Seq<char> {
    s.map_values(|c: char| if c == a { b } else { c })
}

/// The store key of a group: `g-`, the name with `-` escaped as `#`, `-`, the color.
pub open spec fn group_key_of(name: Seq<char>, color: Seq<char>) -> Seq<char> {
    "g-"@ + swapped(name, '-', '#') + "-"@ + color
}

/// The name and color a store key holds, if it is a group key.
pub open spec fn parse_group_key_of(key: Seq<char>) -> Option<(Seq<char>, Seq<char>)> {
    if starts_with(key, "g-"@) {
        let rest = key.subrange(2, key.len() as int);
        let k = segment_len(rest, '-') as int;
        if k < rest.len() {
            Some((swapped(rest.subrange(0, k), '#', '-'), rest.subrange(k + 1, rest.len() as int)))
        } else {
            None
        }
    } else {
        None
    }
}

fn swap_chars(s: &[char], a: char, b: char) -> (r: String)
    ensures
        r@ == swapped(s@, a, b),
{
    let mut out: Vec<char> = Vec::new();
    let mut i: usize = 0;
    while i < s.len()
        invariant
            i <= s@.len(),
            out@ == swapped(s@.subrange(0, i as int), a, b),
        decreases s.len() - i,
    {
        let c = s[i];
        out.push(if c == a {
            b
        } else {
            c
        });
        assert(out@ =~= swapped(s@.subrange(0, i + 1), a, b));
        i = i + 1;
    }
    assert(s@.subrange(0, s@.len() as int) =~= s@);
    string_from_chars(out.as_slice())
}

/// The store key of a group.
pub fn group_key(name: &str, color: &str) -> (r: String)
    ensures
        r@ == group_key_of(name@, color@),
{
    let n = chars_of(name);
    let escaped = swap_chars(n.as_slice(), '-', '#');
    let mut k = "g-".to_owned();
    k.append(escaped.as_str());
    k.append("-");
    k.append(color);
    k
}

/// The name and color held by a store key, if it is a group key.
pub fn parse_group_key(key: &str) -> (r: Option<(String, String)>)
    ensures
        match r {
            Some((n, c)) => parse_group_key_of(key@) == Some((n@, c@)),
            None => parse_group_key_of(key@) is None,
        },
{
    let v = chars_of(key);
    if !starts_with_text(v.as_slice(), "g-") {
        return None;
    }
    proof {
        reveal_strlit("g-");
    }
    let rest = vstd::slice::slice_subrange(v.as_slice(), 2, v.len());
    let mut k: usize = 0;
    while k < rest.len() && rest[k] != '-'
        invariant
            k <= rest@.len(),
            forall|j: int| 0 <= j < k ==> rest@[j] != '-',
        decreases rest.len() - k,
    {
        k = k + 1;
    }
    proof {
        lemma_segment_len(rest@, '-', k as int);
    }
    if k >= rest.len() {
        return None;
    }
    let name = swap_chars(vstd::slice::slice_subrange(rest, 0, k), '#', '-');
    let color = string_from_chars(vstd::slice::slice_subrange(rest, k + 1, rest.len()));
    Some((name, color))
}

/// A group's name and color are read back from its key, provided the name
/// holds no `#` (the escape character).
pub proof fn lemma_group_key_round_trip(name: Seq<char>, color: Seq<char>)
    requires
        !name.contains('#'),
    ensures
        parse_group_key_of(group_key_of(name, color)) == Some((name, color)),
{
    let key = group_key_of(name, color);
    let e = swapped(name, '-', '#');
    reveal_strlit("g-");
    reveal_strlit("-");
    assert(starts_with(key, "g-"@)) by {
        assert(key.subrange(0, 2) =~= "g-"@);
    }
    let rest = key.subrange(2, key.len() as int);
    assert(rest =~= e + "-"@ + color);
    assert forall|j: int| 0 <= j < e.len() implies rest[j] != '-' by {
        assert(rest[j] == e[j]);
    }
    lemma_segment_len(rest, '-', e.len() as int);
    assert(rest.subrange(0, e.len() as int) =~= e);
    assert(rest.subrange(e.len() as int + 1, rest.len() as int) =~= color);
    assert(swapped(e, '#', '-') =~= name) by {
        assert forall|j: int| 0 <= j < name.len() implies swapped(e, '#', '-')[j] == name[j] by {
            if name[j] == '#' {
                assert(name.contains('#'));
            }
        }
    }
}

} // verus!
