//! Character-sequence helpers shared by the detectors, extractors and planners.

use vstd::prelude::*;
use vstd::utf8::{decode_utf8, valid_utf8};

verus! {

/// `true` when `n` occurs in `h` at position `i`.
pub open spec fn occurs_at<T>(h: Seq<T>, n: Seq<T>, i: int) -> bool {
    0 <= i && i + n.len() <= h.len() && h.subrange(i, i + n.len()) == n
}

/// `true` when `n` occurs somewhere in `h`.
pub open spec fn contains_seq<T>(h: Seq<T>, n: Seq<T>) -> bool {
    exists|i: int| occurs_at(h, n, i)
}

/// `true` when `h` begins with `n`.
pub open spec fn starts_with<T>(h: Seq<T>, n: Seq<T>) -> bool {
    occurs_at(h, n, 0)
}

/// `true` when `h` ends with `n`.
pub open spec fn ends_with<T>(h: Seq<T>, n: Seq<T>) -> bool {
    n.len() <= h.len() && h.subrange(h.len() - n.len(), h.len() as int) == n
}

/// The characters of a string slice, in order.
pub fn chars_of(s: &str) -> (r: Vec<char>)
    ensures
        r@ == s@,
{
    let mut out: Vec<char> = Vec::new();
    for c in it: s.chars()
        invariant
            out@ == it.seq().subrange(0, it.index() as int),
    {
        out.push(c);
        assert(out@ =~= it.seq().subrange(0, it.index() + 1));
    }
    out
}

/// Relies on `std::str::from_utf8`: it succeeds exactly on well-formed
/// UTF-8, and the string then holds the decoded characters.
#[verifier::external_body]
pub fn utf8_string(b: &[u8]) -> (r: Option<String>)
    ensures
        r is Some <==> valid_utf8(b@),
        r is Some ==> r->0@ == decode_utf8(b@),
{
    std::str::from_utf8(b).ok().map(|s| s.to_owned())
}

/// Relies on `String`'s `FromIterator<char>`: the string holds the characters in order.
#[verifier::external_body]
pub fn string_from_chars(v: &[char]) -> (r: String)
    ensures
        r@ == v@,
{
    v.iter().collect()
}

/// Whether `n` occurs at position `i` of `h`.
pub fn occurs_at_bytes(h: &[u8], n: &[u8], i: usize) -> (r: bool)
    ensures
        r == occurs_at(h@, n@, i as int),
{
    if i > h.len() || n.len() > h.len() - i {
        return false;
    }
    let mut k: usize = 0;
    while k < n.len()
        invariant
            i + n.len() <= h.len(),
            k <= n.len(),
            forall|j: int| 0 <= j < k ==> h@[i + j] == n@[j],
        decreases n.len() - k,
    {
        if h[i + k] != n[k] {
            assert(h@.subrange(i as int, i + n.len())[k as int] != n@[k as int]);
            return false;
        }
        k = k + 1;
    }
    assert(h@.subrange(i as int, i + n.len()) =~= n@);
    true
}

/// Whether `n` occurs anywhere in `h`.
pub fn contains_bytes(h: &[u8], n: &[u8]) -> (r: bool)
    ensures
        r == contains_seq(h@, n@),
{
    if n.len() > h.len() {
        return false;
    }
    let last = h.len() - n.len();
    let mut i: usize = 0;
    loop
        invariant
            last == h.len() - n.len(),
            i <= last,
            forall|j: int| 0 <= j < i ==> !occurs_at(h@, n@, j),
        decreases last - i,
    {
        if occurs_at_bytes(h, n, i) {
            return true;
        }
        if i == last {
            assert forall|j: int| !occurs_at(h@, n@, j) by {
                if 0 <= j < i {
                }
            }
            return false;
        }
        i = i + 1;
    }
}

/// Whether `h` and `n` hold the same elements.
pub fn equal_bytes(h: &[u8], n: &[u8]) -> (r: bool)
    ensures
        r == (h@ == n@),
{
    if h.len() != n.len() {
        return false;
    }
    let r = occurs_at_bytes(h, n, 0);
    assert(h@.subrange(0, h@.len() as int) =~= h@);
    r
}

/// Whether `h` begins with `n`.
pub fn starts_with_bytes(h: &[u8], n: &[u8]) -> (r: bool)
    ensures
        r == starts_with(h@, n@),
{
    occurs_at_bytes(h, n, 0)
}

/// Whether `h` ends with `n`.
pub fn ends_with_bytes(h: &[u8], n: &[u8]) -> (r: bool)
    ensures
        r == ends_with(h@, n@),
{
    if n.len() > h.len() {
        return false;
    }
    occurs_at_bytes(h, n, h.len() - n.len())
}

/// Whether `n` occurs at position `i` of `h`.
pub fn occurs_at_chars(h: &[char], n: &[char], i: usize) -> (r: bool)
    ensures
        r == occurs_at(h@, n@, i as int),
{
    if i > h.len() || n.len() > h.len() - i {
        return false;
    }
    let mut k: usize = 0;
    while k < n.len()
        invariant
            i + n.len() <= h.len(),
            k <= n.len(),
            forall|j: int| 0 <= j < k ==> h@[i + j] == n@[j],
        decreases n.len() - k,
    {
        if h[i + k] != n[k] {
            assert(h@.subrange(i as int, i + n.len())[k as int] != n@[k as int]);
            return false;
        }
        k = k + 1;
    }
    assert(h@.subrange(i as int, i + n.len()) =~= n@);
    true
}

/// Whether `n` occurs anywhere in `h`.
pub fn contains_chars(h: &[char], n: &[char]) -> (r: bool)
    ensures
        r == contains_seq(h@, n@),
{
    if n.len() > h.len() {
        return false;
    }
    let last = h.len() - n.len();
    let mut i: usize = 0;
    loop
        invariant
            last == h.len() - n.len(),
            i <= last,
            forall|j: int| 0 <= j < i ==> !occurs_at(h@, n@, j),
        decreases last - i,
    {
        if occurs_at_chars(h, n, i) {
            return true;
        }
        if i == last {
            assert forall|j: int| !occurs_at(h@, n@, j) by {
                if 0 <= j < i {
                }
            }
            return false;
        }
        i = i + 1;
    }
}

/// Whether `h` and `n` hold the same elements.
pub fn equal_chars(h: &[char], n: &[char]) -> (r: bool)
    ensures
        r == (h@ == n@),
{
    if h.len() != n.len() {
        return false;
    }
    let r = occurs_at_chars(h, n, 0);
    assert(h@.subrange(0, h@.len() as int) =~= h@);
    r
}

/// Whether `h` begins with `n`.
pub fn starts_with_chars(h: &[char], n: &[char]) -> (r: bool)
    ensures
        r == starts_with(h@, n@),
{
    occurs_at_chars(h, n, 0)
}

/// Whether `h` ends with `n`.
pub fn ends_with_chars(h: &[char], n: &[char]) -> (r: bool)
    ensures
        r == ends_with(h@, n@),
{
    if n.len() > h.len() {
        return false;
    }
    occurs_at_chars(h, n, h.len() - n.len())
}

/// Whether `lit` occurs in `m`.
pub fn has_text(m: &[char], lit: &str) -> (r: bool)
    ensures
        r == contains_seq(m@, lit@),
{
    let n = chars_of(lit);
    contains_chars(m, n.as_slice())
}

/// Whether `m` is exactly `lit`.
pub fn is_text(m: &[char], lit: &str) -> (r: bool)
    ensures
        r == (m@ == lit@),
{
    let n = chars_of(lit);
    equal_chars(m, n.as_slice())
}

/// Whether `m` begins with `lit`.
pub fn starts_with_text(m: &[char], lit: &str) -> (r: bool)
    ensures
        r == starts_with(m@, lit@),
{
    let n = chars_of(lit);
    starts_with_chars(m, n.as_slice())
}

/// Whether `m` ends with `lit`.
pub fn ends_with_text(m: &[char], lit: &str) -> (r: bool)
    ensures
        r == ends_with(m@, lit@),
{
    let n = chars_of(lit);
    ends_with_chars(m, n.as_slice())
}

/// Whether two strings hold the same characters.
pub fn same_text(a: &str, b: &str) -> (r: bool)
    ensures
        r == (a@ == b@),
{
    let x = chars_of(a);
    let y = chars_of(b);
    equal_chars(x.as_slice(), y.as_slice())
}

/// Decimal digits of `n`.
pub open spec fn decimal_of(n: nat) -> Seq<char>
    decreases n,
{
    if n < 10 {
        seq![(48 + n) as char]
    } else {
        decimal_of(n / 10) + seq![(48 + n % 10) as char]
    }
}

fn digit_char(d: u64) -> (c: char)
    requires
        d < 10,
    ensures
        c == (48 + d) as char,
{
    ((48 + d) as u8) as char
}

/// The decimal digits of `n`, without sign or padding.
pub fn decimal(n: u64) -> (r: String)
    ensures
        r@ == decimal_of(n as nat),
{
    let mut m = n;
    let mut tail: Vec<char> = Vec::new();
    while m >= 10
        invariant
            decimal_of(n as nat) == decimal_of(m as nat) + tail@,
        decreases m,
    {
        let d = m % 10;
        let ghost old_tail = tail@;
        tail.insert(0, digit_char(d));
        assert(decimal_of(m as nat) == decimal_of((m / 10) as nat) + seq![(48 + d) as char]);
        assert(tail@ =~= seq![(48 + d) as char] + old_tail);
        m = m / 10;
        assert(decimal_of(n as nat) =~= decimal_of(m as nat) + tail@);
    }
    tail.insert(0, digit_char(m));
    assert(tail@ =~= decimal_of(n as nat));
    string_from_chars(tail.as_slice())
}

/// The first `n` characters of `s` (all of it when shorter).
pub fn take_chars(s: &str, n: usize) -> (r: String)
    ensures
        r@ == if s@.len() <= n {
            s@
        } else {
            s@.subrange(0, n as int)
        },
{
    let v = chars_of(s);
    if v.len() <= n {
        string_from_chars(v.as_slice())
    } else {
        string_from_chars(vstd::slice::slice_subrange(v.as_slice(), 0, n))
    }
}

/// The number of characters of `s`.
pub fn char_count(s: &str) -> (r: usize)
    ensures
        r == s@.len(),
{
    chars_of(s).len()
}

/// The strings of `parts` with `sep` between consecutive ones.
pub open spec fn joined(parts: Seq<Seq<char>>, sep: Seq<char>) -> Seq<char>
    decreases parts.len(),
{
    if parts.len() == 0 {
        seq![]
    } else if parts.len() == 1 {
        parts[0]
    } else {
        joined(parts.drop_last(), sep) + sep + parts.last()
    }
}

/// The views of a list of strings.
pub open spec fn string_views(v: Seq<String>) -> Seq<Seq<char>> {
    v.map_values(|s: String| s@)
}

/// Joins strings with a separator.
pub fn join_strings(parts: &Vec<String>, sep: &str) -> (r: String)
    ensures
        r@ == joined(string_views(parts@), sep@),
{
    let ghost sv = string_views(parts@);
    let mut out = String::new();
    let mut i: usize = 0;
    while i < parts.len()
        invariant
            sv == string_views(parts@),
            i <= parts@.len(),
            out@ == joined(sv.subrange(0, i as int), sep@),
        decreases parts.len() - i,
    {
        if i > 0 {
            out.append(sep);
        }
        out.append(parts[i].as_str());
        proof {
            let a = sv.subrange(0, i + 1);
            assert(a.drop_last() =~= sv.subrange(0, i as int));
            if i == 0 {
                assert(Seq::<char>::empty() + parts@[0]@ =~= parts@[0]@);
            }
        }
        i = i + 1;
    }
    assert(sv.subrange(0, parts@.len() as int) =~= sv);
    out
}

/// `s` followed by `t`.
pub fn concat(s: &str, t: &str) -> (r: String)
    ensures
        r@ == s@ + t@,
{
    let mut r = s.to_owned();
    r.append(t);
    r
}

/// The number of lines `str::lines` yields: one per character that starts
/// a line (the first, and each one after a line feed).
pub open spec fn line_count_of(s: Seq<char>) -> nat
    decreases s.len(),
{
    if s.len() == 0 {
        0
    } else {
        line_count_of(s.drop_last()) + if s.len() == 1 || s[s.len() - 2] == '\n' {
            1nat
        } else {
            0nat
        }
    }
}

/// Unicode whitespace: the 25 code points with the `White_Space` property,
/// which is what `char::is_whitespace` tests.
pub open spec fn unicode_ws(c: char) -> bool {
    let u = c as u32;
    (0x09 <= u && u <= 0x0d) || u == 0x20 || u == 0x85 || u == 0xa0 || u == 0x1680 || (0x2000 <= u && u
        <= 0x200a) || u == 0x2028 || u == 0x2029 || u == 0x202f || u == 0x205f || u == 0x3000
}

/// Whether a character is Unicode whitespace.
pub fn is_whitespace(c: char) -> (r: bool)
    ensures
        r == unicode_ws(c),
{
    let u = c as u32;
    (0x09 <= u && u <= 0x0d) || u == 0x20 || u == 0x85 || u == 0xa0 || u == 0x1680 || (0x2000 <= u && u
        <= 0x200a) || u == 0x2028 || u == 0x2029 || u == 0x202f || u == 0x205f || u == 0x3000
}

/// The first character of `s` that is not Unicode whitespace, if any.
pub open spec fn first_non_ws_char(s: Seq<char>) -> Option<char>
    decreases s.len(),
{
    if s.len() == 0 {
        None
    } else if unicode_ws(s[0]) {
        first_non_ws_char(s.drop_first())
    } else {
        Some(s[0])
    }
}

/// The first character of `s` that is not Unicode whitespace (what
/// `str::trim_start` leaves at the front), if any.
pub fn first_non_ws_char_exec(s: &str) -> (r: Option<char>)
    ensures
        r == first_non_ws_char(s@),
{
    let v = chars_of(s);
    let mut i: usize = 0;
    assert(v@.subrange(0, v@.len() as int) =~= v@);
    while i < v.len()
        invariant
            v@ == s@,
            i <= v@.len(),
            first_non_ws_char(s@) == first_non_ws_char(v@.subrange(i as int, v@.len() as int)),
        decreases v.len() - i,
    {
        let ghost rest = v@.subrange(i as int, v@.len() as int);
        assert(rest[0] == v@[i as int]);
        if !is_whitespace(v[i]) {
            return Some(v[i]);
        }
        assert(rest.drop_first() =~= v@.subrange(i + 1, v@.len() as int));
        i = i + 1;
    }
    None
}

/// The number of whitespace-separated words (`str::split_whitespace`).
pub open spec fn word_count_of(s: Seq<char>) -> nat
    decreases s.len(),
{
    if s.len() == 0 {
        0
    } else {
        word_count_of(s.drop_last()) + if !unicode_ws(s.last()) && (s.len() == 1 || unicode_ws(
            s[s.len() - 2],
        )) {
            1nat
        } else {
            0nat
        }
    }
}

/// Line and word counts of a text.
pub fn text_counts(s: &str) -> (r: (usize, usize))
    ensures
        r.0 == line_count_of(s@),
        r.1 == word_count_of(s@),
{
    let v = chars_of(s);
    let mut lines: usize = 0;
    let mut words: usize = 0;
    let mut prev_ws = true;
    let mut prev_lf = true;
    let mut i: usize = 0;
    while i < v.len()
        invariant
            i <= v@.len(),
            v@ == s@,
            lines <= i,
            words <= i,
            lines == line_count_of(v@.subrange(0, i as int)),
            words == word_count_of(v@.subrange(0, i as int)),
            i > 0 ==> prev_ws == unicode_ws(v@[i - 1]),
            i > 0 ==> prev_lf == (v@[i - 1] == '\n'),
            i == 0 ==> prev_ws && prev_lf,
        decreases v.len() - i,
    {
        let c = v[i];
        let ws = is_whitespace(c);
        proof {
            let t = v@.subrange(0, i + 1);
            assert(t.drop_last() =~= v@.subrange(0, i as int));
            assert(t.last() == c);
            if i > 0 {
                assert(t[t.len() - 2] == v@[i - 1]);
            }
        }
        if prev_lf {
            lines = lines + 1;
        }
        if !ws && prev_ws {
            words = words + 1;
        }
        prev_ws = ws;
        prev_lf = c == '\n';
        i = i + 1;
    }
    assert(v@.subrange(0, v@.len() as int) =~= v@);
    (lines, words)
}

} // verus!
