//! Recognisers for numeric cell text, following the grammar that std's
//! `FromStr` for floating-point types documents:
//!
//! ```text
//! Float  ::= Sign? ( 'inf' | 'infinity' | 'nan' | Number )   (case-insensitive)
//! Number ::= ( Digit+ | Digit+ '.' Digit* | Digit* '.' Digit+ ) Exp?
//! Exp    ::= 'e' Sign? Digit+
//! ```

use vstd::prelude::*;

verus! {

pub open spec fn is_digit(c: char) -> bool {
    '0' <= c && c <= '9'
}

pub open spec fn is_sign(c: char) -> bool {
    c == '+' || c == '-'
}

pub open spec fn is_exp_mark(c: char) -> bool {
    c == 'e' || c == 'E'
}

/// Every character of `s` is a decimal digit.
pub open spec fn all_digits(s: Seq<char>) -> bool {
    forall|i: int| 0 <= i < s.len() ==> is_digit(#[trigger] s[i])
}

/// The index of the first `.` in `s`, or its length.
pub open spec fn dot_index(s: Seq<char>) -> nat
    decreases s.len(),
{
    if s.len() == 0 || s[0] == '.' {
        0
    } else {
        1 + dot_index(s.drop_first())
    }
}

/// The index of the first exponent mark in `s`, or its length.
pub open spec fn exp_index(s: Seq<char>) -> nat
    decreases s.len(),
{
    if s.len() == 0 || is_exp_mark(s[0]) {
        0
    } else {
        1 + exp_index(s.drop_first())
    }
}

/// `Digit+ | Digit+ '.' Digit* | Digit* '.' Digit+`
pub open spec fn is_mantissa(m: Seq<char>) -> bool {
    let d = dot_index(m) as int;
    if d >= m.len() {
        m.len() >= 1 && all_digits(m)
    } else {
        all_digits(m.subrange(0, d)) && all_digits(m.subrange(d + 1, m.len() as int)) && (d >= 1
            || m.len() - d - 1 >= 1)
    }
}

/// `Sign? Digit+`
pub open spec fn is_signed_digits(x: Seq<char>) -> bool {
    if x.len() >= 1 && is_sign(x[0]) {
        x.len() >= 2 && all_digits(x.subrange(1, x.len() as int))
    } else {
        x.len() >= 1 && all_digits(x)
    }
}

/// `Number` of the grammar.
pub open spec fn is_number(t: Seq<char>) -> bool {
    let e = exp_index(t) as int;
    is_mantissa(t.subrange(0, e)) && (e >= t.len() || is_signed_digits(
        t.subrange(e + 1, t.len() as int),
    ))
}

/// `c` is `w`, or its ASCII upper-case form.
pub open spec fn same_letter(c: char, w: char) -> bool {
    c == w || ('A' <= c && c <= 'Z' && (c as u32) + 32 == (w as u32))
}

/// `t` equals the lowercase word `w` ignoring ASCII case.
pub open spec fn ci_equal(t: Seq<char>, w: Seq<char>) -> bool {
    t.len() == w.len() && forall|i: int| 0 <= i < t.len() ==> same_letter(#[trigger] t[i], w[i])
}

/// The text is a floating-point literal in the grammar above.
pub open spec fn is_float_text(s: Seq<char>) -> bool {
    let t = if s.len() >= 1 && is_sign(s[0]) {
        s.subrange(1, s.len() as int)
    } else {
        s
    };
    ci_equal(t, "inf"@) || ci_equal(t, "infinity"@) || ci_equal(t, "nan"@) || is_number(t)
}

fn all_digits_exec(s: &[char]) -> (r: bool)
    ensures
        r == all_digits(s@),
{
    let mut i: usize = 0;
    while i < s.len()
        invariant
            i <= s@.len(),
            forall|j: int| 0 <= j < i ==> is_digit(#[trigger] s@[j]),
        decreases s.len() - i,
    {
        if !('0' <= s[i] && s[i] <= '9') {
            return false;
        }
        i = i + 1;
    }
    true
}

proof fn lemma_dot_index(s: Seq<char>, m: int)
    requires
        0 <= m <= s.len(),
        forall|j: int| 0 <= j < m ==> s[j] != '.',
        m == s.len() || s[m] == '.',
    ensures
        dot_index(s) == m,
    decreases m,
{
    if m > 0 {
        lemma_dot_index(s.drop_first(), m - 1);
    }
}

proof fn lemma_exp_index(s: Seq<char>, m: int)
    requires
        0 <= m <= s.len(),
        forall|j: int| 0 <= j < m ==> !is_exp_mark(s[j]),
        m == s.len() || is_exp_mark(s[m]),
    ensures
        exp_index(s) == m,
    decreases m,
{
    if m > 0 {
        lemma_exp_index(s.drop_first(), m - 1);
    }
}

fn mantissa_exec(m: &[char]) -> (r: bool)
    ensures
        r == is_mantissa(m@),
{
    let mut d: usize = 0;
    while d < m.len() && m[d] != '.'
        invariant
            d <= m@.len(),
            forall|j: int| 0 <= j < d ==> m@[j] != '.',
        decreases m.len() - d,
    {
        d = d + 1;
    }
    proof {
        lemma_dot_index(m@, d as int);
    }
    if d >= m.len() {
        m.len() >= 1 && all_digits_exec(m)
    } else {
        let a = vstd::slice::slice_subrange(m, 0, d);
        let b = vstd::slice::slice_subrange(m, d + 1, m.len());
        all_digits_exec(a) && all_digits_exec(b) && (d >= 1 || m.len() - d - 1 >= 1)
    }
}

fn signed_digits_exec(x: &[char]) -> (r: bool)
    ensures
        r == is_signed_digits(x@),
{
    if x.len() >= 1 && (x[0] == '+' || x[0] == '-') {
        x.len() >= 2 && all_digits_exec(vstd::slice::slice_subrange(x, 1, x.len()))
    } else {
        x.len() >= 1 && all_digits_exec(x)
    }
}

fn number_exec(t: &[char]) -> (r: bool)
    ensures
        r == is_number(t@),
{
    let mut e: usize = 0;
    while e < t.len() && !(t[e] == 'e' || t[e] == 'E')
        invariant
            e <= t@.len(),
            forall|j: int| 0 <= j < e ==> !is_exp_mark(t@[j]),
        decreases t.len() - e,
    {
        e = e + 1;
    }
    proof {
        lemma_exp_index(t@, e as int);
    }
    let m = vstd::slice::slice_subrange(t, 0, e);
    if !mantissa_exec(m) {
        return false;
    }
    if e >= t.len() {
        return true;
    }
    signed_digits_exec(vstd::slice::slice_subrange(t, e + 1, t.len()))
}

fn ci_equal_exec(t: &[char], w: &str) -> (r: bool)
    ensures
        r == ci_equal(t@, w@),
{
    let wv = crate::text::chars_of(w);
    if t.len() != wv.len() {
        return false;
    }
    let mut i: usize = 0;
    while i < t.len()
        invariant
            t@.len() == wv@.len(),
            wv@ == w@,
            i <= t@.len(),
            forall|j: int| 0 <= j < i ==> same_letter(#[trigger] t@[j], wv@[j]),
        decreases t.len() - i,
    {
        let c = t[i];
        let w = wv[i];
        if !(c == w || ('A' <= c && c <= 'Z' && (c as u32) + 32 == (w as u32))) {
            return false;
        }
        i = i + 1;
    }
    true
}

/// Whether the text is a floating-point literal of std's documented grammar.
pub fn float_text(s: &str) -> (r: bool)
    ensures
        r == is_float_text(s@),
{
    let v = crate::text::chars_of(s);
    let t = if v.len() >= 1 && (v[0] == '+' || v[0] == '-') {
        vstd::slice::slice_subrange(v.as_slice(), 1, v.len())
    } else {
        v.as_slice()
    };
    ci_equal_exec(t, "inf") || ci_equal_exec(t, "infinity") || ci_equal_exec(t, "nan") || number_exec(t)
}

/// The value of a string of decimal digits.
pub open spec fn digits_value(s: Seq<char>) -> int
    decreases s.len(),
{
    if s.len() == 0 {
        0
    } else {
        digits_value(s.drop_last()) * 10 + ((s.last() as u32) as int - 48)
    }
}

/// The text is what std's `FromStr` for `i64` accepts: an optional sign,
/// at least one ASCII digit, and a value within the range of `i64`.
pub open spec fn is_i64_text(s: Seq<char>) -> bool {
    let signed = s.len() >= 1 && is_sign(s[0]);
    let d = if signed {
        s.subrange(1, s.len() as int)
    } else {
        s
    };
    let limit = if signed && s[0] == '-' {
        0x8000_0000_0000_0000int
    } else {
        0x7fff_ffff_ffff_ffffint
    };
    d.len() >= 1 && all_digits(d) && digits_value(d) <= limit
}

proof fn lemma_digits_value_grows(d: Seq<char>, k: int)
    requires
        0 <= k <= d.len(),
        all_digits(d),
    ensures
        digits_value(d.subrange(0, k)) <= digits_value(d),
        0 <= digits_value(d.subrange(0, k)),
    decreases d.len(),
{
    if d.len() > 0 {
        let t = d.drop_last();
        assert(all_digits(t)) by {
            assert forall|i: int| 0 <= i < t.len() implies is_digit(#[trigger] t[i]) by {
                assert(t[i] == d[i]);
            }
        }
        assert(is_digit(d[d.len() - 1]));
        if k == d.len() {
            assert(d.subrange(0, k) =~= d);
            lemma_digits_value_grows(t, t.len() as int);
            assert(t.subrange(0, t.len() as int) =~= t);
        } else {
            lemma_digits_value_grows(t, k);
            assert(t.subrange(0, k) =~= d.subrange(0, k));
            lemma_digits_value_grows(t, t.len() as int);
            assert(t.subrange(0, t.len() as int) =~= t);
        }
    }
}

/// Whether the text is a decimal 64-bit integer, as std's `FromStr` for `i64` accepts.
pub fn i64_text(s: &str) -> (r: bool)
    ensures
        r == is_i64_text(s@),
{
    let v = crate::text::chars_of(s);
    let signed = v.len() >= 1 && (v[0] == '+' || v[0] == '-');
    let d = if signed {
        vstd::slice::slice_subrange(v.as_slice(), 1, v.len())
    } else {
        v.as_slice()
    };
    let limit: u64 = if signed && v[0] == '-' {
        0x8000_0000_0000_0000
    } else {
        0x7fff_ffff_ffff_ffff
    };
    if d.len() == 0 {
        return false;
    }
    let mut value: u64 = 0;
    let mut i: usize = 0;
    assert(d@.subrange(0, 0) =~= Seq::<char>::empty());
    while i < d.len()
        invariant
            i <= d@.len(),
            value as int == digits_value(d@.subrange(0, i as int)),
            value <= limit,
            limit <= 0x8000_0000_0000_0000u64,
            limit >= 0x7fff_ffff_ffff_ffffu64,
            v@ == s@,
            signed == (s@.len() >= 1 && is_sign(s@[0])),
            d@ == if signed {
                s@.subrange(1, s@.len() as int)
            } else {
                s@
            },
            limit as int == if signed && s@[0] == '-' {
                0x8000_0000_0000_0000int
            } else {
                0x7fff_ffff_ffff_ffffint
            },
            forall|j: int| 0 <= j < i ==> is_digit(#[trigger] d@[j]),
        decreases d.len() - i,
    {
        let c = d[i];
        if !('0' <= c && c <= '9') {
            assert(!all_digits(d@));
            return false;
        }
        let digit = (c as u32 - 48) as u64;
        assert(digit <= 9);
        assert(d@.subrange(0, i + 1).drop_last() =~= d@.subrange(0, i as int));
        if value > (limit - digit) / 10 {
            proof {
                assert(value * 10 + digit > limit) by (nonlinear_arith)
                    requires
                        value > (limit - digit) / 10,
                        digit <= 9,
                        digit <= limit,
                ;
                if all_digits(d@) {
                    lemma_digits_value_grows(d@, i + 1);
                }
            }
            return false;
        }
        assert(value * 10 + digit <= limit) by (nonlinear_arith)
            requires
                value <= (limit - digit) / 10,
                digit <= 9,
                digit <= limit,
        ;
        value = value * 10 + digit;
        i = i + 1;
    }
    assert(d@.subrange(0, d@.len() as int) =~= d@);
    true
}

} // verus!
