//! Characters, decimal numbers and whitespace, as the chart page writes them.

use vstd::prelude::*;
use vstd::std_specs::iter::IteratorSpec;
use vstd::string::*;

verus! {

pub open spec fn is_digit(c: char) -> bool {
    '0' <= c && c <= '9'
}

pub open spec fn digit_value(c: char) -> nat {
    (c as int - '0' as int) as nat
}

pub open spec fn all_digits(s: Seq<char>) -> bool {
    forall|i: int| 0 <= i < s.len() ==> is_digit(#[trigger] s[i])
}

/// The number that a run of decimal digits writes, most significant digit first.
pub open spec fn digits_value(s: Seq<char>) -> nat
    decreases s.len(),
{
    if s.len() == 0 {
        0
    } else {
        digits_value(s.drop_last()) * 10 + digit_value(s.last())
    }
}

/// The number that `s` writes, if `s` is one or more decimal digits and the number is at most `max`.
pub open spec fn digits_number(s: Seq<char>, max: nat) -> Option<nat> {
    if s.len() > 0 && all_digits(s) && digits_value(s) <= max {
        Some(digits_value(s))
    } else {
        None
    }
}

/// The text of an unsigned integer without its optional leading `+`.
pub open spec fn unsigned_digits(s: Seq<char>) -> Seq<char> {
    if s.len() > 0 && s[0] == '+' {
        s.drop_first()
    } else {
        s
    }
}

/// The unsigned integer that `s` writes in decimal, with an optional leading `+`, if it is at
/// most `max`: the texts that `str::parse` takes for an unsigned type whose largest value is `max`.
pub open spec fn unsigned_number(s: Seq<char>, max: nat) -> Option<nat> {
    digits_number(unsigned_digits(s), max)
}

/// The characters of an optional string.
pub open spec fn text_of(o: Option<String>) -> Option<Seq<char>> {
    match o {
        Some(s) => Some(s@),
        None => None,
    }
}

/// An optional machine integer as an optional natural number.
pub open spec fn widened(r: Option<u64>) -> Option<nat> {
    match r {
        Some(v) => Some(v as nat),
        None => None,
    }
}

proof fn lemma_prefix_value_le(d: Seq<char>, k: int)
    requires
        0 <= k <= d.len(),
    ensures
        digits_value(d.take(k)) <= digits_value(d),
    decreases d.len(),
{
    if k == d.len() {
        assert(d.take(k) =~= d);
    } else {
        assert(d.drop_last().take(k) =~= d.take(k));
        lemma_prefix_value_le(d.drop_last(), k);
    }
}

/// The value of one decimal digit.
pub fn digit_of(c: char) -> (r: u64)
    requires
        is_digit(c),
    ensures
        r == digit_value(c),
{
    (c as u32 - '0' as u32) as u64
}

/// Reads `s[start..end]` as a run of decimal digits whose number is at most `max`.
pub fn parse_digits(s: &Vec<char>, start: usize, end: usize, max: u64) -> (r: Option<u64>)
    requires
        start <= end <= s.len(),
    ensures
        widened(r) == digits_number(s@.subrange(start as int, end as int), max as nat),
{
    let ghost d = s@.subrange(start as int, end as int);
    if start == end {
        return None;
    }
    let mut value: u64 = 0;
    let mut i: usize = start;
    while i < end
        invariant
            start <= i <= end <= s.len(),
            d == s@.subrange(start as int, end as int),
            all_digits(d.take(i - start)),
            value as nat == digits_value(d.take(i - start)),
            value <= max,
        decreases end - i,
    {
        let c = s[i];
        if !('0' <= c && c <= '9') {
            assert(d[i - start] == c);
            return None;
        }
        let dv = digit_of(c);
        assert(d.take(i - start + 1).drop_last() =~= d.take(i - start));
        assert(d.take(i - start + 1).last() == c);
        if max < dv || value > (max - dv) / 10 {
            proof {
                assert(value * 10 + dv > max) by (nonlinear_arith)
                    requires
                        max < dv || value > (max - dv) / 10,
                ;
                lemma_prefix_value_le(d, i - start + 1);
            }
            return None;
        }
        assert(value * 10 + dv <= max) by (nonlinear_arith)
            requires
                value <= (max - dv) / 10,
                dv <= max,
        ;
        value = value * 10 + dv;
        i = i + 1;
        assert(all_digits(d.take(i - start)));
    }
    assert(d.take(end - start) =~= d);
    Some(value)
}

/// Reads `s` as an unsigned decimal integer of at most `max`, an optional `+` first.
pub fn parse_unsigned(s: &Vec<char>, max: u64) -> (r: Option<u64>)
    ensures
        widened(r) == unsigned_number(s@, max as nat),
{
    let start: usize = if s.len() > 0 && s[0] == '+' {
        1
    } else {
        0
    };
    assert(unsigned_digits(s@) =~= s@.subrange(start as int, s.len() as int));
    parse_digits(s, start, s.len(), max)
}

/// The characters of `s`, in order.
pub fn chars_of(s: &str) -> (r: Vec<char>)
    ensures
        r@ == s@,
{
    broadcast use axiom_spec_iter, next_postcondition;

    let mut it = s.chars();
    let mut out: Vec<char> = Vec::new();
    loop
        invariant
            it.obeys_prophetic_iter_laws(),
            s@ == out@ + it.remaining(),
        decreases s@.len() - out@.len(),
    {
        match it.next() {
            Some(c) => {
                out.push(c);
            },
            None => {
                assert(out@ =~= s@);
                return out;
            },
        }
    }
}

/// Relies on `FromIterator<char> for String`: collecting characters gives the string of exactly
/// those characters, in order.
#[verifier::external_body]
pub(crate) fn string_from_chars(v: Vec<char>) -> (r: String)
    ensures
        r@ == v@,
{
    v.into_iter().collect()
}

/// Unicode `White_Space`: the characters that `char::is_whitespace` and `str::trim` treat as
/// whitespace.
pub open spec fn is_white_space(c: char) -> bool {
    ('\u{9}' <= c && c <= '\u{d}') || c == ' ' || c == '\u{85}' || c == '\u{a0}' || c == '\u{1680}'
        || ('\u{2000}' <= c && c <= '\u{200a}') || c == '\u{2028}' || c == '\u{2029}' || c
        == '\u{202f}' || c == '\u{205f}' || c == '\u{3000}'
}

/// `s` without its leading whitespace.
pub open spec fn trim_start(s: Seq<char>) -> Seq<char>
    decreases s.len(),
{
    if s.len() > 0 && is_white_space(s[0]) {
        trim_start(s.drop_first())
    } else {
        s
    }
}

/// `s` without its trailing whitespace.
pub open spec fn trim_end(s: Seq<char>) -> Seq<char>
    decreases s.len(),
{
    if s.len() > 0 && is_white_space(s.last()) {
        trim_end(s.drop_last())
    } else {
        s
    }
}

/// `s` without its surrounding whitespace.
pub open spec fn trimmed(s: Seq<char>) -> Seq<char> {
    trim_end(trim_start(s))
}

/// Whether `c` is Unicode whitespace.
pub fn white_space(c: char) -> (r: bool)
    ensures
        r == is_white_space(c),
{
    ('\u{9}' <= c && c <= '\u{d}') || c == ' ' || c == '\u{85}' || c == '\u{a0}' || c == '\u{1680}'
        || ('\u{2000}' <= c && c <= '\u{200a}') || c == '\u{2028}' || c == '\u{2029}' || c
        == '\u{202f}' || c == '\u{205f}' || c == '\u{3000}'
}

proof fn lemma_trim_start_skip(s: Seq<char>, i: int)
    requires
        0 <= i <= s.len(),
        forall|k: int| 0 <= k < i ==> is_white_space(#[trigger] s[k]),
    ensures
        trim_start(s) == trim_start(s.skip(i)),
    decreases i,
{
    if i > 0 {
        assert(s.drop_first().skip(i - 1) =~= s.skip(i));
        lemma_trim_start_skip(s.drop_first(), i - 1);
    } else {
        assert(s.skip(0) =~= s);
    }
}

proof fn lemma_trim_end_take(s: Seq<char>, j: int)
    requires
        0 <= j <= s.len(),
        forall|k: int| j <= k < s.len() ==> is_white_space(#[trigger] s[k]),
    ensures
        trim_end(s) == trim_end(s.take(j)),
    decreases s.len() - j,
{
    if j < s.len() {
        assert(s.drop_last().take(j) =~= s.take(j));
        lemma_trim_end_take(s.drop_last(), j);
    } else {
        assert(s.take(j) =~= s);
    }
}

/// The characters of `s` without the whitespace around them, as `str::trim` gives them.
pub fn trim_chars(s: &Vec<char>) -> (r: Vec<char>)
    ensures
        r@ == trimmed(s@),
{
    let mut i: usize = 0;
    while i < s.len() && white_space(s[i])
        invariant
            i <= s.len(),
            forall|k: int| 0 <= k < i ==> is_white_space(#[trigger] s@[k]),
        decreases s.len() - i,
    {
        i = i + 1;
    }
    let mut j: usize = s.len();
    while j > i && white_space(s[j - 1])
        invariant
            i <= j <= s.len(),
            forall|k: int| j <= k < s.len() ==> is_white_space(#[trigger] s@[k]),
        decreases j,
    {
        j = j - 1;
    }
    let mut out: Vec<char> = Vec::new();
    let mut k: usize = i;
    while k < j
        invariant
            i <= k <= j <= s.len(),
            out@ == s@.subrange(i as int, k as int),
        decreases j - k,
    {
        out.push(s[k]);
        k = k + 1;
    }
    proof {
        lemma_trim_start_skip(s@, i as int);
        let t = s@.skip(i as int);
        if i < s.len() {
            assert(!is_white_space(t[0]));
        } else {
            assert(t.len() == 0);
        }
        assert(trim_start(t) == t);
        lemma_trim_end_take(t, j - i);
        let u = t.take(j - i);
        if j > i {
            assert(u.last() == s@[j - 1]);
        }
        assert(trim_end(u) == u);
        assert(out@ =~= u);
    }
    out
}

} // verus!
