//! Character-level helpers shared by the rest of the library: conversion
//! between strings and character vectors, decimal rendering of integers and
//! substring tests, each with its meaning stated over `Seq<char>`.

use vstd::prelude::*;

verus! {

/// The characters of a string slice, in order.
pub fn chars_of(s: &str) -> (v: Vec<char>)
    ensures
        v@ == s@,
{
    let mut v: Vec<char> = Vec::new();
    for c in it: s.chars()
        invariant
            v@ == it.seq().take(it.index() as int),
            it.seq() == s@,
    {
        v.push(c);
    }
    v
}

/// Builds a `String` from a slice of characters (std's `FromIterator<&char>`
/// for `String`); the string holds exactly those characters, in order.
#[verifier::external_body]
pub(crate) fn string_from_chars(v: &[char]) -> (s: String)
    ensures
        s@ == v@,
{
    v.iter().collect()
}

/// Copies a string (std's `str::to_string`).
pub fn owned(s: &str) -> (r: String)
    ensures
        r@ == s@,
{
    s.to_owned()
}

/// Appends the characters of `s` to `v`.
pub fn push_str_chars(v: &mut Vec<char>, s: &str)
    ensures
        final(v)@ == old(v)@ + s@,
{
    let cs = chars_of(s);
    push_all(v, &cs);
}

/// Appends the characters of `w` to `v`.
pub fn push_all(v: &mut Vec<char>, w: &Vec<char>)
    ensures
        final(v)@ == old(v)@ + w@,
{
    let ghost start = v@;
    let mut i: usize = 0;
    while i < w.len()
        invariant
            i <= w.len(),
            v@ == start + w@.take(i as int),
        decreases w.len() - i,
    {
        v.push(w[i]);
        i = i + 1;
        assert(w@.take(i as int) == w@.take((i - 1) as int).push(w@[i - 1]));
    }
    assert(w@.take(w.len() as int) == w@);
}

/// The decimal digit character for `d` (`d < 10`).
pub open spec fn digit_char(d: int) -> char {
    if d == 0 { '0' }
    else if d == 1 { '1' }
    else if d == 2 { '2' }
    else if d == 3 { '3' }
    else if d == 4 { '4' }
    else if d == 5 { '5' }
    else if d == 6 { '6' }
    else if d == 7 { '7' }
    else if d == 8 { '8' }
    else { '9' }
}

/// The shortest decimal rendering of a natural number, as `Display` prints it.
pub open spec fn decimal(n: nat) -> Seq<char>
    decreases n,
{
    if n < 10 {
        seq![digit_char(n as int)]
    } else {
        decimal(n / 10).push(digit_char((n % 10) as int))
    }
}

/// The decimal rendering of an integer: a minus sign before the digits of a
/// negative number.
pub open spec fn signed_decimal(n: int) -> Seq<char> {
    if n < 0 {
        seq!['-'] + decimal((-n) as nat)
    } else {
        decimal(n as nat)
    }
}

/// `{:02}` of an integer: at least two characters, padded with a leading zero.
pub open spec fn padded2(n: int) -> Seq<char> {
    if 0 <= n < 10 {
        seq!['0'] + decimal(n as nat)
    } else {
        signed_decimal(n)
    }
}

pub proof fn lemma_decimal_nonempty(n: nat)
    ensures
        decimal(n).len() >= 1,
    decreases n,
{
    if n >= 10 {
        lemma_decimal_nonempty(n / 10);
    }
}

fn digit(d: u64) -> (c: char)
    requires
        d < 10,
    ensures
        c == digit_char(d as int),
{
    if d == 0 { '0' }
    else if d == 1 { '1' }
    else if d == 2 { '2' }
    else if d == 3 { '3' }
    else if d == 4 { '4' }
    else if d == 5 { '5' }
    else if d == 6 { '6' }
    else if d == 7 { '7' }
    else if d == 8 { '8' }
    else { '9' }
}

/// Appends the decimal digits of `n` to `v`.
pub fn push_decimal(v: &mut Vec<char>, n: u64)
    ensures
        final(v)@ == old(v)@ + decimal(n as nat),
    decreases n,
{
    if n < 10 {
        v.push(digit(n));
        assert(decimal(n as nat) == seq![digit_char(n as int)]);
    } else {
        push_decimal(v, n / 10);
        v.push(digit(n % 10));
        assert(decimal(n as nat) == decimal((n / 10) as nat).push(digit_char((n % 10) as int)));
    }
}

/// Appends the decimal rendering of a signed integer to `v`.
pub fn push_signed_decimal(v: &mut Vec<char>, n: i64)
    ensures
        final(v)@ == old(v)@ + signed_decimal(n as int),
{
    if n < 0 {
        v.push('-');
        let m: u64 = (0i128 - n as i128) as u64;
        push_decimal(v, m);
    } else {
        push_decimal(v, n as u64);
    }
}

/// Appends `{:02}` of a signed integer to `v`.
pub fn push_padded2(v: &mut Vec<char>, n: i64)
    ensures
        final(v)@ == old(v)@ + padded2(n as int),
{
    if 0 <= n && n < 10 {
        v.push('0');
        push_decimal(v, n as u64);
    } else {
        push_signed_decimal(v, n);
    }
}

/// The characters of `v` from position `start` on.
pub fn chars_from(v: &Vec<char>, start: usize) -> (r: Vec<char>)
    requires
        start <= v.len(),
    ensures
        r@ == v@.skip(start as int),
{
    let mut r: Vec<char> = Vec::new();
    let mut i: usize = start;
    while i < v.len()
        invariant
            start <= i <= v.len(),
            r@ == v@.subrange(start as int, i as int),
        decreases v.len() - i,
    {
        r.push(v[i]);
        i = i + 1;
        assert(r@ == v@.subrange(start as int, i as int));
    }
    r
}

/// The characters of `v` from position `start` up to (not including) `end`.
pub fn chars_between(v: &Vec<char>, start: usize, end: usize) -> (r: Vec<char>)
    requires
        start <= end <= v.len(),
    ensures
        r@ == v@.subrange(start as int, end as int),
{
    let mut r: Vec<char> = Vec::new();
    let mut i: usize = start;
    while i < end
        invariant
            start <= i <= end <= v.len(),
            r@ == v@.subrange(start as int, i as int),
        decreases end - i,
    {
        r.push(v[i]);
        i = i + 1;
        assert(r@ == v@.subrange(start as int, i as int));
    }
    r
}

/// `s` is made of ASCII decimal digits only.
pub open spec fn all_digits(s: Seq<char>) -> bool {
    forall|i: int| 0 <= i < s.len() ==> '0' <= #[trigger] s[i] <= '9'
}

/// The value of a run of decimal digits.
pub open spec fn digits_value(s: Seq<char>) -> nat
    decreases s.len(),
{
    if s.len() == 0 {
        0
    } else {
        digits_value(s.drop_last()) * 10 + ((s.last() as u32) - ('0' as u32)) as nat
    }
}

/// What `str::parse` reads as an integer, before the range of the target
/// type is checked (as std documents it: an optional `+`, or `-` when
/// `signed`, followed by one or more ASCII digits, and nothing else).
pub open spec fn parsed_integer(s: Seq<char>, signed: bool) -> Option<int> {
    if s.len() > 0 && s[0] == '+' {
        if s.len() > 1 && all_digits(s.drop_first()) { Some(digits_value(s.drop_first()) as int) } else { None }
    } else if s.len() > 0 && s[0] == '-' && signed {
        if s.len() > 1 && all_digits(s.drop_first()) { Some(-(digits_value(s.drop_first()) as int)) } else { None }
    } else if s.len() > 0 && all_digits(s) {
        Some(digits_value(s) as int)
    } else {
        None
    }
}

/// Whether `c` has the Unicode `White_Space` property, which is what
/// std's `char::is_whitespace` answers: tab, line feed, vertical tab, form
/// feed, carriage return, space, next line, no-break space, ogham space
/// mark, the spaces U+2000 to U+200A, line and paragraph separators, narrow
/// no-break space, medium mathematical space and ideographic space.
pub open spec fn char_is_whitespace(c: char) -> bool {
    let u = c as u32;
    (0x9 <= u && u <= 0xd) || u == 0x20 || u == 0x85 || u == 0xa0 || u == 0x1680
        || (0x2000 <= u && u <= 0x200a) || u == 0x2028 || u == 0x2029 || u == 0x202f
        || u == 0x205f || u == 0x3000
}

/// Whether `c` is whitespace, as `char::is_whitespace` decides it.
pub(crate) fn is_whitespace(c: char) -> (b: bool)
    ensures
        b == char_is_whitespace(c),
{
    let u = c as u32;
    (0x9 <= u && u <= 0xd) || u == 0x20 || u == 0x85 || u == 0xa0 || u == 0x1680
        || (0x2000 <= u && u <= 0x200a) || u == 0x2028 || u == 0x2029 || u == 0x202f
        || u == 0x205f || u == 0x3000
}

/// `s` without its leading whitespace.
pub open spec fn trim_ws_start(s: Seq<char>) -> Seq<char>
    decreases s.len(),
{
    if s.len() > 0 && char_is_whitespace(s[0]) {
        trim_ws_start(s.drop_first())
    } else {
        s
    }
}

/// `s` without its trailing whitespace.
pub open spec fn trim_ws_end(s: Seq<char>) -> Seq<char>
    decreases s.len(),
{
    if s.len() > 0 && char_is_whitespace(s.last()) {
        trim_ws_end(s.drop_last())
    } else {
        s
    }
}

/// `s` without leading and trailing whitespace (std's `str::trim`).
pub open spec fn trim_ws(s: Seq<char>) -> Seq<char> {
    trim_ws_end(trim_ws_start(s))
}

proof fn lemma_trim_start_at(s: Seq<char>, i: int)
    requires
        0 <= i <= s.len(),
        forall|j: int| 0 <= j < i ==> char_is_whitespace(#[trigger] s[j]),
        i == s.len() || !char_is_whitespace(s[i]),
    ensures
        trim_ws_start(s) == s.skip(i),
    decreases i,
{
    if i == 0 {
        assert(s.skip(0) =~= s);
    } else {
        let t = s.drop_first();
        assert forall|j: int| 0 <= j < i - 1 implies char_is_whitespace(#[trigger] t[j]) by {
            assert(t[j] == s[j + 1]);
        }
        lemma_trim_start_at(t, i - 1);
        assert(t.skip(i - 1) =~= s.skip(i));
    }
}

proof fn lemma_trim_end_at(s: Seq<char>, k: int)
    requires
        0 <= k <= s.len(),
        forall|j: int| k <= j < s.len() ==> char_is_whitespace(#[trigger] s[j]),
        k == 0 || !char_is_whitespace(s[k - 1]),
    ensures
        trim_ws_end(s) == s.take(k),
    decreases s.len() - k,
{
    if k == s.len() {
        assert(s.take(k) =~= s);
    } else {
        let t = s.drop_last();
        assert forall|j: int| k <= j < t.len() implies char_is_whitespace(#[trigger] t[j]) by {
            assert(t[j] == s[j]);
        }
        lemma_trim_end_at(t, k);
        assert(t.take(k) =~= s.take(k));
    }
}

/// The characters of `v` without leading and trailing whitespace.
pub fn trim_chars(v: &Vec<char>) -> (r: Vec<char>)
    ensures
        r@ == trim_ws(v@),
        forall|j: int| 0 <= j < r@.len() ==> v@.contains(#[trigger] r@[j]),
{
    let mut i: usize = 0;
    while i < v.len() && is_whitespace(v[i])
        invariant
            i <= v.len(),
            forall|j: int| 0 <= j < i ==> char_is_whitespace(#[trigger] v@[j]),
        decreases v.len() - i,
    {
        i = i + 1;
    }
    let mut k: usize = v.len();
    while k > i && is_whitespace(v[k - 1])
        invariant
            i <= k <= v.len(),
            forall|j: int| k <= j < v.len() ==> char_is_whitespace(#[trigger] v@[j]),
        decreases k - i,
    {
        k = k - 1;
    }
    proof {
        lemma_trim_start_at(v@, i as int);
        let t = v@.skip(i as int);
        assert forall|j: int| k - i <= j < t.len() implies char_is_whitespace(#[trigger] t[j]) by {
            assert(t[j] == v@[j + i]);
        }
        if k > i {
            assert(t[k - i - 1] == v@[k - 1]);
        }
        lemma_trim_end_at(t, k - i);
        assert(t.take(k - i) =~= v@.subrange(i as int, k as int));
    }
    let r = chars_between(v, i, k);
    assert forall|j: int| 0 <= j < r@.len() implies v@.contains(#[trigger] r@[j]) by {
        assert(r@[j] == v@[i + j]);
    }
    r
}

/// Position of the first `a` or `b` in `s`, or the length of `s` when there
/// is none.
pub open spec fn first_pos(s: Seq<char>, a: char, b: char) -> nat
    decreases s.len(),
{
    if s.len() == 0 {
        0
    } else if s[0] == a || s[0] == b {
        0
    } else {
        1 + first_pos(s.drop_first(), a, b)
    }
}

pub(crate) proof fn lemma_first_pos_at(s: Seq<char>, a: char, b: char, i: int)
    requires
        0 <= i <= s.len(),
        forall|j: int| 0 <= j < i ==> #[trigger] s[j] != a && s[j] != b,
        i == s.len() || s[i] == a || s[i] == b,
    ensures
        first_pos(s, a, b) == i,
    decreases i,
{
    if i > 0 {
        let t = s.drop_first();
        assert forall|j: int| 0 <= j < i - 1 implies #[trigger] t[j] != a && t[j] != b by {
            assert(t[j] == s[j + 1]);
        }
        lemma_first_pos_at(t, a, b, i - 1);
    }
}

/// Position of the first `a` or `b` in `v` at or after `start`, counted from
/// `start`; the remaining length when there is none.
pub fn find_either(v: &Vec<char>, start: usize, a: char, b: char) -> (r: usize)
    requires
        start <= v.len(),
    ensures
        r == first_pos(v@.skip(start as int), a, b),
        start + r <= v.len(),
{
    let mut i: usize = start;
    while i < v.len() && v[i] != a && v[i] != b
        invariant
            start <= i <= v.len(),
            forall|j: int| start <= j < i ==> #[trigger] v@[j] != a && v@[j] != b,
        decreases v.len() - i,
    {
        i = i + 1;
    }
    proof {
        let t = v@.skip(start as int);
        assert forall|j: int| 0 <= j < i - start implies #[trigger] t[j] != a && t[j] != b by {
            assert(t[j] == v@[j + start]);
        }
        if i < v.len() {
            assert(t[i - start] == v@[i as int]);
        }
        lemma_first_pos_at(t, a, b, i - start);
    }
    i - start
}

/// `p` occurs in `s` starting at position `i`.
pub open spec fn occurs_at(s: Seq<char>, p: Seq<char>, i: int) -> bool {
    0 <= i && i + p.len() <= s.len() && s.subrange(i, i + p.len()) == p
}

/// `p` occurs somewhere in `s`.
pub open spec fn contains_seq(s: Seq<char>, p: Seq<char>) -> bool {
    exists|i: int| occurs_at(s, p, i)
}

fn matches_at(s: &Vec<char>, p: &Vec<char>, i: usize) -> (b: bool)
    requires
        i + p.len() <= s.len(),
    ensures
        b == occurs_at(s@, p@, i as int),
{
    let mut j: usize = 0;
    while j < p.len()
        invariant
            i + p.len() <= s.len(),
            j <= p.len(),
            forall|k: int| 0 <= k < j ==> s@[i + k] == p@[k],
        decreases p.len() - j,
    {
        if s[i + j] != p[j] {
            assert(s@.subrange(i as int, i + p.len())[j as int] != p@[j as int]);
            return false;
        }
        j = j + 1;
    }
    assert(s@.subrange(i as int, i + p.len()) =~= p@);
    true
}

/// Whether `p` occurs in `s` (std's `str::contains` with a string pattern).
pub fn contains_chars(s: &Vec<char>, p: &Vec<char>) -> (b: bool)
    ensures
        b == contains_seq(s@, p@),
{
    if p.len() > s.len() {
        assert forall|i: int| !occurs_at(s@, p@, i) by {}
        return false;
    }
    let last = s.len() - p.len();
    let mut i: usize = 0;
    while i < last
        invariant
            p.len() <= s.len(),
            last == s.len() - p.len(),
            i <= last,
            forall|k: int| 0 <= k < i ==> !occurs_at(s@, p@, k),
        decreases last - i,
    {
        if matches_at(s, p, i) {
            return true;
        }
        i = i + 1;
    }
    if matches_at(s, p, last) {
        return true;
    }
    assert forall|k: int| !occurs_at(s@, p@, k) by {
        if 0 <= k && k < i {
        } else {
        }
    }
    false
}

/// Whether two character vectors are equal.
pub fn same_chars(a: &Vec<char>, b: &Vec<char>) -> (r: bool)
    ensures
        r == (a@ == b@),
{
    if a.len() != b.len() {
        return false;
    }
    let r = starts_with_chars(a, b);
    proof {
        if r {
            assert(a@ =~= b@);
        }
    }
    r
}

/// Whether `s` starts with `p`.
pub fn starts_with_chars(s: &Vec<char>, p: &Vec<char>) -> (b: bool)
    ensures
        b == p@.is_prefix_of(s@),
{
    if p.len() > s.len() {
        return false;
    }
    let r = matches_at(s, p, 0);
    assert(s@.subrange(0, p@.len() as int) == p@ <==> p@.is_prefix_of(s@));
    r
}

} // verus!
