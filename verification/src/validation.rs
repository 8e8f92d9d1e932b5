//! Filename sanitisation: every character that is neither alphanumeric nor a
//! period becomes an underscore, runs of underscores collapse to one, and
//! underscores at either end are dropped.

use vstd::prelude::*;
use crate::text::{chars_of, string_from_chars};

verus! {

/// What std's `char::is_alphanumeric` answers for a character outside
/// ASCII (Unicode Alphabetic or Numeric); it depends on the character alone.
pub uninterp spec fn non_ascii_alphanumeric(c: char) -> bool;

/// An ASCII letter or digit.
pub open spec fn ascii_alphanumeric(c: char) -> bool {
    ('a' <= c && c <= 'z') || ('A' <= c && c <= 'Z') || ('0' <= c && c <= '9')
}

/// What std's `char::is_alphanumeric` answers for `c`: within ASCII exactly
/// the letters and digits, beyond it the Unicode tables.
pub open spec fn char_is_alphanumeric(c: char) -> bool {
    if (c as u32) < 128 {
        ascii_alphanumeric(c)
    } else {
        non_ascii_alphanumeric(c)
    }
}

/// std's `char::is_alphanumeric`. Claimed: the answer is
/// `char_is_alphanumeric(c)`: for ASCII, letters and digits; beyond ASCII,
/// the named value `non_ascii_alphanumeric(c)`.
#[verifier::external_body]
fn is_alphanumeric(c: char) -> (b: bool)
    ensures
        b == char_is_alphanumeric(c),
        (c as u32) >= 128 ==> b == non_ascii_alphanumeric(c),
{
    c.is_alphanumeric()
}

/// A character survives sanitisation unchanged.
pub open spec fn kept(c: char) -> bool {
    char_is_alphanumeric(c) || c == '.'
}

/// Each character kept or replaced by an underscore.
pub open spec fn mask(s: Seq<char>) -> Seq<char> {
    s.map_values(|c: char| if kept(c) { c } else { '_' })
}

/// Runs of underscores collapsed to a single underscore.
pub open spec fn collapse(t: Seq<char>) -> Seq<char>
    decreases t.len(),
{
    if t.len() == 0 {
        t
    } else {
        let r = collapse(t.drop_last());
        if t.last() == '_' && r.len() > 0 && r.last() == '_' {
            r
        } else {
            r.push(t.last())
        }
    }
}

/// Leading underscores removed.
pub open spec fn trim_front(t: Seq<char>) -> Seq<char>
    decreases t.len(),
{
    if t.len() > 0 && t[0] == '_' {
        trim_front(t.drop_first())
    } else {
        t
    }
}

/// Trailing underscores removed.
pub open spec fn trim_back(t: Seq<char>) -> Seq<char>
    decreases t.len(),
{
    if t.len() > 0 && t.last() == '_' {
        trim_back(t.drop_last())
    } else {
        t
    }
}

/// The sanitised form of `s`.
pub open spec fn sanitized(s: Seq<char>) -> Seq<char> {
    trim_back(trim_front(collapse(mask(s))))
}

/// A sequence already in sanitised shape: only kept characters and single
/// underscores between them.
pub open spec fn is_clean(t: Seq<char>) -> bool {
    &&& forall|i: int| 0 <= i < t.len() ==> kept(#[trigger] t[i]) || t[i] == '_'
    &&& forall|i: int| 0 <= i < t.len() - 1 ==> !(#[trigger] t[i] == '_' && t[i + 1] == '_')
    &&& (t.len() > 0 ==> t[0] != '_' && t.last() != '_')
}

proof fn lemma_collapse_shape(t: Seq<char>)
    ensures
        forall|i: int| 0 <= i < collapse(t).len() - 1 ==> !(#[trigger] collapse(t)[i] == '_' && collapse(t)[i + 1] == '_'),
        forall|i: int| 0 <= i < collapse(t).len() ==> #[trigger] t.contains(collapse(t)[i]),
        t.len() > 0 ==> collapse(t).len() > 0 && collapse(t).last() == t.last(),
    decreases t.len(),
{
    if t.len() > 0 {
        let p = t.drop_last();
        lemma_collapse_shape(p);
        let r = collapse(p);
        assert forall|i: int| 0 <= i < collapse(t).len() implies #[trigger] t.contains(collapse(t)[i]) by {
            if i < r.len() {
                assert(p.contains(r[i]));
                let j = choose|j: int| 0 <= j < p.len() && p[j] == r[i];
                assert(t[j] == r[i]);
            } else {
                assert(t[t.len() - 1] == collapse(t)[i]);
            }
        }
    }
}

proof fn lemma_collapse_clean(t: Seq<char>)
    requires
        forall|i: int| 0 <= i < t.len() - 1 ==> !(#[trigger] t[i] == '_' && t[i + 1] == '_'),
    ensures
        collapse(t) == t,
    decreases t.len(),
{
    if t.len() > 0 {
        let p = t.drop_last();
        assert forall|i: int| 0 <= i < p.len() - 1 implies !(#[trigger] p[i] == '_' && p[i + 1] == '_') by {
            assert(t[i] == p[i] && t[i + 1] == p[i + 1]);
        }
        lemma_collapse_clean(p);
        if t.len() >= 2 {
            assert(!(t[t.len() - 2] == '_' && t[t.len() - 1] == '_'));
        }
        assert(p.push(t.last()) == t);
    }
}

proof fn lemma_trim_front_shape(t: Seq<char>)
    ensures
        exists|a: int| 0 <= a <= t.len() && trim_front(t) == t.subrange(a, t.len() as int)
            && forall|k: int| 0 <= k < a ==> t[k] == '_',
        trim_front(t).len() > 0 ==> trim_front(t)[0] != '_',
    decreases t.len(),
{
    if t.len() > 0 && t[0] == '_' {
        let d = t.drop_first();
        lemma_trim_front_shape(d);
        let a = choose|a: int| 0 <= a <= d.len() && trim_front(d) == d.subrange(a, d.len() as int)
            && forall|k: int| 0 <= k < a ==> d[k] == '_';
        assert(trim_front(t) == t.subrange(a + 1, t.len() as int));
        assert forall|k: int| 0 <= k < a + 1 implies t[k] == '_' by {
            if k > 0 {
                assert(t[k] == d[k - 1]);
            }
        }
    } else {
        assert(trim_front(t) == t.subrange(0, t.len() as int));
    }
}

proof fn lemma_trim_back_shape(t: Seq<char>)
    ensures
        exists|b: int| 0 <= b <= t.len() && trim_back(t) == t.subrange(0, b)
            && forall|k: int| b <= k < t.len() ==> t[k] == '_',
        trim_back(t).len() > 0 ==> trim_back(t).last() != '_',
        trim_back(t).len() > 0 ==> trim_back(t)[0] == t[0],
    decreases t.len(),
{
    if t.len() > 0 && t.last() == '_' {
        let d = t.drop_last();
        lemma_trim_back_shape(d);
        let b = choose|b: int| 0 <= b <= d.len() && trim_back(d) == d.subrange(0, b)
            && forall|k: int| b <= k < d.len() ==> d[k] == '_';
        assert(trim_back(t) == t.subrange(0, b));
        assert forall|k: int| b <= k < t.len() implies t[k] == '_' by {
            if k < d.len() {
                assert(t[k] == d[k]);
            }
        }
    } else {
        assert(trim_back(t) == t.subrange(0, t.len() as int));
    }
}

proof fn lemma_trim_front_noop(t: Seq<char>)
    requires
        t.len() > 0 ==> t[0] != '_',
    ensures
        trim_front(t) == t,
{
}

proof fn lemma_trim_back_noop(t: Seq<char>)
    requires
        t.len() > 0 ==> t.last() != '_',
    ensures
        trim_back(t) == t,
{
}

/// The shape of a sanitised name: it is clean.
pub proof fn lemma_sanitized_is_clean(s: Seq<char>)
    ensures
        is_clean(sanitized(s)),
{
    let m = mask(s);
    let c = collapse(m);
    lemma_collapse_shape(m);
    lemma_trim_front_shape(c);
    let f = trim_front(c);
    let a = choose|a: int| 0 <= a <= c.len() && f == c.subrange(a, c.len() as int)
        && forall|k: int| 0 <= k < a ==> c[k] == '_';
    lemma_trim_back_shape(f);
    let r = trim_back(f);
    let b = choose|b: int| 0 <= b <= f.len() && r == f.subrange(0, b)
        && forall|k: int| b <= k < f.len() ==> f[k] == '_';
    assert(r == c.subrange(a, a + b));
    assert forall|i: int| 0 <= i < r.len() implies kept(#[trigger] r[i]) || r[i] == '_' by {
        assert(r[i] == c[a + i]);
        assert(m.contains(c[a + i]));
        let j = choose|j: int| 0 <= j < m.len() && m[j] == c[a + i];
        assert(m[j] == (if kept(s[j]) { s[j] } else { '_' }));
    }
    assert forall|i: int| 0 <= i < r.len() - 1 implies !(#[trigger] r[i] == '_' && r[i + 1] == '_') by {
        assert(r[i] == c[a + i] && r[i + 1] == c[a + i + 1]);
    }
    if r.len() > 0 {
        assert(r[0] == f[0]);
    }
}

/// A clean sequence is its own sanitised form.
pub proof fn lemma_clean_is_fixed(t: Seq<char>)
    requires
        is_clean(t),
    ensures
        sanitized(t) == t,
{
    assert(mask(t) =~= t) by {
        assert forall|i: int| 0 <= i < t.len() implies #[trigger] mask(t)[i] == t[i] by {
            if !kept(t[i]) {
                assert(t[i] == '_');
            }
        }
    }
    lemma_collapse_clean(t);
    lemma_trim_front_noop(t);
    lemma_trim_back_noop(t);
}

/// Sanitising twice changes nothing more than sanitising once.
pub proof fn law_sanitize_idempotent(s: Seq<char>)
    ensures
        sanitized(sanitized(s)) == sanitized(s),
{
    lemma_sanitized_is_clean(s);
    lemma_clean_is_fixed(sanitized(s));
}

/// Sanitize a string for use in filenames: characters other than alphanumerics
/// and periods become underscores, consecutive underscores collapse into one,
/// and leading and trailing underscores are removed.
pub fn sanitize(s: &str) -> (r: String)
    ensures
        r@ == sanitized(s@),
{
    let cs = chars_of(s);
    let ghost m = mask(s@);
    let mut out: Vec<char> = Vec::new();
    let mut i: usize = 0;
    while i < cs.len()
        invariant
            i <= cs.len(),
            cs@ == s@,
            m == mask(s@),
            m.len() == cs.len(),
            out@ == collapse(m.take(i as int)),
        decreases cs.len() - i,
    {
        let c = cs[i];
        let d = if is_alphanumeric(c) || c == '.' { c } else { '_' };
        assert(m[i as int] == d);
        assert(m.take(i as int + 1).drop_last() == m.take(i as int));
        if d == '_' && out.len() > 0 && out[out.len() - 1] == '_' {
        } else {
            out.push(d);
        }
        i = i + 1;
    }
    assert(m.take(cs.len() as int) == m);
    let ghost c = out@;
    let mut a: usize = 0;
    assert(c.subrange(0, c.len() as int) == c);
    while a < out.len() && out[a] == '_'
        invariant
            a <= out.len(),
            trim_front(c) == trim_front(c.subrange(a as int, c.len() as int)),
            out@ == c,
        decreases out.len() - a,
    {
        assert(c.subrange(a as int, c.len() as int).drop_first() == c.subrange(a + 1, c.len() as int));
        a = a + 1;
    }
    let ghost f = c.subrange(a as int, c.len() as int);
    assert(trim_front(f) == f);
    assert(trim_front(c) == f);
    let mut b: usize = out.len();
    while b > a && out[b - 1] == '_'
        invariant
            a <= b <= out.len(),
            out@ == c,
            trim_back(f) == trim_back(c.subrange(a as int, b as int)),
        decreases b,
    {
        assert(c.subrange(a as int, b as int).drop_last() == c.subrange(a as int, b - 1));
        b = b - 1;
    }
    assert(trim_back(c.subrange(a as int, b as int)) == c.subrange(a as int, b as int));
    let mut res: Vec<char> = Vec::new();
    let mut k: usize = a;
    while k < b
        invariant
            a <= k <= b <= out.len(),
            out@ == c,
            res@ == c.subrange(a as int, k as int),
        decreases b - k,
    {
        res.push(out[k]);
        k = k + 1;
        assert(res@ == c.subrange(a as int, k as int));
    }
    string_from_chars(res.as_slice())
}

} // verus!
